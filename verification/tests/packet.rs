use crust::util::packet::{
    has_string, has_varint, prefix_with_size, read_sized, read_string, read_varint, ConnState,
    PacketBuilder,
};

#[test]
fn builder_frames_the_body() {
    let p = PacketBuilder::new(0x02, String::from("pid"))
        .write_string(String::from("hi"))
        .write_sized(0, 1)
        .finish();
    assert_eq!(p.pid, "pid");
    assert!(p.state.is_none());
    assert_eq!(p.data, vec![5, 2, 2, b'h', b'i', 0]);
}

#[test]
fn builder_keeps_state() {
    let state = ConnState { state: 1, protocol: Some(47), username: None };
    let p = PacketBuilder::new(0x01, String::from("pid")).state(Some(state)).finish();
    let s = p.state.unwrap();
    assert_eq!(s.state, 1);
    assert_eq!(s.protocol, Some(47));
    assert_eq!(s.username, None);
    assert_eq!(p.data, vec![1, 1]);
}

#[test]
fn builder_writes() {
    let p = PacketBuilder::new(0x7F, String::new())
        .write_varint(128)
        .write_varint(300)
        .write_sized(0x0102, 2)
        .write_sized(0x1FF, 1)
        .write_sized(0x0102030405060708, 8)
        .write_string(String::from("\u{e9}"))
        .finish();
    assert_eq!(
        p.data,
        vec![
            18, 0x7F, 0x80, 0x01, 0x2C, 1, 2, 0xFF, 1, 2, 3, 4, 5, 6, 7, 8, 2, 0xC3, 0xA9
        ]
    );
}

#[test]
fn builder_long_body_length() {
    let body = "x".repeat(200);
    let p = PacketBuilder::new(0, String::new()).write_string(body).finish();
    // 1 (id) + 2 (length 200) + 200 = 203 = 0xCB: written as 0xCB 0x01.
    assert_eq!(&p.data[0..5], &[0xCB, 0x01, 0, 0xC8, 0x01]);
    assert_eq!(p.data.len(), 205);
}

#[test]
fn size_prefix() {
    assert_eq!(prefix_with_size(b"{}".to_vec()), vec![0, 0, 0, 2, b'{', b'}']);
    assert_eq!(prefix_with_size(vec![]), vec![0, 0, 0, 0]);
}

#[test]
fn reads() {
    assert_eq!(read_varint(&vec![0x80, 0x01], 0), Some((128, 2)));
    assert_eq!(read_varint(&vec![9, 0x05], 1), Some((5, 2)));
    assert_eq!(read_varint(&vec![0xFF, 0xFF, 0xFF, 0xFF, 0x0F], 0), Some((-1, 5)));
    assert_eq!(read_string(&vec![2, b'h', b'i'], 0), Some((String::from("hi"), 3)));
    assert_eq!(read_string(&vec![2, 0xC3, 0xA9, 7], 0), Some((String::from("\u{e9}"), 3)));
    // Not valid UTF-8.
    assert_eq!(read_string(&vec![1, 0xFF], 0), None);
    assert_eq!(read_sized(&vec![0, 0, 1, 0], 0, 4), (256, 4));
    assert_eq!(read_sized(&vec![9, 0x12, 0x34], 1, 2), (0x1234, 2));
}

#[test]
fn checks() {
    assert!(has_varint(&vec![0x80, 0x01], 0));
    assert!(!has_varint(&vec![0x80], 0));
    assert!(!has_varint(&vec![], 0));
    assert!(!has_varint(&vec![1], 2));
    assert!(!has_varint(&vec![0x80, 0x80, 0x80, 0x80, 0x80, 0x01], 0));
    assert!(has_string(&vec![1, b'a'], 0));
    assert!(!has_string(&vec![5, b'a'], 0));
    assert!(!has_string(&vec![0xFF, 0xFF, 0xFF, 0xFF, 0x0F], 0));
}

#[test]
fn written_fields_read_back() {
    let p = PacketBuilder::new(0x03, String::new())
        .write_string(String::from("player"))
        .write_sized(25565, 2)
        .write_varint(1000)
        .finish();
    let (_, offset) = read_varint(&p.data, 0).unwrap();
    let (id, offset) = read_varint(&p.data, offset).unwrap();
    assert_eq!(id, 3);
    let (name, offset) = read_string(&p.data, offset).unwrap();
    assert_eq!(name, "player");
    let (port, size) = read_sized(&p.data, offset, 2);
    assert_eq!((port, size), (25565, 2));
    let (v, end) = read_varint(&p.data, offset + 2).unwrap();
    assert_eq!(v, 1000);
    assert_eq!(end, p.data.len());
}
