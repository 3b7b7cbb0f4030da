use crust::protocol::de::{ByteReader, Deserialize};
use crust::protocol::ser::{Serialize, VarInt, VarLong};

#[test]
fn fixed_width_reads() {
    let mut r = ByteReader::new(vec![0x12, 0x34, 0x56]);
    assert_eq!(r.read_u16(), Some(0x1234));
    assert_eq!(r.len(), 1);
    // Too short: what is there is used up.
    assert_eq!(r.read_u16(), None);
    assert_eq!(r.len(), 0);
    assert_eq!(r.read_u8(), None);

    let mut r = ByteReader::new(vec![0xFF, 0xFF, 0xFE, 0, 0, 1, 0]);
    assert_eq!(r.read_i8(), Some(-1));
    assert_eq!(r.read_i16(), Some(-2));
    assert_eq!(r.read_i32(), Some(256));

    let mut r = ByteReader::new(vec![0xFF; 8]);
    assert_eq!(r.read_i64(), Some(-1));
    assert_eq!(r.next(), None);
}

#[test]
fn varint_reads() {
    let mut r = ByteReader::new(vec![0xFF, 0xFF, 0xFF, 0xFF, 0x0F, 0xAC, 0x02, 0x01]);
    assert_eq!(r.read_varint(), Some(-1));
    assert_eq!(r.read_varint(), Some(300));
    assert_eq!(r.read_varlong(), Some(1));
    assert_eq!(r.read_varint(), None);
}

#[test]
fn varint_too_long() {
    let mut r = ByteReader::new(vec![0x80, 0x80, 0x80, 0x80, 0x80, 0x01]);
    assert_eq!(r.read_varint(), None);
    // Five bytes were used up.
    assert_eq!(r.read_u8(), Some(0x01));

    let mut r = ByteReader::new(vec![0x80; 11]);
    assert_eq!(r.read_varlong(), None);
    assert_eq!(r.len(), 1);
}

#[test]
fn varint_read_back() {
    for v in [0, 1, 127, 128, 255, 2097151, 2147483647, -1, -2] {
        let mut r = ByteReader::new(VarInt(v).serialize());
        assert_eq!(r.read_varint(), Some(v));
        assert_eq!(r.len(), 0);
    }
    for v in [0i64, 1, 128, -1, i64::MAX] {
        let mut r = ByteReader::new(VarLong(v).serialize());
        assert_eq!(r.read_varlong(), Some(v));
    }
    // 256 is written as the single byte 0, which reads back as 0.
    let mut r = ByteReader::new(VarInt(256).serialize());
    assert_eq!(r.read_varint(), Some(0));
}

#[test]
fn fixed_read_back() {
    let mut bytes = 0x1234u16.serialize();
    bytes.append(&mut (-5i32).serialize());
    bytes.append(&mut i64::MIN.serialize());
    let mut r = ByteReader::new(bytes);
    assert_eq!(r.read_u16(), Some(0x1234));
    assert_eq!(r.read_i32(), Some(-5));
    assert_eq!(r.read_i64(), Some(i64::MIN));
}

#[test]
fn string_reads() {
    let mut r = ByteReader::new(vec![3, b'f', b'o', b'o', 1, 0xE9]);
    assert_eq!(r.read_string(), Some(String::from("foo")));
    // One character per byte, by code point.
    assert_eq!(r.read_string(), Some(String::from("\u{e9}")));
    assert_eq!(r.read_string(), None);

    // A negative length takes all there is.
    let mut r = ByteReader::new(vec![0xFF, 0xFF, 0xFF, 0xFF, 0x0F, b'a', b'b']);
    assert_eq!(r.read_string(), Some(String::from("ab")));

    // A length beyond the input takes what there is.
    let mut r = ByteReader::new(vec![5, b'a']);
    assert_eq!(r.read_string(), Some(String::from("a")));
}

#[test]
fn string_read_back() {
    let mut r = ByteReader::new("localhost".serialize());
    assert_eq!(r.read_string(), Some(String::from("localhost")));
    assert_eq!(r.len(), 0);
}
