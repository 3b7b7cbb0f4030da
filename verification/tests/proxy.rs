use crust::proxy::packet::{Packet, PingResponse, Status};
use crust::proxy::session::{handle_frame, length_step, LengthStep, ProxyAction};
use crust::protocol::ser::{Serialize, VarInt};

const STATUS_JSON: &str = "{\"version\":{\"name\":\"1.8.9\",\"protocol\":47},\"players\":{\"max\":100,\"online\":0,\"sample\":[]},\"description\":{\"text\":\"Hello\"}}";

#[test]
fn proxy_packets() {
    assert_eq!(Status::id(), VarInt(0));
    assert_eq!(PingResponse::id(), VarInt(1));
    let s = Status { json_response: "ab" };
    assert_eq!(s.size(), 4);
    assert_eq!(s.serialize(), vec![4, 0, 2, b'a', b'b']);
    let p = PingResponse { payload: 1 };
    assert_eq!(p.size(), 9);
    assert_eq!(p.serialize(), vec![9, 1, 0, 0, 0, 0, 0, 0, 0, 1]);
}

#[test]
fn frame_length_steps() {
    assert!(matches!(length_step(0, 0, 5), LengthStep::Done(5)));
    assert!(matches!(length_step(0, 0, 0x85), LengthStep::More { value: 5, shift: 1 }));
    // The next byte is shifted by one bit, not seven.
    assert!(matches!(length_step(5, 1, 0x01), LengthStep::Done(7)));
    assert!(matches!(length_step(0, 4, 0x80), LengthStep::TooLong));
    // Bits pushed out of the byte are lost.
    assert!(matches!(length_step(0, 4, 0x7F), LengthStep::Done(0xF0)));
}

#[test]
fn handshake_frame() {
    let mut frame = vec![0x00, 47, 9];
    frame.extend_from_slice(b"localhost");
    frame.extend_from_slice(&[0x63, 0xDD, 1]);
    match handle_frame(0, frame) {
        Some(ProxyAction::Handshake { protocol, server, port, next_state }) => {
            assert_eq!(protocol, 47);
            assert_eq!(server, "localhost");
            assert_eq!(port, 25565);
            assert_eq!(next_state, 1);
        }
        _ => panic!("expected a handshake"),
    }
    assert!(handle_frame(0, vec![0x00, 47]).is_none());
}

#[test]
fn status_frames() {
    let mut expected = vec![120, 0, 118];
    expected.extend_from_slice(STATUS_JSON.as_bytes());
    match handle_frame(1, vec![0]) {
        Some(ProxyAction::Reply(bytes)) => assert_eq!(bytes, expected),
        _ => panic!("expected a reply"),
    }
    match handle_frame(1, vec![1, 0, 0, 0, 0, 0, 0, 0, 7]) {
        Some(ProxyAction::Reply(bytes)) => assert_eq!(bytes, vec![9, 1, 0, 0, 0, 0, 0, 0, 0, 7]),
        _ => panic!("expected a reply"),
    }
    assert!(handle_frame(1, vec![1, 0]).is_none());
    assert!(matches!(handle_frame(1, vec![5]), Some(ProxyAction::Nothing)));
    assert!(matches!(handle_frame(2, vec![0]), Some(ProxyAction::Nothing)));
    assert!(handle_frame(0, vec![]).is_none());
}
