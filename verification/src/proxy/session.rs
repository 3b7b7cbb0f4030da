//! Decisions of the proxy on a client connection.
//!
//! The connection reads a frame length one byte at a time
//! ([`length_step`]), then the frame, and answers it according to the
//! connection's state ([`handle_frame`]).
use vstd::prelude::*;
use crate::protocol::de::{
    fixed_rest, fixed_value, string_rest, string_value, varint32_value, varint_rest, ByteReader,
    Deserialize,
};
use crate::protocol::ser::Serialize;
use crate::proxy::packet::{lemma_pong_bytes, PingResponse, Status};
use crate::protocol::ser::str_wire_bytes;
use crate::protocol::de::lemma_string_read_back;
use crate::util::packet::varint_exact;
use crate::varint::varint32_bytes;
use crate::text::lemma_utf8_len_bound;
use crate::varint::{lemma_varint32_len, lemma_varint32_small};
use crate::bigendian::be_bytes;
use crate::protocol::de::{lemma_fixed_read_back, lemma_varint32_read_back};

verus! {

/// Where reading a frame length stands after one more byte.
pub enum LengthStep {
    /// More bytes follow; the value so far and the next shift.
    More { value: i32, shift: u32 },
    /// The length is complete.
    Done(i32),
    /// Five bytes went by without an end.
    TooLong,
}

/// The step that `byte` makes from `value` and `shift`: the low seven bits
/// of the byte, shifted left by `shift` within the byte (bits pushed out of
/// it are lost), are ORed into the value; a byte with bit 7 clear ends the
/// length; otherwise the shift grows by one, and past four the length is
/// too long.
pub open spec fn length_step_spec(value: i32, shift: u32, byte: u8) -> LengthStep {
    let v = value | ((((byte & 0x7F) << shift) as u8) as i32);
    if byte & 0x80 == 0 {
        LengthStep::Done(v)
    } else if shift + 1 > 4 {
        LengthStep::TooLong
    } else {
        LengthStep::More { value: v, shift: (shift + 1) as u32 }
    }
}

/// Takes one more byte of a frame length.  A length starts from value 0
/// and shift 0.
pub fn length_step(value: i32, shift: u32, byte: u8) -> (s: LengthStep)
    requires
        shift <= 4,
    ensures
        s == length_step_spec(value, shift, byte),
{
    let v = value | (((byte & 0x7F) << shift) as i32);
    if (byte & 0x80) == 0 {
        return LengthStep::Done(v);
    }
    let i = shift + 1;
    if i > 4 {
        LengthStep::TooLong
    } else {
        LengthStep::More { value: v, shift: i }
    }
}

/// What the proxy does with a frame.
pub enum ProxyAction {
    /// A handshake: the connection moves to state `next_state`.
    Handshake { protocol: i32, server: String, port: u16, next_state: u8 },
    /// These bytes go back to the client.
    Reply(Vec<u8>),
    /// Nothing.
    Nothing,
}

/// What a [`ProxyAction`] holds.
pub enum ProxyActionView {
    Handshake { protocol: i32, server: Seq<char>, port: u16, next_state: u8 },
    Reply(Seq<u8>),
    Nothing,
}

impl View for ProxyAction {
    type V = ProxyActionView;

    open spec fn view(&self) -> ProxyActionView {
        match self {
            ProxyAction::Handshake { protocol, server, port, next_state } => {
                ProxyActionView::Handshake {
                    protocol: *protocol,
                    server: server@,
                    port: *port,
                    next_state: *next_state,
                }
            },
            ProxyAction::Reply(bytes) => ProxyActionView::Reply(bytes@),
            ProxyAction::Nothing => ProxyActionView::Nothing,
        }
    }
}

/// The status that the proxy reports, as JSON.
pub open spec fn status_json() -> &'static str {
    "{\"version\":{\"name\":\"1.8.9\",\"protocol\":47},\"players\":{\"max\":100,\"online\":0,\"sample\":[]},\"description\":{\"text\":\"Hello\"}}"
}

/// What the proxy does with `frame` in connection state `state`: after
/// the packet id, a handshake (state 0) gives the protocol, server, port
/// and next state; in the status state (1) a status request (id 0) is
/// answered with the status and a ping (id 1) with its payload; anything
/// else is left alone.  `None` where the frame runs out before what has to
/// be read.
pub open spec fn frame_outcome(state: u8, frame: Seq<u8>) -> Option<ProxyActionView> {
    match varint32_value(frame) {
        None => None,
        Some(id) => {
            let r1 = varint_rest(frame, 5);
            if state == 0 {
                match varint32_value(r1) {
                    None => None,
                    Some(protocol) => {
                        let r2 = varint_rest(r1, 5);
                        match string_value(r2) {
                            None => None,
                            Some(server) => {
                                let r3 = string_rest(r2);
                                match fixed_value(r3, 2) {
                                    None => None,
                                    Some(port) => {
                                        let r4 = fixed_rest(r3, 2);
                                        match fixed_value(r4, 1) {
                                            None => None,
                                            Some(next) => Some(
                                                ProxyActionView::Handshake {
                                                    protocol,
                                                    server,
                                                    port: port as u16,
                                                    next_state: next as u8,
                                                },
                                            ),
                                        }
                                    },
                                }
                            },
                        }
                    },
                }
            } else if state == 1 {
                if id == 0 {
                    Some(
                        ProxyActionView::Reply(
                            (Status { json_response: status_json() }).wire_bytes(),
                        ),
                    )
                } else if id == 1 {
                    match fixed_value(r1, 8) {
                        None => None,
                        Some(payload) => Some(
                            ProxyActionView::Reply(
                                (PingResponse { payload: payload as i64 }).wire_bytes(),
                            ),
                        ),
                    }
                } else {
                    Some(ProxyActionView::Nothing)
                }
            } else {
                Some(ProxyActionView::Nothing)
            }
        },
    }
}

/// Law: in the status state the proxy answers a ping (packet 1) with a
/// pong that carries the ping's payload: its size 9, its id 1, then the
/// very eight bytes of the ping's payload.
pub proof fn lemma_ping_echo(payload: i64, rest: Seq<u8>)
    ensures
        frame_outcome(1, seq![1u8] + be_bytes(payload as u64, 8) + rest) == Some(
            ProxyActionView::Reply((PingResponse { payload }).wire_bytes()),
        ),
        frame_outcome(1, seq![1u8] + be_bytes(payload as u64, 8) + rest) == Some(
            ProxyActionView::Reply(seq![9u8, 1u8] + be_bytes(payload as u64, 8)),
        ),
{
    lemma_pong_bytes(payload);
    let b = be_bytes(payload as u64, 8);
    lemma_varint32_small(1);
    lemma_varint32_read_back(1, b + rest);
    assert(seq![1u8] + b + rest == seq![1u8] + (b + rest));
    lemma_fixed_read_back(payload as u64, 8, rest);
    assert(((payload as u64) as i64) == payload) by (bit_vector);
}

/// Law: a handshake read in the first state (0) gives back what the
/// client wrote after the packet id, whatever that id: the protocol as a
/// variable-length integer (where it reads back exactly), the server
/// address as a protocol string of ASCII text whose length reads back
/// exactly, the port in two bytes and the next state in one, whatever
/// follows them.
pub proof fn lemma_handshake_read_back(
    id: u32,
    protocol: i32,
    server: &str,
    port: u16,
    next_state: u8,
    rest: Seq<u8>,
)
    requires
        varint_exact(protocol as u32),
        vstd::string::is_ascii(server),
        varint_exact(server.len() as u32),
        server@.len() <= i32::MAX,
    ensures
        frame_outcome(
            0,
            varint32_bytes(id) + varint32_bytes(protocol as u32) + str_wire_bytes(server)
                + be_bytes(port as u64, 2) + be_bytes(next_state as u64, 1) + rest,
        ) == Some(
            ProxyActionView::Handshake { protocol, server: server@, port, next_state },
        ),
{
    let ide = varint32_bytes(id);
    let pe = varint32_bytes(protocol as u32);
    let se = str_wire_bytes(server);
    let po = be_bytes(port as u64, 2);
    let ne = be_bytes(next_state as u64, 1);
    let r4 = ne + rest;
    let r3 = po + r4;
    let r2 = se + r3;
    let r1 = pe + r2;
    let frame = ide + r1;
    assert(ide + pe + se + po + ne + rest == frame);
    lemma_varint32_read_back(id, r1);
    lemma_varint32_read_back(protocol as u32, r2);
    let p = protocol as u32;
    let m = crate::varint::varint32_mask(pe.len());
    assert(varint32_value(r1) == Some(((p & m) as i32)));
    assert(p & m == p);
    assert((p as i32) == protocol) by (bit_vector)
        requires
            p == protocol as u32,
    ;
    lemma_string_read_back(server, r3);
    let pp = port as u64;
    let nn = next_state as u64;
    assert(pp >> 16u64 == 0) by (bit_vector)
        requires
            pp == port as u64,
    ;
    assert(nn >> 8u64 == 0) by (bit_vector)
        requires
            nn == next_state as u64,
    ;
    lemma_fixed_read_back(pp, 2, r4);
    lemma_fixed_read_back(nn, 1, rest);
}

/// Decides what to do with a frame that arrived in connection state
/// `state`; `None` where the frame runs out before what has to be read.
pub fn handle_frame(state: u8, frame: Vec<u8>) -> (r: Option<ProxyAction>)
    ensures
        r is None <==> frame_outcome(state, frame@) is None,
        r matches Some(a) ==> frame_outcome(state, frame@) == Some(a@),
{
    let mut buf = ByteReader::new(frame);
    let id = match buf.read_varint() {
        Some(id) => id,
        None => {
            return None;
        },
    };
    if state == 0 {
        let protocol = match buf.read_varint() {
            Some(p) => p,
            None => {
                return None;
            },
        };
        let server = match buf.read_string() {
            Some(s) => s,
            None => {
                return None;
            },
        };
        let port = match buf.read_u16() {
            Some(p) => p,
            None => {
                return None;
            },
        };
        let next_state = match buf.read_u8() {
            Some(n) => n,
            None => {
                return None;
            },
        };
        Some(ProxyAction::Handshake { protocol, server, port, next_state })
    } else if state == 1 {
        if id == 0 {
            proof {
                reveal_strlit(
                    "{\"version\":{\"name\":\"1.8.9\",\"protocol\":47},\"players\":{\"max\":100,\"online\":0,\"sample\":[]},\"description\":{\"text\":\"Hello\"}}",
                );
                lemma_utf8_len_bound(status_json()@);
                assert(status_json()@.len() < 200);
                lemma_varint32_len(status_json().len() as u32);
            }
            let res = Status {
                json_response: "{\"version\":{\"name\":\"1.8.9\",\"protocol\":47},\"players\":{\"max\":100,\"online\":0,\"sample\":[]},\"description\":{\"text\":\"Hello\"}}",
            };
            Some(ProxyAction::Reply(res.serialize()))
        } else if id == 1 {
            let payload = match buf.read_i64() {
                Some(p) => p,
                None => {
                    return None;
                },
            };
            let res = PingResponse { payload };
            Some(ProxyAction::Reply(res.serialize()))
        } else {
            Some(ProxyAction::Nothing)
        }
    } else {
        Some(ProxyAction::Nothing)
    }
}

} // verus!
