//! Packets that the proxy answers with.
use vstd::prelude::*;
use crate::bigendian::{be_bytes, be_fold, lemma_be_roundtrip};
use crate::protocol::ser::{str_wire_bytes, Serialize, VarInt};
use crate::varint::{lemma_varint32_len, lemma_varint32_small, varint32_bytes};
use crate::protocol::de::lemma_be_fold_prefix;

verus! {

broadcast use lemma_varint32_len;

/// A packet of the protocol, known by its id.
pub trait Packet {
    fn id() -> VarInt;
}

/// The answer to a status request: the server's status as JSON.
pub struct Status<'a> {
    pub json_response: &'a str,
}

impl<'a> Packet for Status<'a> {
    fn id() -> (v: VarInt)
        ensures
            v == VarInt(0x00),
    {
        VarInt(0x00)
    }
}

/// The answer to a ping: the ping's payload.
pub struct PingResponse {
    pub payload: i64,
}

impl Packet for PingResponse {
    fn id() -> (v: VarInt)
        ensures
            v == VarInt(0x01),
    {
        VarInt(0x01)
    }
}

/// A packet on the wire: its size (id and fields) as a variable-length
/// integer, its id as one, then its fields.
pub open spec fn framed(size: nat, id: i32, fields: Seq<u8>) -> Seq<u8> {
    varint32_bytes((size as i32) as u32) + varint32_bytes(id as u32) + fields
}

impl<'a> Serialize for Status<'a> {
    open spec fn wire_size(&self) -> nat {
        1 + self.json_response.wire_size()
    }

    open spec fn wire_bytes(&self) -> Seq<u8> {
        framed(self.wire_size(), 0, str_wire_bytes(self.json_response))
    }

    fn size(&self) -> (n: usize) {
        proof {
            lemma_varint32_small(0);
        }
        Self::id().size() + self.json_response.size()
    }

    fn serialize(&self) -> (res: Vec<u8>) {
        proof {
            lemma_varint32_small(0);
            lemma_varint32_small(1);
        }
        let s_size = VarInt(self.size() as i32);
        let mut res: Vec<u8> = Vec::new();
        res.append(&mut s_size.serialize());
        res.append(&mut Self::id().serialize());
        res.append(&mut self.json_response.serialize());
        res
    }
}

impl Serialize for PingResponse {
    open spec fn wire_size(&self) -> nat {
        1 + 8
    }

    open spec fn wire_bytes(&self) -> Seq<u8> {
        framed(self.wire_size(), 1, be_bytes(self.payload as u64, 8))
    }

    fn size(&self) -> (n: usize) {
        proof {
            lemma_varint32_small(1);
        }
        Self::id().size() + self.payload.size()
    }

    fn serialize(&self) -> (res: Vec<u8>) {
        proof {
            lemma_varint32_small(0);
            lemma_varint32_small(1);
        }
        let s_size = VarInt(self.size() as i32);
        let mut res: Vec<u8> = Vec::new();
        res.append(&mut s_size.serialize());
        res.append(&mut Self::id().serialize());
        res.append(&mut self.payload.serialize());
        res
    }
}

/// Law: a pong is ten bytes: its size 9, its id 1, then the payload's
/// eight bytes, most significant first, which read back as the payload for
/// every payload.
pub proof fn lemma_pong_bytes(payload: i64)
    ensures
        (PingResponse { payload }).wire_bytes() == seq![9u8, 1u8] + be_bytes(payload as u64, 8),
        be_fold((PingResponse { payload }).wire_bytes().skip(2), 8) as i64 == payload,
{
    let b = be_bytes(payload as u64, 8);
    lemma_varint32_small(9);
    lemma_varint32_small(1);
    assert(((9nat as i32) as u32) == 9);
    let w = (PingResponse { payload }).wire_bytes();
    assert(w == seq![9u8, 1u8] + b);
    assert(w.skip(2) =~= b);
    lemma_be_roundtrip(payload as u64, 8);
    assert(((payload as u64) as i64) == payload) by (bit_vector);
}

} // verus!
