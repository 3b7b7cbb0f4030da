//! Writing protocol data types as bytes.
use vstd::prelude::*;
use crate::bigendian::be_bytes;
use crate::util::packet::to_sized;
use crate::varint::{encode_varint32, encode_varint64, varint32_bytes, varint32_size, varint64_bytes, varint64_size};

verus! {

broadcast use vstd::layout::layout_of_primitives;

/// A value with a byte form on the wire.
///
/// `wire_bytes` is what `serialize` writes; `wire_size` is what `size`
/// counts, and both ask that it fit in a `usize`.  The two agree for every
/// implementation here except a string with characters beyond ASCII (see
/// [`lemma_str_size`]).
pub trait Serialize {
    spec fn wire_size(&self) -> nat;

    spec fn wire_bytes(&self) -> Seq<u8>;

    fn size(&self) -> (n: usize)
        requires
            self.wire_size() <= usize::MAX,
        ensures
            n == self.wire_size(),
    ;

    fn serialize(&self) -> (res: Vec<u8>)
        requires
            self.wire_size() <= usize::MAX,
        ensures
            res@ == self.wire_bytes(),
    ;
}

impl Serialize for u8 {
    open spec fn wire_size(&self) -> nat {
        1
    }

    open spec fn wire_bytes(&self) -> Seq<u8> {
        be_bytes(*self as u64, 1)
    }

    fn size(&self) -> (n: usize) {
        core::mem::size_of::<u8>()
    }

    fn serialize(&self) -> (res: Vec<u8>) {
        to_sized(*self as u64, 1)
    }
}

impl Serialize for i8 {
    open spec fn wire_size(&self) -> nat {
        1
    }

    open spec fn wire_bytes(&self) -> Seq<u8> {
        be_bytes((*self as u8) as u64, 1)
    }

    fn size(&self) -> (n: usize) {
        core::mem::size_of::<i8>()
    }

    fn serialize(&self) -> (res: Vec<u8>) {
        to_sized((*self as u8) as u64, 1)
    }
}

impl Serialize for u16 {
    open spec fn wire_size(&self) -> nat {
        2
    }

    open spec fn wire_bytes(&self) -> Seq<u8> {
        be_bytes(*self as u64, 2)
    }

    fn size(&self) -> (n: usize) {
        core::mem::size_of::<u16>()
    }

    fn serialize(&self) -> (res: Vec<u8>) {
        to_sized(*self as u64, 2)
    }
}

impl Serialize for i16 {
    open spec fn wire_size(&self) -> nat {
        2
    }

    open spec fn wire_bytes(&self) -> Seq<u8> {
        be_bytes((*self as u16) as u64, 2)
    }

    fn size(&self) -> (n: usize) {
        core::mem::size_of::<i16>()
    }

    fn serialize(&self) -> (res: Vec<u8>) {
        to_sized((*self as u16) as u64, 2)
    }
}

impl Serialize for i32 {
    open spec fn wire_size(&self) -> nat {
        4
    }

    open spec fn wire_bytes(&self) -> Seq<u8> {
        be_bytes((*self as u32) as u64, 4)
    }

    fn size(&self) -> (n: usize) {
        core::mem::size_of::<i32>()
    }

    fn serialize(&self) -> (res: Vec<u8>) {
        to_sized((*self as u32) as u64, 4)
    }
}

impl Serialize for i64 {
    open spec fn wire_size(&self) -> nat {
        8
    }

    open spec fn wire_bytes(&self) -> Seq<u8> {
        be_bytes(*self as u64, 8)
    }

    fn size(&self) -> (n: usize) {
        core::mem::size_of::<i64>()
    }

    fn serialize(&self) -> (res: Vec<u8>) {
        to_sized(*self as u64, 8)
    }
}

/// A 32-bit integer written in variable length.
#[derive(Debug, PartialEq, Eq, Structural)]
pub struct VarInt(pub i32);

/// A 64-bit integer written in variable length.
#[derive(Debug, PartialEq, Eq, Structural)]
pub struct VarLong(pub i64);

impl Serialize for VarInt {
    open spec fn wire_size(&self) -> nat {
        varint32_bytes(self.0 as u32).len()
    }

    open spec fn wire_bytes(&self) -> Seq<u8> {
        varint32_bytes(self.0 as u32)
    }

    fn size(&self) -> (n: usize) {
        varint32_size(self.0 as u32)
    }

    fn serialize(&self) -> (res: Vec<u8>) {
        encode_varint32(self.0 as u32)
    }
}

impl Serialize for VarLong {
    open spec fn wire_size(&self) -> nat {
        varint64_bytes(self.0 as u64).len()
    }

    open spec fn wire_bytes(&self) -> Seq<u8> {
        varint64_bytes(self.0 as u64)
    }

    fn size(&self) -> (n: usize) {
        varint64_size(self.0 as u64)
    }

    fn serialize(&self) -> (res: Vec<u8>) {
        encode_varint64(self.0 as u64)
    }
}

/// The bytes of a string on the wire: its length in UTF-8 bytes as a
/// variable-length integer, then one byte per character (the character's
/// code point cut to its low eight bits).
pub open spec fn str_wire_bytes(s: &str) -> Seq<u8> {
    varint32_bytes(s.len() as u32) + s@.map_values(|c: char| c as u8)
}

impl<'a> Serialize for &'a str {
    open spec fn wire_size(&self) -> nat {
        varint32_bytes(self.len() as u32).len() + self.len() as nat
    }

    open spec fn wire_bytes(&self) -> Seq<u8> {
        str_wire_bytes(*self)
    }

    fn size(&self) -> (n: usize) {
        let len = self.len();
        proof {
            assert((len as i32) as u32 == len as u32) by (bit_vector);
        }
        VarInt(len as i32).size() + len
    }

    fn serialize(&self) -> (res: Vec<u8>) {
        let len = self.len();
        proof {
            assert((len as i32) as u32 == len as u32) by (bit_vector);
        }
        let mut res: Vec<u8> = Vec::new();
        res.append(&mut VarInt(len as i32).serialize());
        let ghost head = res@;
        let mut tail: Vec<u8> = Vec::new();
        for c in it: self.chars()
            invariant
                it.seq() == self@,
                tail@ == it.seq().take(it.index() as int).map_values(|c: char| c as u8),
        {
            tail.push(c as u8);
            assert(tail@ == it.seq().take(it.index() + 1).map_values(|c: char| c as u8));
        }
        assert(self@.take(self@.len() as int) == self@);
        assert(tail@ == self@.map_values(|c: char| c as u8));
        assert(head == varint32_bytes(len as u32));
        res.append(&mut tail);
        res
    }
}

/// Law: a string's counted size is the length of what is written for it
/// exactly when it has as many characters as UTF-8 bytes, which is so for
/// ASCII text (an accented letter counts two bytes but writes one).
pub proof fn lemma_str_size(s: &str)
    ensures
        s.wire_size() == s.wire_bytes().len() <==> s.len() == s@.len(),
        vstd::string::is_ascii(s) && s@.len() <= usize::MAX ==> s.wire_size()
            == s.wire_bytes().len(),
{
    if vstd::string::is_ascii(s) && s@.len() <= usize::MAX {
        vstd::utf8::is_ascii_chars_encode_utf8(s@);
    }
}

} // verus!
