//! The Minecraft protocol's data types: reading them from bytes
//! ([`de`]), writing them ([`ser`]) and the size of variable-length
//! integers.

pub mod de;
pub mod ser;

use vstd::prelude::*;
use crate::varint::{varint32_bytes, varint32_size, varint64_bytes, varint64_size};

verus! {

/// Something whose encoded form has a known number of bytes.
pub trait Size {
    fn size(&self) -> usize;
}

/// A 32-bit integer written in variable length.
pub struct VarInt(pub i32);

/// A 64-bit integer written in variable length.
pub struct VarLong(pub i64);

impl Size for VarInt {
    /// Number of bytes of the encoding of the value's bits.
    fn size(&self) -> (n: usize)
        ensures
            n == varint32_bytes(self.0 as u32).len(),
            1 <= n <= 5,
    {
        varint32_size(self.0 as u32)
    }
}

impl Size for VarLong {
    /// Number of bytes of the encoding of the value's bits.
    fn size(&self) -> (n: usize)
        ensures
            n == varint64_bytes(self.0 as u64).len(),
            1 <= n <= 10,
    {
        varint64_size(self.0 as u64)
    }
}

} // verus!
