//! Reading protocol data types from bytes.
use vstd::prelude::*;
use crate::bigendian::{be_bytes, be_fold, lemma_be_roundtrip};
use crate::text::latin1;
use crate::varint::{
    lemma_fold32_prefix, lemma_fold64_prefix, lemma_scan_finds, lemma_varint32_encoding,
    lemma_varint64_encoding, varint32_bytes, varint32_fold, varint32_mask, varint64_bytes,
    varint64_fold, varint64_mask, varint_len, varint_scan,
};

verus! {

/// A source of bytes that the protocol's readers consume from the front.
pub struct ByteReader {
    bytes: Vec<u8>,
    pos: usize,
}

impl ByteReader {
    #[verifier::type_invariant]
    spec fn inv(self) -> bool {
        self.pos <= self.bytes.len()
    }

    /// The bytes not read yet.
    pub closed spec fn remaining(self) -> Seq<u8> {
        self.bytes@.subrange(self.pos as int, self.bytes@.len() as int)
    }

    /// A reader over `bytes`, from the first.
    pub fn new(bytes: Vec<u8>) -> (r: Self)
        ensures
            r.remaining() == bytes@,
    {
        let r = ByteReader { bytes, pos: 0 };
        assert(r.remaining() == r.bytes@.subrange(0, r.bytes@.len() as int));
        r
    }

    /// Takes the next byte, if there is one.
    pub fn next(&mut self) -> (b: Option<u8>)
        ensures
            old(self).remaining().len() > 0 ==> b == Some(old(self).remaining()[0])
                && final(self).remaining() == old(self).remaining().drop_first(),
            old(self).remaining().len() == 0 ==> b is None && final(self).remaining()
                == old(self).remaining(),
    {
        proof {
            use_type_invariant(&*self);
        }
        if self.pos < self.bytes.len() {
            let b = self.bytes[self.pos];
            self.pos = self.pos + 1;
            Some(b)
        } else {
            None
        }
    }

    /// Number of bytes not read yet.
    pub fn len(&self) -> (n: usize)
        ensures
            n == self.remaining().len(),
    {
        proof {
            use_type_invariant(self);
        }
        self.bytes.len() - self.pos
    }
}

/// What a fixed-width read of `n` bytes gives from `rem`: their big-endian
/// value, when there are that many.
pub open spec fn fixed_value(rem: Seq<u8>, n: nat) -> Option<u64> {
    if rem.len() >= n {
        Some(be_fold(rem, n))
    } else {
        None
    }
}

/// What is left of `rem` after a fixed-width read of `n` bytes: a short
/// input is used up.
pub open spec fn fixed_rest(rem: Seq<u8>, n: nat) -> Seq<u8> {
    if rem.len() >= n {
        rem.skip(n as int)
    } else {
        rem.skip(rem.len() as int)
    }
}

/// What is left of `rem` after reading a variable-length integer of at
/// most `max` bytes: the integer's bytes are gone, or, where none of the
/// first `max` bytes ends it, those bytes (or all there are).
pub open spec fn varint_rest(rem: Seq<u8>, max: nat) -> Seq<u8> {
    match varint_len(rem, max) {
        Some(n) => rem.skip(n as int),
        None => if rem.len() >= max {
            rem.skip(max as int)
        } else {
            rem.skip(rem.len() as int)
        },
    }
}

/// The value of a variable-length 32-bit integer at the front of `rem`.
pub open spec fn varint32_value(rem: Seq<u8>) -> Option<i32> {
    match varint_len(rem, 5) {
        Some(n) => Some(varint32_fold(rem, n) as i32),
        None => None,
    }
}

/// The value of a variable-length 64-bit integer at the front of `rem`.
pub open spec fn varint64_value(rem: Seq<u8>) -> Option<i64> {
    match varint_len(rem, 10) {
        Some(n) => Some(varint64_fold(rem, n) as i64),
        None => None,
    }
}

/// Number of characters that a string read takes: its announced length
/// (read as an unsigned size) or what is left, whichever is less.
pub open spec fn string_take(len: i32, rest: Seq<u8>) -> nat {
    let n = len as usize;
    if n < rest.len() {
        n as nat
    } else {
        rest.len()
    }
}

/// A string read: its length as a variable-length integer, then one
/// character per byte (each byte's code point), as many as the length says
/// or as there are.
pub open spec fn string_value(rem: Seq<u8>) -> Option<Seq<char>> {
    match varint32_value(rem) {
        Some(len) => {
            let rest = varint_rest(rem, 5);
            Some(latin1(rest.take(string_take(len, rest) as int)))
        },
        None => None,
    }
}

/// What is left of `rem` after a string read.
pub open spec fn string_rest(rem: Seq<u8>) -> Seq<u8> {
    match varint32_value(rem) {
        Some(len) => {
            let rest = varint_rest(rem, 5);
            rest.skip(string_take(len, rest) as int)
        },
        None => varint_rest(rem, 5),
    }
}

impl ByteReader {
    /// Reads `n` bytes as a big-endian value; on running out, what was
    /// there is used up and nothing comes back.
    fn read_be(&mut self, n: usize) -> (r: Option<u64>)
        requires
            1 <= n <= 8,
        ensures
            r == fixed_value(old(self).remaining(), n as nat),
            final(self).remaining() == fixed_rest(old(self).remaining(), n as nat),
    {
        let ghost rem = self.remaining();
        let mut res: u64 = 0;
        let mut i: usize = 0;
        while i < n
            invariant
                rem == old(self).remaining(),
                i <= n <= 8,
                i <= rem.len(),
                self.remaining() == rem.skip(i as int),
                res == be_fold(rem, i as nat),
            decreases n - i,
        {
            match self.next() {
                Some(b) => {
                    assert(rem.skip(i as int)[0] == rem[i as int]);
                    res = (res << 8u64) | (b as u64);
                    i += 1;
                    assert(rem.skip(i as int) == rem.skip((i - 1) as int).drop_first());
                },
                None => {
                    assert(i == rem.len());
                    assert(self.remaining() == rem.skip(rem.len() as int));
                    return None;
                },
            }
        }
        Some(res)
    }

    /// Reads a variable-length integer of at most five bytes, seven bits
    /// per byte, into 32 bits.
    fn read_var32(&mut self) -> (r: Option<u32>)
        ensures
            r == (match varint_len(old(self).remaining(), 5) {
                Some(n) => Some(varint32_fold(old(self).remaining(), n)),
                None => None::<u32>,
            }),
            final(self).remaining() == varint_rest(old(self).remaining(), 5),
    {
        let ghost rem = self.remaining();
        let ghost mut k: nat = 0;
        let mut v: u32 = 0;
        let mut i: u32 = 0;
        loop
            invariant
                rem == old(self).remaining(),
                k < 5,
                i == 7 * k,
                k <= rem.len(),
                self.remaining() == rem.skip(k as int),
                v == varint32_fold(rem, k),
                varint_scan(rem, 0, 5) == varint_scan(rem, k, 5),
            decreases 5 - k,
        {
            let b = match self.next() {
                Some(b) => b,
                None => {
                    return None;
                },
            };
            assert(rem.skip(k as int)[0] == rem[k as int]);
            v = v | (((b & 0x7F) as u32) << i);
            assert(v == varint32_fold(rem, k + 1));
            if (b & 0x80) == 0 {
                assert(b < 0x80) by (bit_vector)
                    requires b & 0x80 == 0;
                return Some(v);
            }
            assert(b >= 0x80) by (bit_vector)
                requires b & 0x80 != 0;
            i = i + 7;
            proof {
                k = k + 1;
                assert(rem.skip(k as int) == rem.skip((k - 1) as int).drop_first());
            }
            if i >= 32 {
                return None;
            }
        }
    }

    /// Reads a variable-length integer of at most ten bytes into 64 bits.
    fn read_var64(&mut self) -> (r: Option<u64>)
        ensures
            r == (match varint_len(old(self).remaining(), 10) {
                Some(n) => Some(varint64_fold(old(self).remaining(), n)),
                None => None::<u64>,
            }),
            final(self).remaining() == varint_rest(old(self).remaining(), 10),
    {
        let ghost rem = self.remaining();
        let ghost mut k: nat = 0;
        let mut v: u64 = 0;
        let mut i: u64 = 0;
        loop
            invariant
                rem == old(self).remaining(),
                k < 10,
                i == 7 * k,
                k <= rem.len(),
                self.remaining() == rem.skip(k as int),
                v == varint64_fold(rem, k),
                varint_scan(rem, 0, 10) == varint_scan(rem, k, 10),
            decreases 10 - k,
        {
            let b = match self.next() {
                Some(b) => b,
                None => {
                    return None;
                },
            };
            assert(rem.skip(k as int)[0] == rem[k as int]);
            v = v | (((b & 0x7F) as u64) << i);
            assert(v == varint64_fold(rem, k + 1));
            if (b & 0x80) == 0 {
                assert(b < 0x80) by (bit_vector)
                    requires b & 0x80 == 0;
                return Some(v);
            }
            assert(b >= 0x80) by (bit_vector)
                requires b & 0x80 != 0;
            i = i + 7;
            proof {
                k = k + 1;
                assert(rem.skip(k as int) == rem.skip((k - 1) as int).drop_first());
            }
            if i >= 64 {
                return None;
            }
        }
    }
}

/// Readers for the protocol's data types.  Each takes what it reads from
/// the front of the input; a read that runs out of input gives `None`.
pub trait Deserialize {
    fn read_u8(&mut self) -> Option<u8>;

    fn read_i8(&mut self) -> Option<i8>;

    fn read_u16(&mut self) -> Option<u16>;

    fn read_i16(&mut self) -> Option<i16>;

    fn read_i32(&mut self) -> Option<i32>;

    fn read_i64(&mut self) -> Option<i64>;

    fn read_varint(&mut self) -> Option<i32>;

    fn read_varlong(&mut self) -> Option<i64>;

    fn read_string(&mut self) -> Option<String>;
}

impl Deserialize for ByteReader {
    /// One byte.
    fn read_u8(&mut self) -> (r: Option<u8>)
        ensures
            r == (match fixed_value(old(self).remaining(), 1) {
                Some(v) => Some(v as u8),
                None => None::<u8>,
            }),
            final(self).remaining() == fixed_rest(old(self).remaining(), 1),
    {
        match self.read_be(1) {
            Some(v) => Some(v as u8),
            None => None,
        }
    }

    /// One byte, read as a signed value.
    fn read_i8(&mut self) -> (r: Option<i8>)
        ensures
            r == (match fixed_value(old(self).remaining(), 1) {
                Some(v) => Some(v as i8),
                None => None::<i8>,
            }),
            final(self).remaining() == fixed_rest(old(self).remaining(), 1),
    {
        match self.read_be(1) {
            Some(v) => Some(v as i8),
            None => None,
        }
    }

    /// Two bytes, most significant first.
    fn read_u16(&mut self) -> (r: Option<u16>)
        ensures
            r == (match fixed_value(old(self).remaining(), 2) {
                Some(v) => Some(v as u16),
                None => None::<u16>,
            }),
            final(self).remaining() == fixed_rest(old(self).remaining(), 2),
    {
        match self.read_be(2) {
            Some(v) => Some(v as u16),
            None => None,
        }
    }

    /// Two bytes, most significant first, read as a signed value.
    fn read_i16(&mut self) -> (r: Option<i16>)
        ensures
            r == (match fixed_value(old(self).remaining(), 2) {
                Some(v) => Some(v as i16),
                None => None::<i16>,
            }),
            final(self).remaining() == fixed_rest(old(self).remaining(), 2),
    {
        match self.read_be(2) {
            Some(v) => Some(v as i16),
            None => None,
        }
    }

    /// Four bytes, most significant first, read as a signed value.
    fn read_i32(&mut self) -> (r: Option<i32>)
        ensures
            r == (match fixed_value(old(self).remaining(), 4) {
                Some(v) => Some(v as i32),
                None => None::<i32>,
            }),
            final(self).remaining() == fixed_rest(old(self).remaining(), 4),
    {
        match self.read_be(4) {
            Some(v) => Some(v as i32),
            None => None,
        }
    }

    /// Eight bytes, most significant first, read as a signed value.
    fn read_i64(&mut self) -> (r: Option<i64>)
        ensures
            r == (match fixed_value(old(self).remaining(), 8) {
                Some(v) => Some(v as i64),
                None => None::<i64>,
            }),
            final(self).remaining() == fixed_rest(old(self).remaining(), 8),
    {
        match self.read_be(8) {
            Some(v) => Some(v as i64),
            None => None,
        }
    }

    /// A variable-length integer of at most five bytes, its bits read as a
    /// signed 32-bit value.
    fn read_varint(&mut self) -> (r: Option<i32>)
        ensures
            r == varint32_value(old(self).remaining()),
            final(self).remaining() == varint_rest(old(self).remaining(), 5),
    {
        match self.read_var32() {
            Some(v) => Some(v as i32),
            None => None,
        }
    }

    /// A variable-length integer of at most ten bytes, its bits read as a
    /// signed 64-bit value.
    fn read_varlong(&mut self) -> (r: Option<i64>)
        ensures
            r == varint64_value(old(self).remaining()),
            final(self).remaining() == varint_rest(old(self).remaining(), 10),
    {
        match self.read_var64() {
            Some(v) => Some(v as i64),
            None => None,
        }
    }

    /// A length-prefixed string of one-byte characters.
    fn read_string(&mut self) -> (r: Option<String>)
        ensures
            r matches Some(s) ==> string_value(old(self).remaining()) == Some(s@),
            r is None <==> string_value(old(self).remaining()) is None,
            final(self).remaining() == string_rest(old(self).remaining()),
    {
        let len = match self.read_varint() {
            Some(len) => len,
            None => {
                return None;
            },
        };
        let ghost rest = self.remaining();
        let n = len as usize;
        let ghost k = string_take(len, rest);
        let mut s = String::new();
        let mut taken: usize = 0;
        while taken < n
            invariant_except_break
                n == len as usize,
                k == string_take(len, rest),
                taken <= n,
                taken <= rest.len(),
                self.remaining() == rest.skip(taken as int),
                s@ == latin1(rest.take(taken as int)),
            ensures
                taken == k,
                self.remaining() == rest.skip(taken as int),
                s@ == latin1(rest.take(taken as int)),
            decreases n - taken,
        {
            match self.next() {
                Some(b) => {
                    assert(rest.skip(taken as int)[0] == rest[taken as int]);
                    s.push(b as char);
                    taken += 1;
                    assert(rest.skip(taken as int) == rest.skip((taken - 1) as int).drop_first());
                    assert(rest.take(taken as int) == rest.take((taken - 1) as int).push(b));
                },
                None => {
                    break;
                },
            }
        }
        Some(s)
    }
}

/// Law: reading a variable-length integer back from the bytes that the
/// encoder wrote for `v` (whatever follows them) takes exactly those bytes
/// and gives `v` cut to the seven-bit groups that they hold; it gives `v`
/// itself exactly when the last byte written held all of what was left of
/// `v`.  (The encoder stops as soon as bit 7 of what is left is clear, so
/// for 256 it writes the single byte 0, which reads back as 0.)
pub proof fn lemma_varint32_read_back(v: u32, rest: Seq<u8>)
    ensures
        ({
            let e = varint32_bytes(v);
            &&& varint_len(e + rest, 5) == Some(e.len())
            &&& varint32_fold(e + rest, e.len()) == v & varint32_mask(e.len())
            &&& varint32_value(e + rest) == Some((v & varint32_mask(e.len())) as i32)
            &&& varint_rest(e + rest, 5) == rest
            &&& (varint32_fold(e + rest, e.len()) == v <==> v >> ((7 * (e.len() - 1)) as u32)
                < 0x80)
        }),
{
    let e = varint32_bytes(v);
    let s = e + rest;
    lemma_varint32_encoding(v);
    assert forall|j: int| 0 <= j < e.len() - 1 implies s[j] >= 0x80 by {
        assert(s[j] == e[j]);
    }
    assert(s[e.len() - 1] == e[e.len() - 1]);
    lemma_scan_finds(s, 0, 5, e.len());
    lemma_fold32_prefix(s, e, e.len());
    assert(s.skip(e.len() as int) == rest);
}

/// Law: the 64-bit counterpart of [`lemma_varint32_read_back`].
pub proof fn lemma_varint64_read_back(v: u64, rest: Seq<u8>)
    ensures
        ({
            let e = varint64_bytes(v);
            &&& varint_len(e + rest, 10) == Some(e.len())
            &&& varint64_fold(e + rest, e.len()) == v & varint64_mask(e.len())
            &&& varint64_value(e + rest) == Some((v & varint64_mask(e.len())) as i64)
            &&& varint_rest(e + rest, 10) == rest
            &&& (varint64_fold(e + rest, e.len()) == v <==> v >> ((7 * (e.len() - 1)) as u64)
                < 0x80)
        }),
{
    let e = varint64_bytes(v);
    let s = e + rest;
    lemma_varint64_encoding(v);
    assert forall|j: int| 0 <= j < e.len() - 1 implies s[j] >= 0x80 by {
        assert(s[j] == e[j]);
    }
    assert(s[e.len() - 1] == e[e.len() - 1]);
    lemma_scan_finds(s, 0, 10, e.len());
    lemma_fold64_prefix(s, e, e.len());
    assert(s.skip(e.len() as int) == rest);
}

/// Law: a fixed-width read of `n` bytes gives back the value whose `n`
/// big-endian bytes were written, whatever follows them, and leaves what
/// follows.
pub proof fn lemma_fixed_read_back(v: u64, n: nat, rest: Seq<u8>)
    requires
        1 <= n <= 8,
        n == 8 || v >> ((8 * n) as u64) == 0,
    ensures
        fixed_value(be_bytes(v, n) + rest, n) == Some(v),
        fixed_rest(be_bytes(v, n) + rest, n) == rest,
{
    let e = be_bytes(v, n);
    let s = e + rest;
    lemma_be_roundtrip(v, n);
    lemma_be_fold_prefix(s, e, n);
    assert(s.skip(n as int) == rest);
}

/// Big-endian reading looks at the bytes it reads only.
pub proof fn lemma_be_fold_prefix(s: Seq<u8>, t: Seq<u8>, n: nat)
    requires
        n <= s.len(),
        n <= t.len(),
        forall|j: int| 0 <= j < n ==> s[j] == t[j],
    ensures
        be_fold(s, n) == be_fold(t, n),
    decreases n,
{
    if n > 0 {
        lemma_be_fold_prefix(s, t, (n - 1) as nat);
    }
}

/// Law: a string of ASCII characters, written as the protocol writes
/// strings, reads back as the same characters, provided the
/// variable-length integer of its length reads back as that length.
pub proof fn lemma_string_read_back(s: &str, rest: Seq<u8>)
    requires
        vstd::string::is_ascii(s),
        ({
            let n = varint32_bytes(s.len() as u32).len();
            (s.len() as u32) >> ((7 * (n - 1)) as u32) < 0x80
        }),
        s@.len() <= i32::MAX,
    ensures
        string_value(crate::protocol::ser::str_wire_bytes(s) + rest) == Some(s@),
        string_rest(crate::protocol::ser::str_wire_bytes(s) + rest) == rest,
{
    vstd::utf8::is_ascii_chars_encode_utf8(s@);
    assert(s.len() == s@.len());
    let len = s.len() as u32;
    let e = varint32_bytes(len);
    let chars = s@.map_values(|c: char| c as u8);
    let w = e + chars + rest;
    assert(crate::protocol::ser::str_wire_bytes(s) + rest == e + (chars + rest));
    lemma_varint32_read_back(len, chars + rest);
    lemma_varint32_encoding(len);
    let m = varint32_mask(e.len());
    let sh = (7 * (e.len() - 1)) as u32;
    assert((sh == 0 && m == 0x7F) || (sh == 7 && m == 0x3FFF) || (sh == 14 && m == 0x1F_FFFF)
        || (sh == 21 && m == 0xFFF_FFFF) || (sh == 28 && m == 0xFFFF_FFFF));
    assert(len & m == len) by (bit_vector)
        requires
            len >> sh < 0x80,
            (sh == 0 && m == 0x7F) || (sh == 7 && m == 0x3FFF) || (sh == 14 && m == 0x1F_FFFF)
                || (sh == 21 && m == 0xFFF_FFFF) || (sh == 28 && m == 0xFFFF_FFFF);
    assert(s.len() == s@.len());
    assert((len as i32) as usize == s.len());
    let after = chars + rest;
    assert(string_take(len as i32, after) == s@.len());
    assert(after.take(s@.len() as int) == chars);
    assert(latin1(chars) == s@);
    assert(after.skip(s@.len() as int) == rest);
}

} // verus!
