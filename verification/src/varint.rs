//! Variable-length integers as the Minecraft protocol writes them.
//!
//! The encoder of this project emits seven bits per byte, low group first,
//! and keeps going while bit 7 of what is left of the value is set.  The
//! decoders OR the low seven bits of each byte into place until a byte with
//! the continuation bit clear arrives, and give up after a fixed number of
//! bytes.
use vstd::prelude::*;

verus! {

// ---------------------------------------------------------------------------
// Encoding
// ---------------------------------------------------------------------------

/// Bytes that the encoder emits for a 32-bit value: while bit 7 of what is
/// left is set, the low seven bits go out with the continuation bit set and
/// the value moves seven bits down; otherwise the low byte goes out as is.
pub open spec fn varint32_bytes(v: u32) -> Seq<u8>
    decreases v,
{
    if v & 0x80 == 0 {
        seq![v as u8]
    } else {
        proof {
            lemma_shift_decreases32(v);
        }
        seq![((v as u8) & 0x7F) | 0x80] + varint32_bytes(v >> 7)
    }
}

/// The same encoder on 64-bit values.
pub open spec fn varint64_bytes(v: u64) -> Seq<u8>
    decreases v,
{
    if v & 0x80 == 0 {
        seq![v as u8]
    } else {
        proof {
            lemma_shift_decreases64(v);
        }
        seq![((v as u8) & 0x7F) | 0x80] + varint64_bytes(v >> 7)
    }
}

/// Bit facts about one step of the encoder on a 32-bit value.
proof fn bits32(v: u32)
    by (bit_vector)
    ensures
        v & 0x80 != 0 ==> v >> 7 < v,
        v & 0x80 == 0 ==> (v as u8) < 0x80,
        v < 0x80 ==> v & 0x80 == 0,
        v < 0x80 ==> v & 0x7F == v,
        v >> 0u32 == v,
        (((v as u8) & 0x7F) as u32) << 0u32 == v & 0x7F,
        (((((v as u8) & 0x7F) | 0x80) & 0x7F) as u32) << 0u32 == v & 0x7F,
        0u32 | (v & 0x7F) == v & 0x7F,
        v & 0x80 == 0 ==> (v >> 0u32 < 0x80 <==> v & 0x7F == v),
        (((v as u8) & 0x7F) | 0x80) >= 0x80,
        v & 0x80 != 0 ==> (v >> 7u32) >> 21u32 < 0x80,
        (v >> 28u32) & 0x80 == 0,
{
}

/// Shifting by seven and then by `k` is shifting by `k + 7`.
proof fn bits32_shift(v: u32, k: u32)
    by (bit_vector)
    requires
        k <= 21,
    ensures
        (v >> 7u32) >> k == v >> (k + 7),
        (v >> k) >> 7u32 == v >> (k + 7),
{
}

/// One more group of seven bits: the low group of `v` and the groups of
/// what is above it make up the groups of `v`.
proof fn bits32_mask(v: u32, mk: u32, mk1: u32, f: u32)
    by (bit_vector)
    requires
        (mk == 0x7F && mk1 == 0x3FFF) || (mk == 0x3FFF && mk1 == 0x1F_FFFF) || (mk == 0x1F_FFFF
            && mk1 == 0xFFF_FFFF) || (mk == 0xFFF_FFFF && mk1 == 0xFFFF_FFFF),
        f == (v >> 7u32) & mk,
    ensures
        (v & 0x7F) | (((v >> 7u32) & mk) << 7u32) == v & mk1,
        (v & 0x7F) | (f << 7u32) == v <==> f == v >> 7u32,
{
}

/// ORing a group in at `k + 7` after shifting is shifting after ORing it
/// in at `k`.
proof fn bits32_fold(g: u32, f: u32, c: u8, k: u32)
    by (bit_vector)
    requires
        k <= 21,
    ensures
        (g | (f << 7u32)) | (((c & 0x7F) as u32) << (k + 7)) == g | ((f | (((c & 0x7F) as u32)
            << k)) << 7u32),
        0u32 | g == g | (0u32 << 7u32),
{
}

pub proof fn lemma_shift_decreases32(v: u32)
    ensures
        v & 0x80 != 0 ==> v >> 7 < v,
{
    bits32(v);
}

/// Bit facts about one step of the encoder on a 64-bit value.
proof fn bits64(v: u64)
    by (bit_vector)
    ensures
        v & 0x80 != 0 ==> v >> 7 < v,
        v & 0x80 == 0 ==> (v as u8) < 0x80,
        v < 0x80 ==> v & 0x80 == 0,
        v >> 0u64 == v,
        (((v as u8) & 0x7F) as u64) << 0u64 == v & 0x7F,
        (((((v as u8) & 0x7F) | 0x80) & 0x7F) as u64) << 0u64 == v & 0x7F,
        0u64 | (v & 0x7F) == v & 0x7F,
        v & 0x80 == 0 ==> (v >> 0u64 < 0x80 <==> v & 0x7F == v),
        (((v as u8) & 0x7F) | 0x80) >= 0x80,
        v & 0x80 != 0 ==> (v >> 7u64) >> 56u64 < 0x80,
        (v >> 63u64) & 0x80 == 0,
{
}

/// Shifting by seven and then by `k` is shifting by `k + 7`.
proof fn bits64_shift(v: u64, k: u64)
    by (bit_vector)
    requires
        k <= 56,
    ensures
        (v >> 7u64) >> k == v >> (k + 7),
        (v >> k) >> 7u64 == v >> (k + 7),
{
}

/// One more group of seven bits: the low group of `v` and the groups of
/// what is above it make up the groups of `v`.
proof fn bits64_mask(v: u64, mk: u64, mk1: u64, f: u64)
    by (bit_vector)
    requires
        (mk == 0x7F && mk1 == 0x3FFF) || (mk == 0x3FFF && mk1 == 0x1F_FFFF) || (mk == 0x1F_FFFF
            && mk1 == 0xFFF_FFFF) || (mk == 0xFFF_FFFF && mk1 == 0x7_FFFF_FFFF) || (mk
            == 0x7_FFFF_FFFF && mk1 == 0x3FF_FFFF_FFFF) || (mk == 0x3FF_FFFF_FFFF && mk1
            == 0x1_FFFF_FFFF_FFFF) || (mk == 0x1_FFFF_FFFF_FFFF && mk1 == 0xFF_FFFF_FFFF_FFFF)
            || (mk == 0xFF_FFFF_FFFF_FFFF && mk1 == 0x7FFF_FFFF_FFFF_FFFF) || (mk
            == 0x7FFF_FFFF_FFFF_FFFF && mk1 == 0xFFFF_FFFF_FFFF_FFFF),
        f == (v >> 7u64) & mk,
    ensures
        (v & 0x7F) | (((v >> 7u64) & mk) << 7u64) == v & mk1,
        (v & 0x7F) | (f << 7u64) == v <==> f == v >> 7u64,
{
}

/// ORing a group in at `k + 7` after shifting is shifting after ORing it
/// in at `k`.
proof fn bits64_fold(g: u64, f: u64, c: u8, k: u64)
    by (bit_vector)
    requires
        k <= 56,
    ensures
        (g | (f << 7u64)) | (((c & 0x7F) as u64) << (k + 7)) == g | ((f | (((c & 0x7F) as u64)
            << k)) << 7u64),
        0u64 | g == g | (0u64 << 7u64),
{
}

pub proof fn lemma_shift_decreases64(v: u64)
    ensures
        v & 0x80 != 0 ==> v >> 7 < v,
{
    bits64(v);
}


/// Encodes `value` (its bits read as unsigned) as a variable-length integer.
pub fn encode_varint32(value: u32) -> (res: Vec<u8>)
    ensures
        res@ == varint32_bytes(value),
{
    let mut v: u32 = value;
    let mut res: Vec<u8> = Vec::new();
    loop
        invariant
            varint32_bytes(value) == res@ + varint32_bytes(v),
        decreases v,
    {
        if v & 0x80 == 0 {
            res.push(v as u8);
            return res;
        }
        proof {
            lemma_shift_decreases32(v);
        }
        res.push(((v as u8) & 0x7F) | 0x80);
        v = v >> 7;
    }
}

/// Encodes a 64-bit value (its bits read as unsigned) as a variable-length integer.
pub fn encode_varint64(value: u64) -> (res: Vec<u8>)
    ensures
        res@ == varint64_bytes(value),
{
    let mut v: u64 = value;
    let mut res: Vec<u8> = Vec::new();
    loop
        invariant
            varint64_bytes(value) == res@ + varint64_bytes(v),
        decreases v,
    {
        if v & 0x80 == 0 {
            res.push(v as u8);
            return res;
        }
        proof {
            lemma_shift_decreases64(v);
        }
        res.push(((v as u8) & 0x7F) | 0x80);
        v = v >> 7;
    }
}

/// An encoding of a 32-bit value takes one to five bytes.
pub broadcast proof fn lemma_varint32_len(v: u32)
    ensures
        1 <= #[trigger] varint32_bytes(v).len() <= 5,
{
    lemma_varint32_encoding(v);
}

/// A value below 128 takes the single byte that holds it.
pub proof fn lemma_varint32_small(v: u32)
    requires
        v < 0x80,
    ensures
        varint32_bytes(v) == seq![v as u8],
        v & varint32_mask(1) == v,
{
    bits32(v);
}

// ---------------------------------------------------------------------------
// Size of an encoding
// ---------------------------------------------------------------------------

/// Number of bytes of the encoding of `value`, counted the way the
/// protocol's `size` methods count it: one more than the number of
/// seven-bit steps after which bit 7 is still set.
pub fn varint32_size(value: u32) -> (n: usize)
    ensures
        n == varint32_bytes(value).len(),
        1 <= n <= 5,
{
    let v = value;
    let mut i: usize = 0;
    proof {
        bits32(v);
    }
    while ((v >> (7 * i) as u32) & 0x80) != 0
        invariant
            i <= 4,
            varint32_bytes(v).len() == i + varint32_bytes(v >> (7 * i) as u32).len(),
        decreases 4 - i,
    {
        proof {
            let w = v >> (7 * i) as u32;
            lemma_shift_decreases32(w);
            bits32(v);
            if i < 4 {
                bits32_shift(v, (7 * i) as u32);
                assert((7 * (i + 1)) as u32 == (7 * i) as u32 + 7);
            } else {
                assert((7 * i) as u32 == 28);
            }
        }
        i += 1;
    }
    i + 1
}

/// Number of bytes of the 64-bit encoding of `value`, counted as the
/// protocol's `size` methods count it.
pub fn varint64_size(value: u64) -> (n: usize)
    ensures
        n == varint64_bytes(value).len(),
        1 <= n <= 10,
{
    let v = value;
    let mut i: usize = 0;
    proof {
        bits64(v);
    }
    while ((v >> (7 * i) as u64) & 0x80) != 0
        invariant
            i <= 9,
            varint64_bytes(v).len() == i + varint64_bytes(v >> (7 * i) as u64).len(),
        decreases 9 - i,
    {
        proof {
            let w = v >> (7 * i) as u64;
            lemma_shift_decreases64(w);
            bits64(v);
            if i < 9 {
                bits64_shift(v, (7 * i) as u64);
                assert((7 * (i + 1)) as u64 == (7 * i) as u64 + 7);
            } else {
                assert((7 * i) as u64 == 63);
            }
        }
        i += 1;
    }
    i + 1
}

// ---------------------------------------------------------------------------
// Decoding
// ---------------------------------------------------------------------------

/// Scans `s` from index `i` for the byte that ends a variable-length
/// integer (continuation bit clear), looking at no byte at index `max` or
/// beyond; gives the number of bytes up to and including it.
pub open spec fn varint_scan(s: Seq<u8>, i: nat, max: nat) -> Option<nat>
    decreases max - i,
{
    if i >= max || i >= s.len() {
        None
    } else if s[i as int] < 0x80 {
        Some(i + 1)
    } else {
        varint_scan(s, i + 1, max)
    }
}

/// Length of the variable-length integer at the start of `s`, if it ends
/// within its first `max` bytes.
pub open spec fn varint_len(s: Seq<u8>, max: nat) -> Option<nat> {
    varint_scan(s, 0, max)
}

/// The low seven bits of byte `b`, shifted into group `j` of a 32-bit value.
pub open spec fn group32(b: u8, j: nat) -> u32 {
    ((b & 0x7F) as u32) << ((7 * j) as u32)
}

/// The low seven bits of byte `b`, shifted into group `j` of a 64-bit value.
pub open spec fn group64(b: u8, j: nat) -> u64 {
    ((b & 0x7F) as u64) << ((7 * j) as u64)
}

/// The value that the first `n` bytes of `s` decode to in 32 bits: the OR
/// of the low seven bits of each byte, byte `j` shifted left by `7 * j`.
pub open spec fn varint32_fold(s: Seq<u8>, n: nat) -> u32
    decreases n,
{
    if n == 0 {
        0
    } else {
        varint32_fold(s, (n - 1) as nat) | group32(s[n - 1], (n - 1) as nat)
    }
}

/// The value that the first `n` bytes of `s` decode to in 64 bits.
pub open spec fn varint64_fold(s: Seq<u8>, n: nat) -> u64
    decreases n,
{
    if n == 0 {
        0
    } else {
        varint64_fold(s, (n - 1) as nat) | group64(s[n - 1], (n - 1) as nat)
    }
}

/// The bits of a 32-bit value that `n` seven-bit groups can hold.
pub open spec fn varint32_mask(n: nat) -> u32 {
    if n == 1 {
        0x7F
    } else if n == 2 {
        0x3FFF
    } else if n == 3 {
        0x1F_FFFF
    } else if n == 4 {
        0xFFF_FFFF
    } else {
        0xFFFF_FFFF
    }
}

/// The bits of a 64-bit value that `n` seven-bit groups can hold.
pub open spec fn varint64_mask(n: nat) -> u64 {
    if n == 1 {
        0x7F
    } else if n == 2 {
        0x3FFF
    } else if n == 3 {
        0x1F_FFFF
    } else if n == 4 {
        0xFFF_FFFF
    } else if n == 5 {
        0x7_FFFF_FFFF
    } else if n == 6 {
        0x3FF_FFFF_FFFF
    } else if n == 7 {
        0x1_FFFF_FFFF_FFFF
    } else if n == 8 {
        0xFF_FFFF_FFFF_FFFF
    } else if n == 9 {
        0x7FFF_FFFF_FFFF_FFFF
    } else {
        0xFFFF_FFFF_FFFF_FFFF
    }
}

/// What a scan finds lies within the bytes and within the limit.
pub proof fn lemma_scan_bound(s: Seq<u8>, i: nat, max: nat)
    ensures
        varint_scan(s, i, max) matches Some(n) ==> i < n <= max && n <= s.len() && s[n - 1]
            < 0x80,
    decreases max - i,
{
    if !(i >= max || i >= s.len()) && s[i as int] >= 0x80 {
        lemma_scan_bound(s, i + 1, max);
    }
}

/// A scan from `i` finds the first byte at or after `i` whose continuation
/// bit is clear.
pub proof fn lemma_scan_finds(s: Seq<u8>, i: nat, max: nat, n: nat)
    requires
        i < n <= max,
        n <= s.len(),
        s[n - 1] < 0x80,
        forall|j: int| i <= j < n - 1 ==> s[j] >= 0x80,
    ensures
        varint_scan(s, i, max) == Some(n),
    decreases n - i,
{
    if i + 1 < n {
        lemma_scan_finds(s, i + 1, max, n);
    }
}

/// Decoding looks at the bytes it folds only.
pub proof fn lemma_fold32_prefix(s: Seq<u8>, t: Seq<u8>, n: nat)
    requires
        n <= s.len(),
        n <= t.len(),
        forall|j: int| 0 <= j < n ==> s[j] == t[j],
    ensures
        varint32_fold(s, n) == varint32_fold(t, n),
    decreases n,
{
    if n > 0 {
        lemma_fold32_prefix(s, t, (n - 1) as nat);
    }
}

/// Decoding looks at the bytes it folds only.
pub proof fn lemma_fold64_prefix(s: Seq<u8>, t: Seq<u8>, n: nat)
    requires
        n <= s.len(),
        n <= t.len(),
        forall|j: int| 0 <= j < n ==> s[j] == t[j],
    ensures
        varint64_fold(s, n) == varint64_fold(t, n),
    decreases n,
{
    if n > 0 {
        lemma_fold64_prefix(s, t, (n - 1) as nat);
    }
}

/// Putting a byte in front shifts what the rest decodes to up by one group.
pub proof fn lemma_fold32_prepend(b: u8, t: Seq<u8>, m: nat)
    requires
        m + 1 <= 5,
        m <= t.len(),
    ensures
        varint32_fold(seq![b] + t, m + 1) == group32(b, 0) | (varint32_fold(t, m) << 7u32),
    decreases m,
{
    let s = seq![b] + t;
    assert(s[0] == b);
    if m == 0 {
        let g = group32(b, 0);
        assert(varint32_fold(s, 0) == 0);
        assert(varint32_fold(t, 0) == 0);
        assert(varint32_fold(s, 1) == 0u32 | group32(s[0], 0));
        bits32_fold(g, 0, b, 0);
    } else {
        lemma_fold32_prepend(b, t, (m - 1) as nat);
        assert(s[m as int] == t[m - 1]);
        assert(varint32_fold(s, m + 1) == varint32_fold(s, m) | group32(s[m as int], m));
        assert(varint32_fold(t, m) == varint32_fold(t, (m - 1) as nat) | group32(t[m - 1], (m - 1) as nat));
        let g = group32(b, 0);
        let f = varint32_fold(t, (m - 1) as nat);
        let c = t[m - 1];
        let k = (7 * (m - 1)) as u32;
        assert(k <= 21);
        assert(group32(c, m) == ((c & 0x7F) as u32) << (k + 7));
        assert(group32(c, (m - 1) as nat) == ((c & 0x7F) as u32) << k);
        bits32_fold(g, f, c, k);
    }
}

/// Putting a byte in front shifts what the rest decodes to up by one group.
pub proof fn lemma_fold64_prepend(b: u8, t: Seq<u8>, m: nat)
    requires
        m + 1 <= 10,
        m <= t.len(),
    ensures
        varint64_fold(seq![b] + t, m + 1) == group64(b, 0) | (varint64_fold(t, m) << 7u64),
    decreases m,
{
    let s = seq![b] + t;
    assert(s[0] == b);
    if m == 0 {
        let g = group64(b, 0);
        assert(varint64_fold(s, 0) == 0);
        assert(varint64_fold(t, 0) == 0);
        assert(varint64_fold(s, 1) == 0u64 | group64(s[0], 0));
        bits64_fold(g, 0, b, 0);
    } else {
        lemma_fold64_prepend(b, t, (m - 1) as nat);
        assert(s[m as int] == t[m - 1]);
        assert(varint64_fold(s, m + 1) == varint64_fold(s, m) | group64(s[m as int], m));
        assert(varint64_fold(t, m) == varint64_fold(t, (m - 1) as nat) | group64(t[m - 1], (m - 1) as nat));
        let g = group64(b, 0);
        let f = varint64_fold(t, (m - 1) as nat);
        let c = t[m - 1];
        let k = (7 * (m - 1)) as u64;
        assert(k <= 56);
        assert(group64(c, m) == ((c & 0x7F) as u64) << (k + 7));
        assert(group64(c, (m - 1) as nat) == ((c & 0x7F) as u64) << k);
        bits64_fold(g, f, c, k);
    }
}

/// The shape of an encoding: at most five bytes, every byte but the last
/// with its continuation bit set, the last with it clear; and the bytes
/// decode to the value cut to the groups that the encoding holds.
pub proof fn lemma_varint32_encoding(v: u32)
    ensures
        ({
            let e = varint32_bytes(v);
            &&& 1 <= e.len() <= 5
            &&& e[e.len() - 1] < 0x80
            &&& forall|j: int| 0 <= j < e.len() - 1 ==> e[j] >= 0x80
            &&& varint32_fold(e, e.len()) == v & varint32_mask(e.len())
            &&& (v >> ((7 * (e.len() - 1)) as u32) < 0x80 <==> varint32_fold(e, e.len()) == v)
        }),
    decreases v,
{
    let e = varint32_bytes(v);
    if v & 0x80 == 0 {
        let b = v as u8;
        bits32(v);
        assert(group32(b, 0) == ((b & 0x7F) as u32) << 0u32);
        assert(e.len() == 1);
        assert(varint32_fold(e, 0) == 0);
        assert(varint32_fold(e, 1) == v & 0x7F);
    } else {
        let w = v >> 7;
        lemma_shift_decreases32(v);
        lemma_varint32_encoding(w);
        let t = varint32_bytes(w);
        let b = ((v as u8) & 0x7F) | 0x80;
        assert(e == seq![b] + t);
        let m = t.len();
        bits32(v);
        // The rest of the encoding has at most four bytes.
        lemma_varint32_len_bound(w, 3);
        assert(m <= 4);
        assert forall|j: int| 0 <= j < e.len() - 1 implies e[j] >= 0x80 by {
            if j > 0 {
                assert(e[j] == t[j - 1]);
            }
        }
        assert(e[e.len() - 1] == t[m - 1]);
        lemma_fold32_prepend(b, t, m);
        let f = varint32_fold(t, m);
        assert(group32(b, 0) == ((b & 0x7F) as u32) << 0u32);
        let mk = varint32_mask(m);
        let mk1 = varint32_mask(m + 1);
        assert(f == w & mk);
        bits32_mask(v, mk, mk1, f);
        let k = (7 * (m - 1)) as u32;
        assert(k <= 21);
        assert((7 * (e.len() - 1)) as u32 == k + 7);
        bits32_shift(v, k);
        assert(1 <= e.len() <= 5);
        assert(e[e.len() - 1] < 0x80);
        assert(varint32_fold(e, e.len()) == v & varint32_mask(e.len()));
        assert(v >> ((7 * (e.len() - 1)) as u32) < 0x80 <==> varint32_fold(e, e.len()) == v);
    }
}

/// An encoding takes at most `k + 1` bytes when the value has nothing left
/// after `k` seven-bit steps.
pub proof fn lemma_varint32_len_bound(v: u32, k: nat)
    requires
        k <= 4,
        v >> ((7 * k) as u32) < 0x80,
    ensures
        varint32_bytes(v).len() <= k + 1,
    decreases v,
{
    if v & 0x80 != 0 {
        lemma_shift_decreases32(v);
        if k == 0 {
            bits32(v);
        } else {
            let s = (7 * (k - 1)) as u32;
            assert(s <= 21);
            assert((7 * k) as u32 == s + 7);
            bits32_shift(v, s);
            lemma_varint32_len_bound(v >> 7, (k - 1) as nat);
            assert(varint32_bytes(v) == seq![((v as u8) & 0x7F) | 0x80] + varint32_bytes(v >> 7));
        }
    }
}

/// The shape of an encoding: at most ten bytes, every byte but the last
/// with its continuation bit set, the last with it clear; and the bytes
/// decode to the value cut to the groups that the encoding holds.
pub proof fn lemma_varint64_encoding(v: u64)
    ensures
        ({
            let e = varint64_bytes(v);
            &&& 1 <= e.len() <= 10
            &&& e[e.len() - 1] < 0x80
            &&& forall|j: int| 0 <= j < e.len() - 1 ==> e[j] >= 0x80
            &&& varint64_fold(e, e.len()) == v & varint64_mask(e.len())
            &&& (v >> ((7 * (e.len() - 1)) as u64) < 0x80 <==> varint64_fold(e, e.len()) == v)
        }),
    decreases v,
{
    let e = varint64_bytes(v);
    if v & 0x80 == 0 {
        let b = v as u8;
        bits64(v);
        assert(group64(b, 0) == ((b & 0x7F) as u64) << 0u64);
        assert(e.len() == 1);
        assert(varint64_fold(e, 0) == 0);
        assert(varint64_fold(e, 1) == v & 0x7F);
    } else {
        let w = v >> 7;
        lemma_shift_decreases64(v);
        lemma_varint64_encoding(w);
        let t = varint64_bytes(w);
        let b = ((v as u8) & 0x7F) | 0x80;
        assert(e == seq![b] + t);
        let m = t.len();
        bits64(v);
        // The rest of the encoding has at most nine bytes.
        lemma_varint64_len_bound(w, 8);
        assert(m <= 9);
        assert forall|j: int| 0 <= j < e.len() - 1 implies e[j] >= 0x80 by {
            if j > 0 {
                assert(e[j] == t[j - 1]);
            }
        }
        assert(e[e.len() - 1] == t[m - 1]);
        lemma_fold64_prepend(b, t, m);
        let f = varint64_fold(t, m);
        assert(group64(b, 0) == ((b & 0x7F) as u64) << 0u64);
        let mk = varint64_mask(m);
        let mk1 = varint64_mask(m + 1);
        assert(f == w & mk);
        bits64_mask(v, mk, mk1, f);
        let k = (7 * (m - 1)) as u64;
        assert(k <= 56);
        assert((7 * (e.len() - 1)) as u64 == k + 7);
        bits64_shift(v, k);
        assert(1 <= e.len() <= 10);
        assert(e[e.len() - 1] < 0x80);
        assert(varint64_fold(e, e.len()) == v & varint64_mask(e.len()));
        assert(v >> ((7 * (e.len() - 1)) as u64) < 0x80 <==> varint64_fold(e, e.len()) == v);
    }
}

/// An encoding takes at most `k + 1` bytes when the value has nothing left
/// after `k` seven-bit steps.
pub proof fn lemma_varint64_len_bound(v: u64, k: nat)
    requires
        k <= 9,
        v >> ((7 * k) as u64) < 0x80,
    ensures
        varint64_bytes(v).len() <= k + 1,
    decreases v,
{
    if v & 0x80 != 0 {
        lemma_shift_decreases64(v);
        if k == 0 {
            bits64(v);
        } else {
            let s = (7 * (k - 1)) as u64;
            assert(s <= 56);
            assert((7 * k) as u64 == s + 7);
            bits64_shift(v, s);
            lemma_varint64_len_bound(v >> 7, (k - 1) as nat);
            assert(varint64_bytes(v) == seq![((v as u8) & 0x7F) | 0x80] + varint64_bytes(v >> 7));
        }
    }
}

} // verus!
