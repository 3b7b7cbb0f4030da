//! Fixed-width big-endian integers.
use vstd::prelude::*;

verus! {

/// The low `n` bytes of `v`, most significant first.
pub open spec fn be_bytes(v: u64, n: nat) -> Seq<u8> {
    Seq::new(n, |i: int| ((v >> ((8 * (n - 1 - i)) as u64)) & 0xFF) as u8)
}

/// The value of the first `n` bytes of `s` read most significant first,
/// each step shifting what was read so far up by eight bits.
pub open spec fn be_fold(s: Seq<u8>, n: nat) -> u64
    decreases n,
{
    if n == 0 {
        0
    } else {
        (be_fold(s, (n - 1) as nat) << 8u64) | (s[n - 1] as u64)
    }
}

/// Reading back the first `k` of the `n` bytes written for `v` gives the
/// bits of `v` above the `n - k` bytes not yet read.
pub proof fn lemma_be_fold_bytes(v: u64, n: nat, k: nat)
    requires
        k <= n <= 8,
        v >> ((8 * n) as u64) == 0,
    ensures
        be_fold(be_bytes(v, n), k) == v >> ((8 * (n - k)) as u64),
    decreases k,
{
    if k > 0 {
        lemma_be_fold_bytes(v, n, (k - 1) as nat);
        let a = (8 * (n - k)) as u64;
        assert(a <= 56);
        assert((8 * (n - (k - 1))) as u64 == a + 8);
        assert(be_bytes(v, n)[k - 1] == ((v >> a) & 0xFF) as u8);
        assert(a <= 56 ==> ((v >> (a + 8)) << 8u64) | ((((v >> a) & 0xFF) as u8) as u64) == v >> a)
            by (bit_vector);
    }
}

/// A value that fits in `n` bytes reads back from its `n` big-endian bytes.
pub proof fn lemma_be_roundtrip(v: u64, n: nat)
    requires
        1 <= n <= 8,
        n == 8 || v >> ((8 * n) as u64) == 0,
    ensures
        be_fold(be_bytes(v, n), n) == v,
{
    if n == 8 {
        assert(v >> 64u64 == 0) by (bit_vector);
    }
    lemma_be_fold_bytes(v, n, n);
    assert(v >> 0u64 == v) by (bit_vector);
}

} // verus!
