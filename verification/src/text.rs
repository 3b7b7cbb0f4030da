//! Strings and their byte forms.
use vstd::prelude::*;
use vstd::utf8::*;

verus! {

/// `String::push` appends one character.
pub assume_specification[ String::push ](s: &mut String, ch: char)
    ensures
        final(s)@ == old(s)@.push(ch),
;

/// `String::from_utf8` (std) accepts exactly the byte strings that are
/// valid UTF-8 and then holds the characters that they encode; this wrapper
/// turns its error into `None`.
#[verifier::external_body]
pub(crate) fn string_from_utf8(bytes: Vec<u8>) -> (res: Option<String>)
    ensures
        res is Some <==> valid_utf8(bytes@),
        res matches Some(s) ==> s@ == decode_utf8(bytes@),
{
    String::from_utf8(bytes).ok()
}

/// Whether `a` and `b` hold the same characters.
pub(crate) fn str_eq(a: &str, b: &str) -> (r: bool)
    ensures
        r == (a@ == b@),
{
    let n = a.unicode_len();
    if n != b.unicode_len() {
        return false;
    }
    let mut i: usize = 0;
    while i < n
        invariant
            n == a@.len(),
            n == b@.len(),
            i <= n,
            forall|j: int| 0 <= j < i ==> a@[j] == b@[j],
        decreases n - i,
    {
        if a.get_char(i) != b.get_char(i) {
            return false;
        }
        i += 1;
    }
    assert(a@ =~= b@);
    true
}

/// Characters that stand one for each byte, by code point (Latin-1).
pub open spec fn latin1(bytes: Seq<u8>) -> Seq<char> {
    bytes.map_values(|b: u8| b as char)
}

/// No character takes more than four bytes of UTF-8.
pub proof fn lemma_utf8_len_bound(chars: Seq<char>)
    ensures
        encode_utf8(chars).len() <= 4 * chars.len(),
    decreases chars.len(),
{
    if chars.len() > 0 {
        lemma_utf8_len_bound(chars.drop_first());
    }
}

/// The UTF-8 bytes of `s`.
pub fn utf8_bytes(s: &str) -> (res: Vec<u8>)
    ensures
        res@ == encode_utf8(s@),
{
    s.as_bytes_vec()
}

} // verus!
