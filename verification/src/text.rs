//! Text helpers shared by the parsers: which bytes count as plain text,
//! where a NUL-padded string ends, and the one conversion from bytes to `str`.

use vstd::prelude::*;
use vstd::string::*;
use vstd::utf8::*;

verus! {

/// Bytes that may appear in a plain string field: printable ASCII,
/// newline, carriage return and tab.
pub open spec fn is_text_byte(c: u8) -> bool {
    (0x20 <= c && c <= 0x7e) || c == 0x0a || c == 0x0d || c == 0x09
}

/// The index of the first NUL byte at or after `i`, or the length when there is none.
pub open spec fn nul_from(b: Seq<u8>, i: int) -> int
    decreases b.len() - i,
{
    if i < 0 || i >= b.len() {
        b.len() as int
    } else if b[i] == 0 {
        i
    } else {
        nul_from(b, i + 1)
    }
}

/// The index of the first NUL byte of `b`, or its length when there is none.
pub open spec fn nul_index(b: Seq<u8>) -> int {
    nul_from(b, 0)
}

pub proof fn lemma_nul_from_bounds(b: Seq<u8>, i: int)
    requires
        0 <= i <= b.len(),
    ensures
        i <= nul_from(b, i) <= b.len(),
        nul_from(b, i) < b.len() ==> b[nul_from(b, i)] == 0,
        forall|j: int| i <= j < nul_from(b, i) ==> b[j] != 0,
    decreases b.len() - i,
{
    if i < b.len() && b[i] != 0 {
        lemma_nul_from_bounds(b, i + 1);
    }
}

/// With no NUL at or after `i`, the NUL index is the length.
pub proof fn lemma_no_nul(b: Seq<u8>, i: int)
    requires
        0 <= i <= b.len(),
        forall|j: int| i <= j < b.len() ==> b[j] != 0,
    ensures
        nul_from(b, i) == b.len(),
    decreases b.len() - i,
{
    if i < b.len() {
        lemma_no_nul(b, i + 1);
    }
}

/// A fixed-size string field: the bytes before the first NUL, provided every
/// byte after that NUL is NUL too and every byte before it is plain text.
pub open spec fn spec_fixed_str(b: Seq<u8>) -> Option<Seq<u8>> {
    let k = nul_index(b);
    if (forall|j: int| k <= j < b.len() ==> b[j] == 0)
        && (forall|j: int| 0 <= j < k ==> is_text_byte(b[j]))
        && valid_utf8(b.subrange(0, k)) {
        Some(b.subrange(0, k))
    } else {
        None
    }
}

/// Views `bytes` as a `str` when they are valid UTF-8.
///
/// Wraps `std::str::from_utf8`, whose documentation says it succeeds exactly
/// on valid UTF-8 and borrows the same bytes; the contract claims both.
#[verifier::external_body]
pub(crate) fn utf8_str<'a>(bytes: &'a [u8]) -> (res: Option<&'a str>)
    ensures
        res is Some <==> valid_utf8(bytes@),
        res matches Some(s) ==> s.spec_bytes() == bytes@,
{
    std::str::from_utf8(bytes).ok()
}

/// Appends one character.
///
/// Wraps `String::push`, documented to append the given char to the end of the string.
#[verifier::external_body]
pub(crate) fn push_char(s: &mut String, c: char)
    ensures
        final(s)@ == old(s)@.push(c),
{
    s.push(c);
}

/// Whether two byte strings are equal.
pub fn bytes_eq(a: &[u8], b: &[u8]) -> (r: bool)
    ensures
        r == (a@ == b@),
{
    if a.len() != b.len() {
        return false;
    }
    let mut i: usize = 0;
    while i < a.len()
        invariant
            a@.len() == b@.len(),
            0 <= i <= a@.len(),
            forall|j: int| 0 <= j < i ==> a@[j] == b@[j],
        decreases a@.len() - i,
    {
        if a[i] != b[i] {
            return false;
        }
        i = i + 1;
    }
    assert(a@ =~= b@);
    true
}

} // verus!
