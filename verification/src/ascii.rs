//! ASCII bytes: validity, case folding, and how ASCII text and its bytes correspond.

use vstd::prelude::*;
use vstd::utf8::*;

verus! {

/// An upper-case ASCII letter, `A` to `Z`.
pub open spec fn is_upper(b: u8) -> bool {
    0x41 <= b <= 0x5a
}

/// The lower-case form of a byte: `A`..`Z` move to `a`..`z`, every other byte stays.
pub open spec fn lower(b: u8) -> u8 {
    if is_upper(b) {
        (b + 0x20) as u8
    } else {
        b
    }
}

/// A byte string with each of its bytes lower-cased.
pub open spec fn lowercased(s: Seq<u8>) -> Seq<u8> {
    Seq::new(s.len(), |i: int| lower(s[i]))
}

/// Every byte is below 0x80.
pub open spec fn is_ascii_bytes(s: Seq<u8>) -> bool {
    forall|i: int| 0 <= i < s.len() ==> s[i] < 0x80
}

/// The bytes of a text, one for each character (exact for ASCII text).
pub open spec fn bytes_of(text: Seq<char>) -> Seq<u8> {
    Seq::new(text.len(), |i: int| text[i] as u8)
}

/// The text that a byte string spells, one character for each byte.
pub open spec fn text_of(bytes: Seq<u8>) -> Seq<char> {
    Seq::new(bytes.len(), |i: int| bytes[i] as char)
}

/// Two bytes are the same, or the same letter in the two cases.
pub open spec fn same_letter(x: u8, y: u8) -> bool {
    x == y || (is_upper(x) && y == x + 0x20) || (is_upper(y) && x == y + 0x20)
}

/// Two byte strings differ at most in the case of their letters.
pub open spec fn differ_only_in_case(a: Seq<u8>, b: Seq<u8>) -> bool {
    &&& a.len() == b.len()
    &&& forall|i: int| 0 <= i < a.len() ==> same_letter(a[i], b[i])
}

/// Byte strings differ at most in letter case exactly when their lower-case
/// forms are equal.
pub proof fn lemma_case_variants(a: Seq<u8>, b: Seq<u8>)
    ensures
        differ_only_in_case(a, b) <==> lowercased(a) == lowercased(b),
{
    if differ_only_in_case(a, b) {
        assert(lowercased(a) =~= lowercased(b));
    }
    if lowercased(a) == lowercased(b) {
        assert(a.len() == lowercased(a).len());
        assert(b.len() == lowercased(b).len());
        assert forall|i: int| 0 <= i < a.len() implies same_letter(a[i], b[i]) by {
            assert(lowercased(a)[i] == lower(a[i]));
            assert(lowercased(b)[i] == lower(b[i]));
        }
    }
}

/// ASCII bytes are valid UTF-8, and decode to one ASCII character for each byte.
pub proof fn lemma_ascii_is_utf8(bytes: Seq<u8>)
    requires
        is_ascii_bytes(bytes),
    ensures
        valid_utf8(bytes),
        decode_utf8(bytes) == text_of(bytes),
        is_ascii_chars(text_of(bytes)),
        bytes_of(text_of(bytes)) == bytes,
{
    let text = text_of(bytes);
    assert(is_ascii_chars(text));
    is_ascii_chars_encode_utf8(text);
    assert(encode_utf8(text) =~= bytes);
    encode_utf8_valid_utf8(text);
    encode_utf8_decode_utf8(text);
    assert(bytes_of(text) =~= bytes);
}

/// The UTF-8 encoding of ASCII text is the text's bytes, each below 0x80.
pub proof fn lemma_ascii_text_bytes(text: Seq<char>)
    requires
        is_ascii_chars(text),
    ensures
        encode_utf8(text) == bytes_of(text),
        is_ascii_bytes(bytes_of(text)),
        text_of(bytes_of(text)) == text,
{
    is_ascii_chars_encode_utf8(text);
    assert(encode_utf8(text) =~= bytes_of(text));
    assert(text_of(bytes_of(text)) =~= text);
}

/// Lower-cases one byte.
pub fn to_lower(b: u8) -> (r: u8)
    ensures
        r == lower(b),
{
    if 0x41 <= b && b <= 0x5a {
        b + 0x20
    } else {
        b
    }
}

/// Tests whether every byte is ASCII.
pub fn all_ascii(bytes: &[u8]) -> (r: bool)
    ensures
        r == is_ascii_bytes(bytes@),
{
    let mut i: usize = 0;
    while i < bytes.len()
        invariant
            i <= bytes.len(),
            forall|j: int| 0 <= j < i ==> bytes@[j] < 0x80,
        decreases bytes.len() - i,
    {
        if bytes[i] >= 0x80 {
            return false;
        }
        i += 1;
    }
    true
}

/// Tests whether two byte strings are equal once each byte is lower-cased.
pub fn eq_ignore_case(a: &[u8], b: &[u8]) -> (r: bool)
    ensures
        r == (lowercased(a@) == lowercased(b@)),
{
    if a.len() != b.len() {
        assert(lowercased(a@).len() != lowercased(b@).len());
        return false;
    }
    let mut i: usize = 0;
    while i < a.len()
        invariant
            i <= a.len(),
            a.len() == b.len(),
            forall|j: int| 0 <= j < i ==> lower(a@[j]) == lower(b@[j]),
        decreases a.len() - i,
    {
        if to_lower(a[i]) != to_lower(b[i]) {
            assert(lowercased(a@)[i as int] != lowercased(b@)[i as int]);
            return false;
        }
        i += 1;
    }
    assert(lowercased(a@) =~= lowercased(b@));
    true
}

/// A copy of a byte string with each byte lower-cased.
pub fn to_lowercased(bytes: &[u8]) -> (out: Vec<u8>)
    ensures
        out@ == lowercased(bytes@),
{
    let mut out: Vec<u8> = Vec::with_capacity(bytes.len());
    let mut i: usize = 0;
    while i < bytes.len()
        invariant
            i <= bytes.len(),
            out@.len() == i,
            forall|j: int| 0 <= j < i ==> out@[j] == lower(bytes@[j]),
        decreases bytes.len() - i,
    {
        out.push(to_lower(bytes[i]));
        i += 1;
    }
    assert(out@ =~= lowercased(bytes@));
    out
}

} // verus!
