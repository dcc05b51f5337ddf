//! Strings made of bytes.

use crate::ascii::{is_ascii_bytes, lemma_ascii_is_utf8, text_of};
use crate::order::{compare, lemma_order_of, Order};
use std::string::FromUtf8Error;
use vstd::prelude::*;
use vstd::slice::slice_to_vec;
use vstd::string::*;
use vstd::utf8::*;

verus! {

/// The error of `String::from_utf8`. Nothing is read from it.
#[verifier::external_type_specification]
#[verifier::external_body]
pub struct ExFromUtf8Error(FromUtf8Error);

/// `String::from_utf8` checks that the bytes are valid UTF-8 and, where they are,
/// returns the string that they encode. It fails on all other input.
pub assume_specification[ String::from_utf8 ](vec: Vec<u8>) -> (r: Result<String, FromUtf8Error>)
    ensures
        r is Ok <==> valid_utf8(vec@),
        r matches Ok(s) ==> s@ == decode_utf8(vec@),
;

/// The string that the bytes encode, or nothing where they are not valid UTF-8.
pub fn string_from_utf8(bytes: Vec<u8>) -> (r: Option<String>)
    ensures
        r is Some <==> valid_utf8(bytes@),
        r matches Some(s) ==> s@ == decode_utf8(bytes@),
{
    match String::from_utf8(bytes) {
        Ok(s) => Some(s),
        Err(_) => None,
    }
}

/// The string that ASCII bytes spell.
pub fn string_from_ascii(bytes: &[u8]) -> (s: String)
    requires
        is_ascii_bytes(bytes@),
    ensures
        s@ == text_of(bytes@),
        is_ascii_chars(s@),
{
    proof {
        lemma_ascii_is_utf8(bytes@);
    }
    match String::from_utf8(slice_to_vec(bytes)) {
        Ok(s) => s,
        // Not reached: ASCII bytes are valid UTF-8.
        Err(_) => String::new(),
    }
}

/// Tests whether two strings hold the same text, by their bytes.
pub fn same_text(a: &str, b: &str) -> (r: bool)
    ensures
        r == (a@ == b@),
{
    proof {
        lemma_order_of(a.spec_bytes(), b.spec_bytes());
        encode_utf8_decode_utf8(a@);
        encode_utf8_decode_utf8(b@);
    }
    match compare(a.as_bytes(), b.as_bytes(), false) {
        Order::Equal => true,
        _ => false,
    }
}

} // verus!
