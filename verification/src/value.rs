//! Header values: UTF-8 text, compared as it stands.

use crate::error::Utf8Error;
use crate::order::{compare, order_of};
use crate::utf8::{same_text, string_from_utf8};
use std::cmp::Ordering;
use vstd::prelude::*;
use vstd::slice::slice_to_vec;
use vstd::std_specs::cmp::{PartialEqSpecImpl, PartialOrdSpecImpl};
use vstd::std_specs::convert::{FromSpecImpl, TryFromSpecImpl};
use vstd::string::*;
use vstd::utf8::*;

verus! {

/// The value of a header: any text. Equality and order are those of its bytes,
/// and so of its characters; the case of letters counts.
#[derive(Debug, Eq, Ord, Hash)]
pub struct HeaderValue(String);

impl View for HeaderValue {
    type V = Seq<char>;

    /// The text of the value.
    closed spec fn view(&self) -> Seq<char> {
        self.0@
    }
}

impl HeaderValue {
    /// The UTF-8 bytes of the value's text.
    pub open spec fn bytes(&self) -> Seq<u8> {
        encode_utf8(self@)
    }

    /// The text of the value, as it was given.
    pub fn as_str(&self) -> (s: &str)
        ensures
            s@ == self@,
    {
        self.0.as_str()
    }

    /// Puts `more` behind the text of this value.
    pub fn push_str(&mut self, more: &str)
        ensures
            final(self)@ == old(self)@ + more@,
    {
        self.0.append(more);
    }

    /// Compares two values by their bytes.
    pub fn cmp(&self, other: &HeaderValue) -> (r: Ordering)
        ensures
            r == order_of(self.bytes(), other.bytes()).ordering(),
    {
        compare(self.0.as_str().as_bytes(), other.0.as_str().as_bytes(), false).to_ordering()
    }
}

/// Wraps a string, which becomes the value's text.
impl From<String> for HeaderValue {
    fn from(v: String) -> (r: HeaderValue)
        ensures
            r@ == v@,
    {
        HeaderValue(v)
    }
}

impl FromSpecImpl<String> for HeaderValue {
    open spec fn obeys_from_spec() -> bool {
        true
    }

    closed spec fn from_spec(v: String) -> Self {
        HeaderValue(v)
    }
}

/// Copies a string slice, which becomes the value's text.
impl<'a> From<&'a str> for HeaderValue {
    fn from(v: &'a str) -> (r: HeaderValue)
        ensures
            r@ == v@,
    {
        HeaderValue(v.to_owned())
    }
}

/// What `from` returns is stated in its own contract: the value it makes holds
/// a copy of the text, which no `spec` function can name.
impl<'a> FromSpecImpl<&'a str> for HeaderValue {
    open spec fn obeys_from_spec() -> bool {
        false
    }

    open spec fn from_spec(v: &'a str) -> Self {
        arbitrary()
    }
}

/// Decodes bytes into a value. Fails exactly when they are not valid UTF-8.
impl<'a> TryFrom<&'a [u8]> for HeaderValue {
    type Error = Utf8Error;

    fn try_from(v: &'a [u8]) -> (r: Result<HeaderValue, Utf8Error>)
        ensures
            r is Ok <==> valid_utf8(v@),
            r matches Ok(value) ==> value@ == decode_utf8(v@),
    {
        match string_from_utf8(slice_to_vec(v)) {
            Some(text) => Ok(HeaderValue(text)),
            None => Err(Utf8Error),
        }
    }
}

/// What `try_from` returns is stated in its own contract: the value it makes
/// holds a string of its own, which no `spec` function can name.
impl<'a> TryFromSpecImpl<&'a [u8]> for HeaderValue {
    open spec fn obeys_try_from_spec() -> bool {
        false
    }

    open spec fn try_from_spec(v: &'a [u8]) -> Result<Self, Self::Error> {
        arbitrary()
    }
}

/// Decodes bytes into a value, without copying them. Fails exactly when they are
/// not valid UTF-8.
impl TryFrom<Vec<u8>> for HeaderValue {
    type Error = Utf8Error;

    fn try_from(v: Vec<u8>) -> (r: Result<HeaderValue, Utf8Error>)
        ensures
            r is Ok <==> valid_utf8(v@),
            r matches Ok(value) ==> value@ == decode_utf8(v@),
    {
        match string_from_utf8(v) {
            Some(text) => Ok(HeaderValue(text)),
            None => Err(Utf8Error),
        }
    }
}

/// What `try_from` returns is stated in its own contract: the value it makes
/// holds a string of its own, which no `spec` function can name.
impl TryFromSpecImpl<Vec<u8>> for HeaderValue {
    open spec fn obeys_try_from_spec() -> bool {
        false
    }

    open spec fn try_from_spec(v: Vec<u8>) -> Result<Self, Self::Error> {
        arbitrary()
    }
}

impl Clone for HeaderValue {
    fn clone(&self) -> (r: Self)
        ensures
            r@ == self@,
    {
        HeaderValue(self.0.clone())
    }
}

/// Values are equal when their texts are.
impl PartialEq for HeaderValue {
    fn eq(&self, other: &Self) -> (r: bool) {
        self.0 == other.0
    }
}

impl PartialEqSpecImpl for HeaderValue {
    open spec fn obeys_eq_spec() -> bool {
        true
    }

    open spec fn eq_spec(&self, other: &Self) -> bool {
        self@ == other@
    }
}

/// A value equals a string slice when its text is the slice's.
impl PartialEq<str> for HeaderValue {
    fn eq(&self, other: &str) -> (r: bool) {
        same_text(self.0.as_str(), other)
    }
}

impl PartialEqSpecImpl<str> for HeaderValue {
    open spec fn obeys_eq_spec() -> bool {
        true
    }

    open spec fn eq_spec(&self, other: &str) -> bool {
        self@ == other@
    }
}

/// A value equals a string when its text is the string's.
impl PartialEq<String> for HeaderValue {
    fn eq(&self, other: &String) -> (r: bool) {
        self.0 == *other
    }
}

impl PartialEqSpecImpl<String> for HeaderValue {
    open spec fn obeys_eq_spec() -> bool {
        true
    }

    open spec fn eq_spec(&self, other: &String) -> bool {
        self@ == other@
    }
}

/// A reference to a value equals a value as the value itself does.
impl PartialEq<HeaderValue> for &HeaderValue {
    fn eq(&self, other: &HeaderValue) -> (r: bool) {
        self.0 == other.0
    }
}

impl PartialEqSpecImpl<HeaderValue> for &HeaderValue {
    open spec fn obeys_eq_spec() -> bool {
        true
    }

    open spec fn eq_spec(&self, other: &HeaderValue) -> bool {
        self@ == other@
    }
}

/// Values are ordered by their bytes; any two values are comparable.
impl PartialOrd for HeaderValue {
    fn partial_cmp(&self, other: &Self) -> (r: Option<Ordering>) {
        Some(self.cmp(other))
    }
}

impl PartialOrdSpecImpl for HeaderValue {
    open spec fn obeys_partial_cmp_spec() -> bool {
        true
    }

    open spec fn partial_cmp_spec(&self, other: &Self) -> Option<Ordering> {
        Some(order_of(self.bytes(), other.bytes()).ordering())
    }
}

/// A reference to a value is ordered against a value as the value itself is.
impl PartialOrd<HeaderValue> for &HeaderValue {
    fn partial_cmp(&self, other: &HeaderValue) -> (r: Option<Ordering>) {
        Some(HeaderValue::cmp(*self, other))
    }
}

impl PartialOrdSpecImpl<HeaderValue> for &HeaderValue {
    open spec fn obeys_partial_cmp_spec() -> bool {
        true
    }

    open spec fn partial_cmp_spec(&self, other: &HeaderValue) -> Option<Ordering> {
        Some(order_of(self.bytes(), other.bytes()).ordering())
    }
}

} // verus!
