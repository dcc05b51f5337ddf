//! Header names: ASCII text that is compared, ordered and hashed without regard to
//! the case of its letters.

use crate::ascii::{all_ascii, bytes_of, eq_ignore_case, is_ascii_bytes, lemma_ascii_text_bytes,
    lowercased, text_of, to_lowercased};
use crate::error::AsciiError;
use crate::order::{compare, order_of, Order};
use crate::utf8::string_from_ascii;
use std::borrow::Cow;
use std::cmp::Ordering;
use std::hash::{Hash, Hasher};
use vstd::prelude::*;
use vstd::std_specs::cmp::{PartialEqSpecImpl, PartialOrdSpecImpl};
use vstd::std_specs::convert::TryFromSpecImpl;
use vstd::string::*;
use vstd::utf8::*;

verus! {

/// The name of a header.
///
/// A name is ASCII text and keeps the case it was written in. Equality, order and
/// hashing look at the lower-case form only, so `Content-Type` and `content-type`
/// are one name. The text is either borrowed for the whole run of the program or
/// owned; no operation tells the two apart.
#[derive(Debug)]
pub struct HeaderName(Cow<'static, str>);

impl View for HeaderName {
    type V = Seq<char>;

    /// The text of the name, in the case it was written in.
    closed spec fn view(&self) -> Seq<char> {
        self.0@
    }
}

/// What names are compared by: the bytes of the text, lower-cased.
pub open spec fn key_of(text: Seq<char>) -> Seq<u8> {
    lowercased(bytes_of(text))
}

impl HeaderName {
    #[verifier::type_invariant]
    spec fn ascii_only(&self) -> bool {
        is_ascii_chars(self.0@)
    }

    /// What this name is compared by: the bytes of its text, lower-cased.
    pub open spec fn key(&self) -> Seq<u8> {
        key_of(self@)
    }

    /// The text of the name, in the case it was written in.
    pub fn as_str(&self) -> (s: &str)
        ensures
            s@ == self@,
            is_ascii(s),
    {
        proof {
            use_type_invariant(self);
        }
        match &self.0 {
            Cow::Borrowed(s) => s,
            Cow::Owned(s) => s.as_str(),
        }
    }

    /// The bytes of the name's text.
    pub fn as_bytes(&self) -> (b: &[u8])
        ensures
            b@ == bytes_of(self@),
            is_ascii_bytes(b@),
    {
        let s = self.as_str();
        proof {
            lemma_ascii_text_bytes(s@);
        }
        s.as_bytes()
    }

    /// Makes a name of a string that lives as long as the program, without copying it.
    /// Fails exactly when the string holds a character outside ASCII.
    pub fn from_static_str(v: &'static str) -> (r: Result<HeaderName, AsciiError>)
        ensures
            r is Ok <==> is_ascii(v),
            r matches Ok(name) ==> name@ == v@,
    {
        if !v.is_ascii() {
            return Err(AsciiError);
        }
        Ok(HeaderName(Cow::Borrowed(v)))
    }

    /// Makes a name of a string that is known to be ASCII, without copying it.
    pub(crate) fn from_static_str_unchecked(v: &'static str) -> (name: HeaderName)
        requires
            is_ascii(v),
        ensures
            name@ == v@,
    {
        HeaderName(Cow::Borrowed(v))
    }

    /// Compares two names by their lower-cased bytes: the first unequal pair
    /// decides, and of two names that agree so far the shorter comes first.
    pub fn compare(&self, other: &HeaderName) -> (r: Order)
        ensures
            r == order_of(self.key(), other.key()),
    {
        compare(self.as_bytes(), other.as_bytes(), true)
    }

    /// Compares two names as `compare` does.
    pub fn cmp(&self, other: &HeaderName) -> (r: Ordering)
        ensures
            r == order_of(self.key(), other.key()).ordering(),
    {
        self.compare(other).to_ordering()
    }

    /// The bytes that stand for this name in a hash: its key.
    pub fn key_bytes(&self) -> (out: Vec<u8>)
        ensures
            out@ == self.key(),
    {
        to_lowercased(self.as_bytes())
    }
}

/// Makes a name of bytes. Fails exactly when a byte is outside ASCII.
impl<'a> TryFrom<&'a [u8]> for HeaderName {
    type Error = AsciiError;

    fn try_from(v: &'a [u8]) -> (r: Result<HeaderName, AsciiError>)
        ensures
            r is Ok <==> is_ascii_bytes(v@),
            r matches Ok(name) ==> name@ == text_of(v@),
    {
        if !all_ascii(v) {
            return Err(AsciiError);
        }
        let text = string_from_ascii(v);
        Ok(HeaderName(Cow::Owned(text)))
    }
}

/// What `try_from` returns is stated in its own contract: the name it makes holds
/// a string of its own, which no `spec` function can name.
impl<'a> TryFromSpecImpl<&'a [u8]> for HeaderName {
    open spec fn obeys_try_from_spec() -> bool {
        false
    }

    open spec fn try_from_spec(v: &'a [u8]) -> Result<Self, Self::Error> {
        arbitrary()
    }
}

/// Makes a name of a string slice. Fails exactly when a character is outside ASCII.
impl<'a> TryFrom<&'a str> for HeaderName {
    type Error = AsciiError;

    fn try_from(v: &'a str) -> (r: Result<HeaderName, AsciiError>)
        ensures
            r is Ok <==> is_ascii(v),
            r matches Ok(name) ==> name@ == v@,
    {
        if !v.is_ascii() {
            return Err(AsciiError);
        }
        Ok(HeaderName(Cow::Owned(v.to_owned())))
    }
}

/// What `try_from` returns is stated in its own contract: the name it makes holds
/// a string of its own, which no `spec` function can name.
impl<'a> TryFromSpecImpl<&'a str> for HeaderName {
    open spec fn obeys_try_from_spec() -> bool {
        false
    }

    open spec fn try_from_spec(v: &'a str) -> Result<Self, Self::Error> {
        arbitrary()
    }
}

/// Makes a name of a string, which it takes over without copying. Fails exactly
/// when a character is outside ASCII.
impl TryFrom<String> for HeaderName {
    type Error = AsciiError;

    fn try_from(v: String) -> (r: Result<HeaderName, AsciiError>)
        ensures
            r is Ok <==> is_ascii_chars(v@),
            r matches Ok(name) ==> name@ == v@,
    {
        if !v.is_ascii() {
            return Err(AsciiError);
        }
        Ok(HeaderName(Cow::Owned(v)))
    }
}

impl TryFromSpecImpl<String> for HeaderName {
    open spec fn obeys_try_from_spec() -> bool {
        true
    }

    closed spec fn try_from_spec(v: String) -> Result<Self, Self::Error> {
        if is_ascii_chars(v@) {
            Ok(HeaderName(Cow::Owned(v)))
        } else {
            Err(AsciiError)
        }
    }
}

impl Clone for HeaderName {
    fn clone(&self) -> (r: Self)
        ensures
            r@ == self@,
    {
        proof {
            use_type_invariant(self);
        }
        match &self.0 {
            Cow::Borrowed(s) => HeaderName(Cow::Borrowed(*s)),
            Cow::Owned(s) => HeaderName(Cow::Owned(s.clone())),
        }
    }
}

/// Names are equal when their keys are.
impl PartialEq for HeaderName {
    fn eq(&self, other: &Self) -> (r: bool) {
        eq_ignore_case(self.as_bytes(), other.as_bytes())
    }
}

impl PartialEqSpecImpl for HeaderName {
    open spec fn obeys_eq_spec() -> bool {
        true
    }

    open spec fn eq_spec(&self, other: &Self) -> bool {
        self.key() == other.key()
    }
}

impl Eq for HeaderName {

}

/// Names are ordered by their keys; any two names are comparable.
impl PartialOrd for HeaderName {
    fn partial_cmp(&self, other: &Self) -> (r: Option<Ordering>) {
        Some(self.cmp(other))
    }
}

impl PartialOrdSpecImpl for HeaderName {
    open spec fn obeys_partial_cmp_spec() -> bool {
        true
    }

    open spec fn partial_cmp_spec(&self, other: &Self) -> Option<Ordering> {
        Some(order_of(self.key(), other.key()).ordering())
    }
}

/// A name equals a string slice when the slice's bytes, lower-cased, are its key.
impl PartialEq<str> for HeaderName {
    fn eq(&self, other: &str) -> (r: bool) {
        eq_ignore_case(self.as_bytes(), other.as_bytes())
    }
}

impl PartialEqSpecImpl<str> for HeaderName {
    open spec fn obeys_eq_spec() -> bool {
        true
    }

    open spec fn eq_spec(&self, other: &str) -> bool {
        self.key() == lowercased(other.spec_bytes())
    }
}

/// A name equals a string when the string's bytes, lower-cased, are its key.
impl PartialEq<String> for HeaderName {
    fn eq(&self, other: &String) -> (r: bool) {
        eq_ignore_case(self.as_bytes(), other.as_str().as_bytes())
    }
}

impl PartialEqSpecImpl<String> for HeaderName {
    open spec fn obeys_eq_spec() -> bool {
        true
    }

    open spec fn eq_spec(&self, other: &String) -> bool {
        self.key() == lowercased(encode_utf8(other@))
    }
}

/// A reference to a name equals a name as the name itself does.
impl PartialEq<HeaderName> for &HeaderName {
    fn eq(&self, other: &HeaderName) -> (r: bool) {
        eq_ignore_case(self.as_bytes(), other.as_bytes())
    }
}

impl PartialEqSpecImpl<HeaderName> for &HeaderName {
    open spec fn obeys_eq_spec() -> bool {
        true
    }

    open spec fn eq_spec(&self, other: &HeaderName) -> bool {
        self.key() == other.key()
    }
}

/// A reference to a name is ordered against a name as the name itself is.
impl PartialOrd<HeaderName> for &HeaderName {
    fn partial_cmp(&self, other: &HeaderName) -> (r: Option<Ordering>) {
        Some(self.compare(other).to_ordering())
    }
}

impl PartialOrdSpecImpl<HeaderName> for &HeaderName {
    open spec fn obeys_partial_cmp_spec() -> bool {
        true
    }

    open spec fn partial_cmp_spec(&self, other: &HeaderName) -> Option<Ordering> {
        Some(order_of(self.key(), other.key()).ordering())
    }
}

/// Feeds to a hasher what stands for a name: the bytes of its key, one by one.
impl Hash for HeaderName {
    fn hash<H: Hasher>(&self, state: &mut H) {
        let key = self.key_bytes();
        let mut i: usize = 0;
        while i < key.len()
            invariant
                i <= key.len(),
            decreases key.len() - i,
        {
            write_byte(state, key[i]);
            i += 1;
        }
    }
}

/// Calls `Hasher::write_u8`, which hands one byte to the hasher. A hasher is
/// opaque here, so nothing is claimed of its state afterwards.
#[verifier::external_body]
fn write_byte<H: Hasher>(state: &mut H, byte: u8) {
    state.write_u8(byte)
}

} // verus!
