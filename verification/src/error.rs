//! The two ways in which header text can be invalid.

use vstd::prelude::*;

verus! {

/// A header name held a byte or character outside ASCII.
#[derive(Debug, Clone, Copy, PartialEq, Eq, Structural)]
pub struct AsciiError;

/// A header value was not valid UTF-8.
#[derive(Debug, Clone, Copy, PartialEq, Eq, Structural)]
pub struct Utf8Error;

/// Why a list of raw headers could not be taken in.
#[derive(Debug, Clone, Copy, PartialEq, Eq, Structural)]
pub enum HeaderError {
    /// A name was not ASCII.
    Name(AsciiError),
    /// A value, once unfolded, was not valid UTF-8.
    Value(Utf8Error),
}

impl AsciiError {
    /// The message that describes this error.
    pub fn message(&self) -> (text: &'static str)
        ensures
            text@ == "Invalid ASCII"@,
    {
        "Invalid ASCII"
    }
}

impl Utf8Error {
    /// The message that describes this error.
    pub fn message(&self) -> (text: &'static str)
        ensures
            text@ == "Invalid UTF-8"@,
    {
        "Invalid UTF-8"
    }
}

impl HeaderError {
    /// The message that describes this error.
    pub fn message(&self) -> (text: &'static str)
        ensures
            text@ == match *self {
                HeaderError::Name(_) => "Invalid ASCII"@,
                HeaderError::Value(_) => "Invalid UTF-8"@,
            },
    {
        match self {
            HeaderError::Name(e) => e.message(),
            HeaderError::Value(e) => e.message(),
        }
    }
}

} // verus!
