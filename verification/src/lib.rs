//! Case-insensitive header names, header values and the ordered header map of an
//! RTSP-style text protocol.
//!
//! A [`HeaderName`] is ASCII text that is compared, ordered and hashed without
//! regard to the case of its letters; a [`HeaderValue`] is any UTF-8 text. A
//! [`Headers`] map holds at most one value under each name and hands its entries
//! out in ascending order of the names. [`Headers::from_headers_ref`] builds a map
//! from raw name and value bytes: it unfolds values that run over several lines
//! and joins the values of a name that comes more than once.

pub mod ascii;
pub mod error;
pub mod folding;
pub mod headers;
pub mod model;
pub mod name;
pub mod name_laws;
pub mod order;
pub mod sorted;
pub mod standard;
pub mod utf8;
pub mod value;

pub use error::{AsciiError, HeaderError, Utf8Error};
pub use headers::{HeaderRef, Headers};
pub use name::HeaderName;
pub use order::Order;
pub use standard::StandardHeader;
pub use value::HeaderValue;
