use rtsp_headers::ascii::{all_ascii, eq_ignore_case, to_lower, to_lowercased};
use rtsp_headers::order::compare;
use rtsp_headers::{AsciiError, HeaderName, Order, StandardHeader};
use std::cmp::Ordering;
use std::collections::hash_map::DefaultHasher;
use std::collections::HashSet;
use std::hash::{Hash, Hasher};

fn name(text: &str) -> HeaderName {
    HeaderName::try_from(text).unwrap()
}

fn hash_of(name: &HeaderName) -> u64 {
    let mut hasher = DefaultHasher::new();
    name.hash(&mut hasher);
    hasher.finish()
}

#[test]
fn name_from_bytes_with_0xff_is_rejected() {
    let bytes: &[u8] = &[b'A', 0xff, b'B'];
    assert_eq!(HeaderName::try_from(bytes).err(), Some(AsciiError));
}

#[test]
fn name_from_bytes_at_the_ascii_border() {
    let highest: &[u8] = &[0x7f];
    assert!(HeaderName::try_from(highest).is_ok());
    let first_outside: &[u8] = &[0x80];
    assert_eq!(HeaderName::try_from(first_outside).err(), Some(AsciiError));
}

#[test]
fn name_from_bytes_spells_the_bytes() {
    let bytes: &[u8] = b"Content-Length";
    let made = HeaderName::try_from(bytes).unwrap();
    assert_eq!(made.as_str(), "Content-Length");
    assert_eq!(made.as_bytes(), bytes);
}

#[test]
fn name_from_str_rejects_what_is_not_ascii() {
    assert_eq!(HeaderName::try_from("Caf\u{e9}").err(), Some(AsciiError));
    assert_eq!(HeaderName::try_from(String::from("na\u{ef}ve")).err(), Some(AsciiError));
    assert_eq!(HeaderName::from_static_str("\u{2603}").err(), Some(AsciiError));
}

#[test]
fn name_from_every_source_keeps_the_text() {
    assert_eq!(HeaderName::from_static_str("CSeq").unwrap().as_str(), "CSeq");
    assert_eq!(HeaderName::try_from("CSeq").unwrap().as_str(), "CSeq");
    assert_eq!(HeaderName::try_from(String::from("CSeq")).unwrap().as_str(), "CSeq");
}

#[test]
fn empty_name_is_a_name() {
    let empty = name("");
    assert_eq!(empty.as_str(), "");
    assert_eq!(empty.compare(&name("a")), Order::Less);
    assert_eq!(empty.compare(&name("")), Order::Equal);
}

#[test]
fn name_keeps_the_case_it_was_written_in() {
    assert_eq!(name("cOnTeNt-TyPe").as_str(), "cOnTeNt-TyPe");
    assert_eq!(name("cOnTeNt-TyPe").clone().as_str(), "cOnTeNt-TyPe");
}

#[test]
fn names_that_differ_in_case_are_equal() {
    let a = name("Content-Type");
    let b = name("content-type");
    let c = name("CONTENT-TYPE");
    assert!(a == b);
    assert!(b == c);
    assert!(a == c);
    assert!(&a == b);
    assert!(!(a != b));
}

#[test]
fn names_that_differ_otherwise_are_not_equal() {
    assert!(name("Content-Type") != name("Content-Typ"));
    assert!(name("Content-Type") != name("Content_Type"));
    assert!(name("A") != name("B"));
    // '@' and '`' stand one below 'A' and 'a'; '[' and '{' one above 'Z' and 'z'.
    assert!(name("@") != name("`"));
    assert!(name("[") != name("{"));
}

#[test]
fn names_that_differ_in_case_hash_alike() {
    let a = name("Content-Type");
    let b = name("content-TYPE");
    assert_eq!(hash_of(&a), hash_of(&b));
    assert_eq!(a.key_bytes(), b.key_bytes());
    assert_eq!(a.key_bytes(), b"content-type".to_vec());
}

#[test]
fn names_work_as_keys_of_a_hash_set() {
    let mut seen = HashSet::new();
    assert!(seen.insert(name("Session")));
    assert!(!seen.insert(name("SESSION")));
    assert!(seen.contains(&name("session")));
    assert_eq!(seen.len(), 1);
}

#[test]
fn names_that_differ_in_case_compare_alike_to_a_third() {
    let a = name("Range");
    let b = name("rANGE");
    for third in ["Accept", "range", "Range-Extra", "Session", "", "Rang"] {
        let c = name(third);
        assert_eq!(a.compare(&c), b.compare(&c));
        assert_eq!(c.compare(&a), c.compare(&b));
        assert_eq!(a.partial_cmp(&c), b.partial_cmp(&c));
        assert_eq!(a == c, b == c);
    }
}

#[test]
fn name_order_ignores_case() {
    assert_eq!(name("Alpha").compare(&name("zeta")), Order::Less);
    assert_eq!(name("zeta").compare(&name("Alpha")), Order::Greater);
    assert_eq!(name("alpha").compare(&name("Zeta")), Order::Less);
    // In plain byte order 'Z' sorts before 'a'; here it does not.
    assert_eq!(name("Z").compare(&name("a")), Order::Greater);
    assert_eq!(name("ABC").compare(&name("abc")), Order::Equal);
}

#[test]
fn shorter_name_sorts_first_when_it_is_a_prefix() {
    assert_eq!(name("Accept").compare(&name("Accept-Ranges")), Order::Less);
    assert_eq!(name("ACCEPT-RANGES").compare(&name("accept")), Order::Greater);
}

#[test]
fn first_unequal_byte_decides_the_order() {
    assert_eq!(name("ab").compare(&name("b")), Order::Less);
    assert_eq!(name("Transport").compare(&name("Timestamp")), Order::Greater);
}

#[test]
fn name_order_in_the_standard_librarys_terms() {
    let a = name("Alpha");
    let z = name("zeta");
    assert_eq!(a.cmp(&z), Ordering::Less);
    assert_eq!(z.cmp(&a), Ordering::Greater);
    assert_eq!(a.cmp(&name("ALPHA")), Ordering::Equal);
    assert_eq!(a.partial_cmp(&z), Some(Ordering::Less));
    assert!(a < z);
    assert!(z > a);
    assert!(a <= name("alpha"));
    assert!(&a < z);
}

#[test]
fn name_equals_strings_without_regard_to_case() {
    let a = name("User-Agent");
    assert!(a == *"user-agent");
    assert!(a == String::from("USER-AGENT"));
    assert!(a != *"user_agent");
    assert!(a != *"user-agent\u{e9}");
}

#[test]
fn lower_casing_moves_letters_only() {
    assert_eq!(to_lower(b'A'), b'a');
    assert_eq!(to_lower(b'Z'), b'z');
    assert_eq!(to_lower(b'a'), b'a');
    assert_eq!(to_lower(b'@'), b'@');
    assert_eq!(to_lower(b'['), b'[');
    assert_eq!(to_lower(b'-'), b'-');
    assert_eq!(to_lower(0xc9), 0xc9);
    assert_eq!(to_lowercased(b"RTP-Info 9"), b"rtp-info 9".to_vec());
}

#[test]
fn ascii_test_looks_at_every_byte() {
    assert!(all_ascii(b""));
    assert!(all_ascii(b"plain text\x7f"));
    assert!(!all_ascii(b"plain\x80"));
    assert!(!all_ascii(&[0xff]));
}

#[test]
fn equality_without_case_needs_equal_lengths() {
    assert!(eq_ignore_case(b"abc", b"ABC"));
    assert!(!eq_ignore_case(b"abc", b"ABCD"));
    assert!(!eq_ignore_case(b"abc", b"abd"));
    assert!(eq_ignore_case(b"", b""));
}

#[test]
fn byte_comparison_with_and_without_case() {
    assert_eq!(compare(b"Z", b"a", false), Order::Less);
    assert_eq!(compare(b"Z", b"a", true), Order::Greater);
    assert_eq!(compare(b"abc", b"abc", false), Order::Equal);
    assert_eq!(compare(b"abc", b"ABC", false), Order::Greater);
    assert_eq!(compare(b"abc", b"ABC", true), Order::Equal);
    assert_eq!(compare(b"ab", b"abc", false), Order::Less);
    assert_eq!(compare(b"abc", b"ab", false), Order::Greater);
    assert_eq!(compare(b"", b"", true), Order::Equal);
    assert_eq!(compare(&[0xff], &[0x00, 0x00], false), Order::Greater);
}

#[test]
fn order_converts_to_the_standard_ordering() {
    assert_eq!(Order::Less.to_ordering(), Ordering::Less);
    assert_eq!(Order::Equal.to_ordering(), Ordering::Equal);
    assert_eq!(Order::Greater.to_ordering(), Ordering::Greater);
}

#[test]
fn standard_names_have_their_canonical_text() {
    assert_eq!(StandardHeader::Accept.as_str(), "Accept");
    assert_eq!(StandardHeader::CSeq.as_str(), "CSeq");
    assert_eq!(StandardHeader::MTag.as_str(), "MTag");
    assert_eq!(StandardHeader::RtpInfo.as_str(), "RTP-Info");
    assert_eq!(StandardHeader::WwwAuthenticate.as_str(), "WWW-Authenticate");
    assert_eq!(StandardHeader::ContentLength.name().as_str(), "Content-Length");
    assert_eq!(StandardHeader::IfModifiedSince.name().as_str(), "If-Modified-Since");
    assert_eq!(StandardHeader::ProxyAuthenticationInfo.name().as_str(), "Proxy-Authentication-Info");
}

#[test]
fn standard_name_matches_other_spellings() {
    assert!(StandardHeader::ContentType.name() == name("content-type"));
    assert!(StandardHeader::Session.name() != name("Sessions"));
}
