use rtsp_headers::{HeaderValue, Utf8Error};
use std::cmp::Ordering;

#[test]
fn value_from_overlong_bytes_is_rejected() {
    let bytes: &[u8] = &[0xc0, 0x80];
    assert_eq!(HeaderValue::try_from(bytes).err(), Some(Utf8Error));
    assert_eq!(HeaderValue::try_from(vec![0xc0, 0x80]).err(), Some(Utf8Error));
}

#[test]
fn value_from_broken_bytes_is_rejected() {
    assert_eq!(HeaderValue::try_from(vec![0xff]).err(), Some(Utf8Error));
    // A sequence that stops short, and a surrogate.
    assert_eq!(HeaderValue::try_from(vec![b'a', 0xe2, 0x82]).err(), Some(Utf8Error));
    assert_eq!(HeaderValue::try_from(vec![0xed, 0xa0, 0x80]).err(), Some(Utf8Error));
}

#[test]
fn value_from_bytes_decodes_them() {
    let two: &[u8] = &[0xc3, 0xa9];
    assert_eq!(HeaderValue::try_from(two).unwrap().as_str(), "\u{e9}");
    assert_eq!(HeaderValue::try_from(vec![0xe2, 0x82, 0xac, b'5']).unwrap().as_str(), "\u{20ac}5");
    assert_eq!(HeaderValue::try_from(Vec::new()).unwrap().as_str(), "");
    assert_eq!(HeaderValue::try_from(b"plain".to_vec()).unwrap().as_str(), "plain");
}

#[test]
fn value_from_text_keeps_it_unchanged() {
    assert_eq!(HeaderValue::from("  Spaced Out  ").as_str(), "  Spaced Out  ");
    assert_eq!(HeaderValue::from(String::from("MiXeD")).as_str(), "MiXeD");
    assert_eq!(HeaderValue::from("").as_str(), "");
}

#[test]
fn value_equality_counts_case() {
    assert!(HeaderValue::from("abc") == HeaderValue::from("abc"));
    assert!(HeaderValue::from("abc") != HeaderValue::from("ABC"));
    assert!(HeaderValue::from("abc") != HeaderValue::from("abc "));
    assert!(&HeaderValue::from("abc") == HeaderValue::from("abc"));
}

#[test]
fn value_equals_strings_exactly() {
    let value = HeaderValue::from("npt=0-");
    assert!(value == *"npt=0-");
    assert!(value != *"NPT=0-");
    assert!(value == String::from("npt=0-"));
    assert!(value != String::from("npt=0"));
}

#[test]
fn value_order_is_that_of_the_bytes() {
    let upper = HeaderValue::from("Z");
    let lower = HeaderValue::from("a");
    assert_eq!(upper.cmp(&lower), Ordering::Less);
    assert_eq!(lower.cmp(&upper), Ordering::Greater);
    assert_eq!(upper.partial_cmp(&lower), Some(Ordering::Less));
    assert!(upper < lower);
    assert!(HeaderValue::from("ab") < HeaderValue::from("abc"));
    assert!(HeaderValue::from("abc") <= HeaderValue::from("abc"));
    assert!(HeaderValue::from("z") < HeaderValue::from("\u{e9}"));
    assert!(&upper < lower);
    assert_eq!(Ord::cmp(&upper, &lower), Ordering::Less);
}

#[test]
fn value_grows_at_its_end() {
    let mut value = HeaderValue::from("a");
    value.push_str(", ");
    value.push_str("b");
    assert_eq!(value.as_str(), "a, b");
}

#[test]
fn value_clone_is_equal() {
    let value = HeaderValue::from("copy me");
    assert!(value.clone() == value);
}
