use rtsp_headers::{
    AsciiError, HeaderError, HeaderName, HeaderRef, HeaderValue, Headers, StandardHeader, Utf8Error,
};

fn name(text: &str) -> HeaderName {
    HeaderName::try_from(text).unwrap()
}

fn value(text: &str) -> HeaderValue {
    HeaderValue::from(text)
}

fn raw<'a>(name: &'a str, value: &'a [u8]) -> HeaderRef<'a> {
    HeaderRef { name: name.as_bytes(), value }
}

fn listed(headers: &Headers) -> Vec<(String, String)> {
    headers
        .iter()
        .into_iter()
        .map(|(n, v)| (n.as_str().to_string(), v.as_str().to_string()))
        .collect()
}

fn pair(name: &str, value: &str) -> (String, String) {
    (name.to_string(), value.to_string())
}

#[test]
fn folded_value_is_joined_by_one_space() {
    let headers = Headers::from_headers_ref(&[raw("X-Test", b"foo\r\n   bar")]).unwrap();
    assert_eq!(listed(&headers), vec![pair("X-Test", "foo bar")]);
}

#[test]
fn trailing_fold_leaves_no_space() {
    let headers = Headers::from_headers_ref(&[raw("X-Test", b"foo\r\n   ")]).unwrap();
    assert_eq!(listed(&headers), vec![pair("X-Test", "foo")]);
}

#[test]
fn repeated_name_is_merged_across_case() {
    let headers =
        Headers::from_headers_ref(&[raw("X-Test", b"a"), raw("x-test", b"b")]).unwrap();
    assert_eq!(listed(&headers), vec![pair("X-Test", "a, b")]);
    assert_eq!(headers.get(&name("X-TEST")).unwrap().as_str(), "a, b");
}

#[test]
fn names_come_out_in_case_insensitive_order() {
    let mut headers = Headers::new();
    headers.insert(name("zeta"), value("1"));
    headers.insert(name("Alpha"), value("2"));
    let names: Vec<&str> = headers.names().into_iter().map(|n| n.as_str()).collect();
    assert_eq!(names, vec!["Alpha", "zeta"]);
    let values: Vec<&str> = headers.values().into_iter().map(|v| v.as_str()).collect();
    assert_eq!(values, vec!["2", "1"]);
    assert_eq!(listed(&headers), vec![pair("Alpha", "2"), pair("zeta", "1")]);
}

#[test]
fn order_does_not_depend_on_the_order_of_insertion() {
    let words = ["delta", "Alpha", "CHARLIE", "bravo", "Echo"];
    let mut forward = Headers::new();
    for word in words {
        forward.insert(name(word), value(word));
    }
    let mut backward = Headers::new();
    for word in words.iter().rev() {
        backward.insert(name(word), value(word));
    }
    let expected: Vec<(String, String)> =
        ["Alpha", "bravo", "CHARLIE", "delta", "Echo"].iter().map(|w| pair(w, w)).collect();
    assert_eq!(listed(&forward), expected);
    assert_eq!(listed(&backward), expected);
    assert!(forward == backward);
}

#[test]
fn new_map_is_empty() {
    let headers = Headers::new();
    assert!(headers.iter().is_empty());
    assert!(headers.names().is_empty());
    assert!(headers.values().is_empty());
    assert!(headers.get(&name("Anything")).is_none());
}

#[test]
fn insert_overwrites_the_value() {
    let mut headers = Headers::new();
    headers.insert(name("Session"), value("v1"));
    headers.insert(name("Session"), value("v2"));
    assert_eq!(headers.get(&name("Session")).unwrap().as_str(), "v2");
    assert_eq!(headers.iter().len(), 1);
}

#[test]
fn insert_under_another_spelling_keeps_the_first_spelling() {
    let mut headers = Headers::new();
    headers.insert(name("Session"), value("v1"));
    headers.insert(name("SESSION"), value("v2"));
    assert_eq!(listed(&headers), vec![pair("Session", "v2")]);
}

#[test]
fn append_joins_with_comma_and_space() {
    let mut headers = Headers::new();
    headers.append(name("Accept"), value("a"));
    headers.append(name("Accept"), value("b"));
    assert_eq!(headers.get(&name("Accept")).unwrap().as_str(), "a, b");
    headers.append(name("ACCEPT"), value("c"));
    assert_eq!(listed(&headers), vec![pair("Accept", "a, b, c")]);
}

#[test]
fn append_to_an_absent_name_is_insert() {
    let mut appended = Headers::new();
    appended.insert(name("Date"), value("today"));
    appended.append(name("Range"), value("npt=0-"));
    let mut inserted = Headers::new();
    inserted.insert(name("Date"), value("today"));
    inserted.insert(name("Range"), value("npt=0-"));
    assert_eq!(listed(&appended), listed(&inserted));
    assert!(appended == inserted);
}

#[test]
fn append_after_insert_extends_the_inserted_value() {
    let mut headers = Headers::new();
    headers.insert(name("Public"), value("PLAY"));
    headers.append(name("public"), value("PAUSE"));
    assert_eq!(headers.get(&name("Public")).unwrap().as_str(), "PLAY, PAUSE");
}

#[test]
fn append_of_an_empty_value_still_adds_the_separator() {
    let mut headers = Headers::new();
    headers.append(name("X"), value(""));
    headers.append(name("X"), value(""));
    assert_eq!(headers.get(&name("X")).unwrap().as_str(), ", ");
}

#[test]
fn remove_of_an_absent_name_changes_nothing() {
    let mut headers = Headers::new();
    headers.remove(&name("Nothing"));
    assert!(headers.iter().is_empty());
    headers.insert(name("CSeq"), value("7"));
    headers.insert(name("Session"), value("abc"));
    let before = listed(&headers);
    headers.remove(&name("Nothing"));
    assert_eq!(listed(&headers), before);
}

#[test]
fn remove_takes_the_entry_out_whatever_the_case() {
    let mut headers = Headers::new();
    headers.insert(name("CSeq"), value("7"));
    headers.insert(name("Session"), value("abc"));
    headers.insert(name("Transport"), value("RTP"));
    headers.remove(&name("SESSION"));
    assert!(headers.get(&name("Session")).is_none());
    assert_eq!(listed(&headers), vec![pair("CSeq", "7"), pair("Transport", "RTP")]);
    headers.remove(&name("cseq"));
    headers.remove(&name("transport"));
    assert!(headers.iter().is_empty());
}

#[test]
fn get_looks_up_without_regard_to_case() {
    let mut headers = Headers::new();
    headers.insert(name("Content-Length"), value("42"));
    assert_eq!(headers.get(&name("content-length")).unwrap().as_str(), "42");
    assert_eq!(headers.get(&name("CONTENT-LENGTH")).unwrap().as_str(), "42");
    assert_eq!(headers.get(&StandardHeader::ContentLength.name()).unwrap().as_str(), "42");
    assert!(headers.get(&name("Content-Lengt")).is_none());
    assert!(headers.get(&name("Content-Length2")).is_none());
}

#[test]
fn get_finds_every_entry_of_a_larger_map() {
    let mut headers = Headers::new();
    for i in 0..40u32 {
        let text = format!("X-Header-{:02}", (i * 7) % 40);
        headers.insert(HeaderName::try_from(text.clone()).unwrap(), HeaderValue::from(text));
    }
    assert_eq!(headers.iter().len(), 40);
    for i in 0..40u32 {
        let text = format!("x-header-{:02}", i);
        let found = headers.get(&HeaderName::try_from(text.clone()).unwrap()).unwrap();
        assert_eq!(found.as_str().to_lowercase(), text);
    }
    assert!(headers.get(&name("X-Header-40")).is_none());
    let names: Vec<String> = headers.names().into_iter().map(|n| n.as_str().to_string()).collect();
    let mut sorted = names.clone();
    sorted.sort();
    assert_eq!(names, sorted);
}

#[test]
fn get_mut_changes_the_value_in_place() {
    let mut headers = Headers::new();
    headers.insert(name("Scale"), value("1.0"));
    headers.insert(name("Speed"), value("2.0"));
    *headers.get_mut(&name("SCALE")).unwrap() = value("0.5");
    headers.get_mut(&name("speed")).unwrap().push_str("-3.0");
    assert_eq!(listed(&headers), vec![pair("Scale", "0.5"), pair("Speed", "2.0-3.0")]);
    assert!(headers.get_mut(&name("Range")).is_none());
    assert_eq!(listed(&headers), vec![pair("Scale", "0.5"), pair("Speed", "2.0-3.0")]);
}

#[test]
fn equal_maps_may_spell_their_names_differently() {
    let mut a = Headers::new();
    a.insert(name("Server"), value("x"));
    let mut b = Headers::new();
    b.insert(name("SERVER"), value("x"));
    assert!(a == b);
    let mut c = Headers::new();
    c.insert(name("Server"), value("X"));
    assert!(a != c);
    let mut d = a.clone();
    assert!(a == d);
    d.insert(name("Via"), value("y"));
    assert!(a != d);
    assert!(a != Headers::new());
}

#[test]
fn clone_is_a_copy_of_its_own() {
    let mut original = Headers::new();
    original.insert(name("Date"), value("today"));
    let mut copy = original.clone();
    copy.insert(name("Date"), value("tomorrow"));
    assert_eq!(original.get(&name("Date")).unwrap().as_str(), "today");
    assert_eq!(copy.get(&name("Date")).unwrap().as_str(), "tomorrow");
}

#[test]
fn map_is_its_own_reference() {
    let mut headers = Headers::new();
    headers.insert(name("Date"), value("today"));
    let shared: &Headers = headers.as_ref();
    assert_eq!(shared.get(&name("Date")).unwrap().as_str(), "today");
    let unique: &mut Headers = headers.as_mut();
    unique.remove(&name("Date"));
    assert!(headers.iter().is_empty());
}

#[test]
fn ingestion_of_nothing_gives_an_empty_map() {
    let headers = Headers::from_headers_ref(&[]).unwrap();
    assert!(headers.iter().is_empty());
}

#[test]
fn ingestion_sorts_and_merges() {
    let headers = Headers::from_headers_ref(&[
        raw("Transport", b"RTP/AVP;unicast"),
        raw("CSeq", b"3"),
        raw("Accept", b"application/sdp"),
        raw("transport", b"RTP/AVP/TCP;\r\n\tinterleaved=0-1"),
        raw("ACCEPT", b"application/rtsl\r\n "),
    ])
    .unwrap();
    assert_eq!(
        listed(&headers),
        vec![
            pair("Accept", "application/sdp, application/rtsl"),
            pair("CSeq", "3"),
            pair("Transport", "RTP/AVP;unicast, RTP/AVP/TCP; interleaved=0-1"),
        ]
    );
}

#[test]
fn ingestion_decodes_values_as_utf8() {
    let headers = Headers::from_headers_ref(&[raw("Server", &[0xc3, 0xa9, 0x0d, 0x0a, 0x20, 0xc3, 0xa8])])
        .unwrap();
    assert_eq!(headers.get(&name("Server")).unwrap().as_str(), "\u{e9} \u{e8}");
}

#[test]
fn ingestion_reports_a_name_that_is_not_ascii() {
    let bad = [HeaderRef { name: &[b'A', 0xff], value: b"x" }];
    assert_eq!(Headers::from_headers_ref(&bad).err(), Some(HeaderError::Name(AsciiError)));
}

#[test]
fn ingestion_reports_a_value_that_is_not_utf8() {
    let bad = [raw("X-Test", &[0xc0, 0x80])];
    assert_eq!(Headers::from_headers_ref(&bad).err(), Some(HeaderError::Value(Utf8Error)));
}

#[test]
fn ingestion_checks_the_value_after_unfolding() {
    // The fold stands inside a two-byte character: what is left is not valid.
    let split = [raw("X-Test", &[0xc3, 0x0d, 0x0a, 0x20, 0xa9])];
    assert_eq!(Headers::from_headers_ref(&split).err(), Some(HeaderError::Value(Utf8Error)));
}

#[test]
fn ingestion_reports_the_first_failure() {
    let name_first = [
        raw("Good", b"1"),
        HeaderRef { name: &[0x80], value: &[0xff] },
        raw("Later", &[0xff]),
    ];
    assert_eq!(Headers::from_headers_ref(&name_first).err(), Some(HeaderError::Name(AsciiError)));
    let value_first = [
        raw("Good", b"1"),
        raw("Bad-Value", &[0xff]),
        HeaderRef { name: &[0x80], value: b"fine" },
    ];
    assert_eq!(Headers::from_headers_ref(&value_first).err(), Some(HeaderError::Value(Utf8Error)));
}

#[test]
fn errors_describe_themselves() {
    assert_eq!(AsciiError.message(), "Invalid ASCII");
    assert_eq!(Utf8Error.message(), "Invalid UTF-8");
    assert_eq!(HeaderError::Name(AsciiError).message(), "Invalid ASCII");
    assert_eq!(HeaderError::Value(Utf8Error).message(), "Invalid UTF-8");
}
