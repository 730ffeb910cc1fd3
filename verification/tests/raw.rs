use reqwest::header::HeaderMap;
use sn::error::Error;
use sn::raw::{ensure_no_body, parse_headers, parse_query};

fn parse(items: &[&str]) -> Result<HeaderMap, Error> {
    parse_headers(&items.iter().map(|s| s.to_string()).collect::<Vec<_>>())
}

fn usage_message(items: &[&str]) -> String {
    match parse(items) {
        Err(Error::Usage(m)) => m,
        other => panic!("expected a usage error, got {other:?}"),
    }
}

#[test]
fn parses_name_and_value() {
    let h = parse(&["X-no-response-body: true"]).unwrap();
    assert_eq!(h["x-no-response-body"], "true");
    assert_eq!(h.len(), 1);
}

#[test]
fn missing_colon_is_usage_error() {
    let m = usage_message(&["X-Broken"]);
    assert!(m.contains("'Name: Value'"), "message was: {m}");
}

#[test]
fn empty_name_is_usage_error() {
    assert!(usage_message(&[": value"]).contains("empty name"));
    assert!(usage_message(&["   : value"]).contains("empty name"));
}

#[test]
fn leading_space_is_trimmed_from_the_value() {
    // The conventional `Name: Value` spelling must not send " Value".
    let h = parse(&["X-Trim:   spaced"]).unwrap();
    assert_eq!(h["x-trim"], "spaced");
    // No separator space is equally fine.
    assert_eq!(parse(&["X-Trim:tight"]).unwrap()["x-trim"], "tight");
}

#[test]
fn repeated_names_append_rather_than_replace() {
    let h = parse(&["X-Multi: a", "X-Multi: b"]).unwrap();
    let values: Vec<&str> = h
        .get_all("x-multi")
        .iter()
        .map(|v| v.to_str().unwrap())
        .collect();
    assert_eq!(values, vec!["a", "b"]);
}

#[test]
fn only_the_first_colon_splits() {
    // A value may contain colons: URLs, timestamps, `key:value` payloads.
    let h = parse(&["X-Link: https://example.service-now.com/x"]).unwrap();
    assert_eq!(h["x-link"], "https://example.service-now.com/x");
}

#[test]
fn authorization_is_rejected_case_insensitively() {
    for item in [
        "Authorization: Basic abc",
        "authorization: Basic abc",
        "AUTHORIZATION: Basic abc",
    ] {
        let m = usage_message(&[item]);
        assert!(m.contains("Authorization"), "message was: {m}");
        assert!(m.contains("sn profile add"), "message was: {m}");
        assert!(m.contains("sn init"), "message was: {m}");
    }
}

#[test]
fn malformed_name_or_value_is_a_usage_error_not_a_panic() {
    assert!(usage_message(&["Bad Name: v"]).contains("invalid name"));
    assert!(usage_message(&["X-Ctl: bad\u{7f}value"]).contains("invalid value"));
}

#[test]
fn no_headers_yields_an_empty_map() {
    assert!(parse(&[]).unwrap().is_empty());
}

#[test]
fn a_query_splits_at_the_first_equals_sign() {
    let q = parse_query(&vec!["a=b=c".to_string(), "x=".to_string()]).unwrap();
    assert_eq!(
        q,
        vec![
            ("a".to_string(), "b=c".to_string()),
            ("x".to_string(), String::new()),
        ]
    );
    assert!(matches!(
        parse_query(&vec!["broken".to_string()]),
        Err(Error::Usage(_))
    ));
}

#[test]
fn a_read_takes_no_body() {
    assert!(ensure_no_body(&None, &vec![]).is_ok());
    assert!(matches!(
        ensure_no_body(&Some("{}".into()), &vec![]),
        Err(Error::Usage(_))
    ));
    assert!(matches!(
        ensure_no_body(&None, &vec!["a=1".into()]),
        Err(Error::Usage(_))
    ));
}

#[test]
fn more_headers_than_a_request_carries_are_refused() {
    let named = |n: usize| -> Vec<String> { (0..n).map(|i| format!("X-{i}: v")).collect() };
    assert_eq!(parse_headers(&named(6553)).unwrap().len(), 6553);
    match parse_headers(&named(30000)) {
        Err(Error::Usage(m)) => {
            assert_eq!(m, "--header was given more often than a request can carry")
        }
        other => panic!("expected a usage error, got {:?}", other.map(|h| h.len())),
    }
    // One name takes any number of values.
    let again: Vec<String> = (0..30000).map(|i| format!("X-Same: {i}")).collect();
    let h = parse_headers(&again).unwrap();
    assert_eq!(h.get_all("x-same").iter().count(), 30000);
    assert_eq!(h.keys_len(), 1);
}
