use sn::client::{http_error, normalize_base_url, parse_response_inner, redact_token_json, truncate_body};
use sn::error::Error;
use sn::session::collect_session_cookies;

fn headers(raw: &[&str]) -> Vec<String> {
    raw.iter().map(|s| s.to_string()).collect()
}

#[test]
fn session_cookies_keep_name_value_and_drop_attributes() {
    let h = headers(&[
        "JSESSIONID=ABC123; Path=/; HttpOnly",
        "glide_user_route=node42; Path=/; Secure; HttpOnly",
    ]);
    let jar = collect_session_cookies(&h);
    assert_eq!(
        jar,
        vec![
            ("JSESSIONID".to_string(), "ABC123".to_string()),
            ("glide_user_route".to_string(), "node42".to_string()),
        ]
    );
}

#[test]
fn tombstone_cookies_are_dropped() {
    // These are cleared by being sent again empty with Max-Age=0. Forwarding an
    // empty value would unset the real cookie on some stacks.
    let h = headers(&[
        "JSESSIONID=ABC123; Path=/; HttpOnly",
        "glide_user=; Max-Age=0; Expires=Thu, 01-Jan-1970 00:00:10 GMT; Path=/",
        "glide_user_session=; Max-Age=0; Path=/",
    ]);
    let jar = collect_session_cookies(&h);
    assert_eq!(jar.len(), 1, "only the live cookie survives: {jar:?}");
    assert_eq!(jar[0].0, "JSESSIONID");
}

#[test]
fn cookie_value_containing_equals_is_preserved() {
    // Base64-ish session values can carry '='; only the FIRST '=' separates.
    let h = headers(&["glide_session_store=aGVsbG8=; Path=/"]);
    let jar = collect_session_cookies(&h);
    assert_eq!(jar[0].1, "aGVsbG8=");
}

#[test]
fn no_cookies_yields_empty_jar() {
    assert!(collect_session_cookies(&headers(&[])).is_empty());
}

#[test]
fn token_secrets_are_masked_but_metadata_stays_readable() {
    let body = r#"{"access_token":"AT_SECRET","refresh_token":"RT_SECRET","id_token":"ID_SECRET","token_type":"Bearer","expires_in":1800,"scope":"useraccount"}"#;
    let out = redact_token_json(body);

    // No secret value survives.
    assert!(!out.contains("AT_SECRET"), "access_token leaked: {out}");
    assert!(!out.contains("RT_SECRET"), "refresh_token leaked: {out}");
    assert!(!out.contains("ID_SECRET"), "id_token leaked: {out}");
    assert!(out.contains("****"), "expected mask marker: {out}");

    // Non-secret metadata remains legible for debugging.
    assert!(out.contains("\"token_type\":\"Bearer\""), "{out}");
    assert!(out.contains("\"expires_in\":1800"), "{out}");
    assert!(out.contains("\"scope\":\"useraccount\""), "{out}");
}

#[test]
fn error_response_passes_through_without_masking() {
    // Token-endpoint errors carry no secret and are useful verbatim.
    let body = r#"{"error":"invalid_grant","error_description":"code expired"}"#;
    let out = redact_token_json(body);
    assert!(out.contains("invalid_grant"), "{out}");
    assert!(out.contains("code expired"), "{out}");
}

#[test]
fn non_object_body_collapses_to_placeholder() {
    // An HTML error page (or any non-object) must not reach the log verbatim.
    let out = redact_token_json("<html>access_token=leaked</html>");
    assert_eq!(out, "<token response: redacted>");
    assert!(!out.contains("leaked"));
}

#[test]
fn a_base_url_has_a_scheme_and_no_slash_at_its_end() {
    assert_eq!(
        normalize_base_url("acme.service-now.com"),
        "https://acme.service-now.com"
    );
    assert_eq!(
        normalize_base_url("https://acme.service-now.com/"),
        "https://acme.service-now.com"
    );
    assert_eq!(normalize_base_url("http://localhost:8080/"), "http://localhost:8080");
}

#[test]
fn a_long_body_is_cut_by_characters() {
    assert_eq!(truncate_body("abc", 3), "abc");
    let cut = truncate_body("ééééé", 2);
    assert!(cut.starts_with("éé"), "{cut}");
    assert!(!cut.starts_with("ééé"), "{cut}");
}

#[test]
fn an_unauthorized_answer_is_a_failed_login() {
    match http_error(401, Some("tx".into()), None, "") {
        Error::Auth {
            status,
            transaction_id,
            ..
        } => {
            assert_eq!(status, 401);
            assert_eq!(transaction_id.as_deref(), Some("tx"));
        }
        other => panic!("expected an auth error, got {other:?}"),
    }
}

#[test]
fn a_status_without_a_body_is_named_by_its_reason() {
    let err = http_error(404, None, None, "");
    assert!(err.text().contains("404 Not Found"), "{}", err.text());
}

#[test]
fn an_error_body_gives_the_message_and_the_detail() {
    let text = r#"{"error": {"message": "No Record found", "detail": "Record doesn't exist"}}"#;
    match parse_response_inner(404, None, text) {
        Err(Error::Api {
            status,
            message,
            detail,
            ..
        }) => {
            assert_eq!(status, 404);
            assert_eq!(message, "No Record found");
            assert_eq!(detail.as_deref(), Some("Record doesn't exist"));
        }
        other => panic!("expected an API error, got {other:?}"),
    }
}

#[test]
fn a_success_gives_the_body() {
    let v = parse_response_inner(200, None, r#"{"result": []}"#).unwrap();
    assert_eq!(v.render(), r#"{"result":[]}"#);
}

#[test]
fn a_nested_answer_collapses_to_placeholder() {
    for body in [
        r#"{"result":{"access_token":"AT"}}"#,
        r#"{"tokens":["AT"],"scope":"x"}"#,
        r#"{"access_token":{"value":"AT"}}"#,
        r#"["AT"]"#,
    ] {
        let out = redact_token_json(body);
        assert_eq!(out, "<token response: redacted>", "{body}");
        assert!(!out.contains("AT"));
    }
    assert_eq!(
        redact_token_json(r#"{"access_token":"AT","expires_in":1800,"ok":true,"x":null}"#),
        r#"{"access_token":"****","expires_in":1800,"ok":true,"x":null}"#
    );
}
