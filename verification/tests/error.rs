use sn::error::{Error, NO_HTTP_STATUS};
use sn::json::parse;

#[test]
fn exit_codes_match_spec() {
    assert_eq!(Error::Usage("x".into()).exit_code(), 1);
    assert_eq!(Error::Config("x".into()).exit_code(), 1);
    assert_eq!(
        Error::Api {
            status: 400,
            message: "x".into(),
            detail: None,
            transaction_id: None,
            sn_error: None
        }
        .exit_code(),
        2
    );
    assert_eq!(Error::Transport("x".into()).exit_code(), 3);
    assert_eq!(
        Error::Auth {
            status: 401,
            message: "x".into(),
            transaction_id: None
        }
        .exit_code(),
        4
    );
}

#[test]
fn a_closed_pipe_is_a_success() {
    assert_eq!(Error::BrokenPipe.exit_code(), 0);
}

#[test]
fn stderr_envelope_includes_optional_fields() {
    let e = Error::Api {
        status: 404,
        message: "not found".into(),
        detail: Some("no record".into()),
        transaction_id: Some("tx1".into()),
        sn_error: Some(parse(r#"{"message": "nope"}"#).unwrap()),
    };
    let v = e.to_stderr_json();
    let error = v.get("error").unwrap();
    assert_eq!(error.get_str("message").unwrap(), "not found");
    assert_eq!(error.get_str("detail").unwrap(), "no record");
    assert_eq!(error.get("status_code").unwrap().render(), "404");
    assert_eq!(error.get_str("transaction_id").unwrap(), "tx1");
    assert_eq!(
        error.get("sn_error").unwrap().get_str("message").unwrap(),
        "nope"
    );
}

#[test]
fn stderr_envelope_omits_status_code_for_statusless_api_errors() {
    // A failed wait: the HTTP call succeeded, the *operation* failed. The key
    // must be absent, not null and not 0: agents branch on its presence.
    let e = Error::Api {
        status: NO_HTTP_STATUS,
        message: "update set commit failed".into(),
        detail: None,
        transaction_id: None,
        sn_error: None,
    };
    let v = e.to_stderr_json();
    assert!(
        v.get("error").unwrap().get("status_code").is_none(),
        "status_code must be absent: {}",
        v.render()
    );
    assert_eq!(e.exit_code(), 2);
    assert_eq!(e.text(), "API error: update set commit failed");
}

#[test]
fn instance_errors_carry_no_status_code() {
    // An HTTP 200 whose body is untrustworthy is not an HTTP failure, so the
    // key must be absent entirely.
    let e = Error::Instance {
        message: "the query was not evaluated".into(),
        detail: Some("scripted query evaluation appears to be disabled".into()),
    };
    assert_eq!(e.exit_code(), 2);
    let v = e.to_stderr_json();
    let error = v.get("error").unwrap();
    assert_eq!(
        error.get_str("message").unwrap(),
        "the query was not evaluated"
    );
    assert_eq!(
        error.get_str("detail").unwrap(),
        "scripted query evaluation appears to be disabled"
    );
    assert!(
        error.get("status_code").is_none(),
        "a non-HTTP failure must not report an HTTP status: {}",
        v.render()
    );
}

#[test]
fn stderr_envelope_omits_none_fields() {
    let e = Error::Transport("dns".into());
    let v = e.to_stderr_json();
    assert!(v.get("error").unwrap().get("status_code").is_none());
    assert!(v.get("error").unwrap().get("sn_error").is_none());
}
