use sn::error::Error;
use sn::graphql::{build_variables, errors_to_api_error, graphql_errors};
use sn::json::{parse, Json};

fn doc(s: &str) -> Json {
    parse(s).unwrap()
}

#[test]
fn variables_none_when_nothing_given() {
    assert!(build_variables(None, &vec![]).unwrap().is_none());
}

#[test]
fn var_flags_build_string_variables() {
    let v = build_variables(None, &vec!["id=abc".into(), "q=active=true".into()])
        .unwrap()
        .unwrap();
    assert_eq!(v.get_str("id").unwrap(), "abc");
    // Only the first '=' splits, so encoded queries pass through intact.
    assert_eq!(v.get_str("q").unwrap(), "active=true");
}

#[test]
fn var_overrides_variables_json() {
    let v = build_variables(Some(r#"{"id": "old", "limit": 5}"#), &vec!["id=new".into()])
        .unwrap()
        .unwrap();
    assert_eq!(v.get_str("id").unwrap(), "new");
    assert_eq!(v.get("limit").unwrap().render(), "5");
}

#[test]
fn variables_must_be_an_object() {
    let err = build_variables(Some("[1,2]"), &vec![]).unwrap_err();
    assert!(matches!(err, Error::Usage(_)));
}

#[test]
fn malformed_var_is_usage_error() {
    for bad in ["novalue", "=v"] {
        let err = build_variables(None, &vec![bad.to_string()]).unwrap_err();
        assert!(matches!(err, Error::Usage(_)), "{bad} should be rejected");
    }
}

#[test]
fn variables_that_are_no_json_are_a_usage_error() {
    let err = build_variables(Some("{oops"), &vec![]).unwrap_err();
    assert!(matches!(err, Error::Usage(_)), "{err:?}");
}

#[test]
fn errors_map_to_api_exit_2_with_sn_error() {
    let errs = vec![
        doc(r#"{"message": "Validation error", "errorType": "ValidationError"}"#),
        doc(r#"{"message": "second"}"#),
    ];
    let err = errors_to_api_error(errs);
    assert_eq!(err.exit_code(), 2);
    match err {
        Error::Api {
            status,
            message,
            detail,
            sn_error,
            ..
        } => {
            assert_eq!(status, 200);
            assert_eq!(message, "Validation error");
            assert_eq!(detail.as_deref(), Some("2 errors in total"));
            assert_eq!(sn_error.unwrap().as_array().unwrap().len(), 2);
        }
        other => panic!("expected Api error, got {other:?}"),
    }
}

#[test]
fn empty_errors_for_clean_response() {
    assert!(graphql_errors(&doc(r#"{"data": {"x": 1}}"#)).is_empty());
    assert_eq!(
        graphql_errors(&doc(r#"{"data": null, "errors": [{"message": "m"}]}"#)).len(),
        1
    );
}
