use sn::context::{
    alias_rows, context_json, guarded_rows, parse_state, reference_value, validate_target,
    ContextRead, ContextState, ScopeRow, UpdateSetRow, UpdateSetSource,
};
use sn::error::Error;
use sn::json::{parse, Json};

fn doc(s: &str) -> Json {
    parse(s).unwrap()
}

fn graphql_resp(aliases: &str) -> Json {
    doc(&format!(
        r#"{{ "data": {{ "GlideRecord_Query": {aliases} }} }}"#
    ))
}

fn scope_result(sys_id: &str, name: &str, scope: &str) -> String {
    format!(
        r#"{{ "sys_id": {{"value": "{sys_id}"}}, "name": {{"value": "{name}"}}, "scope": {{"value": "{scope}"}} }}"#
    )
}

fn us_result(sys_id: &str, name: &str, application: &str) -> String {
    format!(
        r#"{{ "sys_id": {{"value": "{sys_id}"}}, "name": {{"value": "{name}"}}, "application": {{"value": "{application}"}} }}"#
    )
}

fn results(rows: &[String]) -> String {
    format!(r#"{{ "_results": [{}] }}"#, rows.join(","))
}

fn state_of(r: ContextRead) -> ContextState {
    match r {
        ContextRead::State(s) => s,
        other => panic!("expected a context, got {other:?}"),
    }
}

fn canaries() -> String {
    format!(
        r#""canary": {}, "us_canary": {}"#,
        results(&[scope_result("global", "Global", "global")]),
        results(&[r#"{"sys_id": {"value": "d"}}"#.to_string()])
    )
}

#[test]
fn guarded_rows_rejects_a_second_row() {
    let resp = graphql_resp(&format!(
        r#"{{ "scope": {} }}"#,
        results(&[scope_result("a", "A", "a"), scope_result("b", "B", "b")])
    ));
    let err = guarded_rows(&resp, "scope").unwrap_err();
    assert!(matches!(err, Error::Instance { .. }));
    assert!(err.text().contains("javascript:"));
}

#[test]
fn missing_alias_is_instance_error_not_empty() {
    let resp = graphql_resp("{}");
    assert!(matches!(
        alias_rows(&resp, "canary").unwrap_err(),
        Error::Instance { .. }
    ));
}

#[test]
fn empty_canaries_are_an_access_verdict() {
    let none = results(&[]);
    let resp = graphql_resp(&format!(
        r#"{{ "canary": {none}, "us_canary": {none}, "scope": {none}, "active": {none},
              "remembered": {none}, "fallback": {none} }}"#
    ));
    match parse_state(&resp) {
        ContextRead::Fail(err) => {
            assert!(matches!(err, Error::Instance { .. }));
            assert!(err.text().contains("invisible"));
        }
        other => panic!("expected a failure, got {other:?}"),
    }
}

#[test]
fn stale_preference_falls_back_to_scope_memory() {
    // Scope is WCC; the active preference still points at a Global set.
    let resp = graphql_resp(&format!(
        r#"{{ {}, "scope": {}, "active": {}, "remembered": {}, "fallback": {} }}"#,
        canaries(),
        results(&[scope_result("wcc", "Weekend Change Console", "x_wcc")]),
        results(&[us_result("g1", "Probe", "global")]),
        results(&[us_result("w1", "Default", "wcc")]),
        results(&[us_result("w1", "Default", "wcc")])
    ));
    let state = state_of(parse_state(&resp));
    assert_eq!(state.scope.sys_id, "wcc");
    let (row, source) = state.update_set.as_ref().expect("resolved");
    assert_eq!(row.sys_id, "w1");
    assert_eq!(*source, UpdateSetSource::ScopeMemory);

    let out = context_json(&state, None);
    assert!(matches!(out.get("preference_stale"), Some(Json::Bool(true))));
    assert_eq!(
        out.get("update_set").unwrap().get_str("source").unwrap(),
        "scope-memory"
    );
}

#[test]
fn missing_preference_means_global() {
    let resp = graphql_resp(&format!(
        r#"{{ {}, "scope": {}, "active": {}, "remembered": {}, "fallback": {} }}"#,
        canaries(),
        results(&[]),
        results(&[us_result("d", "Default", "global")]),
        results(&[]),
        results(&[us_result("d", "Default", "global")])
    ));
    let state = state_of(parse_state(&resp));
    assert_eq!(state.scope.sys_id, "global");
    let (row, source) = state.update_set.as_ref().expect("resolved");
    assert_eq!(row.sys_id, "d");
    assert_eq!(*source, UpdateSetSource::Preference);
    assert!(context_json(&state, None).get("preference_stale").is_none());
}

#[test]
fn no_update_set_resolvable_is_null_with_note() {
    let resp = graphql_resp(&format!(
        r#"{{ {}, "scope": {}, "active": {}, "remembered": {}, "fallback": {} }}"#,
        canaries(),
        results(&[scope_result("wcc", "WCC", "x_wcc")]),
        results(&[us_result("g1", "Probe", "global")]),
        results(&[]),
        results(&[])
    ));
    let state = state_of(parse_state(&resp));
    assert!(state.update_set.is_none());
    let out = context_json(&state, None);
    assert!(matches!(out.get("update_set"), Some(Json::Null)));
    assert!(out.get_str("note").unwrap().contains("no update set"));
}

#[test]
fn previous_context_rides_along() {
    let default_set = || {
        Some((
            UpdateSetRow {
                sys_id: "d".into(),
                name: "Default".into(),
                application: "global".into(),
            },
            UpdateSetSource::Preference,
        ))
    };
    let prev = ContextState {
        scope: ScopeRow {
            sys_id: "global".into(),
            name: "Global".into(),
            scope: "global".into(),
        },
        update_set: default_set(),
    };
    let state = ContextState {
        scope: ScopeRow {
            sys_id: "wcc".into(),
            name: "WCC".into(),
            scope: "x_wcc".into(),
        },
        update_set: default_set(),
    };
    let out = context_json(&state, Some(&prev));
    let previous = out.get("previous").unwrap();
    assert_eq!(
        previous.get("scope").unwrap().get_str("sys_id").unwrap(),
        "global"
    );
    assert_eq!(
        previous.get("update_set").unwrap().get_str("name").unwrap(),
        "Default"
    );
}

#[test]
fn target_validation() {
    assert!(validate_target("  x_scope ").is_ok());
    assert!(matches!(validate_target(""), Err(Error::Usage(_))));
    assert!(matches!(validate_target("a^b"), Err(Error::Usage(_))));
}

#[test]
fn a_target_is_trimmed() {
    assert_eq!(validate_target("  x_scope ").unwrap(), "x_scope");
}

#[test]
fn reference_value_takes_both_shapes() {
    assert_eq!(
        reference_value(Some(&doc(r#"{"value": "abc", "link": "https://x"}"#))),
        Some("abc".into())
    );
    assert_eq!(reference_value(Some(&doc(r#""abc""#))), Some("abc".into()));
    assert_eq!(reference_value(Some(&doc(r#""""#))), None);
    assert_eq!(reference_value(None), None);
}

#[test]
fn a_nameless_global_scope_makes_the_answer_unusable() {
    let none = results(&[]);
    let resp = graphql_resp(&format!(
        r#"{{ "canary": {{"_results": [{{}}]}}, "us_canary": {}, "scope": {none}, "active": {none},
              "remembered": {none}, "fallback": {none} }}"#,
        results(&[r#"{"sys_id": {"value": "d"}}"#.to_string()])
    ));
    assert!(matches!(parse_state(&resp), ContextRead::Unusable));
}

/// A context in the scope `wcc` whose preference belongs to another scope, with the
/// given other parts.
fn wcc_resp(parts: &str) -> Json {
    graphql_resp(&format!(
        r#"{{ {}, "scope": {}, "active": {}{parts} }}"#,
        canaries(),
        results(&[scope_result("wcc", "WCC", "x_wcc")]),
        results(&[us_result("g1", "Probe", "global")])
    ))
}

fn failure_of(r: ContextRead) -> Error {
    match r {
        ContextRead::Fail(e) => e,
        other => panic!("expected a failure, got {other:?}"),
    }
}

#[test]
fn a_second_row_anywhere_fails_where_it_is_looked_at() {
    let two = results(&[us_result("w1", "A", "wcc"), us_result("w2", "B", "wcc")]);
    let one = results(&[us_result("w1", "A", "wcc")]);
    let none = results(&[]);

    let e = failure_of(parse_state(&wcc_resp(&format!(
        r#", "remembered": {two}, "fallback": {one}"#
    ))));
    assert!(matches!(e, Error::Instance { .. }));
    assert!(e.text().contains("javascript:"));

    let e = failure_of(parse_state(&wcc_resp(&format!(
        r#", "remembered": {none}, "fallback": {two}"#
    ))));
    assert!(matches!(e, Error::Instance { .. }));

    // What the memory of the scope settles is not looked for further.
    let state = state_of(parse_state(&wcc_resp(&format!(
        r#", "remembered": {one}, "fallback": {two}"#
    ))));
    let (row, source) = state.update_set.expect("resolved");
    assert_eq!(row.sys_id, "w1");
    assert_eq!(source, UpdateSetSource::ScopeMemory);
}

#[test]
fn a_missing_part_fails_where_it_is_looked_at() {
    let none = results(&[]);
    let e = failure_of(parse_state(&wcc_resp("")));
    assert!(matches!(e, Error::Instance { .. }));
    let e = failure_of(parse_state(&wcc_resp(&format!(r#", "remembered": {none}"#))));
    assert!(matches!(e, Error::Instance { .. }));

    // A preference of the scope settles the update set by itself.
    let resp = graphql_resp(&format!(
        r#"{{ {}, "scope": {}, "active": {} }}"#,
        canaries(),
        results(&[scope_result("wcc", "WCC", "x_wcc")]),
        results(&[us_result("w1", "A", "wcc")])
    ));
    let (row, source) = state_of(parse_state(&resp)).update_set.expect("resolved");
    assert_eq!(row.sys_id, "w1");
    assert_eq!(source, UpdateSetSource::Preference);
}
