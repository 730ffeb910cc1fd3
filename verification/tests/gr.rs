use sn::error::Error;
use sn::flags::{DisplayValueArg, DisplayValueOpt, OutputMode, Paging, SetLimit};
use sn::gr::{
    build_document, build_tree, flatten, map_errors, parse_fields, plan, render_selection, run,
    validate_ident, FieldPath, GrArgs,
};
use sn::json::{parse, Json};

fn doc(s: &str) -> Json {
    parse(s).unwrap()
}

fn paths(specs: &[&str]) -> Vec<FieldPath> {
    parse_fields(&specs.join(",")).unwrap()
}

#[test]
fn parse_fields_dedups_and_trims() {
    let p = parse_fields(" number , number,caller_id.email ").unwrap();
    assert_eq!(p.len(), 2);
    assert_eq!(p[0].key, "number");
    assert_eq!(p[1].segments, vec!["caller_id", "email"]);
}

#[test]
fn parse_fields_rejects_bad_input() {
    for bad in ["", "a,,b", "a b", "a.{ x }", "1st", "a..b"] {
        assert!(
            matches!(parse_fields(bad), Err(Error::Usage(_))),
            "{bad:?} should be a usage error"
        );
    }
}

#[test]
fn table_name_is_validated() {
    assert!(validate_ident("incident", "table name").is_ok());
    assert!(validate_ident("u_custom_2", "table name").is_ok());
    for bad in ["", "bad table", "x(y)", "9lives"] {
        assert!(validate_ident(bad, "table name").is_err(), "{bad:?}");
    }
}

#[test]
fn shared_prefixes_merge_into_one_reference_block() {
    let sel = render_selection(
        &build_tree(&paths(&["caller_id.name", "caller_id.email"])),
        "displayValue",
    );
    assert_eq!(
        sel,
        "caller_id { _reference { name { displayValue } email { displayValue } } } "
    );
}

#[test]
fn requested_and_traversed_node_carries_both_selections() {
    let sel = render_selection(
        &build_tree(&paths(&["caller_id", "caller_id.email"])),
        "value",
    );
    assert_eq!(sel, "caller_id { value _reference { email { value } } } ");
}

#[test]
fn document_with_query_uses_a_variable() {
    let doc = build_document("incident", "_results { number { value } }", true, 10, 5);
    assert_eq!(
        doc,
        "query ($qc: String!) { GlideRecord_Query { incident(queryConditions: $qc, \
         pagination: { limit: 10, offset: 5 }) { _results { number { value } } } } }"
    );
}

#[test]
fn document_without_query_omits_the_argument() {
    let doc = build_document("incident", "_rowCount", false, 1, 0);
    assert_eq!(
        doc,
        "{ GlideRecord_Query { incident(pagination: { limit: 1, offset: 0 }) \
         { _rowCount } } }"
    );
}

#[test]
fn flatten_walks_references_and_nulls_broken_paths() {
    let record = doc(
        r#"{
        "number": {"displayValue": "INC0001", "value": "INC0001"},
        "caller_id": {
            "displayValue": "Beth Anglin",
            "_reference": {
                "email": {"displayValue": "beth@example.com", "value": "beth@example.com"},
                "manager": {"_reference": null}
            }
        }
    }"#,
    );
    let ps = paths(&[
        "number",
        "caller_id",
        "caller_id.email",
        "caller_id.manager.name",
        "missing.field",
    ]);
    let flat = flatten(&record, &ps, DisplayValueArg::True);
    assert_eq!(flat.get_str("number").unwrap(), "INC0001");
    assert_eq!(flat.get_str("caller_id").unwrap(), "Beth Anglin");
    assert_eq!(flat.get_str("caller_id.email").unwrap(), "beth@example.com");
    assert!(matches!(flat.get("caller_id.manager.name"), Some(Json::Null)));
    assert!(matches!(flat.get("missing.field"), Some(Json::Null)));
}

#[test]
fn display_value_all_mirrors_the_table_api_shape() {
    let record = doc(r#"{"number": {"displayValue": "INC0001", "value": "x"}}"#);
    let flat = flatten(&record, &paths(&["number"]), DisplayValueArg::All);
    assert_eq!(
        flat.get("number").unwrap().render(),
        doc(r#"{"display_value": "INC0001", "value": "x"}"#).render()
    );
}

#[test]
fn unqueryable_table_and_bad_dotwalk_get_named() {
    let table_err = map_errors(
        vec![doc(
            r#"{"message":
            "Validation error (FieldUndefined@[GlideRecord_Query/foo]) : Field 'foo' in type 'GlideRecord_Query' is undefined"}"#,
        )],
        "foo",
    );
    match table_err {
        Error::Api {
            status, message, ..
        } => {
            assert_eq!(status, 200);
            assert!(message.contains("not queryable"), "{message}");
        }
        other => panic!("expected Api error, got {other:?}"),
    }

    // The other spelling: validation fails on the unknown field's arguments,
    // never naming the field.
    let live_err = map_errors(
        vec![doc(
            r#"{"message":
            "Validation error (UnknownArgument@[GlideRecord_Query/not_a_table]) : Unknown field argument 'pagination'"}"#,
        )],
        "not_a_table",
    );
    match live_err {
        Error::Api {
            message, detail, ..
        } => {
            assert!(message.contains("not queryable"), "{message}");
            assert!(detail.unwrap().contains("UnknownArgument"));
        }
        other => panic!("expected Api error, got {other:?}"),
    }

    let walk_err = map_errors(
        vec![doc(
            r#"{"message":
            "Validation error (FieldUndefined) : Field '_reference' in type 'GlideStringField' is undefined"}"#,
        )],
        "incident",
    );
    match walk_err {
        Error::Api { message, .. } => {
            assert!(message.contains("non-reference field"), "{message}");
        }
        other => panic!("expected Api error, got {other:?}"),
    }
}

fn args(fields: Option<&str>, count: bool) -> GrArgs {
    GrArgs {
        table: "incident".into(),
        fields: fields.map(str::to_string),
        query: Some("active=true".into()),
        count,
        paging: Paging {
            limit: SetLimit { setlimit: 100 },
            offset: None,
        },
        display_value: DisplayValueOpt {
            display_value: None,
        },
    }
}

#[test]
fn a_plan_asks_for_the_displayed_values_and_sends_the_query_as_a_variable() {
    let (paths, request) = plan(&args(Some("number"), false)).unwrap();
    assert_eq!(paths.len(), 1);
    let body = request.body.unwrap();
    assert_eq!(
        body.get_str("query").unwrap(),
        "query ($qc: String!) { GlideRecord_Query { incident(queryConditions: $qc, \
         pagination: { limit: 100, offset: 0 }) { _results { number { displayValue } } } } }"
    );
    assert_eq!(
        body.get("variables").unwrap().get_str("qc").unwrap(),
        "active=true"
    );
}

#[test]
fn a_count_is_read_from_the_row_count() {
    let a = args(None, true);
    let (paths, _) = plan(&a).unwrap();
    let resp = doc(r#"{"data": {"GlideRecord_Query": {"incident": {"_rowCount": 67}}}}"#);
    let out = run(&a, &paths, resp, OutputMode::Default).unwrap();
    assert_eq!(out.render(), r#"{"count":67}"#);

    let resp = doc(r#"{"data": {"GlideRecord_Query": {"incident": {}}}}"#);
    let err = run(&a, &paths, resp, OutputMode::Default).unwrap_err();
    assert!(err.text().contains("no _rowCount"), "{}", err.text());

    let resp = doc(r#"{"data": {"GlideRecord_Query": {"incident": null}}}"#);
    let err = run(&a, &paths, resp, OutputMode::Default).unwrap_err();
    assert!(err.text().contains("no result for table"), "{}", err.text());
}
