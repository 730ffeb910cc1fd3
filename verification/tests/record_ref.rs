use sn::error::Error;
use sn::json::parse;
use sn::record_ref::{
    is_sys_id, parse_flag_pair, parse_get_ref, parse_pair, parse_ref, table_for_number, RefId,
};

const HEX: &str = "1c741bd70b2322007518478d83673af3";

fn is_id(id: &RefId, want: &str) -> bool {
    matches!(id, RefId::SysId(s) if s == want)
}

fn is_number(id: &RefId, want: &str) -> bool {
    matches!(id, RefId::Number(s) if s == want)
}

#[test]
fn sys_id_classification() {
    assert!(is_sys_id(HEX));
    assert!(is_sys_id(&HEX.to_uppercase()));
    assert!(!is_sys_id(&HEX[..31]));
    assert!(!is_sys_id(&format!("{HEX}0")));
    assert!(!is_sys_id("INC0010001"));
}

#[test]
fn parse_ref_splits_and_classifies() {
    let r = parse_ref(&format!("incident:{HEX}"), "table").unwrap();
    assert_eq!(r.table, "incident");
    assert!(is_id(&r.id, HEX));

    let r = parse_ref("incident:INC0010001", "table").unwrap();
    assert!(is_number(&r.id, "INC0010001"));
}

#[test]
fn parse_ref_rejects_bad_halves() {
    // Empty halves.
    assert!(matches!(parse_ref(":abc", "table"), Err(Error::Usage(_))));
    assert!(matches!(
        parse_ref("incident:", "table"),
        Err(Error::Usage(_))
    ));
    // The first colon splits, so the second lands in the identifier and fails
    // there: never a silent truncation.
    assert!(matches!(parse_ref("a:b:c", "table"), Err(Error::Usage(_))));
    // Uppercase table name.
    assert!(matches!(
        parse_ref("Incident:abc", "table"),
        Err(Error::Usage(_))
    ));
}

#[test]
fn a_token_without_a_colon_is_no_reference() {
    let err = parse_ref("incident", "table").unwrap_err();
    assert_eq!(err.text(), "usage error: 'incident' is not a table:identifier reference");
}

#[test]
fn parse_pair_two_tokens_is_verbatim() {
    let r = parse_pair("incident", Some("abc"), "table").unwrap();
    assert!(is_id(&r.id, "abc"));
}

#[test]
fn parse_pair_ref_plus_second_token_is_refused() {
    let err = parse_pair(&format!("incident:{HEX}"), Some("abc"), "table").unwrap_err();
    assert!(err.text().contains("give the record once"), "{}", err.text());
}

#[test]
fn parse_pair_bare_single_token_names_both_forms() {
    let err = parse_pair("incident", None, "table").unwrap_err();
    let text = err.text();
    assert!(text.contains("missing SYS_ID"), "{text}");
    assert!(text.contains("incident:INC0010001"), "{text}");
    // The argument is named in capitals.
    assert!(text.contains("`<TABLE> <SYS_ID>`"), "{text}");
}

#[test]
fn flag_pair_forms() {
    let r = parse_flag_pair(None, &format!("incident:{HEX}")).unwrap();
    assert_eq!(r.table, "incident");

    let r = parse_flag_pair(Some("incident"), "abc").unwrap();
    assert!(is_id(&r.id, "abc"));

    assert!(matches!(
        parse_flag_pair(Some("incident"), "incident:abc"),
        Err(Error::Usage(_))
    ));
    let err = parse_flag_pair(None, "abc").unwrap_err();
    assert!(err.text().contains("--table is required"), "{}", err.text());
}

#[test]
fn prefix_map_matches_whole_uppercase_run() {
    for (prefix, table) in [
        ("CHG", "change_request"),
        ("CTASK", "change_task"),
        ("INC", "incident"),
        ("KB", "kb_knowledge"),
        ("PRB", "problem"),
        ("REQ", "sc_request"),
        ("RITM", "sc_req_item"),
        ("SCTASK", "sc_task"),
        ("SIR", "sn_si_incident"),
    ] {
        assert_eq!(table_for_number(&format!("{prefix}0010001")), Some(table));
    }
    // The run is matched whole: SCTASK is never truncated to SC, and an unknown
    // run maps to nothing.
    assert_eq!(table_for_number("TASK0010001"), None);
    assert_eq!(table_for_number("inc0010001"), None);
    assert_eq!(table_for_number("0010001"), None);
}

#[test]
fn get_ref_forms() {
    let r = parse_get_ref("INC0010001").unwrap();
    assert_eq!(r.table, "incident");
    assert!(is_number(&r.id, "INC0010001"));
    assert_eq!(
        parse_get_ref(&format!("sys_user:{HEX}")).unwrap().table,
        "sys_user"
    );

    let err = parse_get_ref(HEX).unwrap_err();
    assert!(err.text().contains("names no table"), "{}", err.text());

    let err = parse_get_ref("FOO0001").unwrap_err();
    let text = err.text();
    assert!(text.contains("INC") && text.contains("SIR"), "{text}");
    assert!(text.contains("table:number"), "{text}");
}

#[test]
fn display_names_what_the_caller_typed() {
    let r = parse_ref(&format!("incident:{HEX}"), "table").unwrap();
    assert_eq!(r.text(), format!("incident/{HEX}"));
    let r = parse_ref("incident:INC0010001", "table").unwrap();
    assert_eq!(r.text(), "incident:INC0010001");
}

#[test]
fn a_sys_id_costs_no_lookup_and_a_number_costs_one() {
    let r = parse_ref(&format!("incident:{HEX}"), "table").unwrap();
    assert!(r.lookup().is_none());
    assert_eq!(r.resolve(&parse("null").unwrap()).unwrap(), HEX);

    let r = parse_ref("incident:INC0010001", "table").unwrap();
    let q = r.lookup().unwrap();
    assert_eq!(q.path, "/api/now/table/incident");
    assert_eq!(q.query[0].1, "number=INC0010001");
    assert_eq!(q.query[2], ("sysparm_limit".to_string(), "2".to_string()));
}

#[test]
fn a_number_is_settled_by_exactly_one_row() {
    let r = parse_ref("incident:INC0010001", "table").unwrap();
    let one = parse(r#"{"result": [{"sys_id": "abc"}]}"#).unwrap();
    assert_eq!(r.resolve(&one).unwrap(), "abc");

    let none = parse(r#"{"result": []}"#).unwrap();
    let err = r.resolve(&none).unwrap_err();
    assert_eq!(err.exit_code(), 2);
    assert!(err.text().contains("no incident record with number INC0010001"));

    let two = parse(r#"{"result": [{"sys_id": "abc"}, {"sys_id": "def"}]}"#).unwrap();
    let err = r.resolve(&two).unwrap_err();
    assert!(matches!(err, Error::Instance { .. }), "{err:?}");
    assert!(err.text().contains("was dropped"), "{}", err.text());

    let blank = parse(r#"{"result": [{"sys_id": ""}]}"#).unwrap();
    let err = r.resolve(&blank).unwrap_err();
    assert!(err.text().contains("came back without a sys_id"), "{}", err.text());
}
