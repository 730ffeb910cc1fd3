use sn::argv::{group_usage_line, implied_verb_argv, usage_group, usage_line, Positional};
use sn::body::{from_data, from_fields, from_nothing, inline_value, split_field};
use sn::error::Error;
use sn::flags::{DisplayValueOpt, EmptyBody, OutputMode};
use sn::get_record::{
    begin, check, read_record, run as composite, GetRecordArgs, GetStep, Resolver, ResolveStep,
};
use sn::json::{parse, Json};
use sn::pages::{parse_next_link, Page, PageStep, Paginator};
use sn::raw::run as raw_run;
use sn::record_ref::parse_get_ref;
use sn::request::Method;
use sn::streams::{
    fetch_table_rows, run as journal, FetchStep, StreamsFetch, Wanted,
};

fn doc(s: &str) -> Json {
    parse(s).unwrap()
}

fn text(s: &str) -> Option<String> {
    Some(s.to_string())
}

fn words(v: &[&str]) -> Vec<Option<String>> {
    v.iter().map(|w| Some(w.to_string())).collect()
}

#[test]
fn a_verb_left_out_goes_behind_its_group() {
    let argv = words(&["sn", "--pretty", "table", "incident"]);
    let (at, verbs) = implied_verb_argv(&argv, "table", "incident", false).unwrap();
    assert_eq!(at, 3);
    assert_eq!(verbs, vec!["list", "get"]);
    let argv = words(&["sn", "table", "incident:INC0010001"]);
    let (at, verbs) = implied_verb_argv(&argv, "table", "incident:INC0010001", false).unwrap();
    assert_eq!(at, 2);
    assert_eq!(verbs, vec!["get"]);
}

#[test]
fn a_misspelt_verb_is_not_taken_for_a_table() {
    let argv = words(&["sn", "table", "lst"]);
    assert!(implied_verb_argv(&argv, "table", "lst", true).is_none());
    assert!(implied_verb_argv(&argv, "change", "lst", false).is_none());
    let argv = vec![Some("table".to_string()), None, Some("x".to_string())];
    assert!(implied_verb_argv(&argv, "table", "x", false).is_none());
}

#[test]
fn usage_lines_put_the_options_last() {
    let p = |name: &str, required, repeatable| Positional {
        name: name.to_string(),
        required,
        repeatable,
    };
    assert_eq!(
        usage_line("sn table get", &vec![p("TABLE", true, false), p("ID", false, true)]),
        "sn table get <TABLE> [ID]... [OPTIONS]"
    );
    assert_eq!(group_usage_line("sn table", true), "sn table <COMMAND>");
    assert_eq!(group_usage_line("sn context", false), "sn context [COMMAND]");
    assert_eq!(usage_group("Usage: sn table <COMMAND>"), text("table"));
    assert_eq!(usage_group("Usage: sn table [OPTIONS]"), None);
    assert_eq!(usage_group("<COMMAND>"), None);
}

#[test]
fn a_body_is_an_object() {
    assert_eq!(from_data(r#"{"a":1}"#).unwrap().render(), r#"{"a":1}"#);
    match from_data("[1]") {
        Err(Error::Usage(m)) => assert_eq!(m, "--data must be a JSON object"),
        other => panic!("{other:?}"),
    }
    match from_data("{") {
        Err(Error::Usage(m)) => assert!(m.starts_with("invalid JSON in --data: ")),
        other => panic!("{other:?}"),
    }
}

#[test]
fn a_field_splits_at_its_first_equals_sign() {
    let (name, value) = split_field("a=b=c").unwrap();
    assert_eq!((name.as_str(), value.as_str()), ("a", "b=c"));
    assert!(split_field("a").is_err());
    assert!(split_field("=b").is_err());
    let body = from_fields(vec![
        ("a".to_string(), inline_value("1")),
        ("b".to_string(), inline_value("true")),
        ("c".to_string(), inline_value("null")),
        ("d".to_string(), inline_value("[1]")),
        ("e".to_string(), inline_value("x")),
    ]);
    assert_eq!(body.render(), r#"{"a":1,"b":true,"c":null,"d":"[1]","e":"x"}"#);
}

#[test]
fn no_body_is_an_empty_object_or_a_refusal() {
    assert_eq!(from_nothing(EmptyBody::Object).unwrap().render(), "{}");
    assert!(matches!(from_nothing(EmptyBody::Reject), Err(Error::Usage(_))));
}

#[test]
fn a_method_may_be_written_small() {
    let d = raw_run("patch", "/x".to_string(), vec![], text("{}"), vec![]).unwrap();
    assert!(matches!(d.method, Method::Patch));
    match raw_run("strasße", "/x".to_string(), vec![], None, vec![]) {
        Err(Error::Usage(m)) => {
            assert_eq!(m, "unknown method: STRASSSE, expected GET/POST/PUT/PATCH/DELETE")
        }
        other => panic!("{other:?}"),
    }
    assert!(raw_run("get", "/x".to_string(), vec![], text("{}"), vec![]).is_err());
}

#[test]
fn the_next_page_is_found_among_the_links() {
    let header = r#"<https://h/a?o=0>;rel="first", <https://h/a?o=2>; rel="next",<https://h/a?o=9>;rel="last""#;
    assert_eq!(parse_next_link(header), text("https://h/a?o=2"));
    assert_eq!(parse_next_link(r#"<https://h/a>;rel="last""#), None);
    assert_eq!(parse_next_link(""), None);
}

fn page(status: u16, link: Option<&str>, body: &str) -> Page {
    Page::Arrived {
        status,
        tx: None,
        link: link.map(|l| l.to_string()),
        text: body.to_string(),
    }
}

fn emitted(s: PageStep) -> String {
    match s {
        PageStep::Emit(j) => j.render(),
        other => panic!("{other:?}"),
    }
}

fn fetched(s: PageStep) -> (String, usize) {
    match s {
        PageStep::Fetch { url, query } => (url, query.len()),
        other => panic!("{other:?}"),
    }
}

#[test]
fn a_list_follows_its_links_to_the_end() {
    let query = vec![("sysparm_limit".to_string(), "2".to_string())];
    let mut p = Paginator::new("https://h", "/t", query, None);
    assert_eq!(fetched(p.next()), ("https://h/t".to_string(), 1));
    let first = page(200, Some(r#"<https://h/t?o=2>;rel="next""#), r#"{"result":[1,2]}"#);
    assert_eq!(emitted(p.take_in(first)), "1");
    assert_eq!(emitted(p.next()), "2");
    assert_eq!(fetched(p.next()), ("https://h/t?o=2".to_string(), 0));
    assert_eq!(emitted(p.take_in(page(200, None, r#"{"result":[3]}"#))), "3");
    assert!(matches!(p.next(), PageStep::Done));
    assert!(matches!(p.next(), PageStep::Done));
}

#[test]
fn a_page_without_records_is_passed_over() {
    let mut p = Paginator::new("https://h", "/t", vec![], None);
    fetched(p.next());
    let empty = page(200, Some(r#"<https://h/t?o=2>;rel="next""#), r#"{"result":[]}"#);
    assert_eq!(fetched(p.take_in(empty)), ("https://h/t?o=2".to_string(), 0));
    let none = page(200, Some(r#"<https://h/t?o=4>;rel="next""#), "{}");
    assert_eq!(fetched(p.take_in(none)), ("https://h/t?o=4".to_string(), 0));
    assert_eq!(emitted(p.take_in(page(200, None, r#"{"result":[3]}"#))), "3");
    assert!(matches!(p.next(), PageStep::Done));
    let mut p = Paginator::new("https://h", "/t", vec![], None);
    fetched(p.next());
    assert!(matches!(
        p.take_in(page(200, None, r#"{"result":[]}"#)),
        PageStep::Done
    ));
}

#[test]
fn a_list_stops_at_its_limit() {
    let mut p = Paginator::new("https://h", "/t", vec![], Some(1));
    fetched(p.next());
    assert_eq!(emitted(p.take_in(page(200, None, r#"{"result":[1,2]}"#))), "1");
    assert!(matches!(p.next(), PageStep::Done));
}

#[test]
fn a_list_breaks_off_at_a_failure() {
    let mut p = Paginator::new("https://h", "/t", vec![], None);
    fetched(p.next());
    assert!(matches!(
        p.take_in(page(500, None, "")),
        PageStep::Fail(Error::Api { status: 500, .. })
    ));
    assert!(matches!(p.next(), PageStep::Done));
    let mut p = Paginator::new("https://h", "/t", vec![], None);
    fetched(p.next());
    match p.take_in(page(200, None, "<html>")) {
        PageStep::Fail(Error::Transport(m)) => assert!(m.starts_with("parse response: ")),
        other => panic!("{other:?}"),
    }
    let mut p = Paginator::new("https://h", "/t", vec![], None);
    fetched(p.next());
    assert!(matches!(
        p.take_in(Page::Lost(Error::Transport("gone".to_string()))),
        PageStep::Fail(Error::Transport(_))
    ));
}

fn undefined(column: &str) -> Json {
    doc(&format!(
        r#"{{"errors":[{{"message":"Validation error (FieldUndefined@[x]) : Field '{column}' in type 'T' is undefined"}}]}}"#
    ))
}

fn document(r: &sn::request::Request) -> String {
    r.body.as_ref().unwrap().get_str("query").unwrap().clone()
}

#[test]
fn streams_fall_back_to_the_columns_that_exist() {
    let (mut f, step) = StreamsFetch::new("incident", "abc", Wanted::All);
    match step {
        FetchStep::Ask(r) => {
            assert!(document(&r).contains("{ comments_and_work_notes { displayValue } }"))
        }
        other => panic!("{other:?}"),
    }
    match f.receive(&undefined("comments_and_work_notes")) {
        FetchStep::Ask(r) => assert!(
            document(&r).contains("comments { displayValue } work_notes { displayValue }")
        ),
        other => panic!("{other:?}"),
    }
    match f.receive(&undefined("comments")) {
        FetchStep::Ask(r) => assert!(document(&r).contains("{ work_notes { displayValue } }")),
        other => panic!("{other:?}"),
    }
    let rows = doc(
        r#"{"data":{"GlideRecord_Query":{"incident":{"_results":[{"work_notes":{"displayValue":"w"}}]}}}}"#,
    );
    match f.receive(&rows) {
        FetchStep::Done(v) => assert_eq!(v, vec![("work_notes".to_string(), "w".to_string())]),
        other => panic!("{other:?}"),
    }
}

#[test]
fn a_filter_asks_for_its_own_column_only() {
    let (mut f, _) = StreamsFetch::new("incident", "abc", Wanted::from_flags(true, false));
    match f.receive(&undefined("comments")) {
        FetchStep::Fail(Error::Api { message, .. }) => {
            assert_eq!(message, "table 'incident' has no comments field")
        }
        other => panic!("{other:?}"),
    }
    let (mut f, _) = StreamsFetch::new("incident", "abc", Wanted::All);
    match f.receive(&undefined("incident")) {
        FetchStep::Fail(Error::Api { message, .. }) => {
            assert_eq!(message, "table 'incident' is not queryable via GraphQL")
        }
        other => panic!("{other:?}"),
    }
    let (mut f, _) = StreamsFetch::new("incident", "abc", Wanted::All);
    match f.receive(&doc(r#"{"data":{"GlideRecord_Query":{"incident":{"_results":[]}}}}"#)) {
        FetchStep::Fail(Error::Api { status, message, .. }) => {
            assert_eq!(status, 404);
            assert_eq!(message, "no incident record with sys_id abc");
        }
        other => panic!("{other:?}"),
    }
}

#[test]
fn a_journal_is_shown_newest_first_or_as_it_is() {
    let streams = vec![
        ("comments".to_string(), "2026-08-10 07:40:58 - A (Comments)\nolder\n\n".to_string()),
        ("work_notes".to_string(), "2026-08-11 10:40:20 - B (Work notes)\nnewer\n\n".to_string()),
    ];
    let out = journal(&streams, false, Some(1)).unwrap();
    let entries = out.as_array().unwrap();
    assert_eq!(entries.len(), 1);
    assert_eq!(entries[0].get_str("text").unwrap(), "newer");
    match journal(&streams, true, None).unwrap() {
        Json::Str(s) => assert!(s.contains("older") && s.contains("newer")),
        other => panic!("{other:?}"),
    }
    let r = fetch_table_rows("abc", Wanted::Comments, None);
    let vars = r.body.unwrap();
    let vars = vars.get("variables").unwrap();
    assert_eq!(vars.get_str("qc").unwrap(), "element_id=abc^element=comments^ORDERBYDESCsys_created_on");
    assert_eq!(vars.get("limit").unwrap().render(), "1000");
}

fn get_args(reference: &str) -> GetRecordArgs {
    GetRecordArgs {
        reference: reference.to_string(),
        fields: text("number"),
        display_value: DisplayValueOpt { display_value: None },
        exclude_reference_link: false,
        view: None,
        query_no_domain: false,
    }
}

#[test]
fn a_composite_has_no_envelope() {
    assert!(check(&get_args("incident:INC1"), OutputMode::Raw).is_err());
    assert!(check(&get_args("incident:INC1"), OutputMode::Table).is_ok());
    let r = read_record(&get_args("x"), "incident", "abc");
    assert_eq!(r.path, "/api/now/table/incident/abc");
    assert!(r.query.contains(&("sysparm_fields".to_string(), "number".to_string())));
    assert_eq!(
        composite("incident", "abc", Json::Null, Json::Null, &vec![]).render(),
        r#"{"journal":[],"record":null,"sys_id":"abc","table":"incident","variables":null}"#
    );
}

#[test]
fn a_record_is_resolved_with_the_columns_it_has() {
    let (mut r, q) = Resolver::new(parse_get_ref("incident:INC1").unwrap());
    assert!(document(&q).contains("comments { displayValue } work_notes { displayValue }"));
    match r.receive(&undefined("comments")) {
        ResolveStep::Ask(q) => {
            assert!(!document(&q).contains("comments"));
            assert!(document(&q).contains("work_notes { displayValue }"));
        }
        other => panic!("{other:?}"),
    }
    let one = doc(
        r#"{"data":{"GlideRecord_Query":{"incident":{"_rowCount":1,"_results":[
            {"sys_id":{"value":"abc"},"work_notes":{"displayValue":"2026-08-11 10:40:20 - B (Work notes)\nx\n\n"}}]}}}}"#,
    );
    match r.receive(&one) {
        ResolveStep::Done(id, entries) => {
            assert_eq!(id, "abc");
            assert_eq!(entries.len(), 1);
        }
        other => panic!("{other:?}"),
    }
}

#[test]
fn a_number_with_several_records_is_refused() {
    let (mut r, _) = Resolver::new(parse_get_ref("incident:INC1").unwrap());
    let many = doc(
        r#"{"data":{"GlideRecord_Query":{"incident":{"_rowCount":7,"_results":[{"sys_id":{"value":"abc"}}]}}}}"#,
    );
    assert!(matches!(r.receive(&many), ResolveStep::Fail(_)));
    let (mut r, _) = Resolver::new(parse_get_ref("incident:INC1").unwrap());
    let none = doc(r#"{"data":{"GlideRecord_Query":{"incident":{"_results":[]}}}}"#);
    match r.receive(&none) {
        ResolveStep::Fail(e) => assert!(e.text().contains("no incident record with number INC1")),
        other => panic!("{other:?}"),
    }
}

#[test]
fn a_record_is_read_with_its_variables_and_its_journal() {
    let args = get_args("sc_task:SCTASK1");
    let (p, _) = begin(parse_get_ref(&args.reference).unwrap());
    let ask = |s: GetStep| match s {
        GetStep::Ask(p, r) => (p, r),
        other => panic!("{other:?}"),
    };
    let found = doc(
        r#"{"data":{"GlideRecord_Query":{"sc_task":{"_rowCount":1,"_results":[{"sys_id":{"value":"t1"}}]}}}}"#,
    );
    let (p, r) = ask(p.receive(&args, found));
    assert_eq!(r.path, "/api/now/table/sc_task/t1");
    let (p, r) = ask(p.receive(&args, doc(r#"{"result":{"number":"SCTASK1"}}"#)));
    assert_eq!(r.query[0].1, "request_item");
    let (p, r) = ask(p.receive(&args, doc(r#"{"result":{"request_item":{"value":"ri"}}}"#)));
    assert_eq!(r.query[0].1, "request_item=ri");
    match p.receive(&args, doc(r#"{"result":[]}"#)) {
        GetStep::Done(j) => assert_eq!(
            j.render(),
            r#"{"journal":[],"record":{"number":"SCTASK1"},"sys_id":"t1","table":"sc_task","variables":[]}"#
        ),
        other => panic!("{other:?}"),
    }
}
