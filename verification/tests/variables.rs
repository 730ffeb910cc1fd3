use sn::error::Error;
use sn::json::{parse, Json};
use sn::variables::{comparable, var_map, var_rows, PoolRead, PoolStep, SetStep, Setting, VarRow};

fn doc(s: &str) -> Json {
    parse(s).unwrap()
}

#[test]
fn comparable_matches_storage_formats() {
    assert_eq!(comparable(&doc(r#""x""#)), "x");
    assert_eq!(comparable(&doc("true")), "true");
    assert_eq!(comparable(&doc("false")), "false");
    assert_eq!(comparable(&doc("42")), "42");
    assert_eq!(comparable(&Json::Null), "");
}

#[test]
fn var_map_keys_by_name() {
    let rows = vec![
        VarRow {
            name: "a".into(),
            label: None,
            value: "1".into(),
        },
        VarRow {
            name: "b".into(),
            label: Some("B".into()),
            value: "".into(),
        },
    ];
    let m = var_map(&rows);
    assert_eq!(m.get("a").unwrap(), "1");
    assert_eq!(m.get("b").unwrap(), "");
}

#[test]
fn rows_are_sorted_by_name_and_nameless_ones_left_out() {
    let resp = doc(
        r#"{"result": [
        {"question.name": "b", "question.question_text": "B?", "value": "2"},
        {"question.name": "", "question.question_text": "layout", "value": ""},
        {"question.name": "a", "question.question_text": "", "value": "1"}
    ]}"#,
    );
    let rows = var_rows("incident", &resp);
    assert_eq!(rows.len(), 2);
    assert_eq!(rows[0].name, "a");
    assert_eq!(rows[0].label, None);
    assert_eq!(rows[1].name, "b");
    assert_eq!(rows[1].label.as_deref(), Some("B?"));
}

#[test]
fn a_task_is_followed_to_its_request_item() {
    let (mut pool, first) = PoolRead::new("sc_task", "t1", true);
    assert_eq!(first.path, "/api/now/table/sc_task/t1");
    let step = pool.receive(&doc(r#"{"result": {"request_item": {"value": "r1"}}}"#));
    match step {
        PoolStep::Ask(q) => {
            assert_eq!(q.path, "/api/now/table/sc_item_option_mtom");
            assert_eq!(q.query[0].1, "request_item=r1");
        }
        other => panic!("expected a request, got {other:?}"),
    }
    assert_eq!(pool.from.as_deref(), Some("t1"));

    let (mut pool, _) = PoolRead::new("sc_task", "t1", true);
    match pool.receive(&doc(r#"{"result": {}}"#)) {
        PoolStep::Fail(e) => assert!(e.text().contains("has no request_item"), "{}", e.text()),
        other => panic!("expected a failure, got {other:?}"),
    }
}

#[test]
fn an_empty_pool_is_probed_before_it_is_believed() {
    let (mut pool, _) = PoolRead::new("incident", "i1", true);
    match pool.receive(&doc(r#"{"result": []}"#)) {
        PoolStep::Ask(q) => assert_eq!(q.path, "/api/now/table/incident/i1"),
        other => panic!("expected a probe, got {other:?}"),
    }
    match pool.receive(&doc(r#"{"result": {"sys_id": "i1"}}"#)) {
        PoolStep::Done(rows) => assert!(rows.is_empty()),
        other => panic!("expected no variables, got {other:?}"),
    }

    let (mut pool, _) = PoolRead::new("incident", "i1", false);
    assert!(matches!(
        pool.receive(&doc(r#"{"result": []}"#)),
        PoolStep::Done(_)
    ));
}

const POOL: &str = r#"{"result": [
    {"question.name": "colour", "value": "red"},
    {"question.name": "size", "value": "L"}
]}"#;

fn begin(body: &str) -> Setting {
    let entries = match doc(body) {
        Json::Object(m) => m,
        other => panic!("not an object: {other:?}"),
    };
    Setting::new("incident", "i1", entries).unwrap().0
}

#[test]
fn an_unknown_name_is_refused_before_anything_is_written() {
    let mut s = begin(r#"{"Colour": "blue"}"#);
    match s.receive(&doc(POOL)) {
        SetStep::Fail(Error::Usage(m)) => assert_eq!(
            m,
            "unknown variable(s) Colour on incident i1 (names are case-sensitive); \
             available: colour, size"
        ),
        other => panic!("expected a usage error, got {other:?}"),
    }
}

#[test]
fn a_write_is_reported_by_what_was_read_back() {
    let mut s = begin(r#"{"colour": "blue", "size": "L"}"#);
    match s.receive(&doc(POOL)) {
        SetStep::Ask(q) => {
            assert_eq!(q.path, "/api/sn_sc/servicecatalog/variables/incident/i1");
            assert_eq!(q.body.unwrap().render(), r#"{"colour":"blue","size":"L"}"#);
        }
        other => panic!("expected the write, got {other:?}"),
    }
    assert!(matches!(s.receive(&Json::Null), SetStep::Ask(_)));
    let after = r#"{"result": [
        {"question.name": "colour", "value": "blue"},
        {"question.name": "size", "value": "L"}
    ]}"#;
    match s.receive(&doc(after)) {
        SetStep::Done(out) => assert_eq!(
            out.render(),
            r#"{"sys_id":"i1","table":"incident","unchanged":{"size":"L"},"updated":{"colour":{"from":"red","to":"blue"}}}"#
        ),
        other => panic!("expected the report, got {other:?}"),
    }
}

#[test]
fn a_value_that_did_not_persist_is_a_failure() {
    let mut s = begin(r#"{"colour": "blue"}"#);
    s.receive(&doc(POOL));
    s.receive(&Json::Null);
    match s.receive(&doc(POOL)) {
        SetStep::Fail(e) => {
            assert_eq!(e.exit_code(), 2);
            assert!(e.text().contains("did not persist for: colour"), "{}", e.text());
        }
        other => panic!("expected a failure, got {other:?}"),
    }
}

#[test]
fn nothing_to_set_is_a_usage_error() {
    let err = Setting::new("incident", "i1", vec![]).unwrap_err();
    assert_eq!(err.text(), "usage error: no variables to set; the body is empty");
}
