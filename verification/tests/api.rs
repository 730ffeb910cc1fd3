use sn::api::{
    ambiguous, api_row, catalogue, closed_text, list, match_apis, namespace_entry, namespace_row,
    path_with_query, receive_catalogue, resources, rewrite_404, search, str_field, ApiListArgs,
    ApiSearchArgs, CatalogueStep, Tier, DOC_PATH, OAS_PATH,
};
use sn::error::Error;
use sn::flags::OutputMode;
use sn::json::{parse, Json};
use sn::spelling::{edit_distance, near_matches};

fn doc(s: &str) -> Json {
    parse(s).unwrap()
}

fn entries(s: &str) -> Vec<(String, Json)> {
    match doc(s) {
        Json::Object(m) => m,
        other => panic!("not an object: {other:?}"),
    }
}

const TABLE_API: &str = r#"{
    "apiName": "now/table",
    "description": "CRUD on existing tables",
    "scripted": false,
    "svcName": "Table API",
    "versions": {
        "v1": {"resources": [
            {"description": "Query records", "httpMethod": "GET", "route": "/now/v1/table/{tableName}"}
        ]},
        "v2": {"resources": [
            {"description": "Query records", "httpMethod": "GET", "route": "/now/v2/table/{tableName}"},
            {"description": "Create a record", "httpMethod": "POST", "route": "/now/v2/table/{tableName}"}
        ]}
    }
}"#;

#[test]
fn resources_flatten_every_version_in_stable_order() {
    let api = doc(TABLE_API);
    let seen: Vec<(String, String)> = resources(&api)
        .into_iter()
        .map(|(v, r)| (v, str_field(&r, "httpMethod")))
        .collect();
    let want: Vec<(String, String)> = [("v1", "GET"), ("v2", "GET"), ("v2", "POST")]
        .iter()
        .map(|(a, b)| (a.to_string(), b.to_string()))
        .collect();
    assert_eq!(seen, want);
}

#[test]
fn api_row_reports_versions_and_endpoint_count() {
    let row = api_row("now", "Table API", &doc(TABLE_API));
    assert_eq!(row.get_str("name").unwrap(), "Table API");
    assert_eq!(row.get_str("api_name").unwrap(), "now/table");
    assert_eq!(row.get("endpoints").unwrap().render(), "3");
    assert_eq!(row.get("versions").unwrap().render(), r#"["v1","v2"]"#);
    assert_eq!(row.get("scripted").unwrap().render(), "false");
}

#[test]
fn namespace_row_counts_apis_and_their_endpoints() {
    let apis = doc(&format!(r#"{{"Table API": {TABLE_API}, "Other": {TABLE_API}}}"#));
    let row = namespace_row("now", &apis);
    assert_eq!(row.get("apis").unwrap().render(), "2");
    assert_eq!(row.get("endpoints").unwrap().render(), "6");
}

#[test]
fn missing_or_malformed_fields_never_panic() {
    // A version block without `resources`, or an API that is not an object, must
    // degrade rather than abort.
    let api = doc(r#"{"versions": {"latest": {}}}"#);
    assert_eq!(resources(&api).len(), 0);
    assert_eq!(
        namespace_row("x", &doc(r#""not an object""#)).get("apis").unwrap().render(),
        "0"
    );
    assert_eq!(api_row("x", "y", &doc("{}")).get("endpoints").unwrap().render(), "0");
    assert!(catalogue(&doc(r#"{"result": "nope"}"#)).is_empty());
}

#[test]
fn query_values_are_encoded_not_interpolated() {
    let q = vec![
        ("name".to_string(), "Table API & more".to_string()),
        ("namespace".to_string(), "now".to_string()),
    ];
    let s = path_with_query(OAS_PATH, &q);
    assert!(s.starts_with("/api/now/doc/oas_3?"), "{s}");
    assert!(!s.contains("Table API"), "space left unencoded: {s}");
    assert!(
        s.contains("%26") || s.contains("+%26+"),
        "'&' must not split the parameter: {s}"
    );
    assert!(s.ends_with("&namespace=now"), "{s}");
}

#[test]
fn empty_query_leaves_the_path_alone() {
    assert_eq!(path_with_query(OAS_PATH, &vec![]), OAS_PATH);
}

fn not_found(detail: Option<&str>) -> Error {
    Error::Api {
        status: 404,
        message: "Not Found".into(),
        detail: detail.map(str::to_string),
        transaction_id: Some("tx1".into()),
        sn_error: Some(doc(r#"{"message": "x"}"#)),
    }
}

#[test]
fn a_404_blames_the_instance_only_when_the_endpoint_family_is_gone() {
    let err = rewrite_404(DOC_PATH, not_found(Some("original detail")), true, &None);
    let Error::Api {
        message,
        detail,
        transaction_id,
        ..
    } = &err
    else {
        panic!("expected an API error, got {err:?}");
    };
    assert!(message.contains(DOC_PATH), "{message}");
    assert!(message.contains("older releases"), "{message}");
    // The original body survives whichever way it is explained.
    assert_eq!(detail.as_deref(), Some("original detail"));
    assert_eq!(transaction_id.as_deref(), Some("tx1"));
    assert_eq!(err.exit_code(), 2);
}

#[test]
fn a_404_from_a_live_endpoint_family_reports_the_endpoints_own_reason() {
    let err = rewrite_404(
        OAS_PATH,
        not_found(Some("Version v99 not found for now/Table API")),
        false,
        &Some("; try `sn api list --namespace now`".to_string()),
    );
    let Error::Api { message, .. } = &err else {
        panic!("expected an API error");
    };
    assert!(
        message.contains("Version v99 not found for now/Table API"),
        "{message}"
    );
    assert!(message.contains("sn api list --namespace now"), "{message}");
    assert!(
        !message.contains("older releases"),
        "a reachable endpoint family must not be blamed on the release: {message}"
    );
}

#[test]
fn a_404_without_a_detail_falls_back_to_the_status_message() {
    let err = rewrite_404(OAS_PATH, not_found(None), false, &None);
    let Error::Api { message, .. } = &err else {
        panic!("expected an API error");
    };
    assert_eq!(message, "/api/now/doc/oas_3: Not Found");
}

#[test]
fn non_404_errors_pass_through_untouched() {
    let err = rewrite_404(
        DOC_PATH,
        Error::Api {
            status: 500,
            message: "boom".into(),
            detail: None,
            transaction_id: None,
            sn_error: None,
        },
        true,
        &None,
    );
    let Error::Api { message, .. } = &err else {
        panic!("expected an API error");
    };
    assert_eq!(message, "boom");
}

fn two_namespaces() -> Vec<(String, Json)> {
    entries(
        r#"{
        "now": {"Table API": {"apiName": "now/table"}, "Attachment API": {"apiName": "now/attachment"}},
        "sn_chg_rest": {"Attachment API": {"apiName": "sn_chg_rest/attachment"}}
    }"#,
    )
}

#[test]
fn an_exact_title_outranks_a_matching_api_name() {
    // One API is titled "now/table"; another is now/table by its name. The title
    // settles it.
    let cat = entries(
        r#"{"now": {
        "now/table": {"apiName": "now/legacy_table"},
        "Table API": {"apiName": "now/table"}
    }}"#,
    );
    let (tier, matches) = match_apis(&cat, "NOW/TABLE");
    assert_eq!(tier, Tier::Title);
    assert_eq!(matches, vec![("now".to_string(), "now/table".to_string())]);
}

#[test]
fn an_exact_tie_across_namespaces_is_told_to_use_namespace_not_a_better_name() {
    let (tier, matches) = match_apis(&two_namespaces(), "attachment api");
    assert_eq!(tier, Tier::Title);
    assert_eq!(matches.len(), 2);
    let Error::Usage(msg) = ambiguous(tier, &matches, "attachment api") else {
        panic!("expected a usage error");
    };
    assert!(msg.contains("--namespace"), "{msg}");
    assert!(msg.contains("now, sn_chg_rest"), "{msg}");
    // Naming an already-exact name again would change nothing, so the message
    // must not ask for it.
    assert!(!msg.contains("exactly, or"), "{msg}");
}

#[test]
fn a_substring_tie_may_still_be_resolved_by_naming_one_exactly() {
    let (tier, matches) = match_apis(&two_namespaces(), "att");
    assert_eq!(tier, Tier::Partial);
    let Error::Usage(msg) = ambiguous(tier, &matches, "att") else {
        panic!("expected a usage error");
    };
    assert!(msg.contains("name one of them exactly"), "{msg}");
    assert!(msg.contains("--namespace"), "{msg}");
}

#[test]
fn a_namespace_narrows_the_same_matching_rather_than_disabling_it() {
    let mut cat = two_namespaces();
    cat.retain(|(k, _)| k != "sn_chg_rest");
    let (tier, matches) = match_apis(&cat, "att");
    assert_eq!(tier, Tier::Partial);
    assert_eq!(
        matches,
        vec![("now".to_string(), "Attachment API".to_string())]
    );
}

#[test]
fn near_matches_catch_a_typo_a_transposition_and_a_fragment() {
    let all: Vec<String> = ["now", "sn_chg_rest", "sn_sc", "global"]
        .iter()
        .map(|s| s.to_string())
        .collect();
    assert_eq!(near_matches("nwo", &all), vec!["now".to_string()]);
    assert_eq!(near_matches("chg", &all), vec!["sn_chg_rest".to_string()]);
    assert_eq!(
        near_matches("sn_chg_res", &all),
        vec!["sn_chg_rest".to_string()]
    );
    assert!(near_matches("zzzzzzzzzz", &all).is_empty());
    assert!(near_matches("", &all).is_empty());
}

#[test]
fn near_matches_look_inside_a_multi_word_api_name() {
    let titles = vec!["Table API".to_string(), "Attachment API".to_string()];
    assert_eq!(
        near_matches("tabel", &titles),
        vec!["Table API".to_string()]
    );
}

#[test]
fn edit_distance_counts_a_transposition_once() {
    assert_eq!(edit_distance("now", "now"), 0);
    assert_eq!(edit_distance("nwo", "now"), 1);
    assert_eq!(edit_distance("tabel", "table"), 1);
    assert_eq!(edit_distance("", "now"), 3);
    assert_eq!(edit_distance("kitten", "sitting"), 3);
}

#[test]
fn edit_distance_is_the_same_both_ways() {
    assert_eq!(edit_distance("sitting", "kitten"), 3);
    assert_eq!(edit_distance("now", ""), 3);
}

#[test]
fn namespace_entry_tolerates_a_differently_cased_key() {
    let cat = two_namespaces();
    assert_eq!(namespace_entry(&cat, "NOW").as_deref(), Some("now"));
    assert!(namespace_entry(&cat, "nope").is_none());
}

fn plain_error_of(status: u16) -> Error {
    Error::Api {
        status,
        message: "x".to_string(),
        detail: None,
        transaction_id: None,
        sn_error: None,
    }
}

#[test]
fn an_empty_namespace_is_unknown_and_a_missing_endpoint_is_probed() {
    let now = Some("now".to_string());
    let empty = r#"{"result":{}}"#;
    match receive_catalogue(Ok(doc(empty)), &now) {
        CatalogueStep::Unknown(ns) => assert_eq!(ns, "now"),
        other => panic!("{other:?}"),
    }
    assert!(matches!(receive_catalogue(Ok(doc(empty)), &None), CatalogueStep::Ready(_)));
    assert!(matches!(
        receive_catalogue(Ok(doc(r#"{"result":{"now":{}}}"#)), &now),
        CatalogueStep::Ready(_)
    ));
    assert!(matches!(
        receive_catalogue(Err(plain_error_of(404)), &now),
        CatalogueStep::Probe(_)
    ));
    assert!(matches!(
        receive_catalogue(Err(plain_error_of(500)), &now),
        CatalogueStep::Fail(_)
    ));
}

#[test]
fn raw_output_keeps_the_catalogue_as_it_came() {
    let resp = r#"{"result":{"now":{"Table API":{"apiName":"now/table"}}}}"#;
    let args = ApiListArgs { namespace: None };
    assert_eq!(list(doc(resp), &args, OutputMode::Raw).unwrap().render(), resp);
    assert_eq!(
        list(doc(resp), &args, OutputMode::Default).unwrap().render(),
        r#"[{"apis":1,"endpoints":0,"namespace":"now"}]"#
    );
    let other = ApiListArgs { namespace: Some("nwo".to_string()) };
    assert!(list(doc(resp), &other, OutputMode::Default).is_none());
}

#[test]
fn an_api_that_answers_to_the_term_shows_every_endpoint() {
    let resp = r#"{"result":{"now":{
        "Table API":{"apiName":"now/table","versions":{"v2":{"resources":[
            {"httpMethod":"GET","route":"/a"},{"httpMethod":"post","route":"/b"}]}}},
        "Other":{"versions":{"v1":{"resources":[{"httpMethod":"GET","route":"/Tables"}]}}}}}}"#;
    let args = |method: Option<&str>| ApiSearchArgs {
        term: "TABLE".to_string(),
        namespace: None,
        method: method.map(|m| m.to_string()),
    };
    let rows = |m| search(doc(resp), &args(m), OutputMode::Default).as_array().unwrap().len();
    assert_eq!(rows(None), 3);
    assert_eq!(rows(Some("POST")), 1);
    assert_eq!(rows(Some("get")), 2);
}

#[test]
fn an_export_ends_with_a_line_end() {
    assert_eq!(closed_text(b"a".to_vec()), b"a\n".to_vec());
    assert_eq!(closed_text(b"a\n".to_vec()), b"a\n".to_vec());
    assert_eq!(closed_text(vec![]), b"\n".to_vec());
}

#[test]
fn an_edit_distance_lies_between_the_lengths() {
    for (a, b) in [("", "abc"), ("kitten", "sitting"), ("ab", "ba"), ("aaaa", "bb"), ("x", "x")] {
        let (d, m, n) = (edit_distance(a, b), a.chars().count(), b.chars().count());
        assert!(d <= m.max(n), "{a} {b}");
        assert!(d >= m.max(n) - m.min(n), "{a} {b}");
    }
    assert_eq!(edit_distance("kitten", "sitting"), 3);
    assert_eq!(edit_distance("", "abc"), 3);
}

#[test]
fn a_ranking_keeps_every_guess() {
    let names: Vec<String> = ["nowx", "now", "now"].iter().map(|s| s.to_string()).collect();
    assert_eq!(near_matches("now", &names), vec!["now", "now", "nowx"]);
}

#[test]
fn parameters_are_form_encoded() {
    let sent = |pairs: &[(&str, &str)]| {
        let q: Vec<(String, String)> = pairs
            .iter()
            .map(|(k, v)| (k.to_string(), v.to_string()))
            .collect();
        path_with_query("/p", &q)
    };
    assert_eq!(
        sent(&[("foo", "bar & baz"), ("saison", "Été+hiver")]),
        "/p?foo=bar+%26+baz&saison=%C3%89t%C3%A9%2Bhiver"
    );
    assert_eq!(sent(&[("", "")]), "/p?=");
    assert_eq!(sent(&[("", ""), ("a", "")]), "/p?=&a=");
    for n in 0..128u8 {
        let c = n as char;
        let expected = match c {
            'a'..='z' | 'A'..='Z' | '0'..='9' | '*' | '-' | '.' | '_' => c.to_string(),
            ' ' => "+".to_string(),
            _ => format!("%{n:02X}"),
        };
        assert_eq!(sent(&[(&c.to_string(), "")]), format!("/p?{expected}="));
    }
    assert_eq!(sent(&[("k", "😀€")]), "/p?k=%F0%9F%98%80%E2%82%AC");
}
