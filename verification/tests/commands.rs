use sn::atf::{results, run as atf_run, AtfResultsArgs, AtfRunArgs};
use sn::change::{
    ci, conflict, create, delete, draft, get, list, models, task, update, ChangeCiSub,
    ChangeConflictRemoveArgs, ChangeConflictSub, ChangeCreateArgs, ChangeDeleteArgs, ChangeGetArgs, ChangeListArgs,
    ChangeOptionalIdArg, ChangeSub, ChangeSysIdArg, ChangeTaskDeleteArgs, ChangeTaskSub, ChangeType,
    ChangeUpdateArgs,
};
use sn::draft::DraftBody;
use sn::error::Error;
use sn::flags::{
    confirm_destructive, confirmed, BodyArgs, Confirmation, DisplayValueArg, DisplayValueOpt,
    EmptyBody, OutputMode, Paging, SetLimit, WaitArgs,
};
use sn::json::{parse, Json};
use sn::open_record::{record_url, run as opened};
use sn::progress::{
    finish_cicd, out_of_time, percent_to_show, run as progress_run, wait_for_completion, Percent,
    PollStep,
};
use sn::query::{DeleteQuery, GetQuery, ListQuery, WriteQuery};
use sn::request::Method;
use sn::schema::{
    choices, columns, keep_column, meta_request, tables, tables_request, SchemaChoicesArgs,
    SchemaColumnsArgs, SchemaTablesArgs,
};
use sn::scores::{
    favorite, list as scores_list, unfavorite, unfavorited, ScoresFavoriteArgs, ScoresListArgs,
    SortBy, SortDir,
};
use sn::table::{
    list as table_list, path_of, reject_unstreamable_output, target, Listing, TableListArgs,
};
use sn::user::{me, scripted_self_read, self_read, SelfRead};

fn doc(s: &str) -> Json {
    parse(s).unwrap()
}

fn text(s: &str) -> Option<String> {
    Some(s.to_string())
}

fn pair(name: &str, value: &str) -> (String, String) {
    (name.to_string(), value.to_string())
}

fn no_body() -> BodyArgs {
    BodyArgs { data: None, field: vec![] }
}

fn no_display() -> DisplayValueOpt {
    DisplayValueOpt { display_value: None }
}

fn is_get(m: Method) -> bool {
    matches!(m, Method::Get)
}

#[test]
fn a_list_of_changes_names_every_flag() {
    let d = list(&ChangeListArgs {
        change_type: Some(ChangeType::Emergency),
        query: text("active=true"),
        fields: text("number"),
        paging: Paging { limit: SetLimit { setlimit: 5 }, offset: Some(10) },
        display_value: DisplayValueOpt { display_value: Some(DisplayValueArg::All) },
        exclude_reference_link: true,
        view: text("mobile"),
    });
    assert!(is_get(d.method));
    assert_eq!(d.path, "/api/sn_chg_rest/change/emergency");
    assert_eq!(
        d.query,
        vec![
            pair("sysparm_query", "active=true"),
            pair("sysparm_fields", "number"),
            pair("sysparm_limit", "5"),
            pair("sysparm_offset", "10"),
            pair("sysparm_display_value", "all"),
            pair("sysparm_exclude_reference_link", "true"),
            pair("sysparm_view", "mobile"),
        ]
    );
    assert!(matches!(d.body, DraftBody::Without));
    assert!(d.deed.is_none());
}

#[test]
fn a_change_is_read_under_its_type() {
    let args = |change_type| ChangeGetArgs {
        sys_id: "abc".to_string(),
        change_type,
        fields: None,
        display_value: no_display(),
        exclude_reference_link: false,
        view: None,
    };
    assert_eq!(get(&args(None)).path, "/api/sn_chg_rest/change/abc");
    assert_eq!(
        get(&args(Some(ChangeType::Normal))).path,
        "/api/sn_chg_rest/change/normal/abc"
    );
    assert!(get(&args(None)).query.is_empty());
}

#[test]
fn a_standard_change_needs_a_template() {
    let args = |change_type, template| ChangeCreateArgs {
        change_type,
        template,
        body: no_body(),
        fields: None,
        display_value: no_display(),
    };
    match create(args(ChangeType::Standard, None)) {
        Err(Error::Usage(m)) => assert_eq!(m, "--template is required for --type standard"),
        other => panic!("{other:?}"),
    }
    let d = create(args(ChangeType::Standard, text("t1"))).unwrap();
    assert_eq!(d.path, "/api/sn_chg_rest/change/standard/t1");
    assert!(matches!(d.method, Method::Post));
    assert!(matches!(d.body, DraftBody::Flags(_, EmptyBody::Object)));
    let d = create(args(ChangeType::Normal, text("t1"))).unwrap();
    assert_eq!(d.path, "/api/sn_chg_rest/change/normal");
}

#[test]
fn an_update_wants_a_body() {
    let d = update(ChangeUpdateArgs {
        sys_id: "abc".to_string(),
        change_type: None,
        body: no_body(),
        fields: text("state"),
        display_value: no_display(),
    });
    assert!(matches!(d.method, Method::Patch));
    assert!(matches!(d.body, DraftBody::Flags(_, EmptyBody::Reject)));
    assert_eq!(d.query, vec![pair("sysparm_fields", "state")]);
}

#[test]
fn a_deletion_is_gated_until_it_is_confirmed() {
    let args = |yes| ChangeDeleteArgs { sys_id: "abc".to_string(), change_type: None, yes };
    match delete(&args(false)).gate(false) {
        Confirmation::Refused(Error::Usage(m)) => {
            assert_eq!(m, "delete change abc requires --yes when stdin is not a terminal")
        }
        other => panic!("{other:?}"),
    }
    assert!(matches!(delete(&args(true)).gate(false), Confirmation::Granted));
    match delete(&args(false)).gate(true) {
        Confirmation::Ask(q) => assert_eq!(q, "Delete change abc? [y/N]: "),
        other => panic!("{other:?}"),
    }
    let r = delete(&args(true)).complete(None);
    assert!(matches!(r.method, Method::Delete));
    assert_eq!(r.path, "/api/sn_chg_rest/change/abc");
}

#[test]
fn the_parts_of_a_change_have_paths_of_their_own() {
    let d = task(ChangeTaskSub::Delete(ChangeTaskDeleteArgs {
        change_sys_id: "c".to_string(),
        task_sys_id: "t".to_string(),
        yes: true,
    }));
    assert_eq!(d.path, "/api/sn_chg_rest/change/c/task/t");
    assert_eq!(d.deed.unwrap().what, "task t on change c");
    let d = ci(ChangeCiSub::List(ChangeSysIdArg { sys_id: "c".to_string() }));
    assert_eq!(d.path, "/api/sn_chg_rest/change/c/ci");
    let d = conflict(ChangeConflictSub::Remove(ChangeConflictRemoveArgs {
        sys_id: "c".to_string(),
        yes: true,
    }));
    assert_eq!(d.path, "/api/sn_chg_rest/change/c/conflict");
    assert!(matches!(d.method, Method::Delete));
    assert_eq!(
        models(&ChangeOptionalIdArg { sys_id: text("m") }).path,
        "/api/sn_chg_rest/change/model/m"
    );
    assert_eq!(
        models(&ChangeOptionalIdArg { sys_id: None }).path,
        "/api/sn_chg_rest/change/model"
    );
}

#[test]
fn a_confirmation_begins_with_a_capital() {
    match confirm_destructive(false, "überschreibe", "x", true) {
        Confirmation::Ask(m) => assert_eq!(m, "Überschreibe x? [y/N]: "),
        other => panic!("{other:?}"),
    }
    assert!(confirmed("y\n").is_ok());
    assert!(confirmed("YES").is_ok());
    assert!(confirmed("").is_err());
    assert!(confirmed("yep").is_err());
}

#[test]
fn a_list_query_names_the_flags_that_were_given() {
    let q = ListQuery {
        query: text("a=1"),
        fields: text("x"),
        page_size: Some(7),
        offset: Some(3),
        display_value: Some(DisplayValueArg::True),
        exclude_reference_link: true,
        suppress_pagination_header: true,
        view: text("v"),
        query_category: text("c"),
        query_no_domain: true,
        no_count: true,
    };
    assert_eq!(
        q.to_pairs(),
        vec![
            pair("sysparm_query", "a=1"),
            pair("sysparm_limit", "7"),
            pair("sysparm_offset", "3"),
            pair("sysparm_fields", "x"),
            pair("sysparm_display_value", "true"),
            pair("sysparm_exclude_reference_link", "true"),
            pair("sysparm_suppress_pagination_header", "true"),
            pair("sysparm_view", "v"),
            pair("sysparm_query_category", "c"),
            pair("sysparm_query_no_domain", "true"),
            pair("sysparm_no_count", "true"),
        ]
    );
}

#[test]
fn queries_without_flags_are_empty() {
    let g = GetQuery {
        fields: None,
        display_value: None,
        exclude_reference_link: false,
        view: None,
        query_no_domain: false,
    };
    assert!(g.to_pairs().is_empty());
    assert!(DeleteQuery { query_no_domain: false }.to_pairs().is_empty());
    let w = WriteQuery {
        fields: None,
        display_value: Some(DisplayValueArg::False),
        exclude_reference_link: false,
        input_display_value: true,
        suppress_auto_sys_field: true,
        view: None,
        query_no_domain: false,
    };
    assert_eq!(
        w.to_pairs(),
        vec![
            pair("sysparm_display_value", "false"),
            pair("sysparm_input_display_value", "true"),
            pair("sysparm_suppress_auto_sys_field", "true"),
        ]
    );
}

fn listing(all: bool, array: bool, max_records: u32) -> TableListArgs {
    TableListArgs {
        table: "incident".to_string(),
        query: None,
        fields: None,
        setlimit: 100,
        offset: Some(20),
        display_value: no_display(),
        exclude_reference_link: false,
        suppress_pagination_header: false,
        view: None,
        query_category: None,
        query_no_domain: false,
        no_count: false,
        all,
        array,
        max_records,
    }
}

#[test]
fn a_list_is_one_request_or_page_after_page() {
    match table_list(listing(false, false, 0), OutputMode::Raw).unwrap() {
        Listing::Once(r) => {
            assert_eq!(r.path, "/api/now/table/incident");
            assert_eq!(r.query, vec![pair("sysparm_limit", "100"), pair("sysparm_offset", "20")]);
        }
        other => panic!("{other:?}"),
    }
    match table_list(listing(true, true, 0), OutputMode::Table).unwrap() {
        Listing::Pages { path, query, cap, array } => {
            assert_eq!(path, "/api/now/table/incident");
            assert_eq!(query, vec![pair("sysparm_limit", "100")]);
            assert_eq!(cap, None);
            assert!(array);
        }
        other => panic!("{other:?}"),
    }
    match table_list(listing(true, false, 9), OutputMode::Default).unwrap() {
        Listing::Pages { cap, array, .. } => {
            assert_eq!(cap, Some(9));
            assert!(!array);
        }
        other => panic!("{other:?}"),
    }
}

#[test]
fn a_stream_keeps_no_envelope_and_no_layout() {
    assert!(table_list(listing(true, true, 0), OutputMode::Raw).is_err());
    assert!(table_list(listing(true, false, 0), OutputMode::Table).is_err());
    match reject_unstreamable_output(OutputMode::Table, false) {
        Err(Error::Usage(m)) => assert!(m.contains("add --array")),
        other => panic!("{other:?}"),
    }
    assert!(reject_unstreamable_output(OutputMode::Default, false).is_ok());
}

#[test]
fn a_record_has_a_path_and_a_target() {
    assert_eq!(path_of("incident", "abc"), "/api/now/table/incident/abc");
    assert!(target(&"incident".to_string(), &text("abc")).is_ok());
    assert!(target(&"incident".to_string(), &None).is_err());
}

#[test]
fn scores_name_their_order() {
    let args = ScoresListArgs {
        uuid: text("u"),
        breakdown: None,
        breakdown_relation: None,
        elements_filter: None,
        display: Some(DisplayValueArg::All),
        favorites: true,
        key: false,
        target: false,
        contains: None,
        tags: None,
        per_page: 10,
        page: 1,
        sort_by: Some(SortBy::IndicatorGroup),
        sort_dir: Some(SortDir::Desc),
        display_value: None,
        exclude_reference_link: false,
        include_scores: true,
        from: None,
        to: None,
        step: Some(2),
        limit: Some(-1),
        include_available_breakdowns: false,
        include_available_aggregates: false,
        include_realtime: false,
        include_target_color_scheme: false,
        include_forecast_scores: false,
        include_trendline_scores: false,
        include_prediction_interval: false,
    };
    let r = scores_list(&args);
    assert_eq!(r.path, "/api/now/pa/scorecards");
    assert_eq!(
        r.query,
        vec![
            pair("sysparm_uuid", "u"),
            pair("sysparm_display", "all"),
            pair("sysparm_favorites", "true"),
            pair("sysparm_per_page", "10"),
            pair("sysparm_page", "1"),
            pair("sysparm_sortby", "INDICATOR_GROUP"),
            pair("sysparm_sortdir", "DESC"),
            pair("sysparm_include_scores", "true"),
            pair("sysparm_step", "2"),
            pair("sysparm_limit", "-1"),
        ]
    );
}

#[test]
fn a_favorite_is_posted_and_taken_back() {
    let args = ScoresFavoriteArgs { uuid: "u".to_string() };
    assert!(matches!(favorite(&args).method, Method::Post));
    assert!(matches!(unfavorite(&args).method, Method::Delete));
    assert_eq!(unfavorite(&args).query, vec![pair("sysparm_uuid", "u")]);
    assert_eq!(
        unfavorited(Json::Null, "u", OutputMode::Default).render(),
        r#"{"ok":true,"uuid":"u"}"#
    );
    assert_eq!(
        unfavorited(doc(r#"{"result":[1]}"#), "u", OutputMode::Default).render(),
        "[1]"
    );
}

#[test]
fn tables_are_filtered_whatever_the_case() {
    assert_eq!(tables_request().path, "/api/now/doc/table/schema");
    assert_eq!(meta_request("incident").path, "/api/now/ui/meta/incident");
    let resp = r#"{"result":[
        {"label":"Incident","value":"incident","reference":true},
        {"label":"Übung","value":"u_exercise","reference":false},
        {"label":"Problem","value":"problem"}]}"#;
    let shown = |filter: Option<&str>, reference_only| {
        tables(
            doc(resp),
            &SchemaTablesArgs { filter: filter.map(|f| f.to_string()), reference_only },
            OutputMode::Default,
        )
        .render()
    };
    assert_eq!(
        shown(Some("INC"), false),
        r#"[{"label":"Incident","reference":true,"value":"incident"}]"#
    );
    assert_eq!(
        shown(Some("üBUNG"), false),
        r#"[{"label":"Übung","reference":false,"value":"u_exercise"}]"#
    );
    assert_eq!(
        shown(None, true),
        r#"[{"label":"Incident","reference":true,"value":"incident"}]"#
    );
}

#[test]
fn an_answer_without_a_list_is_shown_as_it_is() {
    let args = SchemaTablesArgs { filter: None, reference_only: false };
    assert_eq!(
        tables(doc(r#"{"error":1}"#), &args, OutputMode::Default).render(),
        r#"{"error":1}"#
    );
    assert_eq!(
        tables(doc(r#"{"result":{"a":1}}"#), &args, OutputMode::Default).render(),
        r#"{"a":1}"#
    );
    assert_eq!(
        tables(doc(r#"{"result":[]}"#), &args, OutputMode::Raw).render(),
        r#"{"result":[]}"#
    );
}

fn column_args() -> SchemaColumnsArgs {
    SchemaColumnsArgs {
        table: "incident".to_string(),
        filter: None,
        column_type: None,
        mandatory: false,
        writable: false,
        choices_only: false,
        references_only: false,
    }
}

#[test]
fn columns_pass_every_flag_that_is_set() {
    let col = doc(r#"{"type":"Reference","mandatory":true,"read_only":false,"choices":[],"label":"Caller"}"#);
    assert!(keep_column(&col, &column_args()));
    assert!(keep_column(&col, &SchemaColumnsArgs { mandatory: true, ..column_args() }));
    assert!(keep_column(&col, &SchemaColumnsArgs { writable: true, ..column_args() }));
    assert!(!keep_column(&col, &SchemaColumnsArgs { choices_only: true, ..column_args() }));
    assert!(!keep_column(&col, &SchemaColumnsArgs { references_only: true, ..column_args() }));
    assert!(keep_column(
        &col,
        &SchemaColumnsArgs { column_type: text("rEFERENCE"), ..column_args() }
    ));
    assert!(keep_column(&col, &SchemaColumnsArgs { filter: text("CALL"), ..column_args() }));
    assert!(!keep_column(&col, &SchemaColumnsArgs { filter: text("x"), ..column_args() }));
}

#[test]
fn columns_come_in_the_order_of_their_names() {
    let resp = doc(r#"{"result":{"columns":{"b":{"type":"string"},"a":{"type":"integer"}}}}"#);
    assert_eq!(
        columns(resp, &column_args(), OutputMode::Default).render(),
        r#"[{"name":"a","type":"integer"},{"name":"b","type":"string"}]"#
    );
}

#[test]
fn a_column_without_choices_is_named() {
    let args = SchemaChoicesArgs { table: "incident".to_string(), field: "state".to_string() };
    let with = doc(r#"{"result":{"columns":{"state":{"choices":[{"value":"1"}]}}}}"#);
    assert_eq!(
        choices(with, &args, OutputMode::Default).unwrap().render(),
        r#"[{"value":"1"}]"#
    );
    match choices(doc(r#"{"result":{"columns":{}}}"#), &args, OutputMode::Default) {
        Err(Error::Usage(m)) => {
            assert_eq!(m, "no choices found on field 'state' in table 'incident'")
        }
        other => panic!("{other:?}"),
    }
}

#[test]
fn a_suite_is_run_by_what_names_it() {
    let args = AtfRunArgs {
        suite_id: text("s1"),
        suite_name: None,
        browser_name: text("chrome"),
        browser_version: None,
        os_name: None,
        os_version: None,
        run_in_cloud: true,
        performance_run: false,
        wait: WaitArgs { wait: false, wait_timeout: None },
    };
    let r = atf_run(&args);
    assert!(matches!(r.method, Method::Post));
    assert_eq!(r.path, "/api/sn_cicd/testsuite/run");
    assert_eq!(
        r.query,
        vec![
            pair("test_suite_sys_id", "s1"),
            pair("browser_name", "chrome"),
            pair("run_in_cloud", "true"),
        ]
    );
    assert_eq!(
        results(&AtfResultsArgs { result_id: "r9".to_string() }).path,
        "/api/sn_cicd/testsuite/results/r9"
    );
}

#[test]
fn an_operation_is_waited_for_by_its_link() {
    let out = doc(r#"{"result":{"links":{"progress":{"id":"p1"}}}}"#);
    let wait = |wait| WaitArgs { wait, wait_timeout: None };
    assert_eq!(finish_cicd(&out, &wait(true)), text("p1"));
    assert_eq!(finish_cicd(&out, &wait(false)), None);
    assert_eq!(finish_cicd(&doc("{}"), &wait(true)), None);
    assert_eq!(progress_run("p1").path, "/api/sn_cicd/progress/p1");
}

fn poll(resp: &str, out_of_time: bool) -> PollStep {
    wait_for_completion(doc(resp), OutputMode::Default, "p1", Some(60), out_of_time)
}

#[test]
fn an_operation_ends_by_its_status() {
    match poll(r#"{"result":{"status":"2","n":1}}"#, true) {
        PollStep::Done(j) => assert_eq!(j.render(), r#"{"n":1,"status":"2"}"#),
        other => panic!("{other:?}"),
    }
    match poll(r#"{"result":{"status":"3","status_message":"boom","status_detail":"why"}}"#, true) {
        PollStep::Fail(Error::Api { status, message, detail, .. }) => {
            assert_eq!(status, 0);
            assert_eq!(message, "boom");
            assert_eq!(detail, text("why"));
        }
        other => panic!("{other:?}"),
    }
    match poll(r#"{"result":{"status":"4"}}"#, false) {
        PollStep::Fail(Error::Api { message, .. }) => assert_eq!(message, "operation failed"),
        other => panic!("{other:?}"),
    }
}

#[test]
fn an_operation_that_goes_on_is_asked_again_until_the_time_is_up() {
    assert!(matches!(
        poll(r#"{"result":{"status":"1","percent_complete":40}}"#, false),
        PollStep::Again
    ));
    assert!(matches!(poll("{}", false), PollStep::Again));
    match poll(r#"{"result":{"status":"0"}}"#, true) {
        PollStep::Fail(Error::Transport(m)) => assert_eq!(
            m,
            "--wait timed out after 60s; operation still running, poll with `sn progress p1`"
        ),
        other => panic!("{other:?}"),
    }
}

#[test]
fn the_percentage_of_a_running_operation_is_shown() {
    let shown = |resp: &str, verbose| percent_to_show(&doc(resp), verbose);
    match shown(r#"{"result":{"status":"1","percent_complete":40}}"#, 1) {
        Some(Percent::Number(n)) => assert_eq!(n, "40"),
        other => panic!("{other:?}"),
    }
    match shown(r#"{"percent_complete":"55"}"#, 2) {
        Some(Percent::Text(n)) => assert_eq!(n, "55"),
        other => panic!("{other:?}"),
    }
    assert!(shown(r#"{"result":{"percent_complete":"55"}}"#, 0).is_none());
    assert!(shown(r#"{"result":{"percent_complete":true}}"#, 1).is_none());
    for status in ["2", "3", "4"] {
        let resp = format!(r#"{{"result":{{"status":"{status}","percent_complete":100}}}}"#);
        assert!(shown(&resp, 1).is_none(), "{status}");
    }
}

#[test]
fn a_wait_is_over_when_its_seconds_are() {
    assert!(!out_of_time(59_999, Some(60)));
    assert!(out_of_time(60_000, Some(60)));
    assert!(out_of_time(0, Some(0)));
    assert!(!out_of_time(u64::MAX, Some(u64::MAX)));
    assert!(!out_of_time(u64::MAX, None));
}

#[test]
fn a_form_is_opened_by_its_address() {
    let url = record_url("dev1.service-now.com", "incident", "abc");
    assert_eq!(
        url,
        "https://dev1.service-now.com/nav_to.do?uri=%2Fincident.do%3Fsys_id%3Dabc"
    );
    assert_eq!(opened("u").render(), r#"{"opened":true,"url":"u"}"#);
}

fn gone() -> Error {
    Error::Api {
        status: 404,
        message: "gone".to_string(),
        detail: None,
        transaction_id: None,
        sn_error: None,
    }
}

#[test]
fn the_own_record_is_read_by_its_id_where_it_is_known() {
    let named = doc(r#"{"result":{"user_name":"abel","user_sys_id":"u1"}}"#);
    match self_read(Ok(named)) {
        SelfRead::Direct(r) => assert_eq!(r.path, "/api/now/table/sys_user/u1"),
        other => panic!("{other:?}"),
    }
    match self_read(Err(gone())) {
        SelfRead::Scripted(r) => assert_eq!(r.query[1], pair("sysparm_limit", "2")),
        other => panic!("{other:?}"),
    }
    assert!(matches!(
        self_read(Err(Error::Transport("x".to_string()))),
        SelfRead::Fail(Error::Transport(_))
    ));
}

#[test]
fn two_rows_are_no_answer_about_oneself() {
    assert!(scripted_self_read(doc(r#"{"result":[{},{}]}"#)).is_err());
    assert!(scripted_self_read(doc(r#"{"result":[{}]}"#)).is_ok());
    assert_eq!(
        me(doc(r#"{"result":[{"name":"a"}]}"#), OutputMode::Default).unwrap().render(),
        r#"{"name":"a"}"#
    );
    assert_eq!(
        me(doc(r#"{"result":{"name":"b"}}"#), OutputMode::Default).unwrap().render(),
        r#"{"name":"b"}"#
    );
    assert!(me(doc(r#"{"result":[]}"#), OutputMode::Default).is_err());
    assert!(me(doc(r#"{"result":[]}"#), OutputMode::Raw).is_ok());
}

#[test]
fn only_deletions_are_gated() {
    let id = || ChangeSysIdArg { sys_id: "c".to_string() };
    let d = draft(ChangeSub::Nextstates(id())).unwrap();
    assert_eq!(d.path, "/api/sn_chg_rest/change/c/nextstates");
    assert!(matches!(d.gate(false), Confirmation::Granted));
    let d = draft(ChangeSub::Conflict(ChangeConflictSub::Remove(ChangeConflictRemoveArgs {
        sys_id: "c".to_string(),
        yes: false,
    })))
    .unwrap();
    match d.gate(false) {
        Confirmation::Refused(Error::Usage(m)) => assert_eq!(
            m,
            "remove all conflicts on change c requires --yes when stdin is not a terminal"
        ),
        other => panic!("{other:?}"),
    }
    let standard = ChangeCreateArgs {
        change_type: ChangeType::Standard,
        template: None,
        body: no_body(),
        fields: None,
        display_value: no_display(),
    };
    assert!(draft(ChangeSub::Create(standard)).is_err());
}
