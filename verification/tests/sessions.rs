use sn::auth::{
    identify, identify_via_sys_user, login, login_grant, login_settings, logout, parse_current_user,
    refresh_allowed, status, IdentifyStep,
};
use sn::builder::{build_client, judge_proxy, needs_token, Auth, Client};
use sn::config::{
    AuthMethod, Config, Credentials, OAuthConfig, OAuthGrant, ProfileConfig, ProfileCredentials,
    ResolvedOauth, ResolvedProfile, TokenSet,
};
use sn::error::Error;
use sn::flags::{GlobalFlags, OutputMode};
use sn::json::{parse, Json};
use sn::named::Named;
use sn::ping::{begin, extract_build, probe_session, run as ping, PingPhase, PingStep};
use sn::profile::{
    add, add_policy, is_interactive, list, named_addition, refuse_existing, refuse_unverifiable,
    remove, restore, save_and_verify, save_profile_locked, set_default, show, Caller,
    ProfileAddArgs, ProfileInput, SaveStep,
};
use sn::prompts::{
    ask, chomp, missing, resolve_input, resolve_name, Field, How, InputStep, Replies, Reply, Setting,
};
use sn::request::{get, with_body, Method};
use sn::session::{session_cookies, session_request};
use sn::switch::{
    resolve_scope, resolve_update_set, scope_request, set_scope, set_updateset, ScopeStep, SetStep,
};

fn doc(s: &str) -> Json {
    parse(s).unwrap()
}

fn text(s: &str) -> Option<String> {
    Some(s.to_string())
}

fn status_error(status: u16) -> Error {
    Error::Api {
        status,
        message: "no".to_string(),
        detail: None,
        transaction_id: None,
        sn_error: None,
    }
}

#[test]
fn the_endpoint_names_the_caller() {
    let v = doc(r#"{"result":{"user_name":" abel ","user_sys_id":"u1","user_display_name":""}}"#);
    let i = parse_current_user(&v).unwrap();
    assert_eq!(i.user_name, "abel");
    assert_eq!(i.sys_id, text("u1"));
    assert_eq!(i.display_name, None);
    assert_eq!(i.source, "ui/user/current_user");
    assert!(parse_current_user(&doc(r#"{"result":{"user_name":"  "}}"#)).is_none());
}

#[test]
fn an_absent_endpoint_leads_to_the_table_of_users() {
    match identify(Err(status_error(404))) {
        IdentifyStep::Ask(r) => {
            assert_eq!(r.path, "/api/now/table/sys_user");
            assert_eq!(r.query[2].1, "2");
        }
        other => panic!("{other:?}"),
    }
    assert!(matches!(
        identify(Err(status_error(403))),
        IdentifyStep::Fail(Error::Api { status: 403, .. })
    ));
    let refused =
        Error::Auth { status: 401, message: "no".to_string(), transaction_id: None };
    assert!(matches!(identify(Err(refused)), IdentifyStep::Fail(Error::Auth { .. })));
}

#[test]
fn a_second_user_names_nobody() {
    let one = doc(r#"{"result":[{"user_name":"abel","sys_id":"u1","name":"Abel"}]}"#);
    let two = doc(r#"{"result":[{"user_name":"abel"},{"user_name":"beth"}]}"#);
    assert_eq!(identify_via_sys_user(&one).unwrap().source, "sys_user");
    assert!(identify_via_sys_user(&two).is_none());
    assert!(identify_via_sys_user(&doc(r#"{"result":[]}"#)).is_none());
}

#[test]
fn a_session_is_read_without_its_token() {
    let v = doc(
        r#"{"CurrentUser":"beth","OriginalUser":"abel","admin":true,"SessionToken":"SECRET"}"#,
    );
    let s = probe_session(Ok(v)).unwrap().unwrap();
    assert_eq!(s.user_name, "beth");
    assert_eq!(s.original_user, text("abel"));
    let out = ping("dev", "dev1", "", 12, Some(s), None, (Json::Null, Json::Null)).render();
    assert!(out.contains(r#""impersonating":true"#));
    assert!(out.contains(r#""username":"beth""#));
    assert!(out.contains(r#""identity_source":"sg/impersonation/session""#));
    assert!(!out.contains("SECRET"));
}

#[test]
fn a_session_may_be_absent_but_not_refused() {
    assert!(probe_session(Err(status_error(404))).unwrap().is_none());
    assert!(probe_session(Err(status_error(500))).is_err());
    assert!(probe_session(Ok(doc(r#"{"CurrentUser":" "}"#))).unwrap().is_none());
}

#[test]
fn a_ping_falls_back_to_the_profile() {
    let out = ping("dev", "dev1", "abel", 7, None, None, (Json::Null, Json::Null));
    assert_eq!(out.get_str("username"), Some(&"abel".to_string()));
    assert_eq!(out.get_str("identity_source"), Some(&"profile".to_string()));
    assert!(matches!(out.get("impersonating"), Some(Json::Null)));
    let out = ping("dev", "dev1", "", 7, None, None, (Json::Null, Json::Null));
    assert!(matches!(out.get("identity_source"), Some(Json::Null)));
}

#[test]
fn the_last_row_of_a_property_counts() {
    let v = doc(
        r#"{"result":[{"name":"glide.buildname","value":"A"},{"name":"glide.buildname","value":"B"},
            {"name":"glide.buildtag","value":"t"}]}"#,
    );
    let (name, tag) = extract_build(&v);
    assert_eq!(name.render(), r#""B""#);
    assert_eq!(tag.render(), r#""t""#);
    assert!(matches!(extract_build(&doc("{}")).0, Json::Null));
}

fn profile(auth_method: AuthMethod, oauth: Option<ResolvedOauth>) -> ResolvedProfile {
    ResolvedProfile {
        name: "dev".to_string(),
        instance: "dev1.service-now.com".to_string(),
        username: "abel".to_string(),
        password: "pw".to_string(),
        proxy: None,
        no_proxy: None,
        insecure: false,
        ca_cert: None,
        proxy_ca_cert: None,
        proxy_username: None,
        proxy_password: None,
        auth_method,
        oauth,
    }
}

fn granted(grant: OAuthGrant, tokens: Option<TokenSet>) -> ResolvedOauth {
    ResolvedOauth {
        client_id: "id".to_string(),
        client_secret: text("cs"),
        redirect_uri: "http://localhost:8400/callback".to_string(),
        auth_path: "/oauth_auth.do".to_string(),
        token_path: "/oauth_token.do".to_string(),
        grant,
        pkce: true,
        tokens,
    }
}

fn tokens() -> TokenSet {
    TokenSet {
        access_token: "AT".to_string(),
        refresh_token: text("RT"),
        expires_at: Some(1_000),
        token_type: text("Bearer"),
    }
}

#[test]
fn a_status_shows_no_secret() {
    let p = profile(
        AuthMethod::Oauth,
        Some(granted(OAuthGrant::AuthorizationCode, Some(tokens()))),
    );
    let out = status(&p, 400).render();
    assert!(!out.contains("\"AT\"") && !out.contains("\"RT\"") && !out.contains("\"cs\""));
    assert!(out.contains("600"));
}

#[test]
fn only_an_oauth_profile_logs_in() {
    let mut config = Config { default_profile: None, profiles: Named::new() };
    assert!(login_grant(&config, "dev").is_err());
    let mut p = ProfileConfig::default();
    p.auth = AuthMethod::Oauth;
    p.oauth = Some(OAuthConfig {
        client_id: "id".to_string(),
        redirect_uri: None,
        auth_path: None,
        token_path: None,
        grant: OAuthGrant::ClientCredentials,
        pkce: false,
    });
    config.profiles.insert("dev", p);
    assert!(matches!(login_grant(&config, "dev"), Ok(OAuthGrant::ClientCredentials)));
    let shown = login("dev", "dev1", OAuthGrant::ClientCredentials, &text("abel")).render();
    assert!(shown.contains(r#""grant":"client_credentials""#));
    assert!(logout("dev").render().contains(r#""profile":"dev""#));
}

#[test]
fn a_basic_profile_has_nothing_to_refresh() {
    assert!(refresh_allowed(&profile(AuthMethod::Basic, None)).is_err());
    let p = profile(AuthMethod::Oauth, Some(granted(OAuthGrant::AuthorizationCode, Some(tokens()))));
    assert!(refresh_allowed(&p).is_ok());
    assert_eq!(login_settings(&p).unwrap().client_id, "id");
    assert!(matches!(
        login_settings(&profile(AuthMethod::Oauth, None)),
        Err(Error::Config(_))
    ));
}

#[test]
fn a_client_presents_what_it_was_told_to() {
    let p = profile(AuthMethod::Basic, None);
    assert!(!needs_token(&p));
    let c = build_client(&p, None, None).build(&p).unwrap();
    assert_eq!(c.base_url(), "https://dev1.service-now.com");
    assert_eq!(c.url("/x"), "https://dev1.service-now.com/x");
    assert_eq!(c.timeout_secs, 30);
    assert_eq!(c.user_agent, "sn/0.13.0");
    assert_eq!(c.describe().1, "basic(abel)");
    let c = build_client(&p, Some(5), text("tok")).build(&p).unwrap();
    assert_eq!(c.describe().1, "bearer");
    assert_eq!(c.timeout_secs, 5);
    let c = Client::builder().auth(Auth::Anonymous).build(&p).unwrap();
    assert_eq!(c.describe().1, "none");
}

#[test]
fn a_body_goes_out_with_its_type() {
    let p = profile(AuthMethod::Basic, None);
    let c = Client::builder().build(&p).unwrap();
    let w = c.request(with_body(Method::Post, "/x".to_string(), vec![], doc("{}")));
    assert_eq!(w.content_type, text("application/json"));
    assert_eq!(w.url, "https://dev1.service-now.com/x");
    let w = c.request(get("/x".to_string(), vec![]));
    assert_eq!(w.content_type, None);
    assert!(w.body.is_none());
}

#[test]
fn a_proxy_has_a_scheme_and_an_address() {
    let p = profile(AuthMethod::Basic, None);
    let with = |url: &str| {
        Client::builder()
            .proxy(text(url))
            .no_proxy(text("localhost"))
            .proxy_auth(text("u"), text("w"))
            .build(&p)
    };
    let plan = with("http://proxy.example:3128").unwrap().proxy.unwrap();
    assert_eq!(plan.url, "http://proxy.example:3128");
    assert_eq!(plan.credentials, Some(("u".to_string(), "w".to_string())));
    assert_eq!(plan.no_proxy, text("localhost"));
    match with("ftp://proxy.example") {
        Err(Error::Config(m)) => assert!(m.contains("must start with http://")),
        other => panic!("{other:?}"),
    }
    match with("http://") {
        Err(Error::Config(m)) => assert!(m.starts_with("invalid proxy URL 'http://': ")),
        other => panic!("{other:?}"),
    }
    assert!(judge_proxy("socks5h://h", &None).is_ok());
    assert!(judge_proxy("socks5h://h", &text("no")).is_err());
}

#[test]
fn a_session_needs_its_cookie() {
    let set = vec![
        "JSESSIONID=abc; Path=/; HttpOnly".to_string(),
        "glide_user=; Max-Age=0".to_string(),
        "BIGip=1=2".to_string(),
    ];
    assert_eq!(session_cookies(200, None, "", &set).unwrap(), "JSESSIONID=abc; BIGip=1=2");
    match session_cookies(200, text("tx"), "", &vec![]) {
        Err(Error::Auth { status, transaction_id, .. }) => {
            assert_eq!(status, 200);
            assert_eq!(transaction_id, text("tx"));
        }
        other => panic!("{other:?}"),
    }
    assert!(matches!(session_cookies(401, None, "", &set), Err(Error::Auth { status: 401, .. })));
    assert_eq!(session_request().path, "/api/now/table/sys_user");
}

#[test]
fn a_scope_is_named_by_exactly_one_row() {
    assert_eq!(
        scope_request("x_app").query[0].1,
        "scope=x_app^ORname=x_app^ORsys_id=x_app"
    );
    let one = doc(r#"{"result":[{"sys_id":"1","name":"App","scope":"x_app"}]}"#);
    assert_eq!(resolve_scope("x_app", &one).unwrap().sys_id, "1");
    let two = doc(
        r#"{"result":[{"sys_id":"1","name":"App","scope":"x_app"},{"sys_id":"2","name":"App","scope":"y_app"}]}"#,
    );
    match resolve_scope("App", &two) {
        Err(Error::Usage(m)) => assert_eq!(
            m,
            "'App' matches more than one scope: x_app (1), y_app (2); use the sys_id"
        ),
        other => panic!("{other:?}"),
    }
    assert!(resolve_scope("z", &doc(r#"{"result":[{"sys_id":"1"}]}"#)).is_err());
    assert!(resolve_update_set("s", &doc(r#"{"result":[]}"#)).is_none());
}

fn context(scope: &str) -> Json {
    let row = format!(
        r#"{{"sys_id":{{"value":"{scope}"}},"name":{{"value":"N{scope}"}},"scope":{{"value":"{scope}"}}}}"#
    );
    let none = r#"{"_results":[]}"#;
    doc(&format!(
        r#"{{"data":{{"GlideRecord_Query":{{
            "canary":{{"_results":[{row}]}},
            "us_canary":{{"_results":[{{"sys_id":{{"value":"d"}}}}]}},
            "scope":{{"_results":[{row}]}},
            "active":{none},"remembered":{none},"fallback":{none} }}}}}}"#
    ))
}

fn asked(s: ScopeStep) -> (sn::switch::ScopePhase, sn::request::Request) {
    match s {
        ScopeStep::Ask(p, r) => (p, r),
        other => panic!("{other:?}"),
    }
}

#[test]
fn a_switch_is_reported_where_it_is_read_back() {
    let (p, _) = set_scope();
    let (p, r) = asked(p.receive("x_new", Ok(context("x_old"))));
    assert_eq!(r.path, "/api/now/table/sys_scope");
    let found = doc(r#"{"result":[{"sys_id":"x_new","name":"New","scope":"x_new"}]}"#);
    let (p, r) = asked(p.receive("x_new", Ok(found)));
    assert!(matches!(r.method, Method::Put));
    assert_eq!(r.body.unwrap().render(), r#"{"app_id":"x_new"}"#);
    let (p, _) = asked(p.receive("x_new", Ok(Json::Null)));
    let (p, r) = asked(p.receive("x_new", Err(status_error(404))));
    assert_eq!(r.path, "/api/now/table/sys_user");
    let user = doc(r#"{"result":[{"user_name":"abel","sys_id":"u1"}]}"#);
    let (p, r) = asked(p.receive("x_new", Ok(user)));
    assert_eq!(
        r.query[0].1,
        "user=u1^name=apps.current_app^ORDERBYsys_created_on"
    );
    let (p, r) = asked(p.receive("x_new", Ok(doc(r#"{"result":[{"sys_id":"pr"}]}"#))));
    assert!(matches!(r.method, Method::Patch));
    assert_eq!(r.path, "/api/now/table/sys_user_preference/pr");
    let (p, _) = asked(p.receive("x_new", Ok(Json::Null)));
    match p.receive("x_new", Ok(context("x_new"))) {
        ScopeStep::Done(j) => {
            assert_eq!(j.get("scope").unwrap().get_str("sys_id").unwrap(), "x_new");
            let before = j.get("previous").unwrap();
            assert_eq!(before.get("scope").unwrap().get_str("sys_id").unwrap(), "x_old");
        }
        other => panic!("{other:?}"),
    }
}

#[test]
fn a_switch_that_did_not_take_fails() {
    let (p, _) = set_scope();
    let (p, _) = asked(p.receive("x_new", Ok(context("x_old"))));
    let found = doc(r#"{"result":[{"sys_id":"x_new","name":"New","scope":"x_new"}]}"#);
    let (p, _) = asked(p.receive("x_new", Ok(found)));
    let (p, _) = asked(p.receive("x_new", Ok(Json::Null)));
    let named = doc(r#"{"result":{"user_name":"abel","user_sys_id":"u1"}}"#);
    let (p, _) = asked(p.receive("x_new", Ok(named)));
    let (p, r) = asked(p.receive("x_new", Ok(doc(r#"{"result":[]}"#))));
    assert!(matches!(r.method, Method::Post));
    let (p, _) = asked(p.receive("x_new", Ok(Json::Null)));
    match p.receive("x_new", Ok(context("x_old"))) {
        ScopeStep::Fail(Error::Api { message, .. }) => {
            assert!(message.starts_with("scope switch did not persist: asked for New (x_new)"))
        }
        other => panic!("{other:?}"),
    }
}

#[test]
fn an_update_set_of_another_scope_is_explained() {
    let (p, _) = set_updateset();
    let (p, r) = match p.receive("mine", &context("x_old")) {
        SetStep::Ask(p, r) => (p, r),
        other => panic!("{other:?}"),
    };
    assert_eq!(
        r.query[0].1,
        "sys_id=mine^ORname=mine^application=x_old^state=in progress"
    );
    let p = match p.receive("mine", &doc(r#"{"result":[]}"#)) {
        SetStep::Ask(p, r) => {
            assert_eq!(r.query[0].1, "sys_id=mine^ORname=mine");
            p
        }
        other => panic!("{other:?}"),
    };
    let near = doc(r#"{"result":[{"sys_id":"s","name":"mine","application":"other"}]}"#);
    match p.receive("mine", &near) {
        SetStep::Fail(Error::Usage(m)) => assert!(m.contains("belongs to another scope")),
        other => panic!("{other:?}"),
    }
}

fn flags() -> GlobalFlags {
    GlobalFlags {
        profile: None,
        output: OutputMode::Default,
        pretty: false,
        compact: false,
        timeout: None,
        verbose: 0,
        proxy: None,
        no_proxy: false,
        proxy_ca_cert: None,
        insecure: false,
        ca_cert: None,
    }
}

fn basic(name: &str, instance: &str) -> ProfileInput {
    ProfileInput {
        name: name.to_string(),
        instance: instance.to_string(),
        auth: AuthMethod::Basic,
        username: "abel".to_string(),
        password: "pw".to_string(),
        client_id: String::new(),
        client_secret: None,
        redirect_uri: None,
        grant: OAuthGrant::AuthorizationCode,
        pkce: true,
    }
}

fn stores() -> (Config, Credentials) {
    let mut config = Config { default_profile: text("prod"), profiles: Named::new() };
    let mut p = ProfileConfig::default();
    p.instance = "prod1".to_string();
    config.profiles.insert("prod", p);
    let mut creds = Credentials { profiles: Named::new() };
    let mut c = ProfileCredentials::default();
    c.username = "root".to_string();
    c.password = "old".to_string();
    c.proxy_username = text("pu");
    creds.profiles.insert("prod", c);
    (config, creds)
}

#[test]
fn a_saved_profile_can_be_taken_back() {
    let (mut config, mut creds) = stores();
    let snap =
        save_profile_locked(&mut config, &mut creds, &flags(), &basic("prod", "new1"), true, false)
            .unwrap();
    assert_eq!(config.profiles.get("prod").unwrap().instance, "new1");
    let c = creds.profiles.get("prod").unwrap();
    assert_eq!((c.username.as_str(), c.password.as_str()), ("abel", "pw"));
    assert_eq!(c.proxy_username, text("pu"));
    restore(&mut config, &mut creds, &snap);
    assert_eq!(config.profiles.get("prod").unwrap().instance, "prod1");
    assert_eq!(creds.profiles.get("prod").unwrap().password, "old");
    assert_eq!(config.default_profile, text("prod"));
}

#[test]
fn a_new_profile_leaves_nothing_behind_when_it_is_taken_back() {
    let (mut config, mut creds) = stores();
    let snap =
        save_profile_locked(&mut config, &mut creds, &flags(), &basic("dev", "dev1"), true, true)
            .unwrap();
    assert_eq!(config.default_profile, text("dev"));
    restore(&mut config, &mut creds, &snap);
    assert!(!config.profiles.has("dev"));
    assert!(!creds.profiles.has("dev"));
    assert!(config.profiles.has("prod"));
    assert_eq!(config.default_profile, text("prod"));
}

#[test]
fn an_existing_profile_is_not_overwritten_unasked() {
    let (mut config, mut creds) = stores();
    let r =
        save_profile_locked(&mut config, &mut creds, &flags(), &basic("prod", "new1"), false, true);
    match r {
        Err(Error::Usage(m)) => {
            assert_eq!(m, "profile 'prod' already exists; pass --force to overwrite it")
        }
        other => panic!("{other:?}"),
    }
    assert_eq!(config.profiles.get("prod").unwrap().instance, "prod1");
    assert!(refuse_existing(&config, "prod", false).is_err());
    assert!(refuse_existing(&config, "prod", true).is_ok());
    assert!(refuse_existing(&config, "dev", false).is_ok());
}

#[test]
fn an_oauth_profile_keeps_no_password() {
    let (mut config, mut creds) = stores();
    let mut input = basic("prod", "prod1");
    input.auth = AuthMethod::Oauth;
    input.client_id = "id".to_string();
    input.client_secret = text("cs");
    save_profile_locked(&mut config, &mut creds, &flags(), &input, false, false).unwrap();
    let c = creds.profiles.get("prod").unwrap();
    assert_eq!(c.password, "");
    assert_eq!(c.client_secret, text("cs"));
    let shown = show(&config, &creds, Some("prod")).unwrap().render();
    assert!(shown.contains(r#""client_id":"id""#));
    assert!(!shown.contains("\"cs\""));
    assert!(refuse_unverifiable(&input, false, false).is_err());
    assert!(refuse_unverifiable(&input, false, true).is_ok());
    assert!(refuse_unverifiable(&basic("x", "y"), false, false).is_ok());
}

#[test]
fn profiles_are_listed_by_name_and_removed_once_and_for_all() {
    let (mut config, mut creds) = stores();
    save_profile_locked(&mut config, &mut creds, &flags(), &basic("dev", "dev1"), false, true)
        .unwrap();
    assert_eq!(
        list(&config).render(),
        r#"[{"auth":"basic","default":false,"instance":"dev1","name":"dev"},{"auth":"basic","default":true,"instance":"prod1","name":"prod"}]"#
    );
    assert!(set_default(&mut config, "nope").is_err());
    assert!(set_default(&mut config, "dev").is_ok());
    assert_eq!(config.default_profile, text("dev"));
    let first = remove(&mut config, &mut creds, "dev").render();
    assert!(first.contains(r#""profile":"dev""#));
    assert!(!config.profiles.has("dev") && !creds.profiles.has("dev"));
    assert_eq!(config.default_profile, None);
    remove(&mut config, &mut creds, "dev");
    assert!(config.profiles.has("prod"));
    assert!(show(&config, &creds, Some("dev")).is_err());
}

#[test]
fn an_addition_says_what_comes_next() {
    let input = basic("dev", "dev1");
    assert_eq!(
        add(&input, false, &text("abel"), &None).render(),
        r#"{"auth":"basic","default":false,"instance":"dev1","next":"sn profile use dev","ok":true,"profile":"dev","user":"abel","verified":true}"#
    );
    let mut oauth = basic("dev", "dev1");
    oauth.auth = AuthMethod::Oauth;
    assert_eq!(
        add(&oauth, true, &None, &None).render(),
        r#"{"auth":"oauth","default":false,"grant":"authorization_code","instance":"dev1","loggedIn":false,"next":"sn profile login --profile dev","ok":true,"profile":"dev","verified":false}"#
    );
}

fn no_args() -> ProfileAddArgs {
    ProfileAddArgs {
        name: None,
        instance: None,
        auth: None,
        username: None,
        password: None,
        password_stdin: false,
        client_id: None,
        client_secret: None,
        client_secret_stdin: false,
        redirect_uri: None,
        grant: None,
        no_pkce: false,
        force: false,
        skip_verify: false,
        set_default: false,
        non_interactive: false,
    }
}

fn no_replies() -> Replies {
    Replies {
        instance: None,
        auth: None,
        username: None,
        password: None,
        client_id: None,
        client_secret: None,
        redirect_uri: None,
    }
}

fn question(s: InputStep) -> (Field, How) {
    match s {
        InputStep::Ask(q) => (q.field, q.how),
        other => panic!("{other:?}"),
    }
}

#[test]
fn a_wizard_asks_for_what_it_does_not_know() {
    let mut r = no_replies();
    let step = |r: &Replies| {
        resolve_input(&no_args(), "dev".to_string(), Caller::Init, true, r)
    };
    assert!(matches!(question(step(&r)), (Field::Instance, How::Line)));
    r.instance = Some(Reply::Text("dev1\n".to_string()));
    assert!(matches!(question(step(&r)), (Field::Auth, How::Line)));
    r.auth = Some(Reply::Text("\n".to_string()));
    assert!(matches!(question(step(&r)), (Field::Username, How::Line)));
    r.username = Some(Reply::Text("abel\n".to_string()));
    assert!(matches!(question(step(&r)), (Field::Password, How::Hidden)));
    r.password = Some(Reply::Text("p w ".to_string()));
    match step(&r) {
        InputStep::Ready(i) => {
            assert_eq!(i.instance, "dev1.service-now.com");
            assert_eq!(i.username, "abel");
            assert_eq!(i.password, "p w ");
            assert!(matches!(i.auth, AuthMethod::Basic));
        }
        other => panic!("{other:?}"),
    }
    r.auth = Some(Reply::Text("kerberos".to_string()));
    match step(&r) {
        InputStep::Fail(Error::Usage(m)) => {
            assert_eq!(m, "unknown auth method 'kerberos' (expected basic or oauth)")
        }
        other => panic!("{other:?}"),
    }
}

#[test]
fn nobody_is_asked_without_a_terminal() {
    match resolve_input(&no_args(), "dev".to_string(), Caller::ProfileAdd, false, &no_replies()) {
        InputStep::Fail(Error::Usage(m)) => {
            assert!(m.starts_with("--instance is required when stdin is not a terminal"))
        }
        other => panic!("{other:?}"),
    }
    assert!(missing("--x", Caller::Init).text().contains("--x is required"));
    let reply = Some(Reply::Text("  ".to_string()));
    match ask(true, Field::Auth, "q", text("d"), "--x", Caller::Init, &reply) {
        Setting::Got(s) => assert_eq!(s, "d"),
        other => panic!("{other:?}"),
    }
    let failed = Some(Reply::Failed("eof".to_string()));
    match ask(true, Field::Auth, "q", None, "--x", Caller::Init, &failed) {
        Setting::Fail(Error::Usage(m)) => assert_eq!(m, "read stdin: eof"),
        other => panic!("{other:?}"),
    }
}

#[test]
fn a_secret_loses_only_its_line_end() {
    assert_eq!(chomp(" s \r\n\n"), " s ");
    assert_eq!(chomp(""), "");
    let mut args = no_args();
    args.name = text("  ");
    assert!(matches!(
        resolve_name(&args, None, Caller::ProfileAdd, false, &None),
        Setting::Fail(Error::Usage(_))
    ));
    match resolve_name(&no_args(), text("default"), Caller::Init, true, &None) {
        Setting::Ask(q) => assert_eq!(q.message, "Profile name [default]: "),
        other => panic!("{other:?}"),
    }
}

#[test]
fn a_profile_that_cannot_log_in_is_taken_back() {
    let policy = add_policy(&no_args());
    assert!(policy.verify && policy.refuse_existing && !policy.set_default);
    assert!(matches!(save_and_verify(policy, None), SaveStep::Verify));
    match save_and_verify(policy, Some(Ok(text("abel")))) {
        SaveStep::Keep(user) => assert_eq!(user, text("abel")),
        other => panic!("{other:?}"),
    }
    assert!(matches!(
        save_and_verify(policy, Some(Err(status_error(403)))),
        SaveStep::TakeBack(Error::Api { status: 403, .. })
    ));
    let mut args = no_args();
    args.skip_verify = true;
    assert!(matches!(save_and_verify(add_policy(&args), None), SaveStep::Keep(None)));
}

#[test]
fn an_addition_takes_its_name_from_either_flag() {
    assert_eq!(named_addition(no_args(), &text("dev")).name, text("dev"));
    let mut args = no_args();
    args.name = text("prod");
    assert_eq!(named_addition(args, &text("dev")).name, text("prod"));
    assert!(is_interactive(&no_args(), true));
    assert!(!is_interactive(&no_args(), false));
    let mut args = no_args();
    args.non_interactive = true;
    assert!(!is_interactive(&args, true));
}

fn pinging(s: PingStep) -> (PingPhase, sn::request::Request) {
    match s {
        PingStep::Ask(p, r) => (p, r),
        other => panic!("{other:?}"),
    }
}

#[test]
fn a_ping_with_a_session_asks_for_the_build_next() {
    let p = profile(AuthMethod::Basic, None);
    let (phase, r) = begin();
    assert_eq!(r.path, "/api/now/sg/impersonation/session");
    let (phase, r) = pinging(phase.receive(&p, 42, Ok(doc(r#"{"CurrentUser":"beth"}"#))));
    assert_eq!(r.path, "/api/now/table/sys_properties");
    match phase.receive(&p, 7, Err(status_error(403))) {
        PingStep::Done(j) => {
            assert_eq!(j.get_str("username").unwrap(), "beth");
            assert_eq!(j.get("latency_ms").unwrap().render(), "42");
            assert!(matches!(j.get("build_name"), Some(Json::Null)));
        }
        other => panic!("{other:?}"),
    }
}

#[test]
fn a_ping_without_a_session_looks_for_the_caller() {
    let p = profile(AuthMethod::Basic, None);
    let (phase, _) = begin();
    let (phase, r) = pinging(phase.receive(&p, 1, Err(status_error(404))));
    assert_eq!(r.path, "/api/now/ui/user/current_user");
    let (phase, r) = pinging(phase.receive(&p, 1, Err(status_error(404))));
    assert_eq!(r.path, "/api/now/table/sys_user");
    assert!(matches!(
        phase.receive(&p, 1, Err(status_error(403))),
        PingStep::Fail(Error::Api { status: 403, .. })
    ));
    let (phase, _) = begin();
    assert!(matches!(
        phase.receive(&p, 1, Err(Error::Transport("down".to_string()))),
        PingStep::Fail(Error::Transport(_))
    ));
}
