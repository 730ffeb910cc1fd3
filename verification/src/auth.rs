//! Who the instance says the caller is, and the sessions of OAuth profiles.
//!
//! A wrong name is never an answer. The table of users is asked for two rows:
//! user names are unique, so a second row shows that the instance dropped the
//! condition, and then nobody is named.

use vstd::prelude::*;

use crate::client::outcome;
use crate::config::{
    entry, AuthMethod, Config, OAuthGrant, ProfileConfig, ResolvedOauth, ResolvedProfile, TokenSet,
};
use crate::error::{text_option, Error, Fault};
use crate::json::{doc_option_ref, items_in, items_of_option, lemma_docs, put, Doc, Json};
use crate::profile::{grant_str, grant_text};
use crate::request::{get, no_query, pairs, param, param_in, Call, Method, Request};
use crate::text::{digits, trim, trimmed, whole, whole_decimal};

verus! {

/// The path of the endpoint that names the caller.
pub const CURRENT_USER_PATH: &'static str = "/api/now/ui/user/current_user";

/// The source of an identity that came from [`CURRENT_USER_PATH`].
pub const SOURCE_CURRENT_USER: &'static str = "ui/user/current_user";

/// The source of an identity that came from the table of users.
pub const SOURCE_SYS_USER: &'static str = "sys_user";

/// Who the instance says the caller is, and which endpoint said so.
#[derive(Debug)]
pub struct Identity {
    pub user_name: String,
    pub sys_id: Option<String>,
    pub display_name: Option<String>,
    pub source: String,
}

/// Who the caller is, as a view.
pub ghost struct Who {
    pub user_name: Seq<char>,
    pub sys_id: Option<Seq<char>>,
    pub display_name: Option<Seq<char>>,
    pub source: Seq<char>,
}

impl Identity {
    pub open spec fn view(&self) -> Who {
        Who {
            user_name: self.user_name@,
            sys_id: text_option(self.sys_id),
            display_name: text_option(self.display_name),
            source: self.source@,
        }
    }
}

/// An identity, where there is one.
pub open spec fn who_option(i: Option<Identity>) -> Option<Who> {
    match i {
        Some(i) => Some(i@),
        None => None,
    }
}

/// A text without the blanks around it, where anything is left of it.
pub open spec fn filled(o: Option<Doc>) -> Option<Seq<char>> {
    match o {
        Some(Doc::Str(s)) => if trimmed(s).len() == 0 {
            None
        } else {
            Some(trimmed(s))
        },
        _ => None,
    }
}

/// A text without the blanks around it, where anything is left of it: a blank
/// name is no name.
pub fn non_empty(v: Option<&Json>) -> (r: Option<String>)
    ensures
        text_option(r) == filled(doc_option_ref(v)),
{
    match v {
        Some(Json::Str(s)) => {
            let t = trim(s.as_str());
            if t.as_str().is_empty() {
                None
            } else {
                Some(t)
            }
        },
        _ => None,
    }
}

/// The caller that the endpoint names.
pub open spec fn current_user(v: Doc) -> Option<Who> {
    match v.field("result"@) {
        None => None,
        Some(r) => match filled(r.field("user_name"@)) {
            None => None,
            Some(user_name) => Some(
                Who {
                    user_name,
                    sys_id: filled(r.field("user_sys_id"@)),
                    display_name: filled(r.field("user_display_name"@)),
                    source: "ui/user/current_user"@,
                },
            ),
        },
    }
}

/// The caller that an answer of the endpoint names.
pub fn parse_current_user(v: &Json) -> (r: Option<Identity>)
    ensures
        who_option(r) == current_user(v@),
{
    match v.get("result") {
        None => None,
        Some(r) => match non_empty(r.get("user_name")) {
            None => None,
            Some(user_name) => Some(
                Identity {
                    user_name,
                    sys_id: non_empty(r.get("user_sys_id")),
                    display_name: non_empty(r.get("user_display_name")),
                    source: "ui/user/current_user".to_owned(),
                },
            ),
        },
    }
}

/// What a reply of the endpoint comes to: the caller, nobody where the endpoint is
/// absent or names none, or the failure. A refused login stays a failure.
pub open spec fn named_by_endpoint(reply: Result<Doc, Fault>) -> Result<Option<Who>, Fault> {
    match reply {
        Ok(v) => Ok(current_user(v)),
        Err(Fault::Api { status, .. }) => if status == 404 {
            Ok(None)
        } else {
            Err(reply->Err_0)
        },
        Err(f) => Err(f),
    }
}

/// The request that asks the endpoint.
pub fn current_user_request() -> (r: Request)
    ensures
        r@ == (Call {
            method: Method::Get,
            path: "/api/now/ui/user/current_user"@,
            query: Seq::empty(),
            body: None,
        }),
{
    get("/api/now/ui/user/current_user".to_owned(), no_query())
}

/// Reads the reply of the endpoint, without a fallback.
pub fn identify_via_current_user(reply: Result<Json, Error>) -> (r: Result<Option<Identity>, Error>)
    ensures
        match named_by_endpoint(outcome(reply)) {
            Ok(w) => r matches Ok(i) && who_option(i) == w,
            Err(f) => r matches Err(e) && e@ == f,
        },
{
    match reply {
        Ok(v) => Ok(parse_current_user(&v)),
        Err(Error::Api { status, message, detail, transaction_id, sn_error }) => {
            if status == 404 {
                Ok(None)
            } else {
                Err(Error::Api { status, message, detail, transaction_id, sn_error })
            }
        },
        Err(e) => Err(e),
    }
}

/// The request that asks the table of users for the caller.
pub open spec fn sys_user_call() -> Call {
    Call {
        method: Method::Get,
        path: "/api/now/table/sys_user"@,
        query: seq![
            ("sysparm_query"@, "user_name=javascript:gs.getUserName()"@),
            ("sysparm_fields"@, "user_name,sys_id,name"@),
            ("sysparm_limit"@, "2"@),
        ],
        body: None,
    }
}

/// The request that asks the table of users for the caller.
pub fn sys_user_request() -> (r: Request)
    ensures
        r@ == sys_user_call(),
{
    let mut q = no_query();
    param(&mut q, "sysparm_query", "user_name=javascript:gs.getUserName()");
    param(&mut q, "sysparm_fields", "user_name,sys_id,name");
    param(&mut q, "sysparm_limit", "2");
    assert(pairs(q@) =~= sys_user_call().query);
    get("/api/now/table/sys_user".to_owned(), q)
}

/// The caller that the table of users names: exactly one row, with a name.
pub open spec fn sole_user(v: Doc) -> Option<Who> {
    let rows = items_in(v.field("result"@));
    if rows.len() != 1 {
        None
    } else {
        match filled(rows[0].field("user_name"@)) {
            None => None,
            Some(user_name) => Some(
                Who {
                    user_name,
                    sys_id: filled(rows[0].field("sys_id"@)),
                    display_name: filled(rows[0].field("name"@)),
                    source: "sys_user"@,
                },
            ),
        }
    }
}

/// Reads the answer of the table of users.
pub fn identify_via_sys_user(v: &Json) -> (r: Option<Identity>)
    ensures
        who_option(r) == sole_user(v@),
{
    let rows = items_of_option(v.get("result"));
    proof {
        lemma_docs(rows@);
    }
    if rows.len() != 1 {
        return None;
    }
    let row = &rows[0];
    match non_empty(row.get("user_name")) {
        None => None,
        Some(user_name) => Some(
            Identity {
                user_name,
                sys_id: non_empty(row.get("sys_id")),
                display_name: non_empty(row.get("name")),
                source: "sys_user".to_owned(),
            },
        ),
    }
}

/// What comes next in identifying the caller.
#[derive(Debug)]
pub enum IdentifyStep {
    Done(Identity),
    Ask(Request),
    Fail(Error),
}

/// Takes in the reply of the endpoint: the caller is known, or the table of users
/// is asked, or the login failed.
pub fn identify(reply: Result<Json, Error>) -> (r: IdentifyStep)
    ensures
        match named_by_endpoint(outcome(reply)) {
            Ok(Some(w)) => r matches IdentifyStep::Done(i) && i@ == w,
            Ok(None) => r matches IdentifyStep::Ask(q) && q@ == sys_user_call(),
            Err(f) => r matches IdentifyStep::Fail(e) && e@ == f,
        },
{
    match identify_via_current_user(reply) {
        Ok(Some(i)) => IdentifyStep::Done(i),
        Ok(None) => IdentifyStep::Ask(sys_user_request()),
        Err(e) => IdentifyStep::Fail(e),
    }
}

/// Rows that a condition cannot have selected name nobody, and neither does a row
/// without a name.
pub proof fn strangers_are_never_named(v: Doc)
    ensures
        items_in(v.field("result"@)).len() > 1 ==> sole_user(v) is None,
        sole_user(v) matches Some(w) ==> w.user_name.len() > 0,
        current_user(v) matches Some(w) ==> w.user_name.len() > 0,
{
}

/// A refused login is never taken for an absent endpoint.
pub proof fn a_refusal_stays_a_refusal(f: Fault)
    requires
        f matches Fault::Api { status, .. } ==> status != 404,
    ensures
        named_by_endpoint(Err(f)) == Err::<Option<Who>, Fault>(f),
{
}

/// The grant that a profile logs in by, where it logs in by one.
pub open spec fn grant_of(config: Config, name: Seq<char>) -> Option<OAuthGrant> {
    match entry(config.profiles@, name) {
        Some(p) => match p.oauth {
            Some(o) => if p.auth == AuthMethod::Oauth {
                Some(o.grant)
            } else {
                None
            },
            None => None,
        },
        None => None,
    }
}

/// The grant that a login runs; a profile that has none is refused.
pub fn login_grant(config: &Config, name: &str) -> (r: Result<OAuthGrant, Error>)
    ensures
        match grant_of(*config, name@) {
            Some(g) => r matches Ok(x) && x == g,
            None => r matches Err(e) && e@ == Fault::Usage(
                "profile '"@ + name@ + "' does not use oauth; run `sn init`"@,
            ),
        },
{
    if let Some(p) = config.profiles.get(name) {
        if let Some(o) = &p.oauth {
            if let AuthMethod::Oauth = p.auth {
                return Ok(o.grant);
            }
        }
    }
    Err(
        Error::Usage(
            "profile '".to_owned().concat(name).concat("' does not use oauth; run `sn init`"),
        ),
    )
}

/// The OAuth settings that a login without a browser needs.
pub fn login_settings(p: &ResolvedProfile) -> (r: Result<&ResolvedOauth, Error>)
    ensures
        match p.oauth {
            Some(o) => r matches Ok(x) && *x == o,
            None => r matches Err(e) && e@ == Fault::Config("oauth config missing after save"@),
        },
{
    match &p.oauth {
        Some(o) => Ok(o),
        None => Err(Error::Config("oauth config missing after save".to_owned())),
    }
}

/// An optional text as JSON.
pub open spec fn text_or_null(s: Option<Seq<char>>) -> Doc {
    match s {
        Some(s) => Doc::Str(s),
        None => Doc::Null,
    }
}

/// What a login shows.
pub fn login(name: &str, instance: &str, grant: OAuthGrant, user: &Option<String>) -> (r: Json)
    ensures
        r@ == Doc::Object(
            Map::empty().insert("ok"@, Doc::Bool(true)).insert(
                "profile"@,
                Doc::Str(name@),
            ).insert("instance"@, Doc::Str(instance@)).insert(
                "auth"@,
                Doc::Str("oauth"@),
            ).insert("grant"@, Doc::Str(grant_text(grant))).insert(
                "user"@,
                text_or_null(text_option(*user)),
            ),
        ),
{
    let mut m: Vec<(String, Json)> = Vec::new();
    put(&mut m, "ok", Json::Bool(true));
    put(&mut m, "profile", Json::str(name));
    put(&mut m, "instance", Json::str(instance));
    put(&mut m, "auth", Json::str("oauth"));
    put(&mut m, "grant", Json::str(grant_str(grant)));
    put(&mut m, "user", Json::str_or_null(user));
    Json::Object(m)
}

/// What a logout shows.
pub fn logout(name: &str) -> (r: Json)
    ensures
        r@ == Doc::Object(
            Map::empty().insert("ok"@, Doc::Bool(true)).insert(
                "profile"@,
                Doc::Str(name@),
            ).insert("loggedOut"@, Doc::Bool(true)),
        ),
{
    let mut m: Vec<(String, Json)> = Vec::new();
    put(&mut m, "ok", Json::Bool(true));
    put(&mut m, "profile", Json::str(name));
    put(&mut m, "loggedOut", Json::Bool(true));
    Json::Object(m)
}

/// A moment as a signed number of seconds.
pub open spec fn signed(moment: u64) -> int {
    if moment <= i64::MAX {
        moment as int
    } else {
        moment - 0x1_0000_0000_0000_0000
    }
}

/// The decimal of the seconds from one moment to another.
fn seconds_until(moment: u64, now: u64) -> (r: String)
    requires
        i64::MIN <= signed(moment) - signed(now) <= i64::MAX,
    ensures
        r@ == whole(signed(moment) - signed(now)),
{
    let m: i128 = if moment <= 0x7fff_ffff_ffff_ffff {
        moment as i128
    } else {
        moment as i128 - 0x1_0000_0000_0000_0000
    };
    let n: i128 = if now <= 0x7fff_ffff_ffff_ffff {
        now as i128
    } else {
        now as i128 - 0x1_0000_0000_0000_0000
    };
    whole_decimal((m - n) as i64)
}

/// What a status shows of the tokens of a profile.
pub open spec fn token_state(m: Map<Seq<char>, Doc>, t: Option<TokenSet>, now: u64) -> Map<
    Seq<char>,
    Doc,
> {
    let m = m.insert("loggedIn"@, Doc::Bool(t is Some));
    match t {
        None => m,
        Some(t) => {
            let m = m.insert("hasRefreshToken"@, Doc::Bool(t.refresh_token is Some));
            match t.expires_at {
                None => m,
                Some(exp) => m.insert("expiresAt"@, Doc::Number(digits(exp as nat))).insert(
                    "expiresInSecs"@,
                    Doc::Number(whole(signed(exp) - signed(now))),
                ).insert("expired"@, Doc::Bool(t.expired_at(now, 0))),
            }
        },
    }
}

/// What a status shows: how the profile logs in, and how its session stands.
pub open spec fn status_of(p: ResolvedProfile, now: u64) -> Map<Seq<char>, Doc> {
    let m = Map::empty().insert("profile"@, Doc::Str(p.name@)).insert(
        "instance"@,
        Doc::Str(p.instance@),
    );
    match p.auth_method {
        AuthMethod::Basic => m.insert("auth"@, Doc::Str("basic"@)).insert(
            "username"@,
            Doc::Str(p.username@),
        ),
        AuthMethod::Oauth => {
            let m = m.insert("auth"@, Doc::Str("oauth"@));
            match p.oauth {
                None => m,
                Some(o) => token_state(
                    m.insert("grant"@, Doc::Str(grant_text(o.grant))).insert(
                        "clientId"@,
                        Doc::Str(o.client_id@),
                    ).insert("redirectUri"@, Doc::Str(o.redirect_uri@)),
                    o.tokens,
                    now,
                ),
            }
        },
    }
}

/// The moments whose distance is a machine number.
pub open spec fn comparable_moments(p: ResolvedProfile, now: u64) -> bool {
    p.oauth matches Some(o) ==> (o.tokens matches Some(t) ==> (t.expires_at matches Some(exp) ==>
        i64::MIN <= signed(exp) - signed(now) <= i64::MAX))
}

/// What a status shows.
pub fn status(p: &ResolvedProfile, now: u64) -> (r: Json)
    requires
        comparable_moments(*p, now),
    ensures
        r@ == Doc::Object(status_of(*p, now)),
{
    let mut m: Vec<(String, Json)> = Vec::new();
    put(&mut m, "profile", Json::str(p.name.as_str()));
    put(&mut m, "instance", Json::str(p.instance.as_str()));
    match p.auth_method {
        AuthMethod::Basic => {
            put(&mut m, "auth", Json::str("basic"));
            put(&mut m, "username", Json::str(p.username.as_str()));
        },
        AuthMethod::Oauth => {
            put(&mut m, "auth", Json::str("oauth"));
            if let Some(o) = &p.oauth {
                put(&mut m, "grant", Json::str(grant_str(o.grant)));
                put(&mut m, "clientId", Json::str(o.client_id.as_str()));
                put(&mut m, "redirectUri", Json::str(o.redirect_uri.as_str()));
                put(&mut m, "loggedIn", Json::Bool(o.tokens.is_some()));
                if let Some(t) = &o.tokens {
                    put(&mut m, "hasRefreshToken", Json::Bool(t.refresh_token.is_some()));
                    if let Some(exp) = t.expires_at {
                        put(&mut m, "expiresAt", Json::number(exp));
                        put(&mut m, "expiresInSecs", Json::Number(seconds_until(exp, now)));
                        put(&mut m, "expired", Json::Bool(t.is_expired_at(now, 0)));
                    }
                }
            }
        },
    }
    Json::Object(m)
}

/// A status shows whether there are tokens and when they end, never what they
/// are: two profiles that differ in their secrets alone show the same.
pub proof fn a_status_keeps_the_secrets(a: ResolvedProfile, b: ResolvedProfile, now: u64)
    requires
        a.name@ == b.name@,
        a.instance@ == b.instance@,
        a.username@ == b.username@,
        a.auth_method == b.auth_method,
        match (a.oauth, b.oauth) {
            (Some(x), Some(y)) => x.grant == y.grant && x.client_id@ == y.client_id@
                && x.redirect_uri@ == y.redirect_uri@ && match (x.tokens, y.tokens) {
                (Some(s), Some(t)) => s.expires_at == t.expires_at && (s.refresh_token is Some
                    <==> t.refresh_token is Some),
                (None, None) => true,
                _ => false,
            },
            (None, None) => true,
            _ => false,
        },
    ensures
        status_of(a, now) == status_of(b, now),
{
}

/// Refuses to refresh a profile that has no tokens to refresh.
pub fn refresh_allowed(p: &ResolvedProfile) -> (r: Result<(), Error>)
    ensures
        p.auth_method == AuthMethod::Oauth ==> r is Ok,
        p.auth_method != AuthMethod::Oauth ==> (r matches Err(e) && e@ == Fault::Usage(
            "profile '"@ + p.name@ + "' does not use oauth"@,
        )),
{
    if let AuthMethod::Oauth = p.auth_method {
        return Ok(());
    }
    Err(
        Error::Usage(
            "profile '".to_owned().concat(p.name.as_str()).concat("' does not use oauth"),
        ),
    )
}

/// What a refresh shows.
pub fn refresh(name: &str, tokens: &TokenSet) -> (r: Json)
    ensures
        r@ == Doc::Object(
            Map::empty().insert("ok"@, Doc::Bool(true)).insert(
                "profile"@,
                Doc::Str(name@),
            ).insert("refreshed"@, Doc::Bool(true)).insert(
                "expiresAt"@,
                match tokens.expires_at {
                    Some(exp) => Doc::Number(digits(exp as nat)),
                    None => Doc::Null,
                },
            ),
        ),
{
    let mut m: Vec<(String, Json)> = Vec::new();
    put(&mut m, "ok", Json::Bool(true));
    put(&mut m, "profile", Json::str(name));
    put(&mut m, "refreshed", Json::Bool(true));
    put(
        &mut m,
        "expiresAt",
        match tokens.expires_at {
            Some(exp) => Json::number(exp),
            None => Json::Null,
        },
    );
    Json::Object(m)
}

/// The caller is read part by part, by either way of asking.
pub proof fn a_caller_is_read_part_by_part(
    v: Doc,
    r: Doc,
    name: Seq<char>,
    id: Seq<char>,
    shown: Seq<char>,
)
    requires
        trimmed(name).len() > 0 && trimmed(id).len() > 0 && trimmed(shown).len() > 0,
        r.field("user_name"@) == Some(Doc::Str(name)),
    ensures
        v.field("result"@) == Some(r) && r.field("user_sys_id"@) == Some(Doc::Str(id)) && r.field(
            "user_display_name"@,
        ) == Some(Doc::Str(shown)) ==> current_user(v) == Some(
            Who {
                user_name: trimmed(name),
                sys_id: Some(trimmed(id)),
                display_name: Some(trimmed(shown)),
                source: "ui/user/current_user"@,
            },
        ),
        v.field("result"@) == Some(Doc::Array(seq![r])) && r.field("sys_id"@) == Some(Doc::Str(id))
            && r.field("name"@) == Some(Doc::Str(shown)) ==> sole_user(v) == Some(
            Who {
                user_name: trimmed(name),
                sys_id: Some(trimmed(id)),
                display_name: Some(trimmed(shown)),
                source: "sys_user"@,
            },
        ),
        v.field("result"@) == Some(Doc::Array(Seq::empty())) ==> sole_user(v) is None,
{
}

/// The table of users is asked for the caller and for what is read of it.
pub proof fn the_table_of_users_is_asked()
    ensures
        sys_user_call().method == Method::Get,
        sys_user_call().path == "/api/now/table/sys_user"@,
        param_in(sys_user_call().query, "sysparm_query"@) == Some(
            "user_name=javascript:gs.getUserName()"@,
        ),
        param_in(sys_user_call().query, "sysparm_fields"@) == Some("user_name,sys_id,name"@),
        param_in(sys_user_call().query, "sysparm_limit"@) == Some("2"@),
{
    broadcast use {
        crate::request::lemma_param_with,
        crate::request::lemma_param_flag,
        crate::request::lemma_param_none,
        crate::request::lemma_param_push,
    };

    reveal_strlit("sysparm_query");
    reveal_strlit("sysparm_fields");
    reveal_strlit("sysparm_limit");
    assert("sysparm_query"@.len() == 13 && "sysparm_fields"@.len() == 14 && "sysparm_limit"@.len() == 13);
    assert("sysparm_query"@[8] != "sysparm_limit"@[8]);
    let e = Seq::<(Seq<char>, Seq<char>)>::empty();
    assert(sys_user_call().query =~= e.push(
        ("sysparm_query"@, "user_name=javascript:gs.getUserName()"@),
    ).push(("sysparm_fields"@, "user_name,sys_id,name"@)).push(("sysparm_limit"@, "2"@)));
}

/// A profile logs in by a grant only where it is set up for it.
pub proof fn only_an_oauth_profile_has_a_grant(config: Config, name: Seq<char>, p: ProfileConfig)
    ensures
        grant_of(config, name) is Some ==> config.profiles@.contains_key(name)
            && config.profiles@[name].auth == AuthMethod::Oauth,
        config.profiles@.contains_key(name) && config.profiles@[name] == p && p.auth
            == AuthMethod::Oauth ==> (p.oauth matches Some(o) ==> grant_of(config, name) == Some(
            o.grant,
        )),
{
}

/// A status shows how the profile logs in and how its session stands, each thing under
/// its own name.
#[verifier::rlimit(60)]
pub proof fn a_status_is_shown_part_by_part(p: ResolvedProfile, now: u64)
    ensures
        ({
            let d = Doc::Object(status_of(p, now));
            &&& d.field("profile"@) == Some(Doc::Str(p.name@))
            &&& d.field("instance"@) == Some(Doc::Str(p.instance@))
            &&& p.auth_method is Basic ==> d.field("auth"@) == Some(Doc::Str("basic"@)) && d.field(
                "username"@,
            ) == Some(Doc::Str(p.username@)) && d.field("loggedIn"@) is None
            &&& p.auth_method is Oauth ==> d.field("auth"@) == Some(Doc::Str("oauth"@)) && d.field(
                "username"@,
            ) is None
            &&& p.auth_method is Oauth ==> (p.oauth matches Some(o) ==> {
                &&& d.field("grant"@) == Some(Doc::Str(grant_text(o.grant)))
                &&& d.field("clientId"@) == Some(Doc::Str(o.client_id@))
                &&& d.field("redirectUri"@) == Some(Doc::Str(o.redirect_uri@))
                &&& d.field("loggedIn"@) == Some(Doc::Bool(o.tokens is Some))
                &&& o.tokens matches Some(t) ==> {
                    &&& d.field("hasRefreshToken"@) == Some(Doc::Bool(t.refresh_token is Some))
                    &&& t.expires_at is None ==> d.field("expired"@) is None && d.field(
                        "expiresAt"@,
                    ) is None
                    &&& t.expires_at matches Some(end) ==> d.field("expiresAt"@) == Some(
                        Doc::Number(digits(end as nat)),
                    ) && d.field("expired"@) == Some(Doc::Bool(now >= end)) && (end <= i64::MAX
                        && now <= i64::MAX ==> d.field("expiresInSecs"@) == Some(
                        Doc::Number(whole(end - now)),
                    ))
                }
            })
        }),
{
    reveal_strlit("profile");
    reveal_strlit("instance");
    reveal_strlit("auth");
    reveal_strlit("username");
    reveal_strlit("grant");
    reveal_strlit("clientId");
    reveal_strlit("redirectUri");
    reveal_strlit("loggedIn");
    reveal_strlit("hasRefreshToken");
    reveal_strlit("expiresAt");
    reveal_strlit("expiresInSecs");
    reveal_strlit("expired");
    assert("profile"@.len() == 7 && "instance"@.len() == 8 && "auth"@.len() == 4 && "username"@.len() == 8 && "grant"@.len() == 5 && "clientId"@.len() == 8 && "redirectUri"@.len() == 11 && "loggedIn"@.len() == 8 && "hasRefreshToken"@.len() == 15 && "expiresAt"@.len() == 9 && "expiresInSecs"@.len() == 13 && "expired"@.len() == 7);
    assert("profile"@[0] != "expired"@[0]);
    assert("instance"@[0] != "username"@[0]);
    assert("instance"@[0] != "clientId"@[0]);
    assert("instance"@[0] != "loggedIn"@[0]);
    assert("username"@[0] != "clientId"@[0]);
    assert("username"@[0] != "loggedIn"@[0]);
    assert("clientId"@[0] != "loggedIn"@[0]);
}

} // verus!
