//! A ping: whether the credentials work, and whose they are.

use vstd::prelude::*;

use crate::auth::{
    current_user_request, filled, identify, identify_via_sys_user, named_by_endpoint, non_empty,
    sole_user, sys_user_call, text_or_null, who_option, Identity, IdentifyStep, Who,
};
use crate::client::outcome;
use crate::config::ResolvedProfile;
use crate::error::{text_option, Error, Fault};
use crate::json::{doc_option_ref, docs, items_in, items_of_option, lemma_docs, put, text_in, text_of_option, Doc, Json};
use crate::request::{get, no_query, pairs, param, param_in, Call, Method, Request};
use crate::text::{digits, same, trimmed};

verus! {

/// The path of the endpoint that names the session.
pub const SESSION_PATH: &'static str = "/api/now/sg/impersonation/session";

/// What is known of the session. The session's token is not among it.
#[derive(Debug)]
pub struct Session {
    pub user_name: String,
    pub original_user: Option<String>,
    pub admin: Option<bool>,
    pub can_impersonate: Option<bool>,
}

/// What is known of the session, as a view.
pub ghost struct SessionView {
    pub user_name: Seq<char>,
    pub original_user: Option<Seq<char>>,
    pub admin: Option<bool>,
    pub can_impersonate: Option<bool>,
}

impl Session {
    pub open spec fn view(&self) -> SessionView {
        SessionView {
            user_name: self.user_name@,
            original_user: text_option(self.original_user),
            admin: self.admin,
            can_impersonate: self.can_impersonate,
        }
    }
}

/// A session, where there is one.
pub open spec fn session_option(s: Option<Session>) -> Option<SessionView> {
    match s {
        Some(s) => Some(s@),
        None => None,
    }
}

/// The truth value that an optional document is.
pub open spec fn bool_in(o: Option<Doc>) -> Option<bool> {
    match o {
        Some(Doc::Bool(b)) => Some(b),
        _ => None,
    }
}

/// The truth value that an optional document is.
pub fn bool_of_option(o: Option<&Json>) -> (r: Option<bool>)
    ensures
        r == bool_in(doc_option_ref(o)),
{
    match o {
        Some(Json::Bool(b)) => Some(*b),
        _ => None,
    }
}

/// The session that an answer names.
pub open spec fn session_of(v: Doc) -> Option<SessionView> {
    match filled(v.field("CurrentUser"@)) {
        None => None,
        Some(user_name) => Some(
            SessionView {
                user_name,
                original_user: filled(v.field("OriginalUser"@)),
                admin: bool_in(v.field("admin"@)),
                can_impersonate: bool_in(v.field("CanImpersonate"@)),
            },
        ),
    }
}

/// What a reply of the endpoint comes to: a session, none where the endpoint is
/// absent or names nobody, or the failure.
pub open spec fn probed(reply: Result<Doc, Fault>) -> Result<Option<SessionView>, Fault> {
    match reply {
        Ok(v) => Ok(session_of(v)),
        Err(Fault::Api { status, .. }) => if status == 404 {
            Ok(None)
        } else {
            Err(reply->Err_0)
        },
        Err(f) => Err(f),
    }
}

/// The request that asks the endpoint.
pub fn session_request() -> (r: Request)
    ensures
        r@ == session_call(),
{
    get("/api/now/sg/impersonation/session".to_owned(), no_query())
}

/// Reads the reply of the endpoint.
pub fn probe_session(reply: Result<Json, Error>) -> (r: Result<Option<Session>, Error>)
    ensures
        match probed(outcome(reply)) {
            Ok(s) => r matches Ok(x) && session_option(x) == s,
            Err(f) => r matches Err(e) && e@ == f,
        },
{
    match reply {
        Ok(v) => match non_empty(v.get("CurrentUser")) {
            None => Ok(None),
            Some(user_name) => Ok(
                Some(
                    Session {
                        user_name,
                        original_user: non_empty(v.get("OriginalUser")),
                        admin: bool_of_option(v.get("admin")),
                        can_impersonate: bool_of_option(v.get("CanImpersonate")),
                    },
                ),
            ),
        },
        Err(Error::Api { status, message, detail, transaction_id, sn_error }) => {
            if status == 404 {
                Ok(None)
            } else {
                Err(Error::Api { status, message, detail, transaction_id, sn_error })
            }
        },
        Err(e) => Err(e),
    }
}

/// The session's token has no part in what is known of the session.
pub proof fn the_session_token_is_left_out(m: Map<Seq<char>, Doc>, token: Doc)
    ensures
        session_of(Doc::Object(m)) == session_of(Doc::Object(m.insert("SessionToken"@, token))),
{
    reveal_strlit("SessionToken");
    reveal_strlit("CurrentUser");
    reveal_strlit("OriginalUser");
    reveal_strlit("admin");
    reveal_strlit("CanImpersonate");
    assert("SessionToken"@[0] == 'S');
    assert("CurrentUser"@[0] == 'C');
    assert("OriginalUser"@[0] == 'O');
    assert("admin"@[0] == 'a');
    assert("CanImpersonate"@[0] == 'C');
}

/// The request that reads the build of the instance.
pub open spec fn build_call() -> Call {
    Call {
        method: Method::Get,
        path: "/api/now/table/sys_properties"@,
        query: seq![
            ("sysparm_query"@, "name=glide.buildname^ORname=glide.buildtag"@),
            ("sysparm_fields"@, "name,value"@),
            ("sysparm_limit"@, "2"@),
        ],
        body: None,
    }
}

/// The request that reads the build of the instance.
pub fn build_request() -> (r: Request)
    ensures
        r@ == build_call(),
{
    let mut q = no_query();
    param(&mut q, "sysparm_query", "name=glide.buildname^ORname=glide.buildtag");
    param(&mut q, "sysparm_fields", "name,value");
    param(&mut q, "sysparm_limit", "2");
    assert(pairs(q@) =~= build_call().query);
    get("/api/now/table/sys_properties".to_owned(), q)
}

/// The value of the last row of a name, null where there is none.
pub open spec fn property(rows: Seq<Doc>, name: Seq<char>) -> Doc
    decreases rows.len(),
{
    if rows.len() == 0 {
        Doc::Null
    } else if text_in(rows.last().field("name"@)) == name {
        match rows.last().field("value"@) {
            Some(v) => v,
            None => Doc::Null,
        }
    } else {
        property(rows.drop_last(), name)
    }
}

/// The value of the last row of a name, null where there is none.
fn property_value(rows: &Vec<Json>, name: &str) -> (r: Json)
    ensures
        r@ == property(docs(rows@), name@),
{
    let ghost all = docs(rows@);
    proof {
        lemma_docs(rows@);
    }
    let mut i: usize = rows.len();
    assert(all.take(i as int) =~= all);
    while i > 0
        invariant
            i <= rows.len(),
            all == docs(rows@),
            all.len() == rows@.len(),
            forall|k: int| 0 <= k < rows@.len() ==> #[trigger] all[k] == rows@[k]@,
            property(all, name@) == property(all.take(i as int), name@),
        decreases i,
    {
        assert(all.take(i as int).last() == all[i - 1]);
        assert(all[i - 1] == rows@[i - 1]@);
        assert(all.take(i as int).drop_last() =~= all.take(i - 1));
        i = i - 1;
        let row = &rows[i];
        let prop = text_of_option(row.get("name"));
        if same(prop.as_str(), name) {
            return match row.get("value") {
                Some(v) => v.dup(),
                None => Json::Null,
            };
        }
    }
    Json::Null
}

/// The name and the tag of the build.
pub fn extract_build(v: &Json) -> (r: (Json, Json))
    ensures
        r.0@ == property(items_in(v@.field("result"@)), "glide.buildname"@),
        r.1@ == property(items_in(v@.field("result"@)), "glide.buildtag"@),
{
    let rows = items_of_option(v.get("result"));
    (property_value(&rows, "glide.buildname"), property_value(&rows, "glide.buildtag"))
}

/// An optional truth value as JSON.
pub open spec fn bool_or_null(b: Option<bool>) -> Doc {
    match b {
        Some(b) => Doc::Bool(b),
        None => Doc::Null,
    }
}

/// Whether the session is another user's: known only where both names are.
pub open spec fn impersonating(s: Option<SessionView>) -> Doc {
    match s {
        Some(s) => match s.original_user {
            Some(o) => Doc::Bool(o != s.user_name),
            None => Doc::Null,
        },
        None => Doc::Null,
    }
}

/// Who the caller is: by the session, else by the identity that was found, else
/// by what the profile says.
pub open spec fn caller(s: Option<SessionView>, i: Option<Who>, configured: Seq<char>) -> (
    Seq<char>,
    Doc,
    Doc,
    Doc,
) {
    match s {
        Some(s) => (s.user_name, Doc::Str("sg/impersonation/session"@), Doc::Null, Doc::Null),
        None => match i {
            Some(i) => (
                i.user_name,
                Doc::Str(i.source),
                text_or_null(i.sys_id),
                text_or_null(i.display_name),
            ),
            None => if configured.len() > 0 {
                (configured, Doc::Str("profile"@), Doc::Null, Doc::Null)
            } else {
                (Seq::empty(), Doc::Null, Doc::Null, Doc::Null)
            },
        },
    }
}

/// What a ping shows.
pub open spec fn ping_doc(
    profile: Seq<char>,
    instance: Seq<char>,
    configured: Seq<char>,
    latency_ms: u64,
    s: Option<SessionView>,
    i: Option<Who>,
    build: (Doc, Doc),
) -> Map<Seq<char>, Doc> {
    let c = caller(s, i, configured);
    Map::empty().insert("ok"@, Doc::Bool(true)).insert("profile"@, Doc::Str(profile)).insert(
        "instance"@,
        Doc::Str(instance),
    ).insert("username"@, Doc::Str(c.0)).insert(
        "latency_ms"@,
        Doc::Number(digits(latency_ms as nat)),
    ).insert("build_name"@, build.0).insert("build_tag"@, build.1).insert(
        "identity_source"@,
        c.1,
    ).insert("user_sys_id"@, c.2).insert("user_display_name"@, c.3).insert(
        "admin"@,
        bool_or_null(
            match s {
                Some(s) => s.admin,
                None => None,
            },
        ),
    ).insert(
        "can_impersonate"@,
        bool_or_null(
            match s {
                Some(s) => s.can_impersonate,
                None => None,
            },
        ),
    ).insert("impersonating"@, impersonating(s)).insert(
        "original_user"@,
        text_or_null(
            match s {
                Some(s) => s.original_user,
                None => None,
            },
        ),
    )
}

/// An optional truth value as JSON.
fn bool_json(b: Option<bool>) -> (r: Json)
    ensures
        r@ == bool_or_null(b),
{
    match b {
        Some(b) => Json::Bool(b),
        None => Json::Null,
    }
}

/// What a ping shows. The identity is that of the fallback, and has a say only
/// where there is no session.
pub fn run(
    profile: &str,
    instance: &str,
    configured: &str,
    latency_ms: u64,
    session: Option<Session>,
    identity: Option<Identity>,
    build: (Json, Json),
) -> (r: Json)
    ensures
        r@ == Doc::Object(
            ping_doc(
                profile@,
                instance@,
                configured@,
                latency_ms,
                session_option(session),
                who_option(identity),
                (build.0@, build.1@),
            ),
        ),
{
    let mut admin: Option<bool> = None;
    let mut can_impersonate: Option<bool> = None;
    let mut other = Json::Null;
    let mut original: Option<String> = None;
    let username: String;
    let source: Json;
    let sys_id: Json;
    let display: Json;
    match session {
        Some(s) => {
            admin = s.admin;
            can_impersonate = s.can_impersonate;
            if let Some(o) = s.original_user {
                other = Json::Bool(!same(o.as_str(), s.user_name.as_str()));
                original = Some(o);
            }
            username = s.user_name;
            source = Json::str("sg/impersonation/session");
            sys_id = Json::Null;
            display = Json::Null;
        },
        None => match identity {
            Some(i) => {
                username = i.user_name;
                source = Json::Str(i.source);
                sys_id = Json::str_or_null(&i.sys_id);
                display = Json::str_or_null(&i.display_name);
            },
            None => {
                sys_id = Json::Null;
                display = Json::Null;
                if configured.is_empty() {
                    username = String::new();
                    source = Json::Null;
                } else {
                    username = configured.to_owned();
                    source = Json::str("profile");
                }
            },
        },
    }
    let mut m: Vec<(String, Json)> = Vec::new();
    put(&mut m, "ok", Json::Bool(true));
    put(&mut m, "profile", Json::str(profile));
    put(&mut m, "instance", Json::str(instance));
    put(&mut m, "username", Json::Str(username));
    put(&mut m, "latency_ms", Json::number(latency_ms));
    put(&mut m, "build_name", build.0);
    put(&mut m, "build_tag", build.1);
    put(&mut m, "identity_source", source);
    put(&mut m, "user_sys_id", sys_id);
    put(&mut m, "user_display_name", display);
    put(&mut m, "admin", bool_json(admin));
    put(&mut m, "can_impersonate", bool_json(can_impersonate));
    put(&mut m, "impersonating", other);
    put(&mut m, "original_user", Json::str_or_null(&original));
    Json::Object(m)
}

/// What a ping has found out before it asks for the build.
#[derive(Debug)]
pub struct Findings {
    pub latency_ms: u64,
    pub session: Option<Session>,
    pub identity: Option<Identity>,
}

/// What a ping has found out, as a view.
pub ghost struct FindingsView {
    pub latency_ms: u64,
    pub session: Option<SessionView>,
    pub identity: Option<Who>,
}

impl Findings {
    pub open spec fn view(&self) -> FindingsView {
        FindingsView {
            latency_ms: self.latency_ms,
            session: session_option(self.session),
            identity: who_option(self.identity),
        }
    }
}

/// What a ping asked for last. The latency is that of the first answer.
#[derive(Debug)]
pub enum PingPhase {
    /// The session.
    Session,
    /// The caller, since there is no session to name them.
    Caller(u64),
    /// The caller, in the table of users.
    Lookup(u64),
    /// The build.
    Build(Findings),
}

/// What a ping asked for last, as a view.
pub ghost enum PingStage {
    Session,
    Caller(u64),
    Lookup(u64),
    Build(FindingsView),
}

/// What comes next in a ping.
#[derive(Debug)]
pub enum PingStep {
    Ask(PingPhase, Request),
    Done(Json),
    Fail(Error),
}

/// What comes next in a ping, as a view.
pub ghost enum PingNext {
    Ask(PingStage, Call),
    Done(Doc),
    Fail(Fault),
}

impl PingPhase {
    pub open spec fn view(&self) -> PingStage {
        match self {
            PingPhase::Session => PingStage::Session,
            PingPhase::Caller(ms) => PingStage::Caller(*ms),
            PingPhase::Lookup(ms) => PingStage::Lookup(*ms),
            PingPhase::Build(f) => PingStage::Build(f@),
        }
    }
}

impl PingStep {
    pub open spec fn view(&self) -> PingNext {
        match self {
            PingStep::Ask(p, r) => PingNext::Ask(p@, r@),
            PingStep::Done(j) => PingNext::Done(j@),
            PingStep::Fail(e) => PingNext::Fail(e@),
        }
    }
}

/// Who is pinged: the profile, its instance, and the user it is configured with.
pub ghost struct Pinged {
    pub profile: Seq<char>,
    pub instance: Seq<char>,
    pub configured: Seq<char>,
}

/// Who a profile pings.
pub open spec fn pinged(p: ResolvedProfile) -> Pinged {
    Pinged { profile: p.name@, instance: p.instance@, configured: p.username@ }
}

/// The request for the session.
pub open spec fn session_call() -> Call {
    Call {
        method: Method::Get,
        path: "/api/now/sg/impersonation/session"@,
        query: Seq::empty(),
        body: None,
    }
}

/// Asks for the build with what is known so far.
pub open spec fn ask_build(
    latency_ms: u64,
    session: Option<SessionView>,
    identity: Option<Who>,
) -> PingNext {
    PingNext::Ask(
        PingStage::Build(FindingsView { latency_ms, session, identity }),
        build_call(),
    )
}

/// How a ping goes on with a reply. Where the session is not named the caller is
/// looked for, and a failure on the way ends the ping; that the build cannot be read
/// does not.
pub open spec fn ping_next(
    stage: PingStage,
    t: Pinged,
    elapsed_ms: u64,
    reply: Result<Doc, Fault>,
) -> PingNext {
    match stage {
        PingStage::Session => match probed(reply) {
            Err(f) => PingNext::Fail(f),
            Ok(Some(s)) => ask_build(elapsed_ms, Some(s), None),
            Ok(None) => PingNext::Ask(
                PingStage::Caller(elapsed_ms),
                Call {
                    method: Method::Get,
                    path: "/api/now/ui/user/current_user"@,
                    query: Seq::empty(),
                    body: None,
                },
            ),
        },
        PingStage::Caller(ms) => match named_by_endpoint(reply) {
            Err(f) => PingNext::Fail(f),
            Ok(Some(w)) => ask_build(ms, None, Some(w)),
            Ok(None) => PingNext::Ask(PingStage::Lookup(ms), sys_user_call()),
        },
        PingStage::Lookup(ms) => match reply {
            Err(f) => PingNext::Fail(f),
            Ok(d) => ask_build(ms, None, sole_user(d)),
        },
        PingStage::Build(f) => PingNext::Done(
            Doc::Object(
                ping_doc(
                    t.profile,
                    t.instance,
                    t.configured,
                    f.latency_ms,
                    f.session,
                    f.identity,
                    match reply {
                        Ok(d) => (
                            property(items_in(d.field("result"@)), "glide.buildname"@),
                            property(items_in(d.field("result"@)), "glide.buildtag"@),
                        ),
                        Err(_) => (Doc::Null, Doc::Null),
                    },
                ),
            ),
        ),
    }
}

/// Begins a ping.
pub fn begin() -> (r: (PingPhase, Request))
    ensures
        r.0@ == PingStage::Session,
        r.1@ == session_call(),
{
    (PingPhase::Session, session_request())
}

/// Asks for the build with what is known so far.
fn build_step(latency_ms: u64, session: Option<Session>, identity: Option<Identity>) -> (r: PingStep)
    ensures
        r@ == ask_build(latency_ms, session_option(session), who_option(identity)),
{
    PingStep::Ask(PingPhase::Build(Findings { latency_ms, session, identity }), build_request())
}

impl PingPhase {
    /// Takes in a reply. The time is what it took, and counts for the first one.
    pub fn receive(self, p: &ResolvedProfile, elapsed_ms: u64, reply: Result<Json, Error>) -> (r:
        PingStep)
        ensures
            r@ == ping_next(self@, pinged(*p), elapsed_ms, outcome(reply)),
    {
        match self {
            PingPhase::Session => match probe_session(reply) {
                Err(e) => PingStep::Fail(e),
                Ok(Some(s)) => build_step(elapsed_ms, Some(s), None),
                Ok(None) => PingStep::Ask(PingPhase::Caller(elapsed_ms), current_user_request()),
            },
            PingPhase::Caller(ms) => match identify(reply) {
                IdentifyStep::Fail(e) => PingStep::Fail(e),
                IdentifyStep::Done(i) => build_step(ms, None, Some(i)),
                IdentifyStep::Ask(q) => PingStep::Ask(PingPhase::Lookup(ms), q),
            },
            PingPhase::Lookup(ms) => match reply {
                Err(e) => PingStep::Fail(e),
                Ok(v) => build_step(ms, None, identify_via_sys_user(&v)),
            },
            PingPhase::Build(f) => {
                let build = match reply {
                    Ok(v) => extract_build(&v),
                    Err(_) => (Json::Null, Json::Null),
                };
                PingStep::Done(
                    run(
                        p.name.as_str(),
                        p.instance.as_str(),
                        p.username.as_str(),
                        f.latency_ms,
                        f.session,
                        f.identity,
                        build,
                    ),
                )
            },
        }
    }
}

/// What follows a list of replies, each with the time it took.
pub open spec fn ping_after(t: Pinged, replies: Seq<(u64, Result<Doc, Fault>)>) -> PingNext
    decreases replies.len(),
{
    if replies.len() == 0 {
        PingNext::Ask(PingStage::Session, session_call())
    } else {
        match ping_after(t, replies.drop_last()) {
            PingNext::Ask(stage, _) => ping_next(stage, t, replies.last().0, replies.last().1),
            over => over,
        }
    }
}

/// A ping is well only if the instance accepted the credentials: one of the replies
/// before the build was no failure.
pub proof fn a_ping_is_well_only_after_an_answer(
    t: Pinged,
    replies: Seq<(u64, Result<Doc, Fault>)>,
)
    ensures
        ping_after(t, replies) is Done ==> exists|i: int|
            0 <= i < replies.len() - 1 && (#[trigger] replies[i]).1 is Ok,
        (ping_after(t, replies) matches PingNext::Ask(stage, _) && stage is Build) ==> exists|
            i: int,
        | 0 <= i < replies.len() && (#[trigger] replies[i]).1 is Ok,
    decreases replies.len(),
{
    if replies.len() > 0 {
        let prior = replies.drop_last();
        a_ping_is_well_only_after_an_answer(t, prior);
        let last = replies.last();
        assert(replies[replies.len() - 1] == last);
        match ping_after(t, prior) {
            PingNext::Ask(stage, _) => {
                if stage is Build {
                    let i = choose|i: int| 0 <= i < prior.len() && (#[trigger] prior[i]).1 is Ok;
                    assert(replies[i] == prior[i]);
                }
            },
            PingNext::Done(_) => {
                let i = choose|i: int| 0 <= i < prior.len() - 1 && (#[trigger] prior[i]).1 is Ok;
                assert(replies[i] == prior[i]);
            },
            PingNext::Fail(_) => {},
        }
    }
}

/// A session is called impersonated only where two names are known and differ.
pub proof fn impersonation_needs_two_names(s: Option<SessionView>)
    ensures
        impersonating(s) == Doc::Bool(true) ==> (s matches Some(v) && v.original_user is Some
            && v.original_user != Some(v.user_name)),
{
}

/// A session is read part by part, and there is none without a current user.
pub proof fn a_session_is_read_part_by_part(
    v: Doc,
    name: Seq<char>,
    original: Seq<char>,
    b: bool,
    c: bool,
)
    ensures
        session_of(v) is Some ==> v.field("CurrentUser"@) matches Some(Doc::Str(_)),
        v.field("CurrentUser"@) is None ==> session_of(v) is None,
        v.field("CurrentUser"@) == Some(Doc::Str(name)) && v.field("OriginalUser"@) == Some(
            Doc::Str(original),
        ) && v.field("admin"@) == Some(Doc::Bool(b)) && v.field("CanImpersonate"@) == Some(
            Doc::Bool(c),
        ) ==> (trimmed(name).len() > 0 && trimmed(original).len() > 0 ==> session_of(v) == Some(
            SessionView {
                user_name: trimmed(name),
                original_user: Some(trimmed(original)),
                admin: Some(b),
                can_impersonate: Some(c),
            },
        )) && (trimmed(name).len() == 0 ==> session_of(v) is None),
{
}

/// That the endpoint of the session is missing ends no ping; every other failure does.
pub proof fn only_a_missing_endpoint_is_passed_over(
    t: Pinged,
    ms: u64,
    f: Fault,
    found: FindingsView,
)
    ensures
        ping_next(PingStage::Session, t, ms, Err(f)) == PingNext::Fail(f) || f.status() == Some(
            404u16,
        ),
        f matches Fault::Api { status, .. } && status == 404 ==> (ping_next(
            PingStage::Session,
            t,
            ms,
            Err(f),
        ) matches PingNext::Ask(s, call) && s == PingStage::Caller(ms) && call.path
            == "/api/now/ui/user/current_user"@),
        ping_next(PingStage::Lookup(ms), t, ms, Err(f)) == PingNext::Fail(f),
        ping_next(PingStage::Build(found), t, ms, Err(f)) is Done,
{
}

/// A ping shows each thing that was found under its own name.
#[verifier::rlimit(40)]
pub proof fn a_ping_shows_what_was_found(
    profile: Seq<char>,
    instance: Seq<char>,
    configured: Seq<char>,
    ms: u64,
    s: Option<SessionView>,
    i: Option<Who>,
    build: (Doc, Doc),
)
    ensures
        ({
            let m = ping_doc(profile, instance, configured, ms, s, i, build);
            &&& has_field(m, "ok"@, Doc::Bool(true))
            &&& has_field(m, "profile"@, Doc::Str(profile))
            &&& has_field(m, "instance"@, Doc::Str(instance))
            &&& has_field(m, "latency_ms"@, Doc::Number(digits(ms as nat)))
            &&& has_field(m, "build_name"@, build.0)
            &&& has_field(m, "build_tag"@, build.1)
            &&& s matches Some(v) ==> {
                &&& has_field(m, "username"@, Doc::Str(v.user_name))
                &&& has_field(m, "identity_source"@, Doc::Str("sg/impersonation/session"@))
                &&& v.admin matches Some(b) ==> has_field(m, "admin"@, Doc::Bool(b))
                &&& v.can_impersonate matches Some(b) ==> has_field(
                    m,
                    "can_impersonate"@,
                    Doc::Bool(b),
                )
                &&& v.original_user matches Some(o) ==> has_field(m, "original_user"@, Doc::Str(o))
                    && has_field(m, "impersonating"@, Doc::Bool(o != v.user_name))
                &&& v.original_user is None ==> has_field(m, "original_user"@, Doc::Null)
                    && has_field(m, "impersonating"@, Doc::Null)
            }
            &&& s is None ==> has_field(m, "admin"@, Doc::Null) && has_field(
                m,
                "can_impersonate"@,
                Doc::Null,
            ) && has_field(m, "impersonating"@, Doc::Null) && has_field(
                m,
                "original_user"@,
                Doc::Null,
            )
            &&& s is None ==> (i matches Some(w) ==> {
                &&& has_field(m, "username"@, Doc::Str(w.user_name))
                &&& has_field(m, "identity_source"@, Doc::Str(w.source))
                &&& w.sys_id matches Some(id) ==> has_field(m, "user_sys_id"@, Doc::Str(id))
                &&& w.display_name matches Some(d) ==> has_field(
                    m,
                    "user_display_name"@,
                    Doc::Str(d),
                )
            })
            &&& s is None && i is None ==> has_field(m, "username"@, Doc::Str(configured)) && (
            configured.len() > 0 ==> has_field(m, "identity_source"@, Doc::Str("profile"@))) && (
            configured.len() == 0 ==> has_field(m, "identity_source"@, Doc::Null))
        }),
{
    reveal_strlit("ok");
    reveal_strlit("profile");
    reveal_strlit("instance");
    reveal_strlit("username");
    reveal_strlit("latency_ms");
    reveal_strlit("build_name");
    reveal_strlit("build_tag");
    reveal_strlit("identity_source");
    reveal_strlit("user_sys_id");
    reveal_strlit("user_display_name");
    reveal_strlit("admin");
    reveal_strlit("can_impersonate");
    reveal_strlit("impersonating");
    reveal_strlit("original_user");
    assert("ok"@.len() == 2 && "profile"@.len() == 7 && "instance"@.len() == 8 && "username"@.len() == 8 && "latency_ms"@.len() == 10 && "build_name"@.len() == 10 && "build_tag"@.len() == 9 && "identity_source"@.len() == 15 && "user_sys_id"@.len() == 11 && "user_display_name"@.len() == 17 && "admin"@.len() == 5 && "can_impersonate"@.len() == 15 && "impersonating"@.len() == 13 && "original_user"@.len() == 13);
    assert("instance"@[0] != "username"@[0]);
    assert("latency_ms"@[0] != "build_name"@[0]);
    assert("identity_source"@[0] != "can_impersonate"@[0]);
    assert("impersonating"@[0] != "original_user"@[0]);
    if configured.len() == 0 {
        assert(configured =~= Seq::empty());
    }
}

/// A member of an object and its value.
pub open spec fn has_field(m: Map<Seq<char>, Doc>, name: Seq<char>, value: Doc) -> bool {
    m.contains_key(name) && m[name] == value
}

/// The build is what the row of its own name holds.
pub proof fn a_property_is_the_value_of_its_row(
    rows: Seq<Doc>,
    row: Doc,
    name: Seq<char>,
    other: Seq<char>,
    v: Doc,
)
    requires
        row.field("name"@) == Some(Doc::Str(name)),
        row.field("value"@) == Some(v),
        name.len() > 0,
        other.len() > 0,
    ensures
        property(rows.push(row), name) == v,
        other != name ==> property(rows.push(row), other) == property(rows, other),
        property(Seq::empty(), name) == Doc::Null,
{
    assert(rows.push(row).drop_last() =~= rows);
    assert(rows.push(row).last() == row);
}

/// The build of the instance is shown as its name and its tag, each from the row of
/// that name.
pub proof fn the_build_is_read_from_its_rows(
    f: FindingsView,
    t: Pinged,
    ms: u64,
    d: Doc,
    rows: Seq<Doc>,
)
    requires
        d.field("result"@) == Some(Doc::Array(rows)),
    ensures
        ping_next(PingStage::Build(f), t, ms, Ok(d)) matches PingNext::Done(Doc::Object(m)) && {
            &&& has_field(m, "build_name"@, property(rows, "glide.buildname"@))
            &&& has_field(m, "build_tag"@, property(rows, "glide.buildtag"@))
            &&& has_field(m, "profile"@, Doc::Str(t.profile))
            &&& has_field(m, "instance"@, Doc::Str(t.instance))
            &&& has_field(m, "latency_ms"@, Doc::Number(digits(f.latency_ms as nat)))
        },
        build_call().path == "/api/now/table/sys_properties"@,
        param_in(build_call().query, "sysparm_query"@) == Some(
            "name=glide.buildname^ORname=glide.buildtag"@,
        ),
        param_in(build_call().query, "sysparm_fields"@) == Some("name,value"@),
        session_call().path == "/api/now/sg/impersonation/session"@,
{
    broadcast use {
        crate::request::lemma_param_with,
        crate::request::lemma_param_flag,
        crate::request::lemma_param_none,
        crate::request::lemma_param_push,
    };

    reveal_strlit("sysparm_query");
    reveal_strlit("sysparm_fields");
    reveal_strlit("sysparm_limit");
    assert("sysparm_query"@.len() == 13 && "sysparm_fields"@.len() == 14 && "sysparm_limit"@.len() == 13);
    assert("sysparm_query"@[8] != "sysparm_limit"@[8]);
    a_ping_shows_what_was_found(
        t.profile,
        t.instance,
        t.configured,
        f.latency_ms,
        f.session,
        f.identity,
        (property(rows, "glide.buildname"@), property(rows, "glide.buildtag"@)),
    );
    let e = Seq::<(Seq<char>, Seq<char>)>::empty();
    assert(build_call().query =~= e.push(
        ("sysparm_query"@, "name=glide.buildname^ORname=glide.buildtag"@),
    ).push(("sysparm_fields"@, "name,value"@)).push(("sysparm_limit"@, "2"@)));
}

} // verus!
