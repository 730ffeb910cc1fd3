//! Switching the scope or the update set of a session, and checking that it took.
//!
//! The picker of the platform stages the update set of a scope and answers with
//! success whatever becomes of the scope, so the preference is written besides, and
//! what counts is what is read back.

use vstd::prelude::*;

use crate::auth::{
    identify_via_current_user, identify_via_sys_user, named_by_endpoint, sole_user,
    current_user_request, sys_user_call, sys_user_request, who_option, Who,
};
use crate::client::outcome;
use crate::context::{
    context_doc, context_json, read_call, read_context, read_of, read_request, reference,
    reference_value, Context, ContextRead, ContextState, Reading, Scope, ScopeRow, UpdateSet,
    UpdateSetRow, UpdateSetSource,
};
use crate::error::{text_option, Error, Fault};
use crate::json::{docs, field_in, items_in, items_of_option, lemma_docs, put, Doc, Json};
use crate::order::texts;
use crate::request::{get, no_query, pairs, param, param_in, with_body, Call, Method, Request};
use crate::streams::{plain_error, plain_fault};
use crate::text::{join, joined, same};

verus! {

/// A text of a row that is not empty.
pub open spec fn filled_field(row: Doc, name: Seq<char>) -> Option<Seq<char>> {
    match row.field(name) {
        Some(Doc::Str(s)) => if s.len() == 0 {
            None
        } else {
            Some(s)
        },
        _ => None,
    }
}

/// A text of a row that is not empty.
fn str_field(row: &Json, name: &str) -> (r: Option<String>)
    ensures
        text_option(r) == filled_field(row@, name@),
{
    match row.get(name) {
        Some(Json::Str(s)) => if s.as_str().is_empty() {
            None
        } else {
            Some(s.clone())
        },
        _ => None,
    }
}

/// The scopes among the rows of an answer.
pub open spec fn listed_scopes(rows: Seq<Doc>) -> Seq<Scope>
    decreases rows.len(),
{
    if rows.len() == 0 {
        Seq::empty()
    } else {
        let rest = listed_scopes(rows.drop_last());
        let row = rows.last();
        match (filled_field(row, "sys_id"@), filled_field(row, "name"@), filled_field(
            row,
            "scope"@,
        )) {
            (Some(sys_id), Some(name), Some(scope)) => rest.push(Scope { sys_id, name, scope }),
            _ => rest,
        }
    }
}

/// The update sets among the rows of an answer.
pub open spec fn listed_sets(rows: Seq<Doc>) -> Seq<UpdateSet>
    decreases rows.len(),
{
    if rows.len() == 0 {
        Seq::empty()
    } else {
        let rest = listed_sets(rows.drop_last());
        let row = rows.last();
        match (filled_field(row, "sys_id"@), filled_field(row, "name"@)) {
            (Some(sys_id), Some(name)) => rest.push(
                UpdateSet {
                    sys_id,
                    name,
                    application: match reference(row.field("application"@)) {
                        Some(a) => a,
                        None => Seq::empty(),
                    },
                },
            ),
            _ => rest,
        }
    }
}

/// The scopes of a list.
pub open spec fn scopes(v: Seq<ScopeRow>) -> Seq<Scope> {
    v.map_values(|s: ScopeRow| s@)
}

/// The update sets of a list.
pub open spec fn sets(v: Seq<UpdateSetRow>) -> Seq<UpdateSet> {
    v.map_values(|s: UpdateSetRow| s@)
}

/// Reads the scopes of an answer.
fn scope_list(resp: &Json) -> (r: Vec<ScopeRow>)
    ensures
        scopes(r@) == listed_scopes(items_in(resp@.field("result"@))),
{
    let rows = items_of_option(resp.get("result"));
    let ghost all = docs(rows@);
    proof {
        lemma_docs(rows@);
    }
    let mut out: Vec<ScopeRow> = Vec::new();
    let mut i: usize = 0;
    assert(all.take(0) =~= Seq::empty());
    assert(scopes(out@) =~= Seq::empty());
    while i < rows.len()
        invariant
            i <= rows.len(),
            all == docs(rows@),
            all.len() == rows@.len(),
            forall|k: int| 0 <= k < rows@.len() ==> #[trigger] all[k] == rows@[k]@,
            scopes(out@) == listed_scopes(all.take(i as int)),
        decreases rows.len() - i,
    {
        let row = &rows[i];
        assert(all[i as int] == row@);
        assert(all.take(i + 1).drop_last() =~= all.take(i as int));
        assert(all.take(i + 1).last() == row@);
        if let (Some(sys_id), Some(name), Some(scope)) = (
            str_field(row, "sys_id"),
            str_field(row, "name"),
            str_field(row, "scope"),
        ) {
            let ghost prior = scopes(out@);
            let s = ScopeRow { sys_id, name, scope };
            let ghost v = s@;
            out.push(s);
            assert(scopes(out@) =~= prior.push(v));
        }
        i = i + 1;
    }
    assert(all.take(i as int) =~= all);
    out
}

/// Reads the update sets of an answer.
fn set_list(resp: &Json) -> (r: Vec<UpdateSetRow>)
    ensures
        sets(r@) == listed_sets(items_in(resp@.field("result"@))),
{
    let rows = items_of_option(resp.get("result"));
    let ghost all = docs(rows@);
    proof {
        lemma_docs(rows@);
    }
    let mut out: Vec<UpdateSetRow> = Vec::new();
    let mut i: usize = 0;
    assert(all.take(0) =~= Seq::empty());
    assert(sets(out@) =~= Seq::empty());
    while i < rows.len()
        invariant
            i <= rows.len(),
            all == docs(rows@),
            all.len() == rows@.len(),
            forall|k: int| 0 <= k < rows@.len() ==> #[trigger] all[k] == rows@[k]@,
            sets(out@) == listed_sets(all.take(i as int)),
        decreases rows.len() - i,
    {
        let row = &rows[i];
        assert(all[i as int] == row@);
        assert(all.take(i + 1).drop_last() =~= all.take(i as int));
        assert(all.take(i + 1).last() == row@);
        if let (Some(sys_id), Some(name)) = (str_field(row, "sys_id"), str_field(row, "name")) {
            let application = match reference_value(row.get("application")) {
                Some(a) => a,
                None => String::new(),
            };
            let ghost prior = sets(out@);
            let s = UpdateSetRow { sys_id, name, application };
            let ghost v = s@;
            out.push(s);
            assert(sets(out@) =~= prior.push(v));
        }
        i = i + 1;
    }
    assert(all.take(i as int) =~= all);
    out
}

/// The request that looks for a scope.
pub open spec fn scope_call(target: Seq<char>) -> Call {
    Call {
        method: Method::Get,
        path: "/api/now/table/sys_scope"@,
        query: seq![
            (
                "sysparm_query"@,
                "scope="@ + target + "^ORname="@ + target + "^ORsys_id="@ + target,
            ),
            ("sysparm_fields"@, "sys_id,name,scope"@),
            ("sysparm_display_value"@, "false"@),
            ("sysparm_limit"@, "3"@),
        ],
        body: None,
    }
}

/// The request that looks for a scope.
pub fn scope_request(target: &str) -> (r: Request)
    ensures
        r@ == scope_call(target@),
{
    let condition = "scope=".to_owned().concat(target).concat("^ORname=").concat(target).concat(
        "^ORsys_id=",
    ).concat(target);
    let mut q = no_query();
    param(&mut q, "sysparm_query", condition.as_str());
    param(&mut q, "sysparm_fields", "sys_id,name,scope");
    param(&mut q, "sysparm_display_value", "false");
    param(&mut q, "sysparm_limit", "3");
    assert(pairs(q@) =~= scope_call(target@).query);
    get("/api/now/table/sys_scope".to_owned(), q)
}

/// How several scopes are listed.
pub open spec fn scope_labels(s: Seq<Scope>) -> Seq<Seq<char>> {
    s.map_values(|x: Scope| x.scope + " ("@ + x.sys_id + ")"@)
}

/// How several update sets are listed.
pub open spec fn set_labels(s: Seq<UpdateSet>) -> Seq<Seq<char>> {
    s.map_values(|x: UpdateSet| x.name + " ("@ + x.sys_id + ")"@)
}

/// The scope that a target names: exactly one.
pub open spec fn named_scope(target: Seq<char>, found: Seq<Scope>) -> Result<Scope, Fault> {
    if found.len() == 0 {
        Err(
            Fault::Usage(
                "no application scope matching '"@ + target
                    + "' (by scope name, display name, or sys_id)"@,
            ),
        )
    } else if found.len() == 1 {
        Ok(found[0])
    } else {
        Err(
            Fault::Usage(
                "'"@ + target + "' matches more than one scope: "@ + joined(
                    scope_labels(found),
                    ", "@,
                ) + "; use the sys_id"@,
            ),
        )
    }
}

/// The scope that a target names.
pub fn resolve_scope(target: &str, resp: &Json) -> (r: Result<ScopeRow, Error>)
    ensures
        match named_scope(target@, listed_scopes(items_in(resp@.field("result"@)))) {
            Ok(s) => r matches Ok(x) && x@ == s,
            Err(f) => r matches Err(e) && e@ == f,
        },
{
    let mut rows = scope_list(resp);
    let ghost found = scopes(rows@);
    assert(found.len() == rows@.len());
    if rows.len() == 0 {
        return Err(
            Error::Usage(
                "no application scope matching '".to_owned().concat(target).concat(
                    "' (by scope name, display name, or sys_id)",
                ),
            ),
        );
    }
    if rows.len() == 1 {
        assert(found[0] == rows@[0]@);
        return Ok(rows.remove(0));
    }
    let ghost all = scope_labels(found);
    let mut labels: Vec<String> = Vec::new();
    let mut i: usize = 0;
    assert(texts(labels@) =~= all.take(0));
    while i < rows.len()
        invariant
            i <= rows.len(),
            found == scopes(rows@),
            all == scope_labels(found),
            texts(labels@) == all.take(i as int),
        decreases rows.len() - i,
    {
        let ghost prior = texts(labels@);
        let l = rows[i].scope.clone().concat(" (").concat(rows[i].sys_id.as_str()).concat(")");
        labels.push(l);
        assert(texts(labels@) =~= prior.push(l@));
        assert(found[i as int] == rows@[i as int]@);
        assert(all[i as int] == l@);
        assert(all.take(i + 1) =~= all.take(i as int).push(all[i as int]));
        i = i + 1;
    }
    assert(all.take(i as int) =~= all);
    Err(
        Error::Usage(
            "'".to_owned().concat(target).concat("' matches more than one scope: ").concat(
                join(&labels, ", ").as_str(),
            ).concat("; use the sys_id"),
        ),
    )
}

/// The request that looks for update sets.
pub open spec fn sets_call(condition: Seq<char>) -> Call {
    Call {
        method: Method::Get,
        path: "/api/now/table/sys_update_set"@,
        query: seq![
            ("sysparm_query"@, condition),
            ("sysparm_fields"@, "sys_id,name,application,state"@),
            ("sysparm_display_value"@, "false"@),
            ("sysparm_limit"@, "3"@),
        ],
        body: None,
    }
}

/// The request that looks for update sets.
fn sets_request(condition: &str) -> (r: Request)
    ensures
        r@ == sets_call(condition@),
{
    let mut q = no_query();
    param(&mut q, "sysparm_query", condition);
    param(&mut q, "sysparm_fields", "sys_id,name,application,state");
    param(&mut q, "sysparm_display_value", "false");
    param(&mut q, "sysparm_limit", "3");
    assert(pairs(q@) =~= sets_call(condition@).query);
    get("/api/now/table/sys_update_set".to_owned(), q)
}

/// The condition of the update sets that can be selected: in the scope, and in
/// progress.
pub open spec fn selectable(target: Seq<char>, scope: Seq<char>) -> Seq<char> {
    "sys_id="@ + target + "^ORname="@ + target + "^application="@ + scope + "^state="@
        + "in progress"@
}

/// The condition of any update set of a name.
pub open spec fn any_set(target: Seq<char>) -> Seq<char> {
    "sys_id="@ + target + "^ORname="@ + target
}

/// Why an update set cannot be selected.
pub open spec fn unselectable(target: Seq<char>, near: Seq<UpdateSet>, scope: Scope) -> Fault {
    Fault::Usage(
        if near.len() == 0 {
            "no update set matching '"@ + target + "' (by name or sys_id)"@
        } else if near[0].application != scope.sys_id {
            "update set '"@ + near[0].name + "' ("@ + near[0].sys_id
                + ") belongs to another scope; switch first with `sn context scope`, or pick one in "@
                + scope.name
        } else {
            "update set '"@ + near[0].name + "' ("@ + near[0].sys_id
                + ") is not in progress; only in-progress sets can be selected"@
        },
    )
}

/// Says why an update set cannot be selected.
pub fn explain_miss(target: &str, resp: &Json, scope: &ScopeRow) -> (e: Error)
    ensures
        e@ == unselectable(
            target@,
            listed_sets(items_in(resp@.field("result"@))),
            scope@,
        ),
{
    let near = set_list(resp);
    let ghost all = sets(near@);
    assert(all.len() == near@.len());
    if near.len() == 0 {
        return Error::Usage(
            "no update set matching '".to_owned().concat(target).concat("' (by name or sys_id)"),
        );
    }
    assert(all[0] == near@[0]@);
    let row = &near[0];
    let start = "update set '".to_owned().concat(row.name.as_str()).concat("' (").concat(
        row.sys_id.as_str(),
    );
    if !same(row.application.as_str(), scope.sys_id.as_str()) {
        return Error::Usage(
            start.concat(
                ") belongs to another scope; switch first with `sn context scope`, or pick one in ",
            ).concat(scope.name.as_str()),
        );
    }
    Error::Usage(start.concat(") is not in progress; only in-progress sets can be selected"))
}

/// The update set that a target names, where any can be selected: exactly one.
pub open spec fn named_set(target: Seq<char>, found: Seq<UpdateSet>) -> Option<
    Result<UpdateSet, Fault>,
> {
    if found.len() == 0 {
        None
    } else if found.len() == 1 {
        Some(Ok(found[0]))
    } else {
        Some(
            Err(
                Fault::Usage(
                    "'"@ + target + "' matches more than one update set: "@ + joined(
                        set_labels(found),
                        ", "@,
                    ) + "; use the sys_id"@,
                ),
            ),
        )
    }
}

/// The update set that a target names, where any can be selected.
pub fn resolve_update_set(target: &str, resp: &Json) -> (r: Option<Result<UpdateSetRow, Error>>)
    ensures
        match named_set(target@, listed_sets(items_in(resp@.field("result"@)))) {
            None => r is None,
            Some(Ok(s)) => r matches Some(Ok(x)) && x@ == s,
            Some(Err(f)) => r matches Some(Err(e)) && e@ == f,
        },
{
    let mut rows = set_list(resp);
    let ghost found = sets(rows@);
    assert(found.len() == rows@.len());
    if rows.len() == 0 {
        return None;
    }
    if rows.len() == 1 {
        assert(found[0] == rows@[0]@);
        return Some(Ok(rows.remove(0)));
    }
    let ghost all = set_labels(found);
    let mut labels: Vec<String> = Vec::new();
    let mut i: usize = 0;
    assert(texts(labels@) =~= all.take(0));
    while i < rows.len()
        invariant
            i <= rows.len(),
            found == sets(rows@),
            all == set_labels(found),
            texts(labels@) == all.take(i as int),
        decreases rows.len() - i,
    {
        let ghost prior = texts(labels@);
        let l = rows[i].name.clone().concat(" (").concat(rows[i].sys_id.as_str()).concat(")");
        labels.push(l);
        assert(texts(labels@) =~= prior.push(l@));
        assert(found[i as int] == rows@[i as int]@);
        assert(all[i as int] == l@);
        assert(all.take(i + 1) =~= all.take(i as int).push(all[i as int]));
        i = i + 1;
    }
    assert(all.take(i as int) =~= all);
    Some(
        Err(
            Error::Usage(
                "'".to_owned().concat(target).concat(
                    "' matches more than one update set: ",
                ).concat(join(&labels, ", ").as_str()).concat("; use the sys_id"),
            ),
        ),
    )
}

/// How far the switch of a scope has come: what was asked for last, and what is
/// known so far.
#[derive(Debug)]
pub enum ScopePhase {
    /// The context.
    Previous,
    /// The scope.
    Resolve(ContextState),
    /// That the picker stage the scope.
    Stage(ContextState, ScopeRow),
    /// The caller.
    Caller(ContextState, ScopeRow),
    /// The caller, in the table of users.
    Lookup(ContextState, ScopeRow),
    /// The preference of the caller.
    Preference(ContextState, ScopeRow, String),
    /// That the preference be stored.
    Store(ContextState, ScopeRow),
    /// The context again.
    Verify(ContextState, ScopeRow),
}

/// How far the switch of a scope has come, as a view.
pub ghost enum ScopePhaseView {
    Previous,
    Resolve(Context),
    Stage(Context, Scope),
    Caller(Context, Scope),
    Lookup(Context, Scope),
    Preference(Context, Scope, Seq<char>),
    Store(Context, Scope),
    Verify(Context, Scope),
}

impl ScopePhase {
    pub open spec fn view(&self) -> ScopePhaseView {
        match self {
            ScopePhase::Previous => ScopePhaseView::Previous,
            ScopePhase::Resolve(c) => ScopePhaseView::Resolve(c@),
            ScopePhase::Stage(c, s) => ScopePhaseView::Stage(c@, s@),
            ScopePhase::Caller(c, s) => ScopePhaseView::Caller(c@, s@),
            ScopePhase::Lookup(c, s) => ScopePhaseView::Lookup(c@, s@),
            ScopePhase::Preference(c, s, u) => ScopePhaseView::Preference(c@, s@, u@),
            ScopePhase::Store(c, s) => ScopePhaseView::Store(c@, s@),
            ScopePhase::Verify(c, s) => ScopePhaseView::Verify(c@, s@),
        }
    }
}

/// What comes next in the switch of a scope.
#[derive(Debug)]
pub enum ScopeStep {
    Ask(ScopePhase, Request),
    Done(Json),
    Fail(Error),
    Unusable,
}

/// What comes next in the switch of a scope, as a view.
pub ghost enum ScopeNext {
    Ask(ScopePhaseView, Call),
    Done(Doc),
    Fail(Fault),
    Unusable,
}

impl ScopeStep {
    pub open spec fn view(&self) -> ScopeNext {
        match self {
            ScopeStep::Ask(p, r) => ScopeNext::Ask(p@, r@),
            ScopeStep::Done(j) => ScopeNext::Done(j@),
            ScopeStep::Fail(e) => ScopeNext::Fail(e@),
            ScopeStep::Unusable => ScopeNext::Unusable,
        }
    }
}

/// A request that writes.
pub open spec fn write_call(method: Method, path: Seq<char>, body: Map<Seq<char>, Doc>) -> Call {
    Call { method, path, query: Seq::empty(), body: Some(Doc::Object(body)) }
}

/// The request that lets the picker stage a scope.
pub open spec fn stage_call(scope: Scope) -> Call {
    write_call(
        Method::Put,
        "/api/now/ui/concoursepicker/application"@,
        Map::empty().insert("app_id"@, Doc::Str(scope.sys_id)),
    )
}

/// The request that looks for the preference of a user.
pub open spec fn preference_call(user: Seq<char>) -> Call {
    Call {
        method: Method::Get,
        path: "/api/now/table/sys_user_preference"@,
        query: seq![
            (
                "sysparm_query"@,
                "user="@ + user + "^name="@ + "apps.current_app"@ + "^ORDERBYsys_created_on"@,
            ),
            ("sysparm_fields"@, "sys_id"@),
            ("sysparm_limit"@, "2"@),
        ],
        body: None,
    }
}

/// The request that stores the preference of a user: in the row that is there, or
/// in a first one.
pub open spec fn store_call(scope: Scope, user: Seq<char>, rows: Seq<Doc>) -> Call {
    let existing = if rows.len() > 0 {
        filled_field(rows[0], "sys_id"@)
    } else {
        None
    };
    match existing {
        Some(id) => write_call(
            Method::Patch,
            "/api/now/table/sys_user_preference"@ + "/"@ + id,
            Map::empty().insert("value"@, Doc::Str(scope.sys_id)),
        ),
        None => write_call(
            Method::Post,
            "/api/now/table/sys_user_preference"@,
            Map::empty().insert("user"@, Doc::Str(user)).insert(
                "name"@,
                Doc::Str("apps.current_app"@),
            ).insert("value"@, Doc::Str(scope.sys_id)),
        ),
    }
}

/// What the identity of the caller comes to: only one with a sys_id has a
/// preference that can be found.
pub open spec fn with_caller(c: Context, s: Scope, who: Option<Who>) -> ScopeNext {
    match who {
        Some(w) => match w.sys_id {
            Some(user) => ScopeNext::Ask(
                ScopePhaseView::Preference(c, s, user),
                preference_call(user),
            ),
            None => ScopeNext::Fail(unnamed_caller()),
        },
        None => ScopeNext::Fail(unnamed_caller()),
    }
}

/// The failure of a caller that the instance does not name.
pub open spec fn unnamed_caller() -> Fault {
    Fault::Instance {
        message: "the instance did not name the calling user, so their preference row cannot be located"@,
        detail: None,
    }
}

/// The failure of a scope that did not take.
pub open spec fn not_persisted(asked: Scope, now: Scope) -> Fault {
    plain_fault(
        200,
        "scope switch did not persist: asked for "@ + asked.name + " ("@ + asked.sys_id
            + "), instance reports "@ + now.name + " ("@ + now.sys_id + ")"@,
    )
}

/// How the switch of a scope goes on with a reply.
pub open spec fn scope_next(p: ScopePhaseView, target: Seq<char>, reply: Result<Doc, Fault>) -> ScopeNext {
    match p {
        ScopePhaseView::Caller(c, s) => match named_by_endpoint(reply) {
            Err(f) => ScopeNext::Fail(f),
            Ok(Some(w)) => with_caller(c, s, Some(w)),
            Ok(None) => ScopeNext::Ask(ScopePhaseView::Lookup(c, s), sys_user_call()),
        },
        _ => match reply {
            Err(f) => ScopeNext::Fail(f),
            Ok(d) => match p {
                ScopePhaseView::Previous => match read_of(d) {
                    Reading::Fail(f) => ScopeNext::Fail(f),
                    Reading::Unusable => ScopeNext::Unusable,
                    Reading::State(c) => ScopeNext::Ask(
                        ScopePhaseView::Resolve(c),
                        scope_call(target),
                    ),
                },
                ScopePhaseView::Resolve(c) => match named_scope(
                    target,
                    listed_scopes(items_in(d.field("result"@))),
                ) {
                    Err(f) => ScopeNext::Fail(f),
                    Ok(s) => ScopeNext::Ask(ScopePhaseView::Stage(c, s), stage_call(s)),
                },
                ScopePhaseView::Stage(c, s) => ScopeNext::Ask(
                    ScopePhaseView::Caller(c, s),
                    Call {
                        method: Method::Get,
                        path: "/api/now/ui/user/current_user"@,
                        query: Seq::empty(),
                        body: None,
                    },
                ),
                ScopePhaseView::Lookup(c, s) => with_caller(c, s, sole_user(d)),
                ScopePhaseView::Preference(c, s, user) => ScopeNext::Ask(
                    ScopePhaseView::Store(c, s),
                    store_call(s, user, items_in(d.field("result"@))),
                ),
                ScopePhaseView::Store(c, s) => ScopeNext::Ask(
                    ScopePhaseView::Verify(c, s),
                    read_call(),
                ),
                ScopePhaseView::Verify(c, s) => match read_of(d) {
                    Reading::Fail(f) => ScopeNext::Fail(f),
                    Reading::Unusable => ScopeNext::Unusable,
                    Reading::State(now) => if now.scope.sys_id == s.sys_id {
                        ScopeNext::Done(context_doc(now, Some(c)))
                    } else {
                        ScopeNext::Fail(not_persisted(s, now.scope))
                    },
                },
                ScopePhaseView::Caller(_, _) => ScopeNext::Unusable,
            },
        },
    }
}

/// Makes the request that looks for the preference of the caller.
fn seek_preference(c: ContextState, s: ScopeRow, who: Option<crate::auth::Identity>) -> (r:
    ScopeStep)
    ensures
        r@ == with_caller(c@, s@, who_option(who)),
{
    let user = match who {
        Some(i) => i.sys_id,
        None => None,
    };
    match user {
        None => ScopeStep::Fail(
            Error::Instance {
                message: "the instance did not name the calling user, so their preference row cannot be located".to_owned(),
                detail: None,
            },
        ),
        Some(user) => {
            let condition = "user=".to_owned().concat(user.as_str()).concat("^name=").concat(
                "apps.current_app",
            ).concat("^ORDERBYsys_created_on");
            let mut q = no_query();
            param(&mut q, "sysparm_query", condition.as_str());
            param(&mut q, "sysparm_fields", "sys_id");
            param(&mut q, "sysparm_limit", "2");
            assert(pairs(q@) =~= preference_call(user@).query);
            let r = get("/api/now/table/sys_user_preference".to_owned(), q);
            ScopeStep::Ask(ScopePhase::Preference(c, s, user), r)
        },
    }
}

/// Makes the request that stores the preference of the caller.
fn store_preference(scope: &ScopeRow, user: &str, resp: &Json) -> (r: Request)
    ensures
        r@ == store_call(scope@, user@, items_in(resp@.field("result"@))),
{
    let rows = items_of_option(resp.get("result"));
    proof {
        lemma_docs(rows@);
    }
    let existing = if rows.len() > 0 {
        str_field(&rows[0], "sys_id")
    } else {
        None
    };
    let mut m: Vec<(String, Json)> = Vec::new();
    match existing {
        Some(id) => {
            put(&mut m, "value", Json::str(scope.sys_id.as_str()));
            with_body(
                Method::Patch,
                "/api/now/table/sys_user_preference".to_owned().concat("/").concat(id.as_str()),
                no_query(),
                Json::Object(m),
            )
        },
        None => {
            put(&mut m, "user", Json::str(user));
            put(&mut m, "name", Json::str("apps.current_app"));
            put(&mut m, "value", Json::str(scope.sys_id.as_str()));
            with_body(
                Method::Post,
                "/api/now/table/sys_user_preference".to_owned(),
                no_query(),
                Json::Object(m),
            )
        },
    }
}

/// Begins the switch of a scope.
pub fn set_scope() -> (r: (ScopePhase, Request))
    ensures
        r.0@ == ScopePhaseView::Previous,
        r.1@ == read_call(),
{
    (ScopePhase::Previous, read_request())
}

impl ScopePhase {
    /// Takes in a reply.
    pub fn receive(self, target: &str, reply: Result<Json, Error>) -> (r: ScopeStep)
        ensures
            r@ == scope_next(self@, target@, outcome(reply)),
    {
        if let ScopePhase::Caller(c, s) = self {
            return match identify_via_current_user(reply) {
                Err(e) => ScopeStep::Fail(e),
                Ok(Some(i)) => seek_preference(c, s, Some(i)),
                Ok(None) => ScopeStep::Ask(ScopePhase::Lookup(c, s), sys_user_request()),
            };
        }
        let d = match reply {
            Ok(d) => d,
            Err(e) => {
                return ScopeStep::Fail(e);
            },
        };
        match self {
            ScopePhase::Previous => match read_context(&d) {
                ContextRead::Fail(e) => ScopeStep::Fail(e),
                ContextRead::Unusable => ScopeStep::Unusable,
                ContextRead::State(c) => ScopeStep::Ask(
                    ScopePhase::Resolve(c),
                    scope_request(target),
                ),
            },
            ScopePhase::Resolve(c) => match resolve_scope(target, &d) {
                Err(e) => ScopeStep::Fail(e),
                Ok(s) => {
                    let mut m: Vec<(String, Json)> = Vec::new();
                    put(&mut m, "app_id", Json::str(s.sys_id.as_str()));
                    let r = with_body(
                        Method::Put,
                        "/api/now/ui/concoursepicker/application".to_owned(),
                        no_query(),
                        Json::Object(m),
                    );
                    ScopeStep::Ask(ScopePhase::Stage(c, s), r)
                },
            },
            ScopePhase::Stage(c, s) => ScopeStep::Ask(
                ScopePhase::Caller(c, s),
                current_user_request(),
            ),
            ScopePhase::Lookup(c, s) => seek_preference(c, s, identify_via_sys_user(&d)),
            ScopePhase::Preference(c, s, user) => {
                let r = store_preference(&s, user.as_str(), &d);
                ScopeStep::Ask(ScopePhase::Store(c, s), r)
            },
            ScopePhase::Store(c, s) => ScopeStep::Ask(ScopePhase::Verify(c, s), read_request()),
            ScopePhase::Verify(c, s) => match read_context(&d) {
                ContextRead::Fail(e) => ScopeStep::Fail(e),
                ContextRead::Unusable => ScopeStep::Unusable,
                ContextRead::State(now) => {
                    if same(now.scope.sys_id.as_str(), s.sys_id.as_str()) {
                        ScopeStep::Done(context_json(&now, Some(&c)))
                    } else {
                        let message = "scope switch did not persist: asked for ".to_owned().concat(
                            s.name.as_str(),
                        ).concat(" (").concat(s.sys_id.as_str()).concat(
                            "), instance reports ",
                        ).concat(now.scope.name.as_str()).concat(" (").concat(
                            now.scope.sys_id.as_str(),
                        ).concat(")");
                        ScopeStep::Fail(plain_error(200, message))
                    }
                },
            },
            ScopePhase::Caller(_, _) => ScopeStep::Unusable,
        }
    }
}

/// A switch of the scope is reported only where the context that was read back
/// names the scope that was asked for.
pub proof fn a_reported_scope_was_read_back(p: ScopePhaseView, target: Seq<char>, reply: Result<Doc, Fault>)
    ensures
        scope_next(p, target, reply) is Done ==> (p matches ScopePhaseView::Verify(c, s) && reply
            is Ok && (read_of(reply->Ok_0) matches Reading::State(now) && now.scope.sys_id
            == s.sys_id)),
{
}

/// How far the switch of an update set has come.
#[derive(Debug)]
pub enum SetPhase {
    /// The context was asked for.
    Previous,
    /// The update sets that can be selected were asked for.
    Resolve(ContextState),
    /// There were none, and any of the name were asked for.
    Near(ContextState),
    /// The picker was told.
    Pick(ContextState, UpdateSetRow),
    /// The context was asked for again.
    Verify(ContextState, UpdateSetRow),
}

/// How far the switch of an update set has come, as a view.
pub ghost enum SetPhaseView {
    Previous,
    Resolve(Context),
    Near(Context),
    Pick(Context, UpdateSet),
    Verify(Context, UpdateSet),
}

impl SetPhase {
    pub open spec fn view(&self) -> SetPhaseView {
        match self {
            SetPhase::Previous => SetPhaseView::Previous,
            SetPhase::Resolve(c) => SetPhaseView::Resolve(c@),
            SetPhase::Near(c) => SetPhaseView::Near(c@),
            SetPhase::Pick(c, s) => SetPhaseView::Pick(c@, s@),
            SetPhase::Verify(c, s) => SetPhaseView::Verify(c@, s@),
        }
    }
}

/// What comes next in the switch of an update set.
#[derive(Debug)]
pub enum SetStep {
    Ask(SetPhase, Request),
    Done(Json),
    Fail(Error),
    Unusable,
}

/// What comes next in the switch of an update set, as a view.
pub ghost enum SetNext {
    Ask(SetPhaseView, Call),
    Done(Doc),
    Fail(Fault),
    Unusable,
}

impl SetStep {
    pub open spec fn view(&self) -> SetNext {
        match self {
            SetStep::Ask(p, r) => SetNext::Ask(p@, r@),
            SetStep::Done(j) => SetNext::Done(j@),
            SetStep::Fail(e) => SetNext::Fail(e@),
            SetStep::Unusable => SetNext::Unusable,
        }
    }
}

/// Whether the picker said that it took the update set.
pub open spec fn acknowledged(d: Doc) -> bool {
    crate::json::field_in(d.field("result"@), "success"@) == Some(Doc::Bool(true))
}

/// Whether a context has an update set by its preference.
pub open spec fn prefers(c: Context, sys_id: Seq<char>) -> bool {
    c.update_set matches Some((s, source)) && source == UpdateSetSource::Preference && s.sys_id
        == sys_id
}

/// How the switch of an update set goes on with an answer.
pub open spec fn set_next(p: SetPhaseView, target: Seq<char>, d: Doc) -> SetNext {
    match p {
        SetPhaseView::Previous => match read_of(d) {
            Reading::Fail(f) => SetNext::Fail(f),
            Reading::Unusable => SetNext::Unusable,
            Reading::State(c) => SetNext::Ask(
                SetPhaseView::Resolve(c),
                sets_call(selectable(target, c.scope.sys_id)),
            ),
        },
        SetPhaseView::Resolve(c) => match named_set(
            target,
            listed_sets(items_in(d.field("result"@))),
        ) {
            None => SetNext::Ask(SetPhaseView::Near(c), sets_call(any_set(target))),
            Some(Err(f)) => SetNext::Fail(f),
            Some(Ok(s)) => SetNext::Ask(
                SetPhaseView::Pick(c, s),
                write_call(
                    Method::Put,
                    "/api/now/ui/concoursepicker/updateset"@,
                    Map::empty().insert("sysId"@, Doc::Str(s.sys_id)),
                ),
            ),
        },
        SetPhaseView::Near(c) => SetNext::Fail(
            unselectable(target, listed_sets(items_in(d.field("result"@))), c.scope),
        ),
        SetPhaseView::Pick(c, s) => if acknowledged(d) {
            SetNext::Ask(SetPhaseView::Verify(c, s), read_call())
        } else {
            SetNext::Fail(
                Fault::Instance {
                    message: "the update-set picker did not acknowledge the change"@,
                    detail: Some("response: "@ + crate::json::rendered(d)),
                },
            )
        },
        SetPhaseView::Verify(c, s) => match read_of(d) {
            Reading::Fail(f) => SetNext::Fail(f),
            Reading::Unusable => SetNext::Unusable,
            Reading::State(now) => if prefers(now, s.sys_id) {
                SetNext::Done(context_doc(now, Some(c)))
            } else {
                SetNext::Fail(
                    Fault::Api {
                        status: 200,
                        message: "update set selection did not persist: asked for "@ + s.name
                            + " ("@ + s.sys_id + ")"@,
                        detail: None,
                        transaction_id: None,
                        sn_error: Some(context_doc(now, None)),
                    },
                )
            },
        },
    }
}

/// Begins the switch of an update set.
pub fn set_updateset() -> (r: (SetPhase, Request))
    ensures
        r.0@ == SetPhaseView::Previous,
        r.1@ == read_call(),
{
    (SetPhase::Previous, read_request())
}

impl SetPhase {
    /// Takes in an answer.
    pub fn receive(self, target: &str, d: &Json) -> (r: SetStep)
        ensures
            r@ == set_next(self@, target@, d@),
    {
        match self {
            SetPhase::Previous => match read_context(d) {
                ContextRead::Fail(e) => SetStep::Fail(e),
                ContextRead::Unusable => SetStep::Unusable,
                ContextRead::State(c) => {
                    let condition = "sys_id=".to_owned().concat(target).concat(
                        "^ORname=",
                    ).concat(target).concat("^application=").concat(
                        c.scope.sys_id.as_str(),
                    ).concat("^state=").concat("in progress");
                    let r = sets_request(condition.as_str());
                    SetStep::Ask(SetPhase::Resolve(c), r)
                },
            },
            SetPhase::Resolve(c) => match resolve_update_set(target, d) {
                None => {
                    let condition = "sys_id=".to_owned().concat(target).concat(
                        "^ORname=",
                    ).concat(target);
                    SetStep::Ask(SetPhase::Near(c), sets_request(condition.as_str()))
                },
                Some(Err(e)) => SetStep::Fail(e),
                Some(Ok(s)) => {
                    let mut m: Vec<(String, Json)> = Vec::new();
                    put(&mut m, "sysId", Json::str(s.sys_id.as_str()));
                    let r = with_body(
                        Method::Put,
                        "/api/now/ui/concoursepicker/updateset".to_owned(),
                        no_query(),
                        Json::Object(m),
                    );
                    SetStep::Ask(SetPhase::Pick(c, s), r)
                },
            },
            SetPhase::Near(c) => SetStep::Fail(explain_miss(target, d, &c.scope)),
            SetPhase::Pick(c, s) => {
                let taken = match crate::json::get_in(d.get("result"), "success") {
                    Some(Json::Bool(b)) => *b,
                    _ => false,
                };
                if taken {
                    SetStep::Ask(SetPhase::Verify(c, s), read_request())
                } else {
                    SetStep::Fail(
                        Error::Instance {
                            message: "the update-set picker did not acknowledge the change".to_owned(),
                            detail: Some("response: ".to_owned().concat(d.render().as_str())),
                        },
                    )
                }
            },
            SetPhase::Verify(c, s) => match read_context(d) {
                ContextRead::Fail(e) => SetStep::Fail(e),
                ContextRead::Unusable => SetStep::Unusable,
                ContextRead::State(now) => {
                    let took = match &now.update_set {
                        Some((row, UpdateSetSource::Preference)) => same(
                            row.sys_id.as_str(),
                            s.sys_id.as_str(),
                        ),
                        _ => false,
                    };
                    if took {
                        SetStep::Done(context_json(&now, Some(&c)))
                    } else {
                        SetStep::Fail(
                            Error::Api {
                                status: 200,
                                message: "update set selection did not persist: asked for ".to_owned().concat(
                                    s.name.as_str(),
                                ).concat(" (").concat(s.sys_id.as_str()).concat(")"),
                                detail: None,
                                transaction_id: None,
                                sn_error: Some(context_json(&now, None)),
                            },
                        )
                    }
                },
            },
        }
    }
}

/// A switch of the update set is reported only where the context that was read
/// back has it by its preference.
pub proof fn a_reported_update_set_was_read_back(p: SetPhaseView, target: Seq<char>, d: Doc)
    ensures
        set_next(p, target, d) is Done ==> (p matches SetPhaseView::Verify(c, s) && (read_of(d)
            matches Reading::State(now) && prefers(now, s.sys_id))),
{
}

proof fn lemma_listed_scopes(rows: Seq<Doc>)
    ensures
        forall|i: int|
            0 <= i < listed_scopes(rows).len() ==> exists|j: int|
                0 <= j < rows.len() && (#[trigger] rows[j]).field("sys_id"@) == Some(
                    Doc::Str((#[trigger] listed_scopes(rows)[i]).sys_id),
                ) && rows[j].field("name"@) == Some(Doc::Str(listed_scopes(rows)[i].name))
                    && rows[j].field("scope"@) == Some(Doc::Str(listed_scopes(rows)[i].scope)),
    decreases rows.len(),
{
    if rows.len() > 0 {
        let less = rows.drop_last();
        lemma_listed_scopes(less);
        let rest = listed_scopes(less);
        let all = listed_scopes(rows);
        assert forall|i: int| 0 <= i < all.len() implies exists|j: int|
            0 <= j < rows.len() && (#[trigger] rows[j]).field("sys_id"@) == Some(
                Doc::Str((#[trigger] all[i]).sys_id),
            ) && rows[j].field("name"@) == Some(Doc::Str(all[i].name)) && rows[j].field("scope"@)
                == Some(Doc::Str(all[i].scope)) by {
            if i < rest.len() {
                assert(all[i] == rest[i]);
                let j = choose|j: int|
                    0 <= j < less.len() && (#[trigger] less[j]).field("sys_id"@) == Some(
                        Doc::Str(rest[i].sys_id),
                    ) && less[j].field("name"@) == Some(Doc::Str(rest[i].name)) && less[j].field(
                        "scope"@,
                    ) == Some(Doc::Str(rest[i].scope));
                assert(rows[j] == less[j]);
            } else {
                assert(rows[rows.len() - 1] == rows.last());
            }
        }
    }
}

/// A scope is looked for by what can name it, and only where exactly one row answers
/// is it staged: the scope of that row, by its sys_id.
pub proof fn the_scope_that_was_found_is_staged(
    c: Context,
    target: Seq<char>,
    d: Doc,
    row: Doc,
    id: Seq<char>,
    name: Seq<char>,
    scope: Seq<char>,
)
    requires
        d.field("result"@) == Some(Doc::Array(seq![row])),
        row.field("sys_id"@) == Some(Doc::Str(id)) && id.len() > 0,
        row.field("name"@) == Some(Doc::Str(name)) && name.len() > 0,
        row.field("scope"@) == Some(Doc::Str(scope)) && scope.len() > 0,
    ensures
        scope_next(ScopePhaseView::Resolve(c), target, Ok(d)) matches ScopeNext::Ask(p, call) && {
            &&& p == ScopePhaseView::Stage(c, Scope { sys_id: id, name, scope })
            &&& call.method == Method::Put && call.path
                == "/api/now/ui/concoursepicker/application"@
            &&& call.body matches Some(b) && b.field("app_id"@) == Some(Doc::Str(id))
        },
        scope_call(target).path == "/api/now/table/sys_scope"@,
        scope_call(target).query.contains(
            (
                "sysparm_query"@,
                "scope="@ + target + "^ORname="@ + target + "^ORsys_id="@ + target,
            ),
        ),
        scope_call(target).query.contains(("sysparm_fields"@, "sys_id,name,scope"@)),
{
    reveal_with_fuel(listed_scopes, 2);
    let rows = seq![row];
    assert(rows.drop_last() =~= Seq::empty());
    assert(rows.last() == row);
    assert(items_in(d.field("result"@)) == rows);
    assert(listed_scopes(rows) =~= seq![Scope { sys_id: id, name, scope }]);
    let q = scope_call(target).query;
    assert(q[0] == q[0] && q[1] == q[1]);
}

/// The preference that is stored is that of the user, holds the scope that was asked
/// for, and goes into the row that is there where there is one.
pub proof fn the_preference_of_the_user_is_stored(
    scope: Scope,
    user: Seq<char>,
    rows: Seq<Doc>,
    id: Seq<char>,
)
    ensures
        preference_call(user).path == "/api/now/table/sys_user_preference"@,
        preference_call(user).query.contains(
            (
                "sysparm_query"@,
                "user="@ + user + "^name="@ + "apps.current_app"@ + "^ORDERBYsys_created_on"@,
            ),
        ),
        store_call(scope, user, rows).body matches Some(b) && b.field("value"@) == Some(
            Doc::Str(scope.sys_id),
        ),
        rows.len() > 0 && rows[0].field("sys_id"@) == Some(Doc::Str(id)) && id.len() > 0
            ==> store_call(scope, user, rows).method == Method::Patch && store_call(
            scope,
            user,
            rows,
        ).path == "/api/now/table/sys_user_preference"@ + "/"@ + id,
        rows.len() == 0 ==> store_call(scope, user, rows).method == Method::Post && store_call(
            scope,
            user,
            rows,
        ).path == "/api/now/table/sys_user_preference"@ && (store_call(
            scope,
            user,
            rows,
        ).body matches Some(b) && b.field("user"@) == Some(Doc::Str(user)) && b.field("name"@)
            == Some(Doc::Str("apps.current_app"@))),
{
    reveal_strlit("user");
    reveal_strlit("name");
    reveal_strlit("value");
    assert("user"@.len() == 4 && "name"@.len() == 4 && "value"@.len() == 5);
    assert("user"@[0] != "name"@[0]);
    let q = preference_call(user).query;
    assert(q[0] == q[0]);
}

/// A switch goes through its steps in their order: nothing is written before the
/// scope is settled and nothing is reported before it was read back; what was there
/// before is what is reported as such.
pub proof fn a_switch_goes_through_its_steps(
    c: Context,
    s: Scope,
    target: Seq<char>,
    d: Doc,
    user: Seq<char>,
)
    ensures
        scope_next(ScopePhaseView::Previous, target, Ok(d)) matches ScopeNext::Ask(p, call) ==> (
        p matches ScopePhaseView::Resolve(before) && call == scope_call(target) && read_of(d)
            == Reading::State(before)),
        scope_next(ScopePhaseView::Preference(c, s, user), target, Ok(d)) matches ScopeNext::Ask(
            p,
            call,
        ) && p == ScopePhaseView::Store(c, s) && (call.body matches Some(b) && b.field("value"@)
            == Some(Doc::Str(s.sys_id))),
        scope_next(ScopePhaseView::Store(c, s), target, Ok(d)) == ScopeNext::Ask(
            ScopePhaseView::Verify(c, s),
            read_call(),
        ),
        read_of(d) matches Reading::State(now) ==> (now.scope.sys_id == s.sys_id ==> scope_next(
            ScopePhaseView::Verify(c, s),
            target,
            Ok(d),
        ) == ScopeNext::Done(context_doc(now, Some(c)))),
        read_of(d) matches Reading::State(now) ==> (now.scope.sys_id != s.sys_id ==> scope_next(
            ScopePhaseView::Verify(c, s),
            target,
            Ok(d),
        ) is Fail),
{
    the_preference_of_the_user_is_stored(s, user, items_in(d.field("result"@)), user);
}

/// An update set is looked for among those of the current scope that are in progress,
/// and the one that was found is picked, by its sys_id.
pub proof fn the_update_set_that_was_found_is_picked(
    c: Context,
    target: Seq<char>,
    d: Doc,
    row: Doc,
    id: Seq<char>,
    name: Seq<char>,
)
    requires
        d.field("result"@) == Some(Doc::Array(seq![row])),
        row.field("sys_id"@) == Some(Doc::Str(id)) && id.len() > 0,
        row.field("name"@) == Some(Doc::Str(name)) && name.len() > 0,
    ensures
        set_next(SetPhaseView::Resolve(c), target, d) matches SetNext::Ask(p, call) && {
            &&& p matches SetPhaseView::Pick(before, s) && before == c && s.sys_id == id && s.name
                == name
            &&& call.method == Method::Put && call.path == "/api/now/ui/concoursepicker/updateset"@
            &&& call.body matches Some(b) && b.field("sysId"@) == Some(Doc::Str(id))
        },
        selectable(target, c.scope.sys_id) == "sys_id="@ + target + "^ORname="@ + target
            + "^application="@ + c.scope.sys_id + "^state="@ + "in progress"@,
        sets_call(target).path == "/api/now/table/sys_update_set"@,
        sets_call(target).query.contains(("sysparm_query"@, target)),
{
    reveal_with_fuel(listed_sets, 2);
    let rows = seq![row];
    assert(rows.drop_last() =~= Seq::empty());
    assert(rows.last() == row);
    assert(items_in(d.field("result"@)) == rows);
    assert(listed_sets(rows).len() == 1);
    let q = sets_call(target).query;
    assert(q[0] == q[0]);
}

/// Nothing is picked where nothing or more than one was found, and a pick counts only
/// where it was acknowledged and read back.
pub proof fn a_pick_has_to_be_acknowledged(c: Context, s: UpdateSet, target: Seq<char>, d: Doc)
    ensures
        d.field("result"@) == Some(Doc::Array(Seq::empty())) ==> set_next(
            SetPhaseView::Resolve(c),
            target,
            d,
        ) == SetNext::Ask(SetPhaseView::Near(c), sets_call(any_set(target))),
        set_next(SetPhaseView::Near(c), target, d) is Fail,
        field_in(d.field("result"@), "success"@) == Some(Doc::Bool(true)) <==> set_next(
            SetPhaseView::Pick(c, s),
            target,
            d,
        ) == SetNext::Ask(SetPhaseView::Verify(c, s), read_call()),
        read_of(d) matches Reading::State(now) ==> (now.update_set matches Some((u, source)) ==> (
        source == UpdateSetSource::Preference && u.sys_id == s.sys_id ==> set_next(
            SetPhaseView::Verify(c, s),
            target,
            d,
        ) == SetNext::Done(context_doc(now, Some(c))))),
{
}

/// Whatever a list of scopes holds stands in a row of the answer.
pub proof fn a_listed_scope_stands_in_a_row(rows: Seq<Doc>, i: int)
    requires
        0 <= i < listed_scopes(rows).len(),
    ensures
        exists|j: int|
            0 <= j < rows.len() && (#[trigger] rows[j]).field("sys_id"@) == Some(
                Doc::Str(listed_scopes(rows)[i].sys_id),
            ) && rows[j].field("name"@) == Some(Doc::Str(listed_scopes(rows)[i].name))
                && rows[j].field("scope"@) == Some(Doc::Str(listed_scopes(rows)[i].scope)),
{
    lemma_listed_scopes(rows);
}

/// A search asks for what is read of its rows, as it is stored, and for enough rows to
/// see that there are several.
pub proof fn a_search_asks_for_what_is_read(target: Seq<char>)
    ensures
        scope_call(target).method == Method::Get,
        param_in(scope_call(target).query, "sysparm_fields"@) == Some("sys_id,name,scope"@),
        param_in(scope_call(target).query, "sysparm_display_value"@) == Some("false"@),
        param_in(scope_call(target).query, "sysparm_limit"@) == Some("3"@),
        sets_call(target).method == Method::Get,
        param_in(sets_call(target).query, "sysparm_query"@) == Some(target),
        param_in(sets_call(target).query, "sysparm_fields"@) == Some(
            "sys_id,name,application,state"@,
        ),
        param_in(sets_call(target).query, "sysparm_display_value"@) == Some("false"@),
        param_in(sets_call(target).query, "sysparm_limit"@) == Some("3"@),
        any_set(target) == "sys_id="@ + target + "^ORname="@ + target,
{
    broadcast use {
        crate::request::lemma_param_with,
        crate::request::lemma_param_flag,
        crate::request::lemma_param_none,
        crate::request::lemma_param_push,
    };

    reveal_strlit("sysparm_query");
    reveal_strlit("sysparm_fields");
    reveal_strlit("sysparm_display_value");
    reveal_strlit("sysparm_limit");
    assert("sysparm_query"@.len() == 13 && "sysparm_fields"@.len() == 14 && "sysparm_display_value"@.len() == 21 && "sysparm_limit"@.len() == 13);
    assert("sysparm_query"@[8] != "sysparm_limit"@[8]);
    let e = Seq::<(Seq<char>, Seq<char>)>::empty();
    assert(scope_call(target).query =~= e.push(
        (
            "sysparm_query"@,
            "scope="@ + target + "^ORname="@ + target + "^ORsys_id="@ + target,
        ),
    ).push(("sysparm_fields"@, "sys_id,name,scope"@)).push(
        ("sysparm_display_value"@, "false"@),
    ).push(("sysparm_limit"@, "3"@)));
    assert(sets_call(target).query =~= e.push(("sysparm_query"@, target)).push(
        ("sysparm_fields"@, "sys_id,name,application,state"@),
    ).push(("sysparm_display_value"@, "false"@)).push(("sysparm_limit"@, "3"@)));
}

/// A scope that did not take is reported with both scopes, and as no failure of a
/// request.
pub proof fn a_scope_that_did_not_take_is_reported(asked: Scope, now: Scope)
    ensures
        not_persisted(asked, now).status() == Some(200u16),
        not_persisted(asked, now).message() == "scope switch did not persist: asked for "@
            + asked.name + " ("@ + asked.sys_id + "), instance reports "@ + now.name + " ("@
            + now.sys_id + ")"@,
{
}

/// Why an update set cannot be selected: there is none, it belongs to another scope, or
/// it is not in progress.
pub proof fn a_refused_update_set_says_why(target: Seq<char>, near: Seq<UpdateSet>, scope: Scope)
    ensures
        near.len() == 0 ==> unselectable(target, near, scope).message()
            == "no update set matching '"@ + target + "' (by name or sys_id)"@,
        near.len() > 0 && near[0].application == scope.sys_id ==> unselectable(
            target,
            near,
            scope,
        ).message() == "update set '"@ + near[0].name + "' ("@ + near[0].sys_id
            + ") is not in progress; only in-progress sets can be selected"@,
        near.len() > 0 && near[0].application != scope.sys_id ==> unselectable(
            target,
            near,
            scope,
        ).message() == "update set '"@ + near[0].name + "' ("@ + near[0].sys_id
            + ") belongs to another scope; switch first with `sn context scope`, or pick one in "@
            + scope.name,
{
}

} // verus!
