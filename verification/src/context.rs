//! The context of a session: the application scope and the update set that tracked
//! writes are captured under.
//!
//! One document reads the whole context. Each of its parts can match one row at
//! most, and asks for two: a second row shows that the instance dropped the
//! condition, and is never reported as the context.

use vstd::prelude::*;

use crate::error::{text_option, Error, Fault};
use crate::graphql::{errors_fault, errors_of, errors_to_api_error, execute, graphql_call, graphql_errors};
use crate::json::{doc_option_ref, docs, field_in, get_in, lemma_docs, put, Doc, Json};
use crate::request::Call;
use crate::text::{chars_of, decimal, digits, find, lemma_first, same, trim, trimmed};

verus! {

/// The commands on the context.
#[derive(Debug)]
pub enum ContextSub {
    Scope(ContextTargetArgs),
    Updateset(ContextTargetArgs),
}

/// What to switch to.
#[derive(Debug)]
pub struct ContextTargetArgs {
    pub target: String,
}

/// An application scope.
#[derive(Debug)]
pub struct ScopeRow {
    pub sys_id: String,
    pub name: String,
    pub scope: String,
}

/// An update set, and the scope that it belongs to.
#[derive(Debug)]
pub struct UpdateSetRow {
    pub sys_id: String,
    pub name: String,
    pub application: String,
}

/// How the update set was found: anything but the preference means that the
/// preference is stale.
#[derive(Debug, Clone, Copy, PartialEq, Eq, Structural)]
pub enum UpdateSetSource {
    /// The preference agrees with the scope.
    Preference,
    /// The scope remembers it.
    ScopeMemory,
    /// It is the default of the scope.
    ScopeDefault,
}

/// A context.
#[derive(Debug)]
pub struct ContextState {
    pub scope: ScopeRow,
    pub update_set: Option<(UpdateSetRow, UpdateSetSource)>,
}

/// An application scope, as a view.
pub ghost struct Scope {
    pub sys_id: Seq<char>,
    pub name: Seq<char>,
    pub scope: Seq<char>,
}

/// An update set, as a view.
pub ghost struct UpdateSet {
    pub sys_id: Seq<char>,
    pub name: Seq<char>,
    pub application: Seq<char>,
}

/// A context, as a view.
pub ghost struct Context {
    pub scope: Scope,
    pub update_set: Option<(UpdateSet, UpdateSetSource)>,
}

impl ScopeRow {
    pub open spec fn view(&self) -> Scope {
        Scope { sys_id: self.sys_id@, name: self.name@, scope: self.scope@ }
    }
}

impl UpdateSetRow {
    pub open spec fn view(&self) -> UpdateSet {
        UpdateSet { sys_id: self.sys_id@, name: self.name@, application: self.application@ }
    }
}

impl ContextState {
    pub open spec fn view(&self) -> Context {
        Context {
            scope: self.scope@,
            update_set: match self.update_set {
                Some((row, source)) => Some((row@, source)),
                None => None,
            },
        }
    }
}

impl UpdateSetSource {
    /// How the source is shown.
    pub open spec fn text(self) -> Seq<char> {
        match self {
            UpdateSetSource::Preference => "preference"@,
            UpdateSetSource::ScopeMemory => "scope-memory"@,
            UpdateSetSource::ScopeDefault => "scope-default"@,
        }
    }

    /// How the source is shown.
    pub fn as_str(self) -> (r: &'static str)
        ensures
            r@ == self.text(),
    {
        match self {
            UpdateSetSource::Preference => "preference",
            UpdateSetSource::ScopeMemory => "scope-memory",
            UpdateSetSource::ScopeDefault => "scope-default",
        }
    }
}

/// The document that reads the whole context.
pub const READ_DOC: &'static str = "query {
  GlideRecord_Query {
    canary: sys_scope(queryConditions: \"sys_id=global\", pagination: {limit: 2}) {
      _results { sys_id { value } name { value } scope { value } }
    }
    scope: sys_scope(queryConditions: \"sys_id=javascript:gs.getPreference('apps.current_app')\", pagination: {limit: 2}) {
      _results { sys_id { value } name { value } scope { value } }
    }
    active: sys_update_set(queryConditions: \"sys_id=javascript:gs.getPreference('sys_update_set')\", pagination: {limit: 2}) {
      _results { sys_id { value } name { value } application { value } }
    }
    remembered: sys_update_set(queryConditions: \"sys_id=javascript:gs.getPreference('updateSetForScope' + (gs.getPreference('apps.current_app') || 'global'))\", pagination: {limit: 2}) {
      _results { sys_id { value } name { value } application { value } }
    }
    fallback: sys_update_set(queryConditions: \"application=javascript:gs.getPreference('apps.current_app') || 'global'^is_default=true\", pagination: {limit: 2}) {
      _results { sys_id { value } name { value } application { value } }
    }
    us_canary: sys_update_set(queryConditions: \"application=global^is_default=true\", pagination: {limit: 2}) {
      _results { sys_id { value } }
    }
  }
}";

/// The request that reads the whole context.
pub open spec fn read_call() -> Call {
    graphql_call(READ_DOC@, None, None)
}

/// The request that reads the whole context.
pub fn read_request() -> (r: crate::request::Request)
    ensures
        r@ == read_call(),
{
    execute(READ_DOC, None, &None)
}

/// The rows of a part of the answer. A part that is missing is no empty part.
pub open spec fn alias(resp: Doc, name: Seq<char>) -> Result<Seq<Doc>, Fault> {
    match field_in(
        field_in(field_in(resp.field("data"@), "GlideRecord_Query"@), name),
        "_results"@,
    ) {
        Some(Doc::Array(items)) => Ok(items),
        _ => Err(
            Fault::Instance {
                message: "GraphQL response carries no '"@ + name + "' results"@,
                detail: Some(
                    "the GlideRecord_Query schema did not answer in the expected shape"@,
                ),
            },
        ),
    }
}

/// The rows of a part of the answer.
pub fn alias_rows(resp: &Json, name: &str) -> (r: Result<Vec<Json>, Error>)
    ensures
        match alias(resp@, name@) {
            Ok(s) => r matches Ok(v) && docs(v@) == s,
            Err(f) => r matches Err(e) && e@ == f,
        },
{
    match get_in(get_in(get_in(resp.get("data"), "GlideRecord_Query"), name), "_results") {
        Some(Json::Array(items)) => Ok(crate::json::dup_items(items)),
        _ => Err(
            Error::Instance {
                message: "GraphQL response carries no '".to_owned().concat(name).concat(
                    "' results",
                ),
                detail: Some(
                    "the GlideRecord_Query schema did not answer in the expected shape".to_owned(),
                ),
            },
        ),
    }
}

/// The rows of a part whose condition can match one row at most.
pub open spec fn guarded(resp: Doc, name: Seq<char>) -> Result<Seq<Doc>, Fault> {
    match alias(resp, name) {
        Err(f) => Err(f),
        Ok(rows) => if rows.len() > 1 {
            Err(
                Fault::Instance {
                    message: "the instance did not evaluate the javascript: query term ('"@ + name
                        + "' matched "@ + digits(rows.len())
                        + " rows where at most one is possible)"@,
                    detail: Some(
                        "an unfiltered result must not be reported as the session context"@,
                    ),
                },
            )
        } else {
            Ok(rows)
        },
    }
}

/// The rows of a part whose condition can match one row at most.
pub fn guarded_rows(resp: &Json, name: &str) -> (r: Result<Vec<Json>, Error>)
    ensures
        match guarded(resp@, name@) {
            Ok(s) => r matches Ok(v) && docs(v@) == s,
            Err(f) => r matches Err(e) && e@ == f,
        },
{
    let rows = match alias_rows(resp, name) {
        Ok(v) => v,
        Err(e) => {
            return Err(e);
        },
    };
    proof {
        lemma_docs(rows@);
    }
    if rows.len() > 1 {
        return Err(
            Error::Instance {
                message: "the instance did not evaluate the javascript: query term ('".to_owned().concat(
                    name,
                ).concat("' matched ").concat(decimal(rows.len() as u64).as_str()).concat(
                    " rows where at most one is possible)",
                ),
                detail: Some(
                    "an unfiltered result must not be reported as the session context".to_owned(),
                ),
            },
        );
    }
    Ok(rows)
}

/// The value of a column.
pub open spec fn column(row: Doc, name: Seq<char>) -> Option<Seq<char>> {
    match field_in(row.field(name), "value"@) {
        Some(Doc::Str(s)) => Some(s),
        _ => None,
    }
}

/// The value of a column.
fn graphql_value(row: &Json, name: &str) -> (r: Option<String>)
    ensures
        text_option(r) == column(row@, name@),
{
    match get_in(row.get(name), "value") {
        Some(Json::Str(s)) => Some(s.clone()),
        _ => None,
    }
}

/// The scope that a row is, where it has all its columns.
pub open spec fn scope_of(row: Doc) -> Option<Scope> {
    match (column(row, "sys_id"@), column(row, "name"@), column(row, "scope"@)) {
        (Some(sys_id), Some(name), Some(scope)) => Some(Scope { sys_id, name, scope }),
        _ => None,
    }
}

/// The update set that a row is, where it has all its columns.
pub open spec fn set_of(row: Doc) -> Option<UpdateSet> {
    match (column(row, "sys_id"@), column(row, "name"@), column(row, "application"@)) {
        (Some(sys_id), Some(name), Some(application)) => Some(
            UpdateSet { sys_id, name, application },
        ),
        _ => None,
    }
}

/// The scope of a part, where there is one.
pub open spec fn scope_at(resp: Doc, name: Seq<char>) -> Result<Option<Scope>, Fault> {
    match guarded(resp, name) {
        Err(f) => Err(f),
        Ok(rows) => if rows.len() == 0 {
            Ok(None)
        } else {
            Ok(scope_of(rows[0]))
        },
    }
}

/// The update set of a part that belongs to a scope, where there is one.
pub open spec fn set_at(resp: Doc, name: Seq<char>, scope: Seq<char>) -> Result<
    Option<UpdateSet>,
    Fault,
> {
    match guarded(resp, name) {
        Err(f) => Err(f),
        Ok(rows) => if rows.len() == 0 {
            Ok(None)
        } else {
            match set_of(rows[0]) {
                Some(s) => if s.application == scope {
                    Ok(Some(s))
                } else {
                    Ok(None)
                },
                None => Ok(None),
            }
        },
    }
}

/// A scope, where there is one.
pub open spec fn scope_option(s: Option<ScopeRow>) -> Option<Scope> {
    match s {
        Some(s) => Some(s@),
        None => None,
    }
}

/// An update set, where there is one.
pub open spec fn set_option(s: Option<UpdateSetRow>) -> Option<UpdateSet> {
    match s {
        Some(s) => Some(s@),
        None => None,
    }
}

/// The scope of a part, where there is one.
fn scope_rows(resp: &Json, name: &str) -> (r: Result<Option<ScopeRow>, Error>)
    ensures
        match scope_at(resp@, name@) {
            Ok(s) => r matches Ok(x) && scope_option(x) == s,
            Err(f) => r matches Err(e) && e@ == f,
        },
{
    let rows = match guarded_rows(resp, name) {
        Ok(v) => v,
        Err(e) => {
            return Err(e);
        },
    };
    proof {
        lemma_docs(rows@);
    }
    if rows.len() == 0 {
        return Ok(None);
    }
    let row = &rows[0];
    match (graphql_value(row, "sys_id"), graphql_value(row, "name"), graphql_value(row, "scope")) {
        (Some(sys_id), Some(name), Some(scope)) => Ok(Some(ScopeRow { sys_id, name, scope })),
        _ => Ok(None),
    }
}

/// The update set of a part that belongs to a scope, where there is one.
fn update_set_rows(resp: &Json, name: &str, scope: &str) -> (r: Result<
    Option<UpdateSetRow>,
    Error,
>)
    ensures
        match set_at(resp@, name@, scope@) {
            Ok(s) => r matches Ok(x) && set_option(x) == s,
            Err(f) => r matches Err(e) && e@ == f,
        },
{
    let rows = match guarded_rows(resp, name) {
        Ok(v) => v,
        Err(e) => {
            return Err(e);
        },
    };
    proof {
        lemma_docs(rows@);
    }
    if rows.len() == 0 {
        return Ok(None);
    }
    let row = &rows[0];
    match (
        graphql_value(row, "sys_id"),
        graphql_value(row, "name"),
        graphql_value(row, "application"),
    ) {
        (Some(sys_id), Some(name), Some(application)) => {
            if same(application.as_str(), scope) {
                Ok(Some(UpdateSetRow { sys_id, name, application }))
            } else {
                Ok(None)
            }
        },
        _ => Ok(None),
    }
}

/// What the answer to the document comes to.
#[derive(Debug)]
pub enum ContextRead {
    State(ContextState),
    Fail(Error),
    /// The scope that every instance has came back without a name.
    Unusable,
}

/// What the answer to the document comes to, as a view.
pub ghost enum Reading {
    State(Context),
    Fail(Fault),
    Unusable,
}

impl ContextRead {
    pub open spec fn view(&self) -> Reading {
        match self {
            ContextRead::State(s) => Reading::State(s@),
            ContextRead::Fail(e) => Reading::Fail(e@),
            ContextRead::Unusable => Reading::Unusable,
        }
    }
}

/// The failure of an account that cannot see the context.
pub open spec fn invisible() -> Fault {
    Fault::Instance {
        message: "cannot read sys_scope/sys_update_set, so the session context is invisible to this account"@,
        detail: Some(
            "row ACLs on these tables answer with empty results, not an error; reading the context needs an admin or delegated-developer role"@,
        ),
    }
}

/// The update set of a scope: the preference where it belongs to the scope, else
/// what the scope remembers, else its default. A part that is looked at and is
/// missing, or matched several rows, is a failure.
pub open spec fn chosen_set(resp: Doc, scope: Seq<char>, active: Option<UpdateSet>) -> Result<
    Option<(UpdateSet, UpdateSetSource)>,
    Fault,
> {
    match active {
        Some(s) => Ok(Some((s, UpdateSetSource::Preference))),
        None => match set_at(resp, "remembered"@, scope) {
            Err(f) => Err(f),
            Ok(Some(s)) => Ok(Some((s, UpdateSetSource::ScopeMemory))),
            Ok(None) => match set_at(resp, "fallback"@, scope) {
                Err(f) => Err(f),
                Ok(Some(s)) => Ok(Some((s, UpdateSetSource::ScopeDefault))),
                Ok(None) => Ok(None),
            },
        },
    }
}

/// The scope of an answer: the one that the preference names, else the global
/// one.
pub open spec fn current_scope(resp: Doc) -> Result<Option<Scope>, Fault> {
    match scope_at(resp, "scope"@) {
        Ok(None) => scope_at(resp, "canary"@),
        o => o,
    }
}

/// What an answer comes to.
pub open spec fn state_of(resp: Doc) -> Reading {
    match alias(resp, "canary"@) {
        Err(f) => Reading::Fail(f),
        Ok(canary) => if canary.len() == 0 {
            Reading::Fail(invisible())
        } else {
            match alias(resp, "us_canary"@) {
                Err(f) => Reading::Fail(f),
                Ok(rows) => if rows.len() == 0 {
                    Reading::Fail(invisible())
                } else {
                    match current_scope(resp) {
                        Err(f) => Reading::Fail(f),
                        Ok(None) => Reading::Unusable,
                        Ok(Some(scope)) => match set_at(resp, "active"@, scope.sys_id) {
                            Err(f) => Reading::Fail(f),
                            Ok(active) => match chosen_set(resp, scope.sys_id, active) {
                                Err(f) => Reading::Fail(f),
                                Ok(update_set) => Reading::State(Context { scope, update_set }),
                            },
                        },
                    }
                },
            }
        },
    }
}

/// What the answer to the document comes to, failures of the document first.
pub open spec fn read_of(resp: Doc) -> Reading {
    if errors_of(resp).len() > 0 {
        Reading::Fail(errors_fault(errors_of(resp)))
    } else {
        state_of(resp)
    }
}

/// Reports an account that cannot see the context.
fn invisible_error() -> (e: Error)
    ensures
        e@ == invisible(),
{
    Error::Instance {
        message: "cannot read sys_scope/sys_update_set, so the session context is invisible to this account".to_owned(),
        detail: Some(
            "row ACLs on these tables answer with empty results, not an error; reading the context needs an admin or delegated-developer role".to_owned(),
        ),
    }
}

/// The update set of a scope.
fn choose_set(resp: &Json, scope: &str, active: Option<UpdateSetRow>) -> (r: Result<
    Option<(UpdateSetRow, UpdateSetSource)>,
    Error,
>)
    ensures
        match chosen_set(resp@, scope@, set_option(active)) {
            Ok(found) => r matches Ok(x) && (match x {
                Some((row, source)) => Some((row@, source)),
                None => None,
            }) == found,
            Err(f) => r matches Err(e) && e@ == f,
        },
{
    if let Some(s) = active {
        return Ok(Some((s, UpdateSetSource::Preference)));
    }
    match update_set_rows(resp, "remembered", scope) {
        Err(e) => {
            return Err(e);
        },
        Ok(Some(s)) => {
            return Ok(Some((s, UpdateSetSource::ScopeMemory)));
        },
        Ok(None) => {},
    }
    match update_set_rows(resp, "fallback", scope) {
        Err(e) => Err(e),
        Ok(Some(s)) => Ok(Some((s, UpdateSetSource::ScopeDefault))),
        Ok(None) => Ok(None),
    }
}

/// Reads an answer, and settles the update set as the platform would.
pub fn parse_state(resp: &Json) -> (r: ContextRead)
    ensures
        r@ == state_of(resp@),
{
    let canary = match alias_rows(resp, "canary") {
        Ok(v) => v,
        Err(e) => {
            return ContextRead::Fail(e);
        },
    };
    proof {
        lemma_docs(canary@);
    }
    if canary.len() == 0 {
        return ContextRead::Fail(invisible_error());
    }
    let rows = match alias_rows(resp, "us_canary") {
        Ok(v) => v,
        Err(e) => {
            return ContextRead::Fail(e);
        },
    };
    proof {
        lemma_docs(rows@);
    }
    if rows.len() == 0 {
        return ContextRead::Fail(invisible_error());
    }
    let named = match scope_rows(resp, "scope") {
        Ok(s) => s,
        Err(e) => {
            return ContextRead::Fail(e);
        },
    };
    let scope = match named {
        Some(s) => s,
        None => match scope_rows(resp, "canary") {
            Ok(Some(s)) => s,
            Ok(None) => {
                return ContextRead::Unusable;
            },
            Err(e) => {
                return ContextRead::Fail(e);
            },
        },
    };
    let active = match update_set_rows(resp, "active", scope.sys_id.as_str()) {
        Ok(s) => s,
        Err(e) => {
            return ContextRead::Fail(e);
        },
    };
    match choose_set(resp, scope.sys_id.as_str(), active) {
        Ok(update_set) => ContextRead::State(ContextState { scope, update_set }),
        Err(e) => ContextRead::Fail(e),
    }
}

/// Reads the answer to the document.
pub fn read_context(resp: &Json) -> (r: ContextRead)
    ensures
        r@ == read_of(resp@),
{
    let errors = graphql_errors(resp);
    proof {
        lemma_docs(errors@);
    }
    if errors.len() > 0 {
        return ContextRead::Fail(errors_to_api_error(errors));
    }
    parse_state(resp)
}

/// The update set that is reported always belongs to the scope that is reported,
/// and a part that matched several rows is never reported: the scope and the
/// preference always have to match one row at most, what the scope remembers where
/// the preference settles nothing, and its default where that does not either.
pub proof fn the_update_set_belongs_to_the_scope(resp: Doc)
    ensures
        state_of(resp) matches Reading::State(c) ==> (c.update_set matches Some((s, _))
            ==> s.application == c.scope.sys_id),
        alias(resp, "scope"@) matches Ok(rows) ==> rows.len() > 1 ==> !(state_of(resp) is State),
        alias(resp, "active"@) matches Ok(rows) ==> rows.len() > 1 ==> !(state_of(resp) is State),
        alias(resp, "remembered"@) matches Ok(rows) ==> rows.len() > 1 ==> (state_of(
            resp,
        ) matches Reading::State(c) ==> (c.update_set matches Some((_, source)) && source
            == UpdateSetSource::Preference)),
        alias(resp, "fallback"@) matches Ok(rows) ==> rows.len() > 1 ==> (state_of(
            resp,
        ) matches Reading::State(c) ==> (c.update_set matches Some((_, source)) && source
            != UpdateSetSource::ScopeDefault)),
{
}

/// A scope as JSON.
pub open spec fn scope_doc(s: Scope) -> Doc {
    Doc::Object(
        Map::empty().insert("sys_id"@, Doc::Str(s.sys_id)).insert(
            "name"@,
            Doc::Str(s.name),
        ).insert("scope"@, Doc::Str(s.scope)),
    )
}

/// A scope as JSON.
fn scope_json(s: &ScopeRow) -> (r: Json)
    ensures
        r@ == scope_doc(s@),
{
    let mut m: Vec<(String, Json)> = Vec::new();
    put(&mut m, "sys_id", Json::str(s.sys_id.as_str()));
    put(&mut m, "name", Json::str(s.name.as_str()));
    put(&mut m, "scope", Json::str(s.scope.as_str()));
    Json::Object(m)
}

/// The context that was there before, as JSON.
pub open spec fn previous_doc(c: Context) -> Doc {
    Doc::Object(
        Map::empty().insert("scope"@, scope_doc(c.scope)).insert(
            "update_set"@,
            match c.update_set {
                Some((s, _)) => Doc::Object(
                    Map::empty().insert("sys_id"@, Doc::Str(s.sys_id)).insert(
                        "name"@,
                        Doc::Str(s.name),
                    ),
                ),
                None => Doc::Null,
            },
        ),
    )
}

/// A context as JSON.
pub open spec fn context_doc(c: Context, previous: Option<Context>) -> Doc {
    let m = Map::empty().insert("scope"@, scope_doc(c.scope));
    let m = match c.update_set {
        Some((s, source)) => {
            let m = m.insert(
                "update_set"@,
                Doc::Object(
                    Map::empty().insert("sys_id"@, Doc::Str(s.sys_id)).insert(
                        "name"@,
                        Doc::Str(s.name),
                    ).insert("source"@, Doc::Str(source.text())),
                ),
            );
            if source != UpdateSetSource::Preference {
                m.insert("preference_stale"@, Doc::Bool(true))
            } else {
                m
            }
        },
        None => m.insert("update_set"@, Doc::Null).insert(
            "note"@,
            Doc::Str(
                "no update set resolved for this scope (no active preference, no per-scope memory, no default set)"@,
            ),
        ),
    };
    match previous {
        Some(p) => Doc::Object(m.insert("previous"@, previous_doc(p))),
        None => Doc::Object(m),
    }
}

/// A context, where there is one.
pub open spec fn context_option(c: Option<&ContextState>) -> Option<Context> {
    match c {
        Some(c) => Some(c@),
        None => None,
    }
}

/// The context that was there before, as JSON.
fn previous_json(c: &ContextState) -> (r: Json)
    ensures
        r@ == previous_doc(c@),
{
    let set = match &c.update_set {
        Some((s, _)) => {
            let mut m: Vec<(String, Json)> = Vec::new();
            put(&mut m, "sys_id", Json::str(s.sys_id.as_str()));
            put(&mut m, "name", Json::str(s.name.as_str()));
            Json::Object(m)
        },
        None => Json::Null,
    };
    let mut m: Vec<(String, Json)> = Vec::new();
    put(&mut m, "scope", scope_json(&c.scope));
    put(&mut m, "update_set", set);
    Json::Object(m)
}

/// A context as JSON.
pub fn context_json(c: &ContextState, previous: Option<&ContextState>) -> (r: Json)
    ensures
        r@ == context_doc(c@, context_option(previous)),
{
    let mut out: Vec<(String, Json)> = Vec::new();
    put(&mut out, "scope", scope_json(&c.scope));
    match &c.update_set {
        Some((s, source)) => {
            let mut m: Vec<(String, Json)> = Vec::new();
            put(&mut m, "sys_id", Json::str(s.sys_id.as_str()));
            put(&mut m, "name", Json::str(s.name.as_str()));
            put(&mut m, "source", Json::str(source.as_str()));
            put(&mut out, "update_set", Json::Object(m));
            let stale = match source {
                UpdateSetSource::Preference => false,
                _ => true,
            };
            if stale {
                put(&mut out, "preference_stale", Json::Bool(true));
            }
        },
        None => {
            put(&mut out, "update_set", Json::Null);
            put(
                &mut out,
                "note",
                Json::str(
                    "no update set resolved for this scope (no active preference, no per-scope memory, no default set)",
                ),
            );
        },
    }
    if let Some(p) = previous {
        put(&mut out, "previous", previous_json(p));
    }
    Json::Object(out)
}

/// What a target comes to: it stands in a condition, so it must not split it.
pub open spec fn target_of(target: Seq<char>) -> Result<Seq<char>, Fault> {
    let t = trimmed(target);
    if t.len() == 0 {
        Err(Fault::Usage("target must not be empty"@))
    } else if t.contains('^') {
        Err(
            Fault::Usage(
                "target must not contain '^' (it would be parsed as an encoded-query separator)"@,
            ),
        )
    } else {
        Ok(t)
    }
}

/// Checks a target.
pub fn validate_target(target: &str) -> (r: Result<String, Error>)
    ensures
        match target_of(target@) {
            Ok(t) => r matches Ok(s) && s@ == t,
            Err(f) => r matches Err(e) && e@ == f,
        },
{
    let t = trim(target);
    if t.as_str().is_empty() {
        return Err(Error::Usage("target must not be empty".to_owned()));
    }
    let v = chars_of(t.as_str());
    proof {
        lemma_first(t@, '^');
    }
    if find(&v, '^').is_some() {
        return Err(
            Error::Usage(
                "target must not contain '^' (it would be parsed as an encoded-query separator)".to_owned(),
            ),
        );
    }
    Ok(t)
}

/// A reference of a row: its value, or a bare text. An empty one is none.
pub open spec fn reference(v: Option<Doc>) -> Option<Seq<char>> {
    let s = match v {
        Some(Doc::Str(s)) => Some(s),
        Some(Doc::Object(m)) => if m.contains_key("value"@) {
            m["value"@].text()
        } else {
            None
        },
        _ => None,
    };
    match s {
        Some(t) => if t.len() == 0 {
            None
        } else {
            Some(t)
        },
        None => None,
    }
}

/// A reference of a row.
pub fn reference_value(v: Option<&Json>) -> (r: Option<String>)
    ensures
        text_option(r) == reference(doc_option_ref(v)),
{
    let s = match v {
        Some(Json::Str(s)) => Some(s),
        Some(j) => match j.get("value") {
            Some(Json::Str(s)) => Some(s),
            _ => None,
        },
        None => None,
    };
    match s {
        Some(t) => if t.as_str().is_empty() {
            None
        } else {
            Some(t.clone())
        },
        None => None,
    }
}

/// A row is read column by column: a scope and an update set have the sys_id and the
/// name of their row, and the namespace or the application it names.
pub proof fn a_row_of_the_context_is_read_by_its_columns(row: Doc)
    ensures
        scope_of(row) matches Some(s) ==> {
            &&& field_in(row.field("sys_id"@), "value"@) == Some(Doc::Str(s.sys_id))
            &&& field_in(row.field("name"@), "value"@) == Some(Doc::Str(s.name))
            &&& field_in(row.field("scope"@), "value"@) == Some(Doc::Str(s.scope))
        },
        set_of(row) matches Some(s) ==> {
            &&& field_in(row.field("sys_id"@), "value"@) == Some(Doc::Str(s.sys_id))
            &&& field_in(row.field("name"@), "value"@) == Some(Doc::Str(s.name))
            &&& field_in(row.field("application"@), "value"@) == Some(Doc::Str(s.application))
        },
        text_at(row, "sys_id"@) && text_at(row, "name"@) && text_at(row, "scope"@) ==> scope_of(row)
            is Some,
        text_at(row, "sys_id"@) && text_at(row, "name"@) && text_at(row, "application"@) ==> set_of(
            row,
        ) is Some,
{
}

/// A column of a row holds a text.
pub open spec fn text_at(row: Doc, name: Seq<char>) -> bool {
    field_in(row.field(name), "value"@) matches Some(Doc::Str(_))
}

/// The rows that an answer holds under a name.
pub open spec fn answered_rows(resp: Doc, name: Seq<char>) -> Option<Doc> {
    field_in(
        field_in(field_in(resp.field("data"@), "GlideRecord_Query"@), name),
        "_results"@,
    )
}

/// The scope is the one that the preference names, and the global one where it names
/// none.
pub proof fn the_preference_names_the_scope(resp: Doc, rows: Seq<Doc>)
    requires
        answered_rows(resp, "scope"@) == Some(Doc::Array(rows)),
    ensures
        rows.len() == 1 && scope_of(rows[0]) is Some ==> (state_of(resp) matches Reading::State(c)
            ==> Some(c.scope) == scope_of(rows[0])),
        rows.len() == 0 ==> (state_of(resp) matches Reading::State(c) ==> (answered_rows(
            resp,
            "canary"@,
        ) matches Some(Doc::Array(global)) && global.len() == 1 && Some(c.scope) == scope_of(
            global[0],
        ))),
{
}

/// The update set comes from the first place that has one of the scope: the
/// preference, what the scope remembers, its default. Its source says which, and it
/// is the one that stands there.
pub proof fn the_update_set_comes_from_the_first_place(
    resp: Doc,
    active: Seq<Doc>,
    remembered: Seq<Doc>,
    fallback: Seq<Doc>,
)
    requires
        answered_rows(resp, "active"@) == Some(Doc::Array(active)),
        answered_rows(resp, "remembered"@) == Some(Doc::Array(remembered)),
        answered_rows(resp, "fallback"@) == Some(Doc::Array(fallback)),
    ensures
        state_of(resp) matches Reading::State(c) ==> {
            let here = |rows: Seq<Doc>|
                rows.len() > 0 && (set_of(rows[0]) matches Some(s) && s.application
                    == c.scope.sys_id);
            if here(active) {
                c.update_set == Some((set_of(active[0])->0, UpdateSetSource::Preference))
            } else if here(remembered) {
                c.update_set == Some((set_of(remembered[0])->0, UpdateSetSource::ScopeMemory))
            } else if here(fallback) {
                c.update_set == Some((set_of(fallback[0])->0, UpdateSetSource::ScopeDefault))
            } else {
                c.update_set is None
            }
        },
{
}

/// A context is shown with its scope and its update set; one that does not come from
/// the preference is marked as stale, and what was there before goes along.
pub proof fn a_context_is_shown_part_by_part(c: Context, previous: Option<Context>)
    ensures
        ({
            let d = context_doc(c, previous);
            &&& field_in(d.field("scope"@), "sys_id"@) == Some(Doc::Str(c.scope.sys_id))
            &&& field_in(d.field("scope"@), "name"@) == Some(Doc::Str(c.scope.name))
            &&& field_in(d.field("scope"@), "scope"@) == Some(Doc::Str(c.scope.scope))
            &&& c.update_set matches Some((s, source)) ==> {
                &&& field_in(d.field("update_set"@), "sys_id"@) == Some(Doc::Str(s.sys_id))
                &&& field_in(d.field("update_set"@), "name"@) == Some(Doc::Str(s.name))
                &&& field_in(d.field("update_set"@), "source"@) == Some(
                    Doc::Str(
                        match source {
                            UpdateSetSource::Preference => "preference"@,
                            UpdateSetSource::ScopeMemory => "scope-memory"@,
                            UpdateSetSource::ScopeDefault => "scope-default"@,
                        },
                    ),
                )
                &&& d.field("preference_stale"@) == (if source == UpdateSetSource::Preference {
                    None
                } else {
                    Some(Doc::Bool(true))
                })
            }
            &&& c.update_set is None ==> d.field("update_set"@) == Some(Doc::Null) && d.field(
                "note"@,
            ) is Some
            &&& previous is None ==> d.field("previous"@) is None
            &&& previous matches Some(p) ==> {
                &&& field_in(field_in(d.field("previous"@), "scope"@), "sys_id"@) == Some(
                    Doc::Str(p.scope.sys_id),
                )
                &&& p.update_set matches Some((s, _)) ==> field_in(
                    field_in(d.field("previous"@), "update_set"@),
                    "sys_id"@,
                ) == Some(Doc::Str(s.sys_id))
            }
        }),
{
    reveal_strlit("scope");
    reveal_strlit("sys_id");
    reveal_strlit("name");
    reveal_strlit("update_set");
    reveal_strlit("source");
    reveal_strlit("preference_stale");
    reveal_strlit("note");
    reveal_strlit("previous");
    assert("scope"@.len() == 5 && "sys_id"@.len() == 6 && "name"@.len() == 4 && "update_set"@.len() == 10 && "source"@.len() == 6 && "preference_stale"@.len() == 16 && "note"@.len() == 4 && "previous"@.len() == 8);
    assert("sys_id"@[1] != "source"@[1]);
    assert("name"@[1] != "note"@[1]);
}

/// A target is taken without the blanks around it; one that is empty, or that would
/// split a condition, is refused.
pub proof fn a_target_never_splits_a_condition(target: Seq<char>)
    ensures
        target_of(target) matches Ok(t) ==> t == trimmed(target) && t.len() > 0 && !t.contains('^'),
        target_of(target) is Err <==> trimmed(target).len() == 0 || trimmed(target).contains('^'),
{
}

/// A reference is read from its value or from a bare text; an empty one is none.
pub proof fn a_reference_is_read_in_both_shapes(d: Doc, s: Seq<char>)
    ensures
        s.len() > 0 ==> reference(Some(Doc::Str(s))) == Some(s),
        s.len() > 0 && d.field("value"@) == Some(Doc::Str(s)) ==> reference(Some(d)) == Some(s),
        reference(Some(Doc::Str(Seq::empty()))) is None && reference(None) is None,
{
}

} // verus!
