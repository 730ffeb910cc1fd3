//! The record of the caller.

use vstd::prelude::*;

use crate::auth::{identify_via_current_user, named_by_endpoint};
use crate::client::outcome;
use crate::error::{Error, Fault};
use crate::flags::{take_field, OutputMode};
use crate::json::{items_in, items_of_option, lemma_docs, Doc, Json};
use crate::request::{get, no_query, pairs, param, param_in, Call, Method, Request};

verus! {

/// The commands on users.
#[derive(Debug)]
pub enum UserSub {
    Me,
}

/// How the record of the caller is read.
#[derive(Debug)]
pub enum SelfRead {
    /// By its sys_id, which the instance named.
    Direct(Request),
    /// By a condition that the instance evaluates.
    Scripted(Request),
    /// Not at all.
    Fail(Error),
}

/// The request that reads the record of a known caller.
pub open spec fn direct_call(sys_id: Seq<char>) -> Call {
    Call {
        method: Method::Get,
        path: "/api/now/table/sys_user/"@ + sys_id,
        query: Seq::empty(),
        body: None,
    }
}

/// The request that lets the instance select the caller. Two rows are asked for:
/// a second one shows that the condition was dropped.
pub open spec fn scripted_call() -> Call {
    Call {
        method: Method::Get,
        path: "/api/now/table/sys_user"@,
        query: seq![
            ("sysparm_query"@, "user_name=javascript:gs.getUserName()"@),
            ("sysparm_limit"@, "2"@),
        ],
        body: None,
    }
}

/// Decides from the reply of the endpoint that names the caller how the record is
/// read.
pub fn self_read(reply: Result<Json, Error>) -> (r: SelfRead)
    ensures
        match named_by_endpoint(outcome(reply)) {
            Err(f) => r matches SelfRead::Fail(e) && e@ == f,
            Ok(w) => if w is Some && w->Some_0.sys_id is Some {
                r matches SelfRead::Direct(q) && q@ == direct_call(w->Some_0.sys_id->Some_0)
            } else {
                r matches SelfRead::Scripted(q) && q@ == scripted_call()
            },
        },
{
    match identify_via_current_user(reply) {
        Err(e) => SelfRead::Fail(e),
        Ok(found) => {
            let sys_id = match found {
                Some(i) => i.sys_id,
                None => None,
            };
            match sys_id {
                Some(id) => SelfRead::Direct(
                    get("/api/now/table/sys_user/".to_owned().concat(id.as_str()), no_query()),
                ),
                None => {
                    let mut q = no_query();
                    param(&mut q, "sysparm_query", "user_name=javascript:gs.getUserName()");
                    param(&mut q, "sysparm_limit", "2");
                    assert(pairs(q@) =~= scripted_call().query);
                    SelfRead::Scripted(get("/api/now/table/sys_user".to_owned(), q))
                },
            }
        },
    }
}

/// The failure of a condition that was dropped.
pub open spec fn not_evaluated() -> Fault {
    Fault::Instance {
        message: "the gs.getUserName() query was not evaluated, so the rows returned are arbitrary users rather than the caller"@,
        detail: Some(
            "scripted query evaluation appears to be disabled on this instance; `sn ping` reports the authenticated identity without one"@,
        ),
    }
}

/// Accepts the answer of the scripted read unless its condition was dropped.
pub fn scripted_self_read(resp: Json) -> (r: Result<Json, Error>)
    ensures
        items_in(resp@.field("result"@)).len() > 1 ==> (r matches Err(e) && e@ == not_evaluated()),
        items_in(resp@.field("result"@)).len() <= 1 ==> r == Ok::<Json, Error>(resp),
{
    let rows = items_of_option(resp.get("result"));
    proof {
        lemma_docs(rows@);
    }
    if rows.len() > 1 {
        return Err(
            Error::Instance {
                message: "the gs.getUserName() query was not evaluated, so the rows returned are arbitrary users rather than the caller".to_owned(),
                detail: Some(
                    "scripted query evaluation appears to be disabled on this instance; `sn ping` reports the authenticated identity without one".to_owned(),
                ),
            },
        );
    }
    Ok(resp)
}

/// The record that an answer holds: the first of an array, or the object itself.
pub open spec fn record_of(resp: Doc) -> Option<Doc> {
    match resp.field("result"@) {
        Some(Doc::Array(rows)) => if rows.len() > 0 {
            Some(rows[0])
        } else {
            None
        },
        Some(Doc::Null) => None,
        o => o,
    }
}

/// What the command shows: the record, or the whole answer as it came.
pub fn me(resp: Json, output: OutputMode) -> (r: Result<Json, Error>)
    ensures
        output == OutputMode::Raw ==> r == Ok::<Json, Error>(resp),
        output != OutputMode::Raw ==> match record_of(resp@) {
            Some(d) => r matches Ok(j) && j@ == d,
            None => r matches Err(e) && e@ == (Fault::Instance {
                message: "no user record returned for the authenticated identity"@,
                detail: None,
            }),
        },
{
    if let OutputMode::Raw = output {
        return Ok(resp);
    }
    let record = match take_field(resp, "result") {
        Some(Json::Array(mut rows)) => {
            proof {
                lemma_docs(rows@);
            }
            if rows.len() > 0 {
                Some(rows.remove(0))
            } else {
                None
            }
        },
        Some(Json::Null) => None,
        None => None,
        Some(other) => Some(other),
    };
    match record {
        Some(j) => Ok(j),
        None => Err(
            Error::Instance {
                message: "no user record returned for the authenticated identity".to_owned(),
                detail: None,
            },
        ),
    }
}

/// The record of a known caller is asked for by its sys_id; else the instance selects
/// the caller, and two rows are asked for.
pub proof fn the_caller_is_asked_for(sys_id: Seq<char>)
    ensures
        direct_call(sys_id).method == Method::Get,
        direct_call(sys_id).path == "/api/now/table/sys_user"@ + "/"@ + sys_id,
        scripted_call().method == Method::Get,
        scripted_call().path == "/api/now/table/sys_user"@,
        param_in(scripted_call().query, "sysparm_query"@) == Some(
            "user_name=javascript:gs.getUserName()"@,
        ),
        param_in(scripted_call().query, "sysparm_limit"@) == Some("2"@),
{
    broadcast use {
        crate::request::lemma_param_with,
        crate::request::lemma_param_flag,
        crate::request::lemma_param_none,
        crate::request::lemma_param_push,
    };

    reveal_strlit("sysparm_query");
    reveal_strlit("sysparm_limit");
    assert("sysparm_query"@.len() == 13 && "sysparm_limit"@.len() == 13);
    assert("sysparm_query"@[8] != "sysparm_limit"@[8]);
    reveal_strlit("/api/now/table/sys_user/");
    reveal_strlit("/api/now/table/sys_user");
    reveal_strlit("/");
    assert("/api/now/table/sys_user/"@ =~= "/api/now/table/sys_user"@ + "/"@);
    let e = Seq::<(Seq<char>, Seq<char>)>::empty();
    assert(scripted_call().query =~= e.push(
        ("sysparm_query"@, "user_name=javascript:gs.getUserName()"@),
    ).push(("sysparm_limit"@, "2"@)));
}

/// The record of an answer is its first row, or the object that it is.
pub proof fn the_first_row_is_the_record(resp: Doc, rows: Seq<Doc>, m: Map<Seq<char>, Doc>)
    ensures
        resp.field("result"@) == Some(Doc::Array(rows)) && rows.len() > 0 ==> record_of(resp)
            == Some(rows[0]),
        resp.field("result"@) == Some(Doc::Array(rows)) && rows.len() == 0 ==> record_of(resp)
            is None,
        resp.field("result"@) == Some(Doc::Object(m)) ==> record_of(resp) == Some(Doc::Object(m)),
        resp.field("result"@) is None ==> record_of(resp) is None,
{
}

} // verus!
