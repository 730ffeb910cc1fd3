//! Operations that run on in the background, and waiting for them.

use vstd::prelude::*;

use crate::error::{Error, Fault, NO_HTTP_STATUS};
use crate::flags::{unwrap_or_raw, unwrapped, OutputMode, WaitArgs};
use crate::json::{field_in, get_in, Doc, Json};
use crate::request::{get, no_query, Call, Method, Request};
use crate::text::{decimal, digits, same};

verus! {

/// The flags of the command.
#[derive(Debug)]
pub struct ProgressArgs {
    pub progress_id: String,
}

/// The request that asks how far an operation has come.
pub open spec fn progress_call(id: Seq<char>) -> Call {
    Call {
        method: Method::Get,
        path: "/api/sn_cicd/progress/"@ + id,
        query: Seq::empty(),
        body: None,
    }
}

/// The request that asks how far an operation has come.
pub fn run(progress_id: &str) -> (r: Request)
    ensures
        r@ == progress_call(progress_id@),
{
    get("/api/sn_cicd/progress/".to_owned().concat(progress_id), no_query())
}

/// The body of an answer, in its envelope or out of it.
pub open spec fn body_of(v: Doc) -> Doc {
    match v.field("result"@) {
        Some(r) => r,
        None => v,
    }
}

/// The body of an answer, in its envelope or out of it.
fn body(v: &Json) -> (r: &Json)
    ensures
        r@ == body_of(v@),
{
    match v.get("result") {
        Some(r) => r,
        None => v,
    }
}

/// The operation that an answer links to.
pub open spec fn link_of(v: Doc) -> Option<Seq<char>> {
    match field_in(field_in(body_of(v).field("links"@), "progress"@), "id"@) {
        Some(Doc::Str(s)) => Some(s),
        _ => None,
    }
}

/// The operation to wait for, where waiting was asked for and there is one.
pub fn finish_cicd(out: &Json, wait: &WaitArgs) -> (r: Option<String>)
    ensures
        crate::error::text_option(r) == (if wait.wait {
            link_of(out@)
        } else {
            None
        }),
{
    if wait.wait {
        if let Some(Json::Str(s)) = get_in(
            get_in(body(out).get("links"), "progress"),
            "id",
        ) {
            return Some(s.clone());
        }
    }
    None
}

/// How much of an operation is done, as the instance put it.
#[derive(Debug)]
pub enum Percent {
    Text(String),
    Number(String),
}

/// How much of an operation is done, as a view.
pub ghost enum PercentView {
    Text(Seq<char>),
    Number(Seq<char>),
}

impl Percent {
    pub open spec fn view(&self) -> PercentView {
        match self {
            Percent::Text(s) => PercentView::Text(s@),
            Percent::Number(s) => PercentView::Number(s@),
        }
    }
}

/// What comes of asking how far an operation has come.
#[derive(Debug)]
pub enum PollStep {
    /// It succeeded, and this is shown.
    Done(Json),
    /// It failed, or there is no more time.
    Fail(Error),
    /// It goes on: ask again in two seconds.
    Again,
}

/// What comes of asking, as a view.
pub ghost enum Polled {
    Done(Doc),
    Fail(Fault),
    Again,
}

impl PollStep {
    pub open spec fn view(&self) -> Polled {
        match self {
            PollStep::Done(j) => Polled::Done(j@),
            PollStep::Fail(e) => Polled::Fail(e@),
            PollStep::Again => Polled::Again,
        }
    }
}

/// How much is done, where the answer says.
pub open spec fn percent_of(v: Doc) -> Option<PercentView> {
    match v.field("percent_complete"@) {
        Some(Doc::Str(s)) => Some(PercentView::Text(s)),
        Some(Doc::Number(n)) => Some(PercentView::Number(n)),
        _ => None,
    }
}

/// The status of an operation; one that says none is running.
pub open spec fn status_of(v: Doc) -> Seq<char> {
    match v.field("status"@) {
        Some(Doc::Str(s)) => s,
        _ => "1"@,
    }
}

/// Whether an operation ended: it succeeded, failed or was cancelled.
pub open spec fn ended(v: Doc) -> bool {
    status_of(v) == "2"@ || status_of(v) == "3"@ || status_of(v) == "4"@
}

/// How much is done, where it is shown: of an operation that did not end, and only
/// where more is to be said.
pub open spec fn percent_shown(resp: Doc, verbose: u8) -> Option<PercentView> {
    if verbose == 0 || ended(body_of(resp)) {
        None
    } else {
        percent_of(body_of(resp))
    }
}

/// The status of an operation.
fn status(b: &Json) -> (r: String)
    ensures
        r@ == status_of(b@),
{
    match b.get("status") {
        Some(Json::Str(s)) => s.clone(),
        _ => "1".to_owned(),
    }
}

/// How much is to be shown as done, before [`wait_for_completion`] takes the answer
/// in: also of the answer at which the time is up.
pub fn percent_to_show(resp: &Json, verbose: u8) -> (r: Option<Percent>)
    ensures
        (match r {
            Some(p) => Some(p@),
            None => None,
        }) == percent_shown(resp@, verbose),
{
    let b = body(resp);
    let status = status(b);
    let s = status.as_str();
    if verbose == 0 || same(s, "2") || same(s, "3") || same(s, "4") {
        return None;
    }
    match b.get("percent_complete") {
        Some(Json::Str(s)) => Some(Percent::Text(s.clone())),
        Some(Json::Number(n)) => Some(Percent::Number(n.clone())),
        _ => None,
    }
}

/// Whether a wait took as long as it may. Without a limit it never did.
pub fn out_of_time(elapsed_ms: u64, wait_timeout: Option<u64>) -> (r: bool)
    ensures
        r == (match wait_timeout {
            Some(secs) => elapsed_ms >= secs * 1000,
            None => false,
        }),
{
    match wait_timeout {
        Some(secs) => elapsed_ms / 1000 >= secs,
        None => false,
    }
}

/// The failure of an operation. The requests succeeded, so there is no status to
/// report.
pub open spec fn operation_fault(v: Doc) -> Fault {
    Fault::Api {
        status: NO_HTTP_STATUS,
        message: match v.field_text("status_message"@) {
            Some(m) => m,
            None => "operation failed"@,
        },
        detail: v.field_text("status_detail"@),
        transaction_id: None,
        sn_error: Some(v),
    }
}

/// The failure of a wait that took too long.
pub open spec fn timeout_fault(id: Seq<char>, wait_timeout: Option<u64>) -> Fault {
    Fault::Transport(
        "--wait timed out after "@ + digits(
            match wait_timeout {
                Some(n) => n as nat,
                None => 0,
            },
        ) + "s; operation still running, poll with `sn progress "@ + id + "`"@,
    )
}

/// What comes of an answer.
pub open spec fn polled(
    resp: Doc,
    output: OutputMode,
    id: Seq<char>,
    wait_timeout: Option<u64>,
    out_of_time: bool,
) -> Polled {
    let b = body_of(resp);
    if status_of(b) == "2"@ {
        Polled::Done(unwrapped(resp, output))
    } else if status_of(b) == "3"@ || status_of(b) == "4"@ {
        Polled::Fail(operation_fault(b))
    } else if out_of_time {
        Polled::Fail(timeout_fault(id, wait_timeout))
    } else {
        Polled::Again
    }
}

/// Takes in an answer: the operation ended, the time is up, or it goes on.
pub fn wait_for_completion(
    resp: Json,
    output: OutputMode,
    progress_id: &str,
    wait_timeout: Option<u64>,
    out_of_time: bool,
) -> (r: PollStep)
    ensures
        r@ == polled(resp@, output, progress_id@, wait_timeout, out_of_time),
{
    let b = body(&resp);
    let status = status(b);
    if same(status.as_str(), "2") {
        return PollStep::Done(unwrap_or_raw(resp, output));
    }
    if same(status.as_str(), "3") || same(status.as_str(), "4") {
        let message = match b.get_str("status_message") {
            Some(m) => m.clone(),
            None => "operation failed".to_owned(),
        };
        let detail = match b.get_str("status_detail") {
            Some(m) => Some(m.clone()),
            None => None,
        };
        return PollStep::Fail(
            Error::Api {
                status: NO_HTTP_STATUS,
                message,
                detail,
                transaction_id: None,
                sn_error: Some(b.dup()),
            },
        );
    }
    if out_of_time {
        let secs: u64 = match wait_timeout {
            Some(n) => n,
            None => 0,
        };
        return PollStep::Fail(
            Error::Transport(
                "--wait timed out after ".to_owned().concat(decimal(secs).as_str()).concat(
                    "s; operation still running, poll with `sn progress ",
                ).concat(progress_id).concat("`"),
            ),
        );
    }
    PollStep::Again
}

/// An operation that ended is reported as it ended, however late the answer came.
pub proof fn an_end_beats_the_clock(
    resp: Doc,
    output: OutputMode,
    id: Seq<char>,
    wait_timeout: Option<u64>,
)
    ensures
        polled(resp, output, id, wait_timeout, false) is Again || polled(
            resp,
            output,
            id,
            wait_timeout,
            true,
        ) == polled(resp, output, id, wait_timeout, false),
{
}

/// A wait ends well exactly where the operation succeeded, and fails where it failed
/// or was cancelled, or where the time is over; else it goes on.
pub proof fn a_wait_ends_with_the_operation(
    resp: Doc,
    output: OutputMode,
    id: Seq<char>,
    wait_timeout: Option<u64>,
    out_of_time: bool,
    status: Seq<char>,
)
    requires
        field_in(resp.field("result"@), "status"@) == Some(Doc::Str(status)),
    ensures
        ({
            let p = polled(resp, output, id, wait_timeout, out_of_time);
            &&& p is Done <==> status == "2"@
            &&& p == Polled::Again <==> status != "2"@ && status != "3"@ && status != "4"@
                && !out_of_time
            &&& p matches Polled::Fail(f) ==> (if status == "3"@ || status == "4"@ {
                f is Api && f.exit_code() == 2 && f.sn_error() == resp.field("result"@)
            } else {
                f is Transport && f.exit_code() == 3
            })
            &&& p matches Polled::Done(d) ==> (output is Raw ==> d == resp) && (!(output is Raw)
                ==> Some(d) == resp.field("result"@))
        }),
        ended(body_of(resp)) <==> status == "2"@ || status == "3"@ || status == "4"@,
{
    reveal_strlit("2");
    reveal_strlit("3");
    reveal_strlit("4");
    assert("2"@.len() == 1 && "3"@.len() == 1 && "4"@.len() == 1);
    assert("2"@[0] != "3"@[0]);
    assert("2"@[0] != "4"@[0]);
    assert("3"@[0] != "4"@[0]);
}

/// The failure of an operation says what the operation says.
pub proof fn a_failed_operation_says_why(v: Doc, m: Seq<char>, d: Seq<char>)
    ensures
        v.field("status_message"@) == Some(Doc::Str(m)) ==> operation_fault(v).message() == m,
        v.field("status_message"@) is None ==> operation_fault(v).message() == "operation failed"@,
        v.field("status_detail"@) == Some(Doc::Str(d)) ==> operation_fault(v).detail() == Some(d),
        v.field("status_detail"@) is None ==> operation_fault(v).detail() is None,
        operation_fault(v).status() is None,
        operation_fault(v).sn_error() == Some(v),
{
}

/// The operation to wait for is the one that the answer links to, in an envelope or
/// out of it.
pub proof fn an_answer_links_to_its_operation(v: Doc, inner: Doc, links: Doc, p: Doc, id: Seq<char>)
    requires
        v.field("result"@) == Some(inner) || (v.field("result"@) is None && v == inner),
        inner.field("links"@) == Some(links),
        links.field("progress"@) == Some(p),
        p.field("id"@) == Some(Doc::Str(id)),
    ensures
        link_of(v) == Some(id),
        progress_call(id).method == Method::Get,
        progress_call(id).path == "/api/sn_cicd/progress/"@ + id,
{
}

/// How much is done is told while the operation runs, and only where more is to be
/// said.
pub proof fn progress_is_told_while_it_runs(resp: Doc, verbose: u8, s: Seq<char>)
    ensures
        verbose == 0 ==> percent_shown(resp, verbose) is None,
        ended(body_of(resp)) ==> percent_shown(resp, verbose) is None,
        verbose > 0 && !ended(body_of(resp)) && body_of(resp).field("percent_complete"@) == Some(
            Doc::Str(s),
        ) ==> percent_shown(resp, verbose) == Some(PercentView::Text(s)),
        verbose > 0 && !ended(body_of(resp)) && body_of(resp).field("percent_complete"@) == Some(
            Doc::Number(s),
        ) ==> percent_shown(resp, verbose) == Some(PercentView::Number(s)),
{
}

} // verus!
