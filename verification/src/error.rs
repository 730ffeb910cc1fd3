//! What can go wrong, the exit status of each failure and its report.

use vstd::prelude::*;

use crate::json::{members, put, Doc, Json};
use crate::text::{decimal, digits};

verus! {

/// The status of an [`Error::Api`] that never had an HTTP status: an operation
/// that the instance reports as failed inside a successful response. No HTTP
/// response can carry it, and no report shows it.
pub const NO_HTTP_STATUS: u16 = 0;

/// A failure of a command.
#[derive(Debug)]
pub enum Error {
    Usage(String),
    Config(String),
    Api {
        status: u16,
        message: String,
        detail: Option<String>,
        transaction_id: Option<String>,
        sn_error: Option<Json>,
    },
    Auth { status: u16, message: String, transaction_id: Option<String> },
    Transport(String),
    /// The reader of the output went away; a silent success.
    BrokenPipe,
    /// The instance answered with success, but not what was asked. There was no
    /// HTTP error, so there is no status to report.
    Instance { message: String, detail: Option<String> },
}

/// What a failure says.
pub ghost enum Fault {
    Usage(Seq<char>),
    Config(Seq<char>),
    Api {
        status: u16,
        message: Seq<char>,
        detail: Option<Seq<char>>,
        transaction_id: Option<Seq<char>>,
        sn_error: Option<Doc>,
    },
    Auth { status: u16, message: Seq<char>, transaction_id: Option<Seq<char>> },
    Transport(Seq<char>),
    BrokenPipe,
    Instance { message: Seq<char>, detail: Option<Seq<char>> },
}

/// The text of an optional string.
pub open spec fn text_option(s: Option<String>) -> Option<Seq<char>> {
    match s {
        Some(t) => Some(t@),
        None => None,
    }
}

/// A copy of an optional string.
pub fn dup_option(s: &Option<String>) -> (r: Option<String>)
    ensures
        r == *s,
        text_option(r) == text_option(*s),
{
    match s {
        Some(t) => Some(t.clone()),
        None => None,
    }
}

/// `" (404)"` for an HTTP status, nothing where there was none.
pub open spec fn suffix(status: u16) -> Seq<char> {
    if status == NO_HTTP_STATUS {
        Seq::empty()
    } else {
        " ("@ + digits(status as nat) + ")"@
    }
}

/// The status as a message shows it.
pub fn status_suffix(status: u16) -> (r: String)
    ensures
        r@ == suffix(status),
{
    if status == NO_HTTP_STATUS {
        String::new()
    } else {
        " (".to_owned().concat(decimal(status as u64).as_str()).concat(")")
    }
}

impl Fault {
    /// The exit status of a failure.
    pub open spec fn exit_code(self) -> i32 {
        match self {
            Fault::BrokenPipe => 0,
            Fault::Usage(_) | Fault::Config(_) => 1,
            Fault::Api { .. } | Fault::Instance { .. } => 2,
            Fault::Transport(_) => 3,
            Fault::Auth { .. } => 4,
        }
    }

    /// The line that describes a failure.
    pub open spec fn line(self) -> Seq<char> {
        match self {
            Fault::Usage(m) => "usage error: "@ + m,
            Fault::Config(m) => "configuration error: "@ + m,
            Fault::Api { status, message, .. } => "API error"@ + suffix(status) + ": "@ + message,
            Fault::Auth { status, message, .. } => "auth error ("@ + digits(status as nat) + "): "@
                + message,
            Fault::Transport(m) => "transport error: "@ + m,
            Fault::BrokenPipe => "broken pipe"@,
            Fault::Instance { message, .. } => "instance error: "@ + message,
        }
    }

    /// The message without the kind of failure.
    pub open spec fn message(self) -> Seq<char> {
        match self {
            Fault::Usage(m) => m,
            Fault::Config(m) => m,
            Fault::Api { message, .. } => message,
            Fault::Auth { message, .. } => message,
            Fault::Transport(m) => m,
            Fault::BrokenPipe => "broken pipe"@,
            Fault::Instance { message, .. } => message,
        }
    }

    /// The HTTP status of the failure, where it had one.
    pub open spec fn status(self) -> Option<u16> {
        match self {
            Fault::Api { status, .. } => if status == NO_HTTP_STATUS {
                None
            } else {
                Some(status)
            },
            Fault::Auth { status, .. } => Some(status),
            _ => None,
        }
    }

    pub open spec fn detail(self) -> Option<Seq<char>> {
        match self {
            Fault::Api { detail, .. } => detail,
            Fault::Instance { detail, .. } => detail,
            _ => None,
        }
    }

    pub open spec fn transaction_id(self) -> Option<Seq<char>> {
        match self {
            Fault::Api { transaction_id, .. } => transaction_id,
            Fault::Auth { transaction_id, .. } => transaction_id,
            _ => None,
        }
    }

    pub open spec fn sn_error(self) -> Option<Doc> {
        match self {
            Fault::Api { sn_error, .. } => sn_error,
            _ => None,
        }
    }

    /// The members of the report: the message, and of the rest what there is.
    pub open spec fn report(self) -> Map<Seq<char>, Doc> {
        let m = Map::empty().insert("message"@, Doc::Str(self.message()));
        let m = with_text(m, "detail"@, self.detail());
        let m = match self.status() {
            Some(s) => m.insert("status_code"@, Doc::Number(digits(s as nat))),
            None => m,
        };
        let m = with_text(m, "transaction_id"@, self.transaction_id());
        match self.sn_error() {
            Some(d) => m.insert("sn_error"@, d),
            None => m,
        }
    }
}

/// A map with a string member added, where there is a string.
pub open spec fn with_text(
    m: Map<Seq<char>, Doc>,
    key: Seq<char>,
    value: Option<Seq<char>>,
) -> Map<Seq<char>, Doc> {
    match value {
        Some(t) => m.insert(key, Doc::Str(t)),
        None => m,
    }
}

/// Adds a string member, where there is a string.
pub fn put_text(entries: &mut Vec<(String, Json)>, key: &str, value: &Option<String>)
    ensures
        members(final(entries)@) == with_text(members(old(entries)@), key@, text_option(*value)),
{
    if let Some(t) = value {
        put(entries, key, Json::str(t.as_str()));
    }
}

impl Error {
    /// What the failure says.
    pub open spec fn view(&self) -> Fault {
        match self {
            Error::Usage(m) => Fault::Usage(m@),
            Error::Config(m) => Fault::Config(m@),
            Error::Api { status, message, detail, transaction_id, sn_error } => Fault::Api {
                status: *status,
                message: message@,
                detail: text_option(*detail),
                transaction_id: text_option(*transaction_id),
                sn_error: crate::json::doc_option(*sn_error),
            },
            Error::Auth { status, message, transaction_id } => Fault::Auth {
                status: *status,
                message: message@,
                transaction_id: text_option(*transaction_id),
            },
            Error::Transport(m) => Fault::Transport(m@),
            Error::BrokenPipe => Fault::BrokenPipe,
            Error::Instance { message, detail } => Fault::Instance {
                message: message@,
                detail: text_option(*detail),
            },
        }
    }

    /// The exit status: 0 where the reader went away, 1 for the caller's
    /// mistakes, 2 for the instance's, 3 for the network, 4 for a refused login.
    pub fn exit_code(&self) -> (code: i32)
        ensures
            code == self@.exit_code(),
    {
        match self {
            Error::BrokenPipe => 0,
            Error::Usage(_) | Error::Config(_) => 1,
            Error::Api { .. } => 2,
            Error::Transport(_) => 3,
            Error::Auth { .. } => 4,
            Error::Instance { .. } => 2,
        }
    }

    /// The line that describes the failure.
    pub fn text(&self) -> (r: String)
        ensures
            r@ == self@.line(),
    {
        match self {
            Error::Usage(m) => "usage error: ".to_owned().concat(m.as_str()),
            Error::Config(m) => "configuration error: ".to_owned().concat(m.as_str()),
            Error::Api { status, message, .. } => "API error".to_owned().concat(
                status_suffix(*status).as_str(),
            ).concat(": ").concat(message.as_str()),
            Error::Auth { status, message, .. } => "auth error (".to_owned().concat(
                decimal(*status as u64).as_str(),
            ).concat("): ").concat(message.as_str()),
            Error::Transport(m) => "transport error: ".to_owned().concat(m.as_str()),
            Error::BrokenPipe => "broken pipe".to_owned(),
            Error::Instance { message, .. } => "instance error: ".to_owned().concat(
                message.as_str(),
            ),
        }
    }

    /// The report for standard error: one member `error` that holds the message
    /// and what else is known. What is not known has no member.
    pub fn to_stderr_json(&self) -> (r: Json)
        ensures
            r@ == Doc::Object(Map::empty().insert("error"@, Doc::Object(self@.report()))),
    {
        let mut inner: Vec<(String, Json)> = Vec::new();
        let none: Option<String> = None;
        let (message, detail, status_code, tx, sn) = match self {
            Error::BrokenPipe => ("broken pipe".to_owned(), &none, None, &none, None),
            Error::Usage(m) => (m.clone(), &none, None, &none, None),
            Error::Config(m) => (m.clone(), &none, None, &none, None),
            Error::Api { status, message, detail, transaction_id, sn_error } => (
                message.clone(),
                detail,
                if *status == NO_HTTP_STATUS {
                    None
                } else {
                    Some(*status)
                },
                transaction_id,
                sn_error.as_ref(),
            ),
            Error::Auth { status, message, transaction_id } => (
                message.clone(),
                &none,
                Some(*status),
                transaction_id,
                None,
            ),
            Error::Transport(m) => (m.clone(), &none, None, &none, None),
            Error::Instance { message, detail } => (message.clone(), detail, None, &none, None),
        };
        put(&mut inner, "message", Json::Str(message));
        put_text(&mut inner, "detail", detail);
        if let Some(s) = status_code {
            put(&mut inner, "status_code", Json::number(s as u64));
        }
        put_text(&mut inner, "transaction_id", tx);
        if let Some(j) = sn {
            put(&mut inner, "sn_error", j.dup());
        }
        let mut outer: Vec<(String, Json)> = Vec::new();
        put(&mut outer, "error", Json::Object(inner));
        Json::Object(outer)
    }
}

/// A usage error.
pub fn usage(m: &str) -> (e: Error)
    ensures
        e@ == Fault::Usage(m@),
{
    Error::Usage(m.to_owned())
}

/// The report of a failure has a status exactly where the failure had one: a
/// failure without an HTTP status shows none.
pub proof fn report_shows_only_a_real_status(f: Fault)
    ensures
        f.report().contains_key("status_code"@) <==> f.status() is Some,
        f.status() matches Some(s) ==> f.report()["status_code"@] == Doc::Number(
            digits(s as nat),
        ),
        f is Instance ==> !f.report().contains_key("status_code"@),
        f matches Fault::Api { status, .. } ==> (status == NO_HTTP_STATUS
            <==> !f.report().contains_key("status_code"@)),
{
    reveal_strlit("message");
    reveal_strlit("detail");
    reveal_strlit("status_code");
    reveal_strlit("transaction_id");
    reveal_strlit("sn_error");
    assert("message"@.len() == 7 && "detail"@.len() == 6 && "status_code"@.len() == 11
        && "transaction_id"@.len() == 14 && "sn_error"@.len() == 8);
}

/// The exit status tells the kinds of failure apart: none for a closed pipe, one for
/// what the caller did wrong, two for what the instance said, three for what did not
/// get there, and four for credentials.
pub proof fn the_exit_status_tells_the_kind(f: Fault)
    ensures
        f.exit_code() == 0 <==> f is BrokenPipe,
        f.exit_code() == 1 <==> f is Usage || f is Config,
        f.exit_code() == 2 <==> f is Api || f is Instance,
        f.exit_code() == 3 <==> f is Transport,
        f.exit_code() == 4 <==> f is Auth,
{
}

/// A report holds what the failure says, each part under its own name, and nothing
/// that the failure does not say.
pub proof fn a_report_holds_what_the_failure_says(
    status: u16,
    message: Seq<char>,
    detail: Option<Seq<char>>,
    transaction_id: Option<Seq<char>>,
    sn_error: Option<Doc>,
)
    ensures
        ({
            let d = Doc::Object(
                (Fault::Api { status, message, detail, transaction_id, sn_error }).report(),
            );
            &&& d.field("message"@) == Some(Doc::Str(message))
            &&& d.field_text("detail"@) == detail
            &&& d.field_text("transaction_id"@) == transaction_id
            &&& d.field("sn_error"@) == sn_error
            &&& status > 0 ==> d.field("status_code"@) == Some(Doc::Number(digits(status as nat)))
        }),
        ({
            let d = Doc::Object((Fault::Auth { status, message, transaction_id }).report());
            &&& d.field("message"@) == Some(Doc::Str(message))
            &&& d.field_text("transaction_id"@) == transaction_id
            &&& d.field("status_code"@) == Some(Doc::Number(digits(status as nat)))
        }),
        Doc::Object(Fault::Usage(message).report()).field("message"@) == Some(Doc::Str(message)),
        Doc::Object(Fault::Config(message).report()).field("message"@) == Some(Doc::Str(message)),
        Doc::Object(Fault::Transport(message).report()).field("message"@) == Some(
            Doc::Str(message),
        ),
        ({
            let d = Doc::Object((Fault::Instance { message, detail }).report());
            &&& d.field("message"@) == Some(Doc::Str(message))
            &&& d.field_text("detail"@) == detail
        }),
{
    reveal_strlit("message");
    reveal_strlit("detail");
    reveal_strlit("status_code");
    reveal_strlit("transaction_id");
    reveal_strlit("sn_error");
    assert("message"@.len() == 7 && "detail"@.len() == 6 && "status_code"@.len() == 11 && "transaction_id"@.len() == 14 && "sn_error"@.len() == 8);
}

/// The line of a failure ends in its message, and names the status where there was
/// one.
pub proof fn a_line_ends_in_the_message(f: Fault)
    ensures
        f.message().is_suffix_of(f.line()),
{
    let (l, m) = (f.line(), f.message());
    assert(l.subrange(l.len() - m.len(), l.len() as int) =~= m);
}

/// A line names the kind of the failure, its status where it had one, and its message.
pub proof fn a_line_names_kind_and_status(
    status: u16,
    message: Seq<char>,
    detail: Option<Seq<char>>,
    tx: Option<Seq<char>>,
    sn_error: Option<Doc>,
)
    ensures
        status > 0 ==> (Fault::Api { status, message, detail, transaction_id: tx, sn_error }).line()
            == "API error ("@ + digits(status as nat) + "): "@ + message,
        (Fault::Api { status: 0, message, detail, transaction_id: tx, sn_error }).line()
            == "API error: "@ + message,
        (Fault::Auth { status, message, transaction_id: tx }).line() == "auth error ("@ + digits(
            status as nat,
        ) + "): "@ + message,
        Fault::Usage(message).line() == "usage error: "@ + message,
        Fault::Config(message).line() == "configuration error: "@ + message,
        Fault::Transport(message).line() == "transport error: "@ + message,
        (Fault::Instance { message, detail }).line() == "instance error: "@ + message,
{
    reveal_strlit("API error");
    reveal_strlit(" (");
    reveal_strlit(")");
    reveal_strlit(": ");
    reveal_strlit("API error (");
    reveal_strlit("): ");
    reveal_strlit("API error: ");
    assert("API error ("@ =~= "API error"@ + " ("@);
    assert("): "@ =~= ")"@ + ": "@);
    assert("API error: "@ =~= "API error"@ + ": "@);
    let d = digits(status as nat);
    assert("API error"@ + (" ("@ + d + ")"@) + ": "@ + message =~= "API error ("@ + d + "): "@
        + message);
    assert("API error"@ + Seq::<char>::empty() + ": "@ + message =~= "API error: "@ + message);
}

} // verus!
