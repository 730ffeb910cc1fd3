//! Commands as drafts: a request whose body is still to be read, and what has to
//! be confirmed before it is sent.

use vstd::prelude::*;

use crate::flags::{confirm_destructive, sentence_case, BodyArgs, Confirmation, EmptyBody};
use crate::error::Fault;
use crate::json::{doc_option, Json};
use crate::request::{pairs, Call, Method, Request};

verus! {

/// What is destroyed, and by which verb.
#[derive(Debug)]
pub struct Deed {
    pub yes: bool,
    pub verb: String,
    pub what: String,
}

/// Where the body of a draft comes from.
#[derive(Debug)]
pub enum DraftBody {
    /// There is none.
    Without,
    /// From the flags, where no flags mean what the second part says.
    Flags(BodyArgs, EmptyBody),
}

/// A request whose body is still to be read. A quiet one shows nothing.
#[derive(Debug)]
pub struct Draft {
    pub deed: Option<Deed>,
    pub method: Method,
    pub path: String,
    pub query: Vec<(String, String)>,
    pub body: DraftBody,
    pub quiet: bool,
}

/// What is destroyed, as a view.
pub ghost struct DeedView {
    pub yes: bool,
    pub verb: Seq<char>,
    pub what: Seq<char>,
}

/// A draft, as a view.
pub ghost struct Sketch {
    pub deed: Option<DeedView>,
    pub method: Method,
    pub path: Seq<char>,
    pub query: Seq<(Seq<char>, Seq<char>)>,
    pub body: DraftBody,
    pub quiet: bool,
}

impl Draft {
    pub open spec fn view(&self) -> Sketch {
        Sketch {
            deed: match self.deed {
                Some(d) => Some(DeedView { yes: d.yes, verb: d.verb@, what: d.what@ }),
                None => None,
            },
            method: self.method,
            path: self.path@,
            query: pairs(self.query@),
            body: self.body,
            quiet: self.quiet,
        }
    }
}

/// A read.
pub open spec fn reads(path: Seq<char>, query: Seq<(Seq<char>, Seq<char>)>) -> Sketch {
    Sketch {
        deed: None,
        method: Method::Get,
        path,
        query,
        body: DraftBody::Without,
        quiet: false,
    }
}

/// A write with a body from the flags.
pub open spec fn writes(
    method: Method,
    path: Seq<char>,
    query: Seq<(Seq<char>, Seq<char>)>,
    body: BodyArgs,
    empty: EmptyBody,
) -> Sketch {
    Sketch { deed: None, method, path, query, body: DraftBody::Flags(body, empty), quiet: false }
}

/// A removal that has to be confirmed, and that shows nothing.
pub open spec fn removes(yes: bool, verb: Seq<char>, what: Seq<char>, path: Seq<char>) -> Sketch {
    Sketch {
        deed: Some(DeedView { yes, verb, what }),
        method: Method::Delete,
        path,
        query: Seq::empty(),
        body: DraftBody::Without,
        quiet: true,
    }
}

/// Drafts a read.
pub fn read(path: String, query: Vec<(String, String)>) -> (r: Draft)
    ensures
        r@ == reads(path@, pairs(query@)),
{
    Draft {
        deed: None,
        method: Method::Get,
        path,
        query,
        body: DraftBody::Without,
        quiet: false,
    }
}

/// Drafts a write.
pub fn submit(
    method: Method,
    path: String,
    query: Vec<(String, String)>,
    body: BodyArgs,
    empty: EmptyBody,
) -> (r: Draft)
    ensures
        r@ == writes(method, path@, pairs(query@), body, empty),
{
    Draft { deed: None, method, path, query, body: DraftBody::Flags(body, empty), quiet: false }
}

/// Drafts a removal.
pub fn removal(yes: bool, verb: &str, what: String, path: String) -> (r: Draft)
    ensures
        r@ == removes(yes, verb@, what@, path@),
{
    Draft {
        deed: Some(Deed { yes, verb: verb.to_owned(), what }),
        method: Method::Delete,
        path,
        query: crate::request::no_query(),
        body: DraftBody::Without,
        quiet: true,
    }
}

impl Draft {
    /// Whether the draft may be sent: one that destroys nothing may, any other has
    /// to be confirmed.
    pub fn gate(&self, stdin_is_terminal: bool) -> (r: Confirmation)
        ensures
            match self@.deed {
                None => r is Granted,
                Some(d) => {
                    &&& r is Granted <==> d.yes
                    &&& !d.yes && !stdin_is_terminal ==> (r matches Confirmation::Refused(e) && e@
                        == Fault::Usage(
                        d.verb + " "@ + d.what + " requires --yes when stdin is not a terminal"@,
                    ))
                    &&& !d.yes && stdin_is_terminal ==> (r matches Confirmation::Ask(q) && q@
                        == sentence_case(d.verb) + " "@ + d.what + "? [y/N]: "@)
                },
            },
    {
        match &self.deed {
            None => Confirmation::Granted,
            Some(d) => confirm_destructive(
                d.yes,
                d.verb.as_str(),
                d.what.as_str(),
                stdin_is_terminal,
            ),
        }
    }

    /// The request, with the body that was read.
    pub fn complete(self, body: Option<Json>) -> (r: Request)
        ensures
            r@ == (Call {
                method: self@.method,
                path: self@.path,
                query: self@.query,
                body: doc_option(body),
            }),
    {
        Request { method: self.method, path: self.path, query: self.query, body }
    }
}

/// A read changes nothing and asks for nothing; a removal removes, has to be
/// confirmed, and sends no body; a write sends the body of its flags.
pub proof fn a_draft_does_what_it_is_for(
    path: Seq<char>,
    query: Seq<(Seq<char>, Seq<char>)>,
    yes: bool,
    verb: Seq<char>,
    what: Seq<char>,
    method: Method,
    body: BodyArgs,
    empty: EmptyBody,
)
    ensures
        reads(path, query).method == Method::Get && reads(path, query).deed is None && reads(
            path,
            query,
        ).body is Without,
        reads(path, query).path == path && reads(path, query).query == query && !reads(
            path,
            query,
        ).quiet,
        removes(yes, verb, what, path).method == Method::Delete && removes(
            yes,
            verb,
            what,
            path,
        ).path == path && removes(yes, verb, what, path).quiet,
        removes(yes, verb, what, path).deed matches Some(d) && d.yes == yes && d.what == what
            && d.verb == verb,
        removes(yes, verb, what, path).body is Without,
        writes(method, path, query, body, empty).method == method && writes(
            method,
            path,
            query,
            body,
            empty,
        ).path == path && writes(method, path, query, body, empty).query == query,
        writes(method, path, query, body, empty).body == DraftBody::Flags(body, empty) && writes(
            method,
            path,
            query,
            body,
            empty,
        ).deed is None,
        !writes(method, path, query, body, empty).quiet,
{
}

} // verus!
