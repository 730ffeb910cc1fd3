//! Requests to the instance, as plain values.

use vstd::prelude::*;

use crate::flags::bool_opt;
use crate::json::{doc_option, Doc, Json};
use crate::text::{decimal, digits};

verus! {

/// The verb of a request.
#[derive(Debug, Clone, Copy, PartialEq, Eq, Structural)]
pub enum Method {
    Get,
    Post,
    Put,
    Patch,
    Delete,
}

/// A request: the path on the instance, the query parameters in the order in
/// which they are sent, and the JSON body if there is one.
#[derive(Debug)]
pub struct Request {
    pub method: Method,
    pub path: String,
    pub query: Vec<(String, String)>,
    pub body: Option<Json>,
}

/// What a request asks.
pub ghost struct Call {
    pub method: Method,
    pub path: Seq<char>,
    pub query: Seq<(Seq<char>, Seq<char>)>,
    pub body: Option<Doc>,
}

/// The texts of a list of pairs.
pub open spec fn pairs(v: Seq<(String, String)>) -> Seq<(Seq<char>, Seq<char>)> {
    v.map_values(|p: (String, String)| (p.0@, p.1@))
}

impl Request {
    /// What the request asks.
    pub open spec fn view(&self) -> Call {
        Call {
            method: self.method,
            path: self.path@,
            query: pairs(self.query@),
            body: doc_option(self.body),
        }
    }
}

/// A list of pairs with one added, where there is a value.
pub open spec fn with_param(
    q: Seq<(Seq<char>, Seq<char>)>,
    name: Seq<char>,
    value: Option<Seq<char>>,
) -> Seq<(Seq<char>, Seq<char>)> {
    match value {
        Some(v) => q.push((name, v)),
        None => q,
    }
}

/// A list of pairs with a flag added, where it is set.
pub open spec fn with_flag(
    q: Seq<(Seq<char>, Seq<char>)>,
    name: Seq<char>,
    set: bool,
) -> Seq<(Seq<char>, Seq<char>)> {
    if set {
        q.push((name, "true"@))
    } else {
        q
    }
}

/// The decimal of an optional number.
pub open spec fn number_option(n: Option<u32>) -> Option<Seq<char>> {
    match n {
        Some(n) => Some(digits(n as nat)),
        None => None,
    }
}

/// Adds a parameter.
pub fn param(q: &mut Vec<(String, String)>, name: &str, value: &str)
    ensures
        pairs(final(q)@) == pairs(old(q)@).push((name@, value@)),
{
    let ghost prior = pairs(q@);
    q.push((name.to_owned(), value.to_owned()));
    assert(pairs(q@) =~= prior.push((name@, value@)));
}

/// Adds a parameter where it has a value.
pub fn param_option(q: &mut Vec<(String, String)>, name: &str, value: &Option<String>)
    ensures
        pairs(final(q)@) == with_param(
            pairs(old(q)@),
            name@,
            crate::error::text_option(*value),
        ),
{
    if let Some(v) = value {
        param(q, name, v.as_str());
    }
}

/// Adds a number as a parameter.
pub fn param_number(q: &mut Vec<(String, String)>, name: &str, value: u32)
    ensures
        pairs(final(q)@) == pairs(old(q)@).push((name@, digits(value as nat))),
{
    param(q, name, decimal(value as u64).as_str());
}

/// Adds a number as a parameter where there is one.
pub fn param_number_option(q: &mut Vec<(String, String)>, name: &str, value: Option<u32>)
    ensures
        pairs(final(q)@) == with_param(pairs(old(q)@), name@, number_option(value)),
{
    if let Some(v) = value {
        param_number(q, name, v);
    }
}

/// Adds `name=true` where the flag is set.
pub fn push_flag(q: &mut Vec<(String, String)>, name: &str, set: bool)
    ensures
        pairs(final(q)@) == with_flag(pairs(old(q)@), name@, set),
{
    if let Some(_) = bool_opt(set) {
        param(q, name, "true");
    }
}

/// A read.
pub fn get(path: String, query: Vec<(String, String)>) -> (r: Request)
    ensures
        r@ == (Call { method: Method::Get, path: path@, query: pairs(query@), body: None }),
{
    Request { method: Method::Get, path, query, body: None }
}

/// A request that carries a body.
pub fn with_body(method: Method, path: String, query: Vec<(String, String)>, body: Json) -> (r:
    Request)
    ensures
        r@ == (Call { method, path: path@, query: pairs(query@), body: Some(body@) }),
{
    Request { method, path, query, body: Some(body) }
}

/// A removal.
pub fn delete(path: String, query: Vec<(String, String)>) -> (r: Request)
    ensures
        r@ == (Call { method: Method::Delete, path: path@, query: pairs(query@), body: None }),
{
    Request { method: Method::Delete, path, query, body: None }
}

/// No parameters.
pub fn no_query() -> (r: Vec<(String, String)>)
    ensures
        pairs(r@) == Seq::<(Seq<char>, Seq<char>)>::empty(),
{
    let q: Vec<(String, String)> = Vec::new();
    assert(pairs(q@) =~= Seq::<(Seq<char>, Seq<char>)>::empty());
    q
}

/// The value of a parameter: the last one of its name.
pub open spec fn param_in(q: Seq<(Seq<char>, Seq<char>)>, name: Seq<char>) -> Option<Seq<char>>
    decreases q.len(),
{
    if q.len() == 0 {
        None
    } else if q.last().0 == name {
        Some(q.last().1)
    } else {
        param_in(q.drop_last(), name)
    }
}

/// A parameter that is added is found under its name, and changes no other.
pub broadcast proof fn lemma_param_push(
    q: Seq<(Seq<char>, Seq<char>)>,
    p: (Seq<char>, Seq<char>),
    name: Seq<char>,
)
    ensures
        #[trigger] param_in(q.push(p), name) == (if p.0 == name {
            Some(p.1)
        } else {
            param_in(q, name)
        }),
{
    assert(q.push(p).drop_last() =~= q);
}

/// A parameter that has a value is found under its name, and one that has none adds
/// nothing.
pub broadcast proof fn lemma_param_with(
    q: Seq<(Seq<char>, Seq<char>)>,
    n: Seq<char>,
    value: Option<Seq<char>>,
    name: Seq<char>,
)
    ensures
        #[trigger] param_in(with_param(q, n, value), name) == (if n == name && value is Some {
            value
        } else {
            param_in(q, name)
        }),
{
    if let Some(v) = value {
        lemma_param_push(q, (n, v), name);
    }
}

/// A flag that is set is found as `true` under its name, and one that is not set adds
/// nothing.
pub broadcast proof fn lemma_param_flag(
    q: Seq<(Seq<char>, Seq<char>)>,
    n: Seq<char>,
    set: bool,
    name: Seq<char>,
)
    ensures
        #[trigger] param_in(with_flag(q, n, set), name) == (if n == name && set {
            Some("true"@)
        } else {
            param_in(q, name)
        }),
{
    if set {
        lemma_param_push(q, (n, "true"@), name);
    }
}

/// No parameter is in an empty list.
pub broadcast proof fn lemma_param_none(name: Seq<char>)
    ensures
        #[trigger] param_in(Seq::empty(), name) is None,
{
}

} // verus!
