//! The session cookies that authenticate a websocket.

use vstd::prelude::*;

use crate::client::{from_http_text, http_fault, readable, success};
use crate::error::{text_option, Error, Fault};
use crate::order::texts;
use crate::request::{get, no_query, pairs, param, Call, Method, Request};
use crate::text::{
    first, halves, join, joined, lemma_pieces, pieces, same, split, split_once, trim, trimmed,
};

verus! {

/// The cookie that a websocket authenticates with.
pub const SESSION_COOKIE: &'static str = "JSESSIONID";

/// Name and value of a `Set-Cookie` header: what stands before the first
/// semicolon, split at the first equals sign. An empty value clears a cookie
/// and gives none.
pub open spec fn cookie(raw: Seq<char>) -> Option<(Seq<char>, Seq<char>)> {
    match halves(pieces(raw, ';')[0], '=') {
        Some((name, value)) => if trimmed(value).len() > 0 {
            Some((trimmed(name), trimmed(value)))
        } else {
            None
        },
        None => None,
    }
}

/// The cookies that a list of headers sets, in their order.
pub open spec fn jar(raws: Seq<Seq<char>>) -> Seq<(Seq<char>, Seq<char>)>
    decreases raws.len(),
{
    if raws.len() == 0 {
        Seq::empty()
    } else {
        match cookie(raws.last()) {
            Some(p) => jar(raws.drop_last()).push(p),
            None => jar(raws.drop_last()),
        }
    }
}

/// Collects the cookies that the values of the `Set-Cookie` headers set.
pub fn collect_session_cookies(values: &Vec<String>) -> (r: Vec<(String, String)>)
    ensures
        pairs(r@) == jar(texts(values@)),
{
    let mut out: Vec<(String, String)> = Vec::new();
    let mut i: usize = 0;
    let ghost all = texts(values@);
    assert(pairs(out@) =~= jar(all.take(0)));
    while i < values.len()
        invariant
            i <= values.len(),
            all == texts(values@),
            pairs(out@) == jar(all.take(i as int)),
        decreases values.len() - i,
    {
        assert(all.take(i + 1).drop_last() =~= all.take(i as int));
        assert(all[i as int] == values@[i as int]@);
        let parts = split(values[i].as_str(), ';');
        proof {
            lemma_pieces(values@[i as int]@, ';');
            assert(texts(parts@).len() == parts@.len());
            assert(texts(parts@)[0] == parts@[0]@);
        }
        if let Some((name, value)) = split_once(parts[0].as_str(), '=') {
            let v = trim(value.as_str());
            if !v.as_str().is_empty() {
                let n = trim(name.as_str());
                param(&mut out, n.as_str(), v.as_str());
            }
        }
        i = i + 1;
    }
    assert(all.take(i as int) =~= all);
    out
}

/// Whether a jar holds the session cookie.
pub open spec fn has_session(cookies: Seq<(Seq<char>, Seq<char>)>) -> bool {
    exists|i: int| 0 <= i < cookies.len() && (#[trigger] cookies[i]).0 == "JSESSIONID"@
}

/// The cookies as `name=value`.
pub open spec fn assignments(cookies: Seq<(Seq<char>, Seq<char>)>) -> Seq<Seq<char>> {
    cookies.map_values(|p: (Seq<char>, Seq<char>)| p.0 + "="@ + p.1)
}

/// The request that makes the instance open a session.
pub fn session_request() -> (r: Request)
    ensures
        r@ == (Call {
            method: Method::Get,
            path: "/api/now/table/sys_user"@,
            query: seq![("sysparm_limit"@, "1"@), ("sysparm_fields"@, "sys_id"@)],
            body: None,
        }),
{
    let mut q = no_query();
    param(&mut q, "sysparm_limit", "1");
    param(&mut q, "sysparm_fields", "sys_id");
    assert(pairs(q@) =~= seq![("sysparm_limit"@, "1"@), ("sysparm_fields"@, "sys_id"@)]);
    get("/api/now/table/sys_user".to_owned(), q)
}

/// The `Cookie` header that an answer to the session request gives.
pub open spec fn cookie_header(
    status: u16,
    tx: Option<Seq<char>>,
    text: Seq<char>,
    set_cookies: Seq<Seq<char>>,
) -> Result<Seq<char>, Fault> {
    if !success(status) {
        Err(http_fault(status, tx, readable(text), text))
    } else if !has_session(jar(set_cookies)) {
        Err(
            Fault::Auth {
                status,
                message: "instance returned no JSESSIONID cookie; cannot authenticate the AMB websocket"@,
                transaction_id: tx,
            },
        )
    } else {
        Ok(joined(assignments(jar(set_cookies)), "; "@))
    }
}

/// Whether a jar holds the session cookie.
fn holds_session(cookies: &Vec<(String, String)>) -> (r: bool)
    ensures
        r == has_session(pairs(cookies@)),
{
    let mut i: usize = 0;
    while i < cookies.len()
        invariant
            i <= cookies.len(),
            forall|j: int| 0 <= j < i ==> (#[trigger] pairs(cookies@)[j]).0 != "JSESSIONID"@,
        decreases cookies.len() - i,
    {
        assert(pairs(cookies@)[i as int].0 == cookies@[i as int].0@);
        if same(cookies[i].0.as_str(), "JSESSIONID") {
            return true;
        }
        i = i + 1;
    }
    false
}

/// Makes the `Cookie` header of a websocket from the answer to the session
/// request.
pub fn session_cookies(status: u16, tx: Option<String>, text: &str, set_cookies: &Vec<String>) -> (r:
    Result<String, Error>)
    requires
        100 <= status <= 999,
    ensures
        match r {
            Ok(h) => cookie_header(status, text_option(tx), text@, texts(set_cookies@)) == Ok::<
                Seq<char>,
                Fault,
            >(h@),
            Err(e) => cookie_header(status, text_option(tx), text@, texts(set_cookies@)) == Err::<
                Seq<char>,
                Fault,
            >(e@),
        },
{
    if !(200 <= status && status < 300) {
        return Err(from_http_text(status, tx, text));
    }
    let cookies = collect_session_cookies(set_cookies);
    if !holds_session(&cookies) {
        return Err(
            Error::Auth {
                status,
                message: "instance returned no JSESSIONID cookie; cannot authenticate the AMB websocket".to_owned(),
                transaction_id: tx,
            },
        );
    }
    let mut parts: Vec<String> = Vec::new();
    let mut i: usize = 0;
    let ghost all = pairs(cookies@);
    assert(texts(parts@) =~= assignments(all.take(0)));
    while i < cookies.len()
        invariant
            i <= cookies.len(),
            all == pairs(cookies@),
            texts(parts@) == assignments(all.take(i as int)),
        decreases cookies.len() - i,
    {
        let ghost prior = texts(parts@);
        let part = cookies[i].0.clone().concat("=").concat(cookies[i].1.as_str());
        parts.push(part);
        assert(all[i as int] == (cookies@[i as int].0@, cookies@[i as int].1@));
        assert(texts(parts@) =~= prior.push(part@));
        assert(texts(parts@) =~= assignments(all.take(i + 1)));
        i = i + 1;
    }
    assert(all.take(i as int) =~= all);
    Ok(join(&parts, "; "))
}

/// A cookie is what stands before the first semicolon, parted at the first equals sign;
/// one without a value sets nothing.
pub proof fn a_cookie_is_parted_at_its_sign(name: Seq<char>, value: Seq<char>, rest: Seq<char>)
    requires
        !name.contains('=') && !name.contains(';'),
        !value.contains(';'),
    ensures
        trimmed(value).len() > 0 ==> cookie(name + seq!['='] + value + seq![';'] + rest) == Some(
            (trimmed(name), trimmed(value)),
        ),
        trimmed(value).len() == 0 ==> cookie(name + seq!['='] + value + seq![';'] + rest) is None,
{
    let a = name + seq!['='] + value;
    let s = a + seq![';'] + rest;
    assert(!a.contains(';')) by {
        if a.contains(';') {
            let i = a.index_of(';');
            if i < name.len() {
                assert(name[i] == ';');
            } else if i > name.len() {
                assert(value[i - name.len() - 1] == ';');
            }
        }
    }
    crate::text::what_is_put_together_is_parted_again(a, ';', rest);
    crate::text::what_is_put_together_is_parted_again(name, '=', value);
    lemma_first_piece(a, rest);
}

proof fn lemma_whole_piece(a: Seq<char>)
    requires
        !a.contains(';'),
    ensures
        pieces(a, ';') == seq![a],
    decreases a.len(),
{
    if a.len() > 0 {
        let less = a.drop_last();
        assert(!less.contains(';')) by {
            if less.contains(';') {
                let i = less.index_of(';');
                assert(a[i] == ';');
            }
        }
        assert(a.contains(a.last()));
        lemma_whole_piece(less);
        assert(less.push(a.last()) =~= a);
        assert(pieces(a, ';') =~= seq![a]);
    } else {
        assert(a =~= Seq::empty());
    }
}

proof fn lemma_first_piece(a: Seq<char>, rest: Seq<char>)
    requires
        !a.contains(';'),
    ensures
        pieces(a + seq![';'] + rest, ';').len() >= 2,
        pieces(a + seq![';'] + rest, ';')[0] == a,
    decreases rest.len(),
{
    let s = a + seq![';'] + rest;
    if rest.len() == 0 {
        lemma_whole_piece(a);
        assert(s.drop_last() =~= a);
        assert(s.last() == ';');
    } else {
        lemma_first_piece(a, rest.drop_last());
        assert(s.drop_last() =~= a + seq![';'] + rest.drop_last());
    }
}

/// The jar keeps the cookies that are set, in their order, and nothing else.
pub proof fn the_jar_keeps_what_is_set(raws: Seq<Seq<char>>, raw: Seq<char>)
    ensures
        jar(raws.push(raw)) == (match cookie(raw) {
            Some(p) => jar(raws).push(p),
            None => jar(raws),
        }),
        jar(Seq::empty()).len() == 0,
{
    assert(raws.push(raw).drop_last() =~= raws);
}

/// A session is there only where its cookie is, and then every cookie goes into the
/// header as a name, an equals sign and a value.
pub proof fn a_session_needs_its_cookie(
    status: u16,
    tx: Option<Seq<char>>,
    text: Seq<char>,
    raws: Seq<Seq<char>>,
)
    ensures
        cookie_header(status, tx, text, raws) is Ok <==> 200 <= status < 300 && exists|i: int|
            0 <= i < jar(raws).len() && (#[trigger] jar(raws)[i]).0 == "JSESSIONID"@,
        cookie_header(status, tx, text, raws) matches Ok(h) ==> h == joined(
            Seq::new(
                jar(raws).len(),
                |i: int| jar(raws)[i].0 + "="@ + jar(raws)[i].1,
            ),
            "; "@,
        ),
        200 <= status < 300 ==> (cookie_header(status, tx, text, raws) matches Err(f) ==> f is Auth
            && f.exit_code() == 4),
{
    assert(assignments(jar(raws)) =~= Seq::new(
        jar(raws).len(),
        |i: int| jar(raws)[i].0 + "="@ + jar(raws)[i].1,
    ));
}

} // verus!
