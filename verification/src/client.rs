//! What the client sends, and what it makes of the answers.

use vstd::prelude::*;

use crate::error::{text_option, Error, Fault};
use crate::json::{
    keys, lemma_members_push, member, members, parse, put, read, rendered, Doc, Json,
};
use crate::order::{listing, texts};
use crate::text::{chars_of, same, slice, starts_with, strip_end, stripped_end, trim, trimmed};

verus! {

/// The line that a status code is displayed as.
pub uninterp spec fn status_line(status: u16) -> Seq<char>;

/// `<reqwest::StatusCode as Display>::to_string`: the code and its reason
/// phrase, a function of the code alone. Codes outside 100 to 999 are no
/// status codes.
#[verifier::external_body]
fn status_text(status: u16) -> (r: String)
    requires
        100 <= status <= 999,
    ensures
        r@ == status_line(status),
{
    reqwest::StatusCode::from_u16(status).unwrap().to_string()
}

/// Whether a status reports success.
pub open spec fn success(status: u16) -> bool {
    200 <= status < 300
}

/// The base URL of an instance: `https` where no scheme is given, and no slash
/// at the end.
pub open spec fn base_url(instance: Seq<char>) -> Seq<char> {
    if "http://"@.is_prefix_of(instance) || "https://"@.is_prefix_of(instance) {
        stripped_end(instance, '/')
    } else {
        "https://"@ + stripped_end(instance, '/')
    }
}

/// Turns the stored name of an instance into a base URL.
pub fn normalize_base_url(instance: &str) -> (r: String)
    ensures
        r@ == base_url(instance@),
{
    if starts_with(instance, "http://") || starts_with(instance, "https://") {
        strip_end(instance, '/')
    } else {
        "https://".to_owned().concat(strip_end(instance, '/').as_str())
    }
}

/// Stripping a character leaves none at the end.
pub proof fn lemma_stripped_end(s: Seq<char>, c: char)
    ensures
        stripped_end(s, c).len() <= s.len(),
        stripped_end(s, c).len() > 0 ==> stripped_end(s, c).last() != c,
        stripped_end(s, c).is_prefix_of(s),
    decreases s.len(),
{
    if s.len() > 0 && s.last() == c {
        lemma_stripped_end(s.drop_last(), c);
    }
}

/// The base URL of an instance that is more than slashes ends in no slash, and
/// where the instance names no scheme it is reached over `https`.
pub proof fn base_url_is_absolute(instance: Seq<char>)
    requires
        stripped_end(instance, '/').len() > 0,
    ensures
        base_url(instance).last() != '/',
        !"http://"@.is_prefix_of(instance) && !"https://"@.is_prefix_of(instance)
            ==> "https://"@.is_prefix_of(base_url(instance)),
{
    lemma_stripped_end(instance, '/');
    let host = stripped_end(instance, '/');
    assert(("https://"@ + host).last() == host.last());
    assert("https://"@ =~= ("https://"@ + host).take("https://"@.len() as int));
}

/// A text cut to a number of characters, with an ellipsis where it was longer.
pub open spec fn cut(s: Seq<char>, max: nat) -> Seq<char> {
    if s.len() <= max {
        s
    } else {
        s.take(max as int).push('…')
    }
}

/// Cuts a text to a number of characters.
pub fn truncate_body(s: &str, max_chars: usize) -> (r: String)
    ensures
        r@ == cut(s@, max_chars as nat),
{
    let v = chars_of(s);
    if v.len() <= max_chars {
        s.to_owned()
    } else {
        let mut out = slice(&v, 0, max_chars);
        assert(v@.subrange(0, max_chars as int) =~= v@.take(max_chars as int));
        out.push('…');
        out
    }
}

/// The failure that an HTTP error answer reports: the message and the detail of
/// its `error` member, else the status and the beginning of the body. A 401 or
/// 403 is a refused login.
pub open spec fn http_fault(
    status: u16,
    tx: Option<Seq<char>>,
    body: Option<Doc>,
    raw: Seq<char>,
) -> Fault {
    let (message, detail, sn_error) = match body {
        Some(d) => match d.field("error"@) {
            Some(err) => (
                match err.field_text("message"@) {
                    Some(m) => m,
                    None => "ServiceNow error"@,
                },
                err.field_text("detail"@),
                Some(err),
            ),
            None => unexplained(status, raw),
        },
        None => unexplained(status, raw),
    };
    if status == 401 || status == 403 {
        Fault::Auth { status, message, transaction_id: tx }
    } else {
        Fault::Api { status, message, detail, transaction_id: tx, sn_error }
    }
}

/// Message and detail of an error answer that explains nothing.
pub open spec fn unexplained(status: u16, raw: Seq<char>) -> (
    Seq<char>,
    Option<Seq<char>>,
    Option<Doc>,
) {
    (
        "HTTP "@ + status_line(status),
        if trimmed(raw).len() == 0 {
            None
        } else {
            Some(cut(raw, 500))
        },
        None,
    )
}

/// The failure of an error answer whose body has been read.
pub fn http_error(status: u16, tx: Option<String>, body: Option<&Json>, raw: &str) -> (e: Error)
    requires
        100 <= status <= 999,
    ensures
        e@ == http_fault(status, text_option(tx), crate::json::doc_option_ref(body), raw@),
{
    let explained = match body {
        Some(d) => d.get("error"),
        None => None,
    };
    let (message, detail, sn_error) = match explained {
        Some(err) => (
            match err.get_str("message") {
                Some(m) => m.clone(),
                None => "ServiceNow error".to_owned(),
            },
            match err.get_str("detail") {
                Some(m) => Some(m.clone()),
                None => None,
            },
            Some(err.dup()),
        ),
        None => (
            "HTTP ".to_owned().concat(status_text(status).as_str()),
            if trim(raw).as_str().is_empty() {
                None
            } else {
                Some(truncate_body(raw, 500))
            },
            None,
        ),
    };
    if status == 401 || status == 403 {
        Error::Auth { status, message, transaction_id: tx }
    } else {
        Error::Api { status, message, detail, transaction_id: tx, sn_error }
    }
}

/// What a text reads as, where it is JSON.
pub open spec fn readable(text: Seq<char>) -> Option<Doc> {
    match read(text) {
        Ok(d) => Some(d),
        Err(_) => None,
    }
}

/// The failure that an HTTP error answer reports.
pub fn from_http_text(status: u16, tx: Option<String>, raw: &str) -> (e: Error)
    requires
        100 <= status <= 999,
    ensures
        e@ == http_fault(status, text_option(tx), readable(raw@), raw@),
{
    match parse(raw) {
        Ok(j) => http_error(status, tx, Some(&j), raw),
        Err(_) => http_error(status, tx, None, raw),
    }
}

/// What an answer yields: the document of a successful one, null where it is
/// empty; a transport failure where it is no JSON; the reported failure
/// otherwise.
pub open spec fn answer(
    status: u16,
    tx: Option<Seq<char>>,
    text: Seq<char>,
    content: Result<Doc, Seq<char>>,
) -> Result<Doc, Fault> {
    if success(status) {
        if text.len() == 0 {
            Ok(Doc::Null)
        } else {
            match content {
                Ok(d) => Ok(d),
                Err(e) => Err(Fault::Transport("parse response: "@ + e)),
            }
        }
    } else {
        Err(
            http_fault(
                status,
                tx,
                match content {
                    Ok(d) => Some(d),
                    Err(_) => None,
                },
                text,
            ),
        )
    }
}

/// What a fallible step gives, with its failure as a view.
pub open spec fn outcome(r: Result<Json, Error>) -> Result<Doc, Fault> {
    match r {
        Ok(j) => Ok(j@),
        Err(e) => Err(e@),
    }
}

/// What a text read as, with the views of both sides.
pub open spec fn content(r: Result<Json, String>) -> Result<Doc, Seq<char>> {
    match r {
        Ok(j) => Ok(j@),
        Err(e) => Err(e@),
    }
}

/// What an answer yields, given what its body reads as.
pub fn interpret(status: u16, tx: Option<String>, text: &str, body: Result<Json, String>) -> (r:
    Result<Json, Error>)
    requires
        100 <= status <= 999,
    ensures
        outcome(r) == answer(status, text_option(tx), text@, content(body)),
{
    if 200 <= status && status < 300 {
        if text.is_empty() {
            return Ok(Json::Null);
        }
        return match body {
            Ok(j) => Ok(j),
            Err(e) => Err(Error::Transport("parse response: ".to_owned().concat(e.as_str()))),
        };
    }
    match body {
        Ok(j) => Err(http_error(status, tx, Some(&j), text)),
        Err(_) => Err(http_error(status, tx, None, text)),
    }
}

/// What an answer yields.
pub fn parse_response_inner(status: u16, tx: Option<String>, text: &str) -> (r: Result<Json, Error>)
    requires
        100 <= status <= 999,
    ensures
        outcome(r) == answer(status, text_option(tx), text@, read(text@)),
{
    let body = parse(text);
    assert(content(body) == read(text@));
    interpret(status, tx, text, body)
}

/// A member that holds a secret of a token answer.
pub open spec fn sensitive(key: Seq<char>) -> bool {
    key == "access_token"@ || key == "refresh_token"@ || key == "id_token"@
}

/// A token answer with its secrets masked.
pub open spec fn masked(m: Map<Seq<char>, Doc>) -> Map<Seq<char>, Doc> {
    Map::new(
        |k: Seq<char>| m.contains_key(k),
        |k: Seq<char>|
            if sensitive(k) {
                Doc::Str("****"@)
            } else {
                m[k]
            },
    )
}

/// Whether a member of a token answer holds members or items of its own.
pub open spec fn nested(d: Doc) -> bool {
    d is Object || d is Array
}

/// Whether a token answer is flat, as OAuth wants it: no member holds members or
/// items of its own.
pub open spec fn flat(m: Map<Seq<char>, Doc>) -> bool {
    forall|k: Seq<char>| m.contains_key(k) ==> !nested(#[trigger] m[k])
}

/// What is logged of a token answer that is not the flat object that OAuth wants.
pub open spec fn placeholder() -> Seq<char> {
    "<token response: redacted>"@
}

/// What is logged of a token answer.
pub open spec fn redacted(content: Result<Doc, Seq<char>>) -> Seq<char> {
    match content {
        Ok(Doc::Object(m)) => if flat(m) {
            rendered(Doc::Object(masked(m)))
        } else {
            placeholder()
        },
        _ => placeholder(),
    }
}

/// Whether the members of a token answer are flat.
fn is_flat(entries: &Vec<(String, Json)>) -> (r: bool)
    ensures
        r == flat(members(entries@)),
{
    let ghost m = members(entries@);
    let names = keys(entries);
    let ghost all = texts(names@);
    let mut i: usize = 0;
    while i < names.len()
        invariant
            i <= names.len(),
            m == members(entries@),
            all == texts(names@),
            listing(all, m.dom()),
            forall|j: int| 0 <= j < i ==> !nested(m[#[trigger] all[j]]),
        decreases names.len() - i,
    {
        let name = names[i].as_str();
        assert(all[i as int] == name@);
        assert(all.contains(name@));
        match member(entries, name) {
            Some(Json::Object(_)) | Some(Json::Array(_)) => {
                assert(nested(m[name@]));
                return false;
            },
            _ => {},
        }
        i = i + 1;
    }
    assert forall|k: Seq<char>| m.contains_key(k) implies !nested(#[trigger] m[k]) by {
        assert(all.contains(k));
    }
    true
}

/// Masks the secrets in the members of a token answer.
pub fn mask(entries: &Vec<(String, Json)>) -> (r: Vec<(String, Json)>)
    ensures
        members(r@) == masked(members(entries@)),
{
    let mut out: Vec<(String, Json)> = Vec::new();
    let mut i: usize = 0;
    assert(masked(members(entries@.take(0))) =~= Map::<Seq<char>, Doc>::empty());
    while i < entries.len()
        invariant
            i <= entries.len(),
            members(out@) == masked(members(entries@.take(i as int))),
        decreases entries.len() - i,
    {
        broadcast use lemma_members_push;

        let key = entries[i].0.as_str();
        let ghost prior = members(entries@.take(i as int));
        assert(entries@.take(i + 1) =~= entries@.take(i as int).push(entries@[i as int]));
        let value = if same(key, "access_token") || same(key, "refresh_token") || same(
            key,
            "id_token",
        ) {
            Json::str("****")
        } else {
            entries[i].1.dup()
        };
        put(&mut out, key, value);
        assert(masked(prior).insert(key@, value@) =~= masked(
            prior.insert(key@, entries@[i as int].1@),
        ));
        i = i + 1;
    }
    assert(entries@.take(i as int) =~= entries@);
    out
}

/// The log line of a token answer, given what its body reads as.
pub fn redact(body: &Result<Json, String>) -> (r: String)
    ensures
        r@ == redacted(content(*body)),
{
    match body {
        Ok(Json::Object(entries)) => if is_flat(entries) {
            let j = Json::Object(mask(entries));
            j.render()
        } else {
            "<token response: redacted>".to_owned()
        },
        _ => "<token response: redacted>".to_owned(),
    }
}

/// The log line of a token answer: its JSON with the secrets masked, or a
/// placeholder where it is no flat JSON object.
pub fn redact_token_json(body: &str) -> (r: String)
    ensures
        r@ == redacted(read(body@)),
{
    let content_of = parse(body);
    assert(content(content_of) == read(body@));
    redact(&content_of)
}

/// What is logged does not depend on the secrets: two token answers that differ
/// only in the values of secret members are logged alike, or one of them is not
/// flat. Of an answer that is not flat nothing is logged, whatever its members hold
/// and however deep.
pub proof fn redaction_hides_secrets(a: Map<Seq<char>, Doc>, b: Map<Seq<char>, Doc>)
    requires
        a.dom() == b.dom(),
        forall|k: Seq<char>| a.contains_key(k) && !sensitive(k) ==> #[trigger] a[k] == b[k],
    ensures
        flat(a) == flat(b) ==> redacted(Ok(Doc::Object(a))) == redacted(Ok(Doc::Object(b))),
        !flat(a) ==> redacted(Ok(Doc::Object(a))) == placeholder(),
        flat(a) ==> redacted(Ok(Doc::Object(a))) == rendered(Doc::Object(masked(a))),
{
    assert(masked(a) =~= masked(b));
}

/// A failure says what the answer says: the message and the detail of its error, else
/// its status and how it begins.
pub proof fn a_failure_says_what_the_answer_says(
    status: u16,
    tx: Option<Seq<char>>,
    body: Doc,
    err: Doc,
    message: Seq<char>,
    detail: Seq<char>,
    raw: Seq<char>,
)
    requires
        body.field("error"@) == Some(err),
    ensures
        err.field("message"@) == Some(Doc::Str(message)) ==> http_fault(
            status,
            tx,
            Some(body),
            raw,
        ).message() == message,
        status != 401 && status != 403 && err.field("detail"@) == Some(Doc::Str(detail))
            ==> http_fault(status, tx, Some(body), raw).detail() == Some(detail),
        status != 401 && status != 403 ==> http_fault(status, tx, Some(body), raw).sn_error()
            == Some(err),
        http_fault(status, tx, Some(body), raw).transaction_id() == tx,
        http_fault(status, tx, None, raw).transaction_id() == tx,
        http_fault(status, tx, None, raw).message() == "HTTP "@ + status_line(status),
        status != 401 && status != 403 && trimmed(raw).len() > 0 && raw.len() <= 500 ==> http_fault(
            status,
            tx,
            None,
            raw,
        ).detail() == Some(raw),
        status != 401 && status != 403 && raw.len() > 500 && trimmed(raw).len() > 0 ==> (http_fault(
            status,
            tx,
            None,
            raw,
        ).detail() matches Some(d) && d.len() == 501 && d.take(500) == raw.take(500)),
{
    if raw.len() > 500 {
        assert(cut(raw, 500).take(500) =~= raw.take(500));
    }
}

/// A refused login is told apart from every other failure.
pub proof fn a_refused_login_is_told_apart(
    status: u16,
    tx: Option<Seq<char>>,
    body: Option<Doc>,
    raw: Seq<char>,
)
    ensures
        http_fault(status, tx, body, raw) is Auth <==> status == 401 || status == 403,
        http_fault(status, tx, body, raw).exit_code() == (if status == 401 || status == 403 {
            4int
        } else {
            2int
        }),
        http_fault(status, tx, body, raw) matches Fault::Auth { status: s, .. } ==> s == status,
        http_fault(status, tx, body, raw) matches Fault::Api { status: s, .. } ==> s == status,
{
}

/// An answer of a successful status is its document, and null where it is empty; no
/// other status ever succeeds.
pub proof fn only_a_success_succeeds(
    status: u16,
    tx: Option<Seq<char>>,
    text: Seq<char>,
    d: Doc,
    e: Seq<char>,
)
    ensures
        answer(status, tx, text, Ok(d)) is Ok <==> 200 <= status <= 299,
        200 <= status <= 299 && text.len() > 0 ==> answer(status, tx, text, Ok(d)) == Ok::<
            _,
            Fault,
        >(d),
        200 <= status <= 299 && text.len() == 0 ==> answer(status, tx, text, Err(e)) == Ok::<
            _,
            Fault,
        >(Doc::Null),
        200 <= status <= 299 && text.len() > 0 ==> (answer(status, tx, text, Err(e)) matches Err(f)
            && f is Transport),
{
}

/// What is logged of a token answer holds none of the three tokens and all the rest.
pub proof fn a_masked_answer_holds_no_token(m: Map<Seq<char>, Doc>, k: Seq<char>)
    ensures
        masked(m).contains_key(k) <==> m.contains_key(k),
        m.contains_key("access_token"@) ==> masked(m)["access_token"@] == Doc::Str("****"@),
        m.contains_key("refresh_token"@) ==> masked(m)["refresh_token"@] == Doc::Str("****"@),
        m.contains_key("id_token"@) ==> masked(m)["id_token"@] == Doc::Str("****"@),
        m.contains_key(k) && k != "access_token"@ && k != "refresh_token"@ && k != "id_token"@
            ==> masked(m)[k] == m[k],
{
}

/// An address is kept as it is but for the slashes at its end, and gets a scheme where
/// it has none.
pub proof fn an_address_gets_a_scheme_once(host: Seq<char>)
    ensures
        base_url("https://"@ + host) == stripped_end("https://"@ + host, '/'),
        base_url("http://"@ + host) == stripped_end("http://"@ + host, '/'),
        !"http://"@.is_prefix_of(host) && !"https://"@.is_prefix_of(host) ==> base_url(host)
            == "https://"@ + stripped_end(host, '/'),
{
    assert("https://"@.is_prefix_of("https://"@ + host));
    assert("http://"@.is_prefix_of("http://"@ + host));
}

} // verus!
