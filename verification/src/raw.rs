//! A request to any path of the instance.

use vstd::prelude::*;

use crate::draft::{Draft, DraftBody, Sketch};
use crate::error::{Error, Fault};
use crate::flags::{BodyArgs, EmptyBody};
use crate::order::texts;
use crate::request::{pairs, Method};
use crate::text::{
    ascii_lowered, halves, raised, same, split_once, to_uppercase, trim, trim_start, trimmed,
    trimmed_start,
};

verus! {

/// The flags of the command.
#[derive(Debug)]
pub struct RawArgs {
    pub method: String,
    pub path: String,
    pub query: Vec<String>,
    pub header: Vec<String>,
    pub data: Option<String>,
    pub field: Vec<String>,
}

/// The value of a header, of the `http` crate.
#[verifier::external_type_specification]
#[verifier::external_body]
pub struct ExHeaderValue(reqwest::header::HeaderValue);

/// The headers of a request, of the `http` crate: each name with its values in
/// the order in which they were given.
#[verifier::external_type_specification]
#[verifier::external_body]
#[verifier::reject_recursive_types(T)]
pub struct ExHeaderMap<T>(reqwest::header::HeaderMap<T>);

/// The values that a map of headers holds under each name.
pub uninterp spec fn header_values(
    m: reqwest::header::HeaderMap<reqwest::header::HeaderValue>,
) -> Map<Seq<char>, Seq<Seq<char>>>;

/// A character that can stand in the name of a header.
pub open spec fn is_token_char(c: char) -> bool {
    ||| 'a' <= c && c <= 'z'
    ||| 'A' <= c && c <= 'Z'
    ||| '0' <= c && c <= '9'
    ||| c == '!' || c == '#' || c == '$' || c == '%' || c == '&' || c == '\''
    ||| c == '*' || c == '+' || c == '-' || c == '.' || c == '^' || c == '_'
    ||| c == '`' || c == '|' || c == '~'
}

/// A name that a header can have.
pub open spec fn is_header_name(s: Seq<char>) -> bool {
    1 <= s.len() <= 65535 && forall|i: int| 0 <= i < s.len() ==> is_token_char(#[trigger] s[i])
}

/// A value that a header can have: no control character but the tab.
pub open spec fn is_header_value(s: Seq<char>) -> bool {
    forall|i: int|
        0 <= i < s.len() ==> (#[trigger] s[i] as u32 >= 32 && s[i] as u32 != 127) || s[i] as u32 == 9
}

/// The name of a header in its normal form, by `http`'s `HeaderName::from_bytes`:
/// it takes one to 65535 token characters and makes the letters small, and refuses
/// anything else with one message.
#[verifier::external_body]
fn header_name(name: &str) -> (r: Result<String, String>)
    ensures
        match r {
            Ok(s) => is_header_name(name@) && s@ == ascii_lowered(name@),
            Err(m) => !is_header_name(name@) && m@ == "invalid HTTP header name"@,
        },
{
    match reqwest::header::HeaderName::from_bytes(name.as_bytes()) {
        Ok(n) => Ok(n.as_str().to_owned()),
        Err(e) => Err(e.to_string()),
    }
}

/// The value of a header, by `http`'s `HeaderValue::from_str`: it takes a text as
/// it is, and refuses one with a control character other than the tab with one
/// message.
#[verifier::external_body]
fn header_value(value: &str) -> (r: Result<String, String>)
    ensures
        match r {
            Ok(s) => is_header_value(value@) && s@ == value@,
            Err(m) => !is_header_value(value@) && m@ == "failed to parse header value"@,
        },
{
    match reqwest::header::HeaderValue::from_str(value) {
        Ok(v) => Ok(String::from_utf8_lossy(v.as_bytes()).into_owned()),
        Err(e) => Err(e.to_string()),
    }
}

/// No values at all.
pub open spec fn no_values() -> Map<Seq<char>, Seq<Seq<char>>> {
    Map::empty()
}

/// A map without headers, by `http`'s `HeaderMap::new`.
#[verifier::external_body]
pub(crate) fn no_headers() -> (r: reqwest::header::HeaderMap<reqwest::header::HeaderValue>)
    ensures
        header_values(r) == no_values(),
{
    reqwest::header::HeaderMap::new()
}

/// The values under a name, none where the name is not there.
pub open spec fn values_under(m: Map<Seq<char>, Seq<Seq<char>>>, name: Seq<char>) -> Seq<Seq<char>> {
    if m.contains_key(name) {
        m[name]
    } else {
        Seq::empty()
    }
}

/// A map with a value put behind those of its name.
pub open spec fn appended(
    m: Map<Seq<char>, Seq<Seq<char>>>,
    name: Seq<char>,
    value: Seq<char>,
) -> Map<Seq<char>, Seq<Seq<char>>> {
    m.insert(name, values_under(m, name).push(value))
}

/// Puts a value behind those of its name, by `http`'s `HeaderMap::try_append`, and
/// says whether it stands there now. A map that would have to grow beyond its
/// greatest size refuses the value and keeps what it holds. It never has to grow so
/// far with 6553 names or fewer. With more it is left open here, as it rests on how
/// the names are hashed.
#[verifier::external_body]
fn append_header(
    m: &mut reqwest::header::HeaderMap<reqwest::header::HeaderValue>,
    name: &str,
    value: &str,
) -> (r: bool)
    requires
        is_header_name(name@),
        name@ == ascii_lowered(name@),
        is_header_value(value@),
        header_values(*old(m)).dom().finite(),
    ensures
        r ==> header_values(*final(m)) == appended(header_values(*old(m)), name@, value@),
        !r ==> header_values(*final(m)) == header_values(*old(m)),
        header_values(*old(m)).dom().len() <= 6553 ==> r,
{
    m.try_append(
        reqwest::header::HeaderName::from_bytes(name.as_bytes()).unwrap(),
        reqwest::header::HeaderValue::from_str(value).unwrap(),
    ).is_ok()
}

/// The parameter that an item of the list is.
pub open spec fn query_item(item: Seq<char>) -> Result<(Seq<char>, Seq<char>), Fault> {
    match halves(item, '=') {
        None => Err(Fault::Usage("--query '"@ + item + "' must be in key=value form"@)),
        Some((k, v)) => if k.len() == 0 {
            Err(Fault::Usage("--query '"@ + item + "' has empty key"@))
        } else {
            Ok((k, v))
        },
    }
}

/// The parameters of a list, in their order; the first that is none ends it.
pub open spec fn query_items(items: Seq<Seq<char>>) -> Result<Seq<(Seq<char>, Seq<char>)>, Fault>
    decreases items.len(),
{
    if items.len() == 0 {
        Ok(Seq::empty())
    } else {
        match query_items(items.drop_last()) {
            Err(f) => Err(f),
            Ok(q) => match query_item(items.last()) {
                Err(f) => Err(f),
                Ok(p) => Ok(q.push(p)),
            },
        }
    }
}

proof fn lemma_query_stops(items: Seq<Seq<char>>, i: int)
    requires
        0 <= i <= items.len(),
        query_items(items.take(i)) is Err,
    ensures
        query_items(items) == query_items(items.take(i)),
    decreases items.len() - i,
{
    if i == items.len() {
        assert(items.take(i) =~= items);
    } else {
        assert(items.take(i + 1).drop_last() =~= items.take(i));
        lemma_query_stops(items, i + 1);
    }
}

/// Reads the parameters.
pub fn parse_query(raw: &Vec<String>) -> (r: Result<Vec<(String, String)>, Error>)
    ensures
        match query_items(texts(raw@)) {
            Ok(q) => r matches Ok(v) && pairs(v@) == q,
            Err(f) => r matches Err(e) && e@ == f,
        },
{
    let ghost all = texts(raw@);
    let mut out: Vec<(String, String)> = Vec::new();
    let mut i: usize = 0;
    assert(all.take(0) =~= Seq::empty());
    assert(pairs(out@) =~= Seq::empty());
    while i < raw.len()
        invariant
            i <= raw.len(),
            all == texts(raw@),
            query_items(all.take(i as int)) == Ok::<Seq<(Seq<char>, Seq<char>)>, Fault>(
                pairs(out@),
            ),
        decreases raw.len() - i,
    {
        assert(all.take(i + 1).drop_last() =~= all.take(i as int));
        assert(all.take(i + 1).last() == raw@[i as int]@);
        let item = raw[i].as_str();
        match split_once(item, '=') {
            None => {
                proof {
                    lemma_query_stops(all, i + 1);
                }
                return Err(
                    Error::Usage(
                        "--query '".to_owned().concat(item).concat("' must be in key=value form"),
                    ),
                );
            },
            Some((k, v)) => {
                if k.as_str().is_empty() {
                    proof {
                        lemma_query_stops(all, i + 1);
                    }
                    return Err(
                        Error::Usage("--query '".to_owned().concat(item).concat("' has empty key")),
                    );
                }
                let ghost prior = pairs(out@);
                let ghost p = (k@, v@);
                out.push((k, v));
                assert(pairs(out@) =~= prior.push(p));
            },
        }
        i = i + 1;
    }
    assert(all.take(i as int) =~= all);
    Ok(out)
}

/// The header that an item of the list is: what stands before the first colon
/// without the blanks around it, and what stands behind it without the blanks
/// before it. A header that carries credentials is refused.
pub open spec fn header_item(item: Seq<char>) -> Result<(Seq<char>, Seq<char>), Fault> {
    match halves(item, ':') {
        None => Err(Fault::Usage("--header '"@ + item + "' must be in 'Name: Value' form"@)),
        Some((n, v)) => {
            let name = trimmed(n);
            let value = trimmed_start(v);
            if name.len() == 0 {
                Err(Fault::Usage("--header '"@ + item + "' has empty name"@))
            } else if !is_header_name(name) {
                Err(
                    Fault::Usage(
                        "--header '"@ + item + "' has invalid name: "@
                            + "invalid HTTP header name"@,
                    ),
                )
            } else if ascii_lowered(name) == "authorization"@ {
                Err(
                    Fault::Usage(
                        "--header cannot set Authorization: credentials come from the selected profile — configure one with `sn init` or `sn profile add`"@,
                    ),
                )
            } else if !is_header_value(value) {
                Err(
                    Fault::Usage(
                        "--header '"@ + item + "' has invalid value: "@
                            + "failed to parse header value"@,
                    ),
                )
            } else {
                Ok((ascii_lowered(name), value))
            }
        },
    }
}

/// The headers of a list; the first that is none ends it.
pub open spec fn header_items(items: Seq<Seq<char>>) -> Result<
    Map<Seq<char>, Seq<Seq<char>>>,
    Fault,
>
    decreases items.len(),
{
    if items.len() == 0 {
        Ok(Map::empty())
    } else {
        match header_items(items.drop_last()) {
            Err(f) => Err(f),
            Ok(m) => match header_item(items.last()) {
                Err(f) => Err(f),
                Ok((n, v)) => Ok(appended(m, n, v)),
            },
        }
    }
}

proof fn lemma_headers_stop(items: Seq<Seq<char>>, i: int)
    requires
        0 <= i <= items.len(),
        header_items(items.take(i)) is Err,
    ensures
        header_items(items) == header_items(items.take(i)),
    decreases items.len() - i,
{
    if i == items.len() {
        assert(items.take(i) =~= items);
    } else {
        assert(items.take(i + 1).drop_last() =~= items.take(i));
        lemma_headers_stop(items, i + 1);
    }
}

proof fn lemma_header_count(items: Seq<Seq<char>>)
    requires
        header_items(items) is Ok,
    ensures
        header_items(items)->Ok_0.dom().finite(),
        header_items(items)->Ok_0.dom().len() <= items.len(),
    decreases items.len(),
{
    if items.len() > 0 {
        lemma_header_count(items.drop_last());
        let m = header_items(items.drop_last())->Ok_0;
        let (n, v) = header_item(items.last())->Ok_0;
        assert(appended(m, n, v).dom() =~= m.dom().insert(n));
    } else {
        assert(Map::<Seq<char>, Seq<Seq<char>>>::empty().dom() =~= Set::<Seq<char>>::empty());
    }
}

/// Small letters stay small.
proof fn lemma_lowered_twice(s: Seq<char>)
    ensures
        ascii_lowered(ascii_lowered(s)) == ascii_lowered(s),
        is_header_name(s) ==> is_header_name(ascii_lowered(s)),
{
    assert(ascii_lowered(ascii_lowered(s)) =~= ascii_lowered(s));
    if is_header_name(s) {
        let t = ascii_lowered(s);
        assert forall|i: int| 0 <= i < t.len() implies is_token_char(#[trigger] t[i]) by {
            assert(is_token_char(s[i]));
        }
    }
}

/// The header that an item of the list is.
fn parse_header(item: &str) -> (r: Result<(String, String), Error>)
    ensures
        match header_item(item@) {
            Ok((n, v)) => r matches Ok(p) && p.0@ == n && p.1@ == v,
            Err(f) => r matches Err(e) && e@ == f,
        },
{
    let start = "--header '".to_owned().concat(item);
    let (before, behind) = match split_once(item, ':') {
        None => {
            return Err(Error::Usage(start.concat("' must be in 'Name: Value' form")));
        },
        Some(p) => p,
    };
    let name = trim(before.as_str());
    if name.as_str().is_empty() {
        return Err(Error::Usage(start.concat("' has empty name")));
    }
    let name = match header_name(name.as_str()) {
        Ok(n) => n,
        Err(m) => {
            return Err(Error::Usage(start.concat("' has invalid name: ").concat(m.as_str())));
        },
    };
    if same(name.as_str(), "authorization") {
        return Err(
            Error::Usage(
                "--header cannot set Authorization: credentials come from the selected profile — configure one with `sn init` or `sn profile add`".to_owned(),
            ),
        );
    }
    let value = trim_start(behind.as_str());
    match header_value(value.as_str()) {
        Ok(v) => Ok((name, v)),
        Err(m) => Err(Error::Usage(start.concat("' has invalid value: ").concat(m.as_str()))),
    }
}

/// What is said of more headers than a request can carry.
pub open spec fn too_many_headers() -> Fault {
    Fault::Usage("--header was given more often than a request can carry"@)
}

/// A list with a beginning of more than 6553 names, where a map of headers may have
/// no room for the next.
pub open spec fn crowded(items: Seq<Seq<char>>) -> bool {
    exists|k: int|
        0 <= k < items.len() && (#[trigger] header_items(items.take(k)) matches Ok(m)
            && m.dom().len() > 6553)
}

/// Up to 6553 headers are never too many.
pub proof fn a_short_list_is_not_crowded(items: Seq<Seq<char>>)
    requires
        items.len() <= 6553,
    ensures
        !crowded(items),
{
    if crowded(items) {
        let k = choose|k: int|
            0 <= k < items.len() && (#[trigger] header_items(items.take(k)) matches Ok(m)
                && m.dom().len() > 6553);
        lemma_header_count(items.take(k));
    }
}

/// Reads the headers.
pub fn parse_headers(raw: &Vec<String>) -> (r: Result<
    reqwest::header::HeaderMap<reqwest::header::HeaderValue>,
    Error,
>)
    ensures
        match r {
            Ok(h) => header_items(texts(raw@)) == Ok::<Map<Seq<char>, Seq<Seq<char>>>, Fault>(
                header_values(h),
            ),
            Err(e) => header_items(texts(raw@)) == Err::<Map<Seq<char>, Seq<Seq<char>>>, Fault>(
                e@,
            ) || (crowded(texts(raw@)) && e@ == too_many_headers()),
        },
{
    let ghost all = texts(raw@);
    let mut out = no_headers();
    let mut i: usize = 0;
    assert(all.take(0) =~= Seq::empty());
    while i < raw.len()
        invariant
            i <= raw.len(),
            all == texts(raw@),
            header_items(all.take(i as int)) == Ok::<Map<Seq<char>, Seq<Seq<char>>>, Fault>(
                header_values(out),
            ),
        decreases raw.len() - i,
    {
        assert(all.take(i + 1).drop_last() =~= all.take(i as int));
        assert(all.take(i + 1).last() == raw@[i as int]@);
        match parse_header(raw[i].as_str()) {
            Ok((name, value)) => {
                proof {
                    lemma_header_count(all.take(i as int));
                    let n = trimmed(halves(raw@[i as int]@, ':')->Some_0.0);
                    lemma_lowered_twice(n);
                }
                if !append_header(&mut out, name.as_str(), value.as_str()) {
                    return Err(
                        Error::Usage(
                            "--header was given more often than a request can carry".to_owned(),
                        ),
                    );
                }
            },
            Err(e) => {
                proof {
                    lemma_headers_stop(all, i + 1);
                }
                return Err(e);
            },
        }
        i = i + 1;
    }
    assert(all.take(i as int) =~= all);
    Ok(out)
}

/// Credentials never come from the list of headers, whatever the case of their
/// letters.
pub proof fn no_header_carries_credentials(items: Seq<Seq<char>>)
    ensures
        header_items(items) matches Ok(m) ==> !m.contains_key("authorization"@),
    decreases items.len(),
{
    if items.len() > 0 {
        no_header_carries_credentials(items.drop_last());
    }
}

/// A name that is given again is sent again: its values stay, in their order.
pub proof fn repeated_headers_are_kept(items: Seq<Seq<char>>, item: Seq<char>, k: Seq<char>)
    requires
        header_items(items) is Ok,
        header_item(item) is Ok,
    ensures
        header_items(items.push(item)) is Ok,
        values_under(header_items(items.push(item))->Ok_0, k) == (if header_item(item)->Ok_0.0
            == k {
            values_under(header_items(items)->Ok_0, k).push(header_item(item)->Ok_0.1)
        } else {
            values_under(header_items(items)->Ok_0, k)
        }),
{
    assert(items.push(item).drop_last() =~= items);
}

/// The verb that a text names.
pub open spec fn method_of(s: Seq<char>) -> Option<Method> {
    if s == "GET"@ {
        Some(Method::Get)
    } else if s == "DELETE"@ {
        Some(Method::Delete)
    } else if s == "POST"@ {
        Some(Method::Post)
    } else if s == "PUT"@ {
        Some(Method::Put)
    } else if s == "PATCH"@ {
        Some(Method::Patch)
    } else {
        None
    }
}

/// The verb that a text names.
fn parse_method(s: &str) -> (r: Option<Method>)
    ensures
        r == method_of(s@),
{
    if same(s, "GET") {
        Some(Method::Get)
    } else if same(s, "DELETE") {
        Some(Method::Delete)
    } else if same(s, "POST") {
        Some(Method::Post)
    } else if same(s, "PUT") {
        Some(Method::Put)
    } else if same(s, "PATCH") {
        Some(Method::Patch)
    } else {
        None
    }
}

/// Refuses a body where there can be none.
pub fn ensure_no_body(data: &Option<String>, field: &Vec<String>) -> (r: Result<(), Error>)
    ensures
        data is None && field@.len() == 0 ==> r is Ok,
        data is Some || field@.len() > 0 ==> (r matches Err(e) && e@ == Fault::Usage(
            "--data/--field not allowed for GET/DELETE"@,
        )),
{
    if data.is_some() || field.len() > 0 {
        return Err(Error::Usage("--data/--field not allowed for GET/DELETE".to_owned()));
    }
    Ok(())
}

/// What the flags come to, once the parameters are read.
pub open spec fn raw_sketch(
    method: Seq<char>,
    path: Seq<char>,
    query: Seq<(Seq<char>, Seq<char>)>,
    data: Option<String>,
    field: Vec<String>,
) -> Result<Sketch, Fault> {
    match method_of(method) {
        None => Err(
            Fault::Usage(
                "unknown method: "@ + method + ", expected GET/POST/PUT/PATCH/DELETE"@,
            ),
        ),
        Some(m) => {
            let bare = m == Method::Get || m == Method::Delete;
            if bare && (data is Some || field@.len() > 0) {
                Err(Fault::Usage("--data/--field not allowed for GET/DELETE"@))
            } else {
                Ok(
                    Sketch {
                        deed: None,
                        method: m,
                        path,
                        query,
                        body: if bare {
                            DraftBody::Without
                        } else {
                            DraftBody::Flags(BodyArgs { data, field }, EmptyBody::Object)
                        },
                        quiet: false,
                    },
                )
            }
        },
    }
}

/// Drafts the request: the verb is read whatever the case of its letters, and
/// only a verb that takes a body gets one.
pub fn run(
    method: &str,
    path: String,
    query: Vec<(String, String)>,
    data: Option<String>,
    field: Vec<String>,
) -> (r: Result<Draft, Error>)
    ensures
        match raw_sketch(raised(method@), path@, pairs(query@), data, field) {
            Ok(s) => r matches Ok(d) && d@ == s,
            Err(f) => r matches Err(e) && e@ == f,
        },
{
    let upper = to_uppercase(method);
    let m = match parse_method(upper.as_str()) {
        Some(m) => m,
        None => {
            return Err(
                Error::Usage(
                    "unknown method: ".to_owned().concat(upper.as_str()).concat(
                        ", expected GET/POST/PUT/PATCH/DELETE",
                    ),
                ),
            );
        },
    };
    let body = match m {
        Method::Get | Method::Delete => {
            if let Err(e) = ensure_no_body(&data, &field) {
                return Err(e);
            }
            DraftBody::Without
        },
        _ => DraftBody::Flags(BodyArgs { data, field }, EmptyBody::Object),
    };
    Ok(Draft { deed: None, method: m, path, query, body, quiet: false })
}

/// A parameter is parted at its first equals sign, and has a name.
pub proof fn a_parameter_is_parted_at_its_sign(k: Seq<char>, v: Seq<char>)
    requires
        !k.contains('='),
    ensures
        k.len() > 0 ==> query_item(k + seq!['='] + v) == Ok::<_, Fault>((k, v)),
        k.len() == 0 ==> query_item(k + seq!['='] + v) is Err,
        query_item(k) is Err,
{
    crate::text::what_is_put_together_is_parted_again(k, '=', v);
    crate::text::lemma_first(k, '=');
}

/// Parameters keep their number and their order.
pub proof fn parameters_keep_their_order(items: Seq<Seq<char>>)
    ensures
        query_items(items) matches Ok(q) ==> q.len() == items.len() && forall|i: int|
            0 <= i < items.len() ==> query_item(items[i]) == Ok::<_, Fault>(#[trigger] q[i]),
        query_items(items) is Err <==> exists|i: int|
            0 <= i < items.len() && query_item(#[trigger] items[i]) is Err,
    decreases items.len(),
{
    if items.len() > 0 {
        let less = items.drop_last();
        parameters_keep_their_order(less);
        if query_items(less) is Err {
            let i = choose|i: int| 0 <= i < less.len() && query_item(#[trigger] less[i]) is Err;
            assert(items[i] == less[i]);
        } else {
            let q = query_items(less)->Ok_0;
            assert forall|i: int| 0 <= i < less.len() implies query_item(#[trigger] items[i])
                is Ok by {
                assert(less[i] == items[i]);
                assert(query_item(less[i]) == Ok::<_, Fault>(q[i]));
            }
            if query_item(items.last()) is Err {
                assert(items[items.len() - 1] == items.last());
            } else {
                let all = query_items(items)->Ok_0;
                assert forall|i: int| 0 <= i < items.len() implies query_item(items[i]) == Ok::<
                    _,
                    Fault,
                >(#[trigger] all[i]) by {
                    if i < less.len() {
                        assert(less[i] == items[i]);
                        assert(all[i] == q[i]);
                    }
                }
            }
        }
    }
}

/// A header is parted at its first colon: a name, in small letters, and a value without
/// the blanks before it.
pub proof fn a_header_is_parted_at_its_colon(n: Seq<char>, v: Seq<char>)
    requires
        !n.contains(':'),
    ensures
        header_item(n + seq![':'] + v) matches Ok(h) ==> h == (
            ascii_lowered(trimmed(n)),
            trimmed_start(v),
        ),
        header_item(n + seq![':'] + v) is Ok <==> is_header_name(trimmed(n)) && is_header_value(
            trimmed_start(v),
        ) && ascii_lowered(trimmed(n)) != "authorization"@,
        header_item(n) is Err,
{
    crate::text::what_is_put_together_is_parted_again(n, ':', v);
    crate::text::lemma_first(n, ':');
}

/// What can stand in a header: in its name no blank, colon or control character, in its
/// value no line break.
pub proof fn a_header_breaks_no_line(name: Seq<char>, value: Seq<char>)
    requires
        is_header_name(name),
        is_header_value(value),
    ensures
        !name.contains('\r') && !name.contains('\n') && !name.contains(':') && !name.contains(' '),
        !value.contains('\r') && !value.contains('\n') && !value.contains('\0'),
{
    if name.contains('\r') {
        let i = name.index_of('\r');
        assert(is_token_char(name[i]));
    }
    if name.contains('\n') {
        let i = name.index_of('\n');
        assert(is_token_char(name[i]));
    }
    if name.contains(':') {
        let i = name.index_of(':');
        assert(is_token_char(name[i]));
    }
    if name.contains(' ') {
        let i = name.index_of(' ');
        assert(is_token_char(name[i]));
    }
    if value.contains('\r') {
        let i = value.index_of('\r');
        assert(value[i] as u32 == 13);
    }
    if value.contains('\n') {
        let i = value.index_of('\n');
        assert(value[i] as u32 == 10);
    }
    if value.contains('\0') {
        let i = value.index_of('\0');
        assert(value[i] as u32 == 0);
    }
}

/// A verb is named by its capital letters.
pub proof fn a_verb_is_named(s: Seq<char>)
    ensures
        method_of(s) == Some(Method::Get) <==> s == "GET"@,
        method_of(s) == Some(Method::Post) <==> s == "POST"@,
        method_of(s) == Some(Method::Put) <==> s == "PUT"@,
        method_of(s) == Some(Method::Patch) <==> s == "PATCH"@,
        method_of(s) == Some(Method::Delete) <==> s == "DELETE"@,
{
    reveal_strlit("GET");
    reveal_strlit("POST");
    reveal_strlit("PUT");
    reveal_strlit("PATCH");
    reveal_strlit("DELETE");
    assert("GET"@.len() == 3 && "POST"@.len() == 4 && "PUT"@.len() == 3 && "PATCH"@.len() == 5 && "DELETE"@.len() == 6);
    assert("GET"@[0] != "PUT"@[0]);
}

/// A request is sent as it was given: its verb, its path, its parameters and its body.
/// Only verbs that write have a body, and an empty one is an object.
pub proof fn a_raw_request_is_sent_as_given(
    method: Seq<char>,
    path: Seq<char>,
    query: Seq<(Seq<char>, Seq<char>)>,
    data: Option<String>,
    field: Vec<String>,
)
    ensures
        raw_sketch(method, path, query, data, field) matches Ok(s) ==> {
            &&& method_of(method) == Some(s.method)
            &&& s.path == path
            &&& s.query == query
            &&& s.deed is None
            &&& !s.quiet
            &&& s.method is Get || s.method is Delete <==> s.body == DraftBody::Without
            &&& s.body != DraftBody::Without ==> s.body == DraftBody::Flags(
                BodyArgs { data, field },
                EmptyBody::Object,
            )
        },
        (method == "GET"@ || method == "DELETE"@) && (data is Some || field@.len() > 0)
            ==> raw_sketch(method, path, query, data, field) is Err,
        method == "POST"@ || method == "PUT"@ || method == "PATCH"@ ==> raw_sketch(
            method,
            path,
            query,
            data,
            field,
        ) is Ok,
        method_of(method) is None ==> raw_sketch(method, path, query, data, field) is Err,
{
    a_verb_is_named(method);
}

} // verus!
