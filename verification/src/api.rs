//! The catalogue of the REST APIs that an instance publishes.

use vstd::prelude::*;

use vstd::utf8::encode_utf8;

use crate::error::{text_option, Error, Fault};
use crate::flags::OutputMode;
use crate::json::{
    docs, items_in, keys, lemma_docs, lemma_docs_push, member, members, put, Doc, Json,
};
use crate::order::{in_order, listing, texts};
use crate::request::{
    get, no_query, pairs, param, param_in, param_option, with_param, Call, Method, Request,
};
use crate::spelling::{guesses, near_matches};
use crate::text::{
    ascii_lowered, contains as holds, digits, has, join, joined, lowered, raised, same,
    same_ignoring_case, to_lowercase, to_uppercase, trim, trimmed,
};

verus! {

/// Every namespace, API, version and endpoint.
pub const DOC_PATH: &'static str = "/api/now/doc";

/// The same for one namespace.
pub const SERVICES_PATH: &'static str = "/api/now/doc/services";

/// The OpenAPI export of one API.
pub const OAS_PATH: &'static str = "/api/now/doc/oas_3";

/// The names of the namespaces.
pub const NAMESPACES_PATH: &'static str = "/api/now/doc/namespaces";

/// The commands on the catalogue.
#[derive(Debug)]
pub enum ApiSub {
    List(ApiListArgs),
    Search(ApiSearchArgs),
    Spec(ApiSpecArgs),
}

/// The flags of `api list`.
#[derive(Debug)]
pub struct ApiListArgs {
    pub namespace: Option<String>,
}

/// The flags of `api search`.
#[derive(Debug)]
pub struct ApiSearchArgs {
    pub term: String,
    pub namespace: Option<String>,
    pub method: Option<String>,
}

/// The flags of `api spec`.
#[derive(Debug)]
pub struct ApiSpecArgs {
    pub name: String,
    pub namespace: Option<String>,
    pub version: Option<String>,
    pub format: SpecFormat,
}

/// The serialization of an export.
#[derive(Debug, Clone, Copy, PartialEq, Eq, Structural)]
pub enum SpecFormat {
    Json,
    Yaml,
}

/// The namespaces of an answer; none where it has no object of them.
pub open spec fn namespaces_of(resp: Doc) -> Map<Seq<char>, Doc> {
    match resp.field("result"@) {
        Some(Doc::Object(m)) => m,
        _ => Map::empty(),
    }
}

/// The namespaces of an answer.
pub fn catalogue(resp: &Json) -> (r: Vec<(String, Json)>)
    ensures
        members(r@) == namespaces_of(resp@),
{
    if let Some(found) = resp.get("result") {
        if let Json::Object(entries) = found.dup() {
            return entries;
        }
    }
    Vec::new()
}

/// The text of a member, empty where it is no text.
pub open spec fn text_of(v: Doc, key: Seq<char>) -> Seq<char> {
    match v.field_text(key) {
        Some(s) => s,
        None => Seq::empty(),
    }
}

/// The text of a member.
pub fn str_field(v: &Json, key: &str) -> (r: String)
    ensures
        r@ == text_of(v@, key@),
{
    match v.get_str(key) {
        Some(s) => s.clone(),
        None => String::new(),
    }
}

/// Whether a text holds a needle that is lower case already, whatever its own
/// case.
pub fn contains(haystack: &str, lowercase_needle: &str) -> (r: bool)
    ensures
        r == has(lowered(haystack@), lowercase_needle@),
{
    holds(to_lowercase(haystack).as_str(), lowercase_needle)
}

/// The endpoints of one version.
pub open spec fn version_resources(version: Seq<char>, v: Doc) -> Seq<(Seq<char>, Doc)> {
    match v.field("resources"@) {
        Some(Doc::Array(items)) => items.map_values(|r: Doc| (version, r)),
        _ => Seq::empty(),
    }
}

/// The endpoints of the given versions, one version after the other.
pub open spec fn resources_in(m: Map<Seq<char>, Doc>, versions: Seq<Seq<char>>) -> Seq<
    (Seq<char>, Doc),
>
    decreases versions.len(),
{
    if versions.len() == 0 {
        Seq::empty()
    } else {
        resources_in(m, versions.drop_last()) + version_resources(
            versions.last(),
            m[versions.last()],
        )
    }
}

/// The endpoints of an API: versions in order, endpoints as they are listed.
pub open spec fn endpoints(api: Doc) -> Seq<(Seq<char>, Doc)> {
    match api.field("versions"@) {
        Some(Doc::Object(m)) => resources_in(m, in_order(m.dom())),
        _ => Seq::empty(),
    }
}

/// What a list of versioned endpoints holds.
pub open spec fn versioned(v: Seq<(String, Json)>) -> Seq<(Seq<char>, Doc)> {
    v.map_values(|p: (String, Json)| (p.0@, p.1@))
}

/// Adds the endpoints of one version.
fn add_resources(out: &mut Vec<(String, Json)>, version: &str, items: &Vec<Json>)
    ensures
        versioned(final(out)@) == versioned(old(out)@) + docs(items@).map_values(
            |r: Doc| (version@, r),
        ),
{
    let ghost prior = versioned(out@);
    let ghost all = docs(items@).map_values(|r: Doc| (version@, r));
    let mut i: usize = 0;
    proof {
        lemma_docs(items@);
    }
    assert(prior + all.take(0) =~= prior);
    while i < items.len()
        invariant
            i <= items.len(),
            all == docs(items@).map_values(|r: Doc| (version@, r)),
            all.len() == items@.len(),
            forall|k: int| 0 <= k < items@.len() ==> #[trigger] docs(items@)[k] == items@[k]@,
            versioned(out@) == prior + all.take(i as int),
        decreases items.len() - i,
    {
        let ghost so_far = versioned(out@);
        out.push((version.to_owned(), items[i].dup()));
        assert(docs(items@)[i as int] == items@[i as int]@);
        assert(versioned(out@) =~= so_far.push((version@, items@[i as int]@)));
        assert(prior + all.take(i + 1) =~= (prior + all.take(i as int)).push(all[i as int]));
        i = i + 1;
    }
    assert(all.take(i as int) =~= all);
}

/// The endpoints of an API with their versions.
pub fn resources(api: &Json) -> (r: Vec<(String, Json)>)
    ensures
        versioned(r@) == endpoints(api@),
{
    let mut out: Vec<(String, Json)> = Vec::new();
    assert(versioned(out@) =~= Seq::empty());
    if let Some(Json::Object(versions)) = api.get("versions") {
        let names = keys(versions);
        let ghost m = members(versions@);
        let ghost ks = texts(names@);
        let mut i: usize = 0;
        while i < names.len()
            invariant
                i <= names.len(),
                m == members(versions@),
                ks == texts(names@),
                listing(ks, m.dom()),
                versioned(out@) == resources_in(m, ks.take(i as int)),
            decreases names.len() - i,
        {
            assert(ks.take(i + 1).drop_last() =~= ks.take(i as int));
            let name = names[i].as_str();
            assert(ks[i as int] == name@);
            assert(ks.contains(name@));
            let ghost so_far = versioned(out@);
            if let Some(v) = member(versions, name) {
                if let Some(Json::Array(items)) = v.get("resources") {
                    add_resources(&mut out, name, items);
                } else {
                    assert(so_far + Seq::<(Seq<char>, Doc)>::empty() =~= so_far);
                }
            }
            i = i + 1;
        }
        assert(ks.take(i as int) =~= ks);
    }
    out
}

/// One API: its namespace, its title and its entry.
pub struct Listed {
    pub namespace: String,
    pub title: String,
    pub api: Json,
}

/// One API, as a view.
pub ghost struct Published {
    pub namespace: Seq<char>,
    pub title: Seq<char>,
    pub api: Doc,
}

impl Listed {
    pub open spec fn view(&self) -> Published {
        Published { namespace: self.namespace@, title: self.title@, api: self.api@ }
    }
}

/// The APIs of one namespace under the given titles.
pub open spec fn titled(ns: Seq<char>, m: Map<Seq<char>, Doc>, titles: Seq<Seq<char>>) -> Seq<
    Published,
> {
    titles.map_values(|t: Seq<char>| Published { namespace: ns, title: t, api: m[t] })
}

/// The APIs of one namespace in the order of their titles.
pub open spec fn published_in(ns: Seq<char>, apis: Doc) -> Seq<Published> {
    match apis {
        Doc::Object(m) => titled(ns, m, in_order(m.dom())),
        _ => Seq::empty(),
    }
}

/// The APIs of the given namespaces, one after the other.
pub open spec fn published_by(cat: Map<Seq<char>, Doc>, namespaces: Seq<Seq<char>>) -> Seq<Published>
    decreases namespaces.len(),
{
    if namespaces.len() == 0 {
        Seq::empty()
    } else {
        published_by(cat, namespaces.drop_last()) + published_in(
            namespaces.last(),
            cat[namespaces.last()],
        )
    }
}

/// All APIs, by namespace and title.
pub open spec fn published(cat: Map<Seq<char>, Doc>) -> Seq<Published> {
    published_by(cat, in_order(cat.dom()))
}

/// What a list of APIs holds.
pub open spec fn listed(v: Seq<Listed>) -> Seq<Published> {
    v.map_values(|l: Listed| l@)
}

/// Adds the APIs of one namespace.
fn add_namespace(out: &mut Vec<Listed>, ns: &str, apis: &Vec<(String, Json)>)
    ensures
        listed(final(out)@) == listed(old(out)@) + titled(
            ns@,
            members(apis@),
            in_order(members(apis@).dom()),
        ),
{
    let titles = keys(apis);
    let ghost m = members(apis@);
    let ghost ks = texts(titles@);
    let ghost all = titled(ns@, m, ks);
    let ghost prior = listed(out@);
    let mut i: usize = 0;
    assert(prior + all.take(0) =~= prior);
    while i < titles.len()
        invariant
            i <= titles.len(),
            m == members(apis@),
            ks == texts(titles@),
            listing(ks, m.dom()),
            all == titled(ns@, m, ks),
            listed(out@) == prior + all.take(i as int),
        decreases titles.len() - i,
    {
        let title = titles[i].as_str();
        assert(ks[i as int] == title@);
        assert(ks.contains(title@));
        let ghost so_far = listed(out@);
        if let Some(api) = member(apis, title) {
            let entry = Listed { namespace: ns.to_owned(), title: title.to_owned(), api: api.dup() };
            let ghost shown = entry@;
            out.push(entry);
            assert(listed(out@) =~= so_far.push(shown));
            assert(shown == all[i as int]);
        }
        assert(prior + all.take(i + 1) =~= (prior + all.take(i as int)).push(all[i as int]));
        i = i + 1;
    }
    assert(all.take(i as int) =~= all);
}

/// Lists all APIs, by namespace and title.
pub fn flatten(cat: &Vec<(String, Json)>) -> (r: Vec<Listed>)
    ensures
        listed(r@) == published(members(cat@)),
{
    let mut out: Vec<Listed> = Vec::new();
    let names = keys(cat);
    let ghost m = members(cat@);
    let ghost ks = texts(names@);
    let mut i: usize = 0;
    assert(listed(out@) =~= Seq::empty());
    while i < names.len()
        invariant
            i <= names.len(),
            m == members(cat@),
            ks == texts(names@),
            listing(ks, m.dom()),
            listed(out@) == published_by(m, ks.take(i as int)),
        decreases names.len() - i,
    {
        assert(ks.take(i + 1).drop_last() =~= ks.take(i as int));
        let ns = names[i].as_str();
        assert(ks[i as int] == ns@);
        assert(ks.contains(ns@));
        let ghost so_far = listed(out@);
        if let Some(v) = member(cat, ns) {
            if let Json::Object(apis) = v {
                add_namespace(&mut out, ns, apis);
            } else {
                assert(so_far + Seq::<Published>::empty() =~= so_far);
            }
        }
        i = i + 1;
    }
    assert(ks.take(i as int) =~= ks);
    out
}

/// How many endpoints a list of APIs has.
pub open spec fn endpoint_count(apis: Seq<Published>) -> nat
    decreases apis.len(),
{
    if apis.len() == 0 {
        0
    } else {
        endpoint_count(apis.drop_last()) + endpoints(apis.last().api).len()
    }
}

/// The line of one namespace: how many APIs and endpoints it has.
pub open spec fn namespace_line(ns: Seq<char>, apis: Doc) -> Doc {
    Doc::Object(
        Map::empty().insert("namespace"@, Doc::Str(ns)).insert(
            "apis"@,
            Doc::Number(digits(published_in(ns, apis).len())),
        ).insert(
            "endpoints"@,
            Doc::Number(digits(endpoint_count(published_in(ns, apis)))),
        ),
    )
}

/// The line of one API.
pub open spec fn api_line(p: Published) -> Doc {
    let versions = match p.api.field("versions"@) {
        Some(Doc::Object(m)) => in_order(m.dom()).map_values(|v: Seq<char>| Doc::Str(v)),
        _ => Seq::empty(),
    };
    Doc::Object(
        Map::empty().insert("namespace"@, Doc::Str(p.namespace)).insert(
            "name"@,
            Doc::Str(p.title),
        ).insert("api_name"@, Doc::Str(text_of(p.api, "apiName"@))).insert(
            "versions"@,
            Doc::Array(versions),
        ).insert("endpoints"@, Doc::Number(digits(endpoints(p.api).len()))).insert(
            "scripted"@,
            Doc::Bool(p.api.field("scripted"@) == Some(Doc::Bool(true))),
        ).insert("description"@, Doc::Str(text_of(p.api, "description"@))),
    )
}

/// The endpoints of all APIs of a list.
fn all_endpoints(apis: &Vec<Listed>) -> (r: Vec<(String, Json)>)
    ensures
        r.len() == endpoint_count(listed(apis@)),
{
    let mut out: Vec<(String, Json)> = Vec::new();
    let ghost all = listed(apis@);
    let mut i: usize = 0;
    while i < apis.len()
        invariant
            i <= apis.len(),
            all == listed(apis@),
            out.len() == endpoint_count(all.take(i as int)),
        decreases apis.len() - i,
    {
        assert(all.take(i + 1).drop_last() =~= all.take(i as int));
        assert(all.take(i + 1).last() == apis@[i as int]@);
        let mut found = resources(&apis[i].api);
        assert(versioned(found@).len() == found@.len());
        out.append(&mut found);
        i = i + 1;
    }
    assert(all.take(i as int) =~= all);
    out
}

/// The line of one namespace.
pub fn namespace_row(namespace: &str, apis: &Json) -> (r: Json)
    ensures
        r@ == namespace_line(namespace@, apis@),
{
    let mut list: Vec<Listed> = Vec::new();
    assert(listed(list@) =~= Seq::empty());
    if let Json::Object(entries) = apis {
        add_namespace(&mut list, namespace, entries);
        assert(Seq::<Published>::empty() + published_in(namespace@, apis@) =~= published_in(
            namespace@,
            apis@,
        ));
    }
    assert(listed(list@) == published_in(namespace@, apis@));
    assert(listed(list@).len() == list@.len());
    let endpoints = all_endpoints(&list);
    let mut out: Vec<(String, Json)> = Vec::new();
    put(&mut out, "namespace", Json::str(namespace));
    put(&mut out, "apis", Json::number(list.len() as u64));
    put(&mut out, "endpoints", Json::number(endpoints.len() as u64));
    Json::Object(out)
}

/// A list of strings as a JSON array.
pub fn string_array(v: &Vec<String>) -> (r: Json)
    ensures
        r@ == Doc::Array(texts(v@).map_values(|t: Seq<char>| Doc::Str(t))),
{
    let ghost all = texts(v@).map_values(|t: Seq<char>| Doc::Str(t));
    let mut out: Vec<Json> = Vec::new();
    let mut i: usize = 0;
    proof {
        lemma_docs(out@);
        assert(docs(out@) =~= all.take(0));
    }
    while i < v.len()
        invariant
            i <= v.len(),
            all == texts(v@).map_values(|t: Seq<char>| Doc::Str(t)),
            docs(out@) == all.take(i as int),
        decreases v.len() - i,
    {
        broadcast use lemma_docs_push;

        out.push(Json::str(v[i].as_str()));
        assert(all[i as int] == Doc::Str(v@[i as int]@));
        assert(all.take(i + 1) =~= all.take(i as int).push(all[i as int]));
        i = i + 1;
    }
    assert(all.take(i as int) =~= all);
    Json::Array(out)
}

/// The line of one API.
pub fn api_row(namespace: &str, name: &str, api: &Json) -> (r: Json)
    ensures
        r@ == api_line(Published { namespace: namespace@, title: name@, api: api@ }),
{
    let mut versions: Vec<String> = Vec::new();
    assert(texts(versions@).map_values(|v: Seq<char>| Doc::Str(v)) =~= Seq::<Doc>::empty());
    if let Some(Json::Object(m)) = api.get("versions") {
        versions = keys(m);
    }
    let found = resources(api);
    assert(versioned(found@).len() == found@.len());
    let scripted = match api.get("scripted") {
        Some(Json::Bool(b)) => *b,
        _ => false,
    };
    let mut out: Vec<(String, Json)> = Vec::new();
    put(&mut out, "namespace", Json::str(namespace));
    put(&mut out, "name", Json::str(name));
    put(&mut out, "api_name", Json::Str(str_field(api, "apiName")));
    put(&mut out, "versions", string_array(&versions));
    put(&mut out, "endpoints", Json::number(found.len() as u64));
    put(&mut out, "scripted", Json::Bool(scripted));
    put(&mut out, "description", Json::Str(str_field(api, "description")));
    Json::Object(out)
}

/// The first name that is the same but for ASCII case.
pub open spec fn first_alike(ks: Seq<Seq<char>>, ns: Seq<char>) -> Option<Seq<char>>
    decreases ks.len(),
{
    if ks.len() == 0 {
        None
    } else if ascii_lowered(ks[0]) == ascii_lowered(ns) {
        Some(ks[0])
    } else {
        first_alike(ks.drop_first(), ns)
    }
}

/// The namespace that is meant: the one of that name, else the first that
/// differs in case alone.
pub open spec fn entry_key(cat: Map<Seq<char>, Doc>, ns: Seq<char>) -> Option<Seq<char>> {
    if cat.contains_key(ns) {
        Some(ns)
    } else {
        first_alike(in_order(cat.dom()), ns)
    }
}

/// Finds the namespace that is meant.
pub fn namespace_entry(cat: &Vec<(String, Json)>, ns: &str) -> (r: Option<String>)
    ensures
        text_option(r) == entry_key(members(cat@), ns@),
        r matches Some(k) ==> members(cat@).contains_key(k@),
{
    if member(cat, ns).is_some() {
        return Some(ns.to_owned());
    }
    let names = keys(cat);
    let ghost ks = texts(names@);
    let mut i: usize = 0;
    assert(ks.skip(0) =~= ks);
    while i < names.len()
        invariant
            i <= names.len(),
            ks == texts(names@),
            ks == in_order(members(cat@).dom()),
            listing(ks, members(cat@).dom()),
            !members(cat@).contains_key(ns@),
            first_alike(ks, ns@) == first_alike(ks.skip(i as int), ns@),
        decreases names.len() - i,
    {
        assert(ks.skip(i as int).drop_first() =~= ks.skip(i + 1));
        assert(ks.skip(i as int)[0] == names@[i as int]@);
        assert(ks[i as int] == names@[i as int]@);
        assert(ks.contains(names@[i as int]@));
        if same_ignoring_case(names[i].as_str(), ns) {
            return Some(names[i].clone());
        }
        i = i + 1;
    }
    None
}

/// The lines of a list: one for each namespace, or one for each API of the
/// namespace that is asked for. Nothing where there is no such namespace.
pub open spec fn list_lines(resp: Doc, namespace: Option<Seq<char>>) -> Option<Seq<Doc>> {
    let cat = namespaces_of(resp);
    match namespace {
        None => Some(
            in_order(cat.dom()).map_values(|ns: Seq<char>| namespace_line(ns, cat[ns])),
        ),
        Some(ns) => match entry_key(cat, ns) {
            None => None,
            Some(key) => match cat[key] {
                Doc::Object(_) => Some(
                    published_in(key, cat[key]).map_values(|p: Published| api_line(p)),
                ),
                _ => None,
            },
        },
    }
}

fn api_rows(list: &Vec<Listed>) -> (r: Vec<Json>)
    ensures
        docs(r@) == listed(list@).map_values(|p: Published| api_line(p)),
{
    let ghost all = listed(list@).map_values(|p: Published| api_line(p));
    let mut out: Vec<Json> = Vec::new();
    let mut i: usize = 0;
    assert(docs(out@) =~= all.take(0));
    while i < list.len()
        invariant
            i <= list.len(),
            all == listed(list@).map_values(|p: Published| api_line(p)),
            docs(out@) == all.take(i as int),
        decreases list.len() - i,
    {
        broadcast use lemma_docs_push;

        let l = &list[i];
        out.push(api_row(l.namespace.as_str(), l.title.as_str(), &l.api));
        assert(all[i as int] == api_line(list@[i as int]@));
        assert(all.take(i + 1) =~= all.take(i as int).push(all[i as int]));
        i = i + 1;
    }
    assert(all.take(i as int) =~= all);
    out
}

/// Lists the namespaces, or the APIs of one.
fn list_rows(resp: &Json, namespace: &Option<String>) -> (r: Option<Json>)
    ensures
        match r {
            Some(j) => list_lines(resp@, text_option(*namespace)) matches Some(lines) && j@
                == Doc::Array(lines),
            None => list_lines(resp@, text_option(*namespace)) is None,
        },
{
    let cat = catalogue(resp);
    let ghost m = members(cat@);
    match namespace {
        Some(ns) => {
            let key = match namespace_entry(&cat, ns.as_str()) {
                Some(k) => k,
                None => {
                    return None;
                },
            };
            match member(&cat, key.as_str()) {
                Some(Json::Object(apis)) => {
                    let mut list: Vec<Listed> = Vec::new();
                    assert(listed(list@) =~= Seq::empty());
                    add_namespace(&mut list, key.as_str(), apis);
                    assert(listed(list@) =~= published_in(key@, m[key@]));
                    Some(Json::Array(api_rows(&list)))
                },
                _ => None,
            }
        },
        None => {
            let names = keys(&cat);
            let ghost ks = texts(names@);
            let ghost all = ks.map_values(|ns: Seq<char>| namespace_line(ns, m[ns]));
            let mut out: Vec<Json> = Vec::new();
            let mut i: usize = 0;
            assert(docs(out@) =~= all.take(0));
            while i < names.len()
                invariant
                    i <= names.len(),
                    m == members(cat@),
                    ks == texts(names@),
                    listing(ks, m.dom()),
                    all == ks.map_values(|ns: Seq<char>| namespace_line(ns, m[ns])),
                    docs(out@) == all.take(i as int),
                decreases names.len() - i,
            {
                broadcast use lemma_docs_push;

                let ns = names[i].as_str();
                assert(ks[i as int] == ns@);
                assert(ks.contains(ns@));
                if let Some(apis) = member(&cat, ns) {
                    out.push(namespace_row(ns, apis));
                }
                assert(all.take(i + 1) =~= all.take(i as int).push(all[i as int]));
                i = i + 1;
            }
            assert(all.take(i as int) =~= all);
            Some(Json::Array(out))
        },
    }
}

/// Whether an API itself answers to a search: its namespace, its title, its name
/// or its description.
pub open spec fn api_hit(p: Published, needle: Seq<char>) -> bool {
    has(lowered(p.namespace), needle) || has(lowered(p.title), needle) || has(
        lowered(text_of(p.api, "apiName"@)),
        needle,
    ) || has(lowered(text_of(p.api, "description"@)), needle)
}

/// Whether an endpoint answers to a search: it is of the method, and its API, its
/// route or its description has what is searched.
pub open spec fn endpoint_hit(
    p: Published,
    resource: Doc,
    needle: Seq<char>,
    method: Option<Seq<char>>,
) -> bool {
    &&& method matches Some(m) ==> ascii_lowered(text_of(resource, "httpMethod"@)) == ascii_lowered(
        m,
    )
    &&& api_hit(p, needle) || has(lowered(text_of(resource, "route"@)), needle) || has(
        lowered(text_of(resource, "description"@)),
        needle,
    )
}

/// The line of one endpoint.
pub open spec fn endpoint_line(p: Published, version: Seq<char>, resource: Doc) -> Doc {
    Doc::Object(
        Map::empty().insert("namespace"@, Doc::Str(p.namespace)).insert(
            "name"@,
            Doc::Str(p.title),
        ).insert("api_name"@, Doc::Str(text_of(p.api, "apiName"@))).insert(
            "version"@,
            Doc::Str(version),
        ).insert("method"@, Doc::Str(text_of(resource, "httpMethod"@))).insert(
            "route"@,
            Doc::Str(text_of(resource, "route"@)),
        ).insert("description"@, Doc::Str(text_of(resource, "description"@))),
    )
}

/// The lines of the endpoints of one API that answer to a search.
pub open spec fn api_matches(
    p: Published,
    found: Seq<(Seq<char>, Doc)>,
    needle: Seq<char>,
    method: Option<Seq<char>>,
) -> Seq<Doc>
    decreases found.len(),
{
    if found.len() == 0 {
        Seq::empty()
    } else {
        let rest = api_matches(p, found.drop_last(), needle, method);
        let (version, resource) = found.last();
        if endpoint_hit(p, resource, needle, method) {
            rest.push(endpoint_line(p, version, resource))
        } else {
            rest
        }
    }
}

/// The lines of all endpoints that answer to a search.
pub open spec fn search_lines(
    apis: Seq<Published>,
    needle: Seq<char>,
    method: Option<Seq<char>>,
) -> Seq<Doc>
    decreases apis.len(),
{
    if apis.len() == 0 {
        Seq::empty()
    } else {
        search_lines(apis.drop_last(), needle, method) + api_matches(
            apis.last(),
            endpoints(apis.last().api),
            needle,
            method,
        )
    }
}

/// Adds the lines of the endpoints of one API that answer to a search.
fn search_api(out: &mut Vec<Json>, l: &Listed, needle: &str, method: &Option<String>)
    ensures
        docs(final(out)@) == docs(old(out)@) + api_matches(
            l@,
            endpoints(l@.api),
            needle@,
            text_option(*method),
        ),
{
    let ns = l.namespace.as_str();
    let title = l.title.as_str();
    let hit = contains(ns, needle) || contains(title, needle) || contains(
        str_field(&l.api, "apiName").as_str(),
        needle,
    ) || contains(str_field(&l.api, "description").as_str(), needle);
    let found = resources(&l.api);
    let ghost all = versioned(found@);
    let ghost prior = docs(out@);
    let ghost wanted = text_option(*method);
    let mut i: usize = 0;
    assert(prior + api_matches(l@, all.take(0), needle@, wanted) =~= prior);
    while i < found.len()
        invariant
            i <= found.len(),
            all == versioned(found@),
            hit == api_hit(l@, needle@),
            ns@ == l@.namespace,
            title@ == l@.title,
            wanted == text_option(*method),
            docs(out@) == prior + api_matches(l@, all.take(i as int), needle@, wanted),
        decreases found.len() - i,
    {
        broadcast use lemma_docs_push;

        assert(all.take(i + 1).drop_last() =~= all.take(i as int));
        let version = found[i].0.as_str();
        let resource = &found[i].1;
        assert(all.take(i + 1).last() == (version@, resource@));
        let ghost rest = api_matches(l@, all.take(i as int), needle@, wanted);
        let served = str_field(resource, "httpMethod");
        let right_method = match method {
            Some(m) => same_ignoring_case(served.as_str(), m.as_str()),
            None => true,
        };
        if right_method && (hit || contains(str_field(resource, "route").as_str(), needle)
            || contains(str_field(resource, "description").as_str(), needle)) {
            let mut row: Vec<(String, Json)> = Vec::new();
            put(&mut row, "namespace", Json::str(ns));
            put(&mut row, "name", Json::str(title));
            put(&mut row, "api_name", Json::Str(str_field(&l.api, "apiName")));
            put(&mut row, "version", Json::str(version));
            put(&mut row, "method", Json::Str(served));
            put(&mut row, "route", Json::Str(str_field(resource, "route")));
            put(&mut row, "description", Json::Str(str_field(resource, "description")));
            let line = Json::Object(row);
            assert(line@ == endpoint_line(l@, version@, resource@));
            assert((prior + rest).push(line@) =~= prior + rest.push(line@));
            out.push(line);
        }
        i = i + 1;
    }
    assert(all.take(i as int) =~= all);
}

/// Finds the endpoints that answer to a term, by namespace, title and version.
fn search_rows(resp: &Json, args: &ApiSearchArgs) -> (r: Json)
    ensures
        r@ == Doc::Array(
            search_lines(
                published(namespaces_of(resp@)),
                lowered(args.term@),
                match args.method {
                    Some(m) => Some(raised(m@)),
                    None => None,
                },
            ),
        ),
{
    let needle = to_lowercase(args.term.as_str());
    let method = match &args.method {
        Some(m) => Some(to_uppercase(m.as_str())),
        None => None,
    };
    let list = flatten(&catalogue(resp));
    let ghost all = listed(list@);
    let mut out: Vec<Json> = Vec::new();
    let mut i: usize = 0;
    while i < list.len()
        invariant
            i <= list.len(),
            all == listed(list@),
            docs(out@) == search_lines(all.take(i as int), needle@, text_option(method)),
        decreases list.len() - i,
    {
        assert(all.take(i + 1).drop_last() =~= all.take(i as int));
        assert(all.take(i + 1).last() == list@[i as int]@);
        search_api(&mut out, &list[i], needle.as_str(), &method);
        i = i + 1;
    }
    assert(all.take(i as int) =~= all);
    Json::Array(out)
}

/// Shows the namespaces, or the APIs of one, or with raw output the answer as it
/// came. `None` where there is no such namespace.
pub fn list(resp: Json, args: &ApiListArgs, output: OutputMode) -> (r: Option<Json>)
    ensures
        output == OutputMode::Raw ==> r == Some(resp),
        output != OutputMode::Raw ==> match r {
            Some(j) => list_lines(resp@, text_option(args.namespace)) matches Some(lines) && j@
                == Doc::Array(lines),
            None => list_lines(resp@, text_option(args.namespace)) is None,
        },
{
    match output {
        OutputMode::Raw => Some(resp),
        _ => list_rows(&resp, &args.namespace),
    }
}

/// Shows the endpoints that answer to a term, or with raw output the answer as it
/// came.
pub fn search(resp: Json, args: &ApiSearchArgs, output: OutputMode) -> (r: Json)
    ensures
        output == OutputMode::Raw ==> r == resp,
        output != OutputMode::Raw ==> r@ == Doc::Array(
            search_lines(
                published(namespaces_of(resp@)),
                lowered(args.term@),
                match args.method {
                    Some(m) => Some(raised(m@)),
                    None => None,
                },
            ),
        ),
{
    match output {
        OutputMode::Raw => resp,
        _ => search_rows(&resp, args),
    }
}

/// How a name was matched, strongest first.
#[derive(Debug, Clone, Copy, PartialEq, Eq, Structural)]
pub enum Tier {
    /// It is the title.
    Title,
    /// It is the name of the API.
    ApiName,
    /// It is part of either.
    Partial,
}

/// How an API answers to a name.
pub open spec fn tier_of(p: Published, needle: Seq<char>) -> Option<Tier> {
    let api_name = text_of(p.api, "apiName"@);
    if lowered(p.title) == needle {
        Some(Tier::Title)
    } else if lowered(api_name) == needle {
        Some(Tier::ApiName)
    } else if has(lowered(p.title), needle) || has(lowered(api_name), needle) {
        Some(Tier::Partial)
    } else {
        None
    }
}

/// Namespace and title of the APIs that answer to a name in one way.
pub open spec fn hits(apis: Seq<Published>, needle: Seq<char>, tier: Tier) -> Seq<
    (Seq<char>, Seq<char>),
>
    decreases apis.len(),
{
    if apis.len() == 0 {
        Seq::empty()
    } else if tier_of(apis.last(), needle) == Some(tier) {
        hits(apis.drop_last(), needle, tier).push((apis.last().namespace, apis.last().title))
    } else {
        hits(apis.drop_last(), needle, tier)
    }
}

/// The APIs that answer to a name in the strongest way that any does.
pub open spec fn best_hits(apis: Seq<Published>, needle: Seq<char>) -> (
    Tier,
    Seq<(Seq<char>, Seq<char>)>,
) {
    if hits(apis, needle, Tier::Title).len() > 0 {
        (Tier::Title, hits(apis, needle, Tier::Title))
    } else if hits(apis, needle, Tier::ApiName).len() > 0 {
        (Tier::ApiName, hits(apis, needle, Tier::ApiName))
    } else {
        (Tier::Partial, hits(apis, needle, Tier::Partial))
    }
}

/// Finds the APIs that answer to a name, in the strongest way that any does.
pub fn match_apis(cat: &Vec<(String, Json)>, name: &str) -> (r: (Tier, Vec<(String, String)>))
    ensures
        (r.0, pairs(r.1@)) == best_hits(published(members(cat@)), lowered(name@)),
{
    let needle = to_lowercase(name);
    let list = flatten(cat);
    let ghost all = listed(list@);
    let mut title = no_query();
    let mut api_name = no_query();
    let mut partial = no_query();
    let mut i: usize = 0;
    while i < list.len()
        invariant
            i <= list.len(),
            all == listed(list@),
            pairs(title@) == hits(all.take(i as int), needle@, Tier::Title),
            pairs(api_name@) == hits(all.take(i as int), needle@, Tier::ApiName),
            pairs(partial@) == hits(all.take(i as int), needle@, Tier::Partial),
        decreases list.len() - i,
    {
        assert(all.take(i + 1).drop_last() =~= all.take(i as int));
        assert(all.take(i + 1).last() == list@[i as int]@);
        let l = &list[i];
        let called = str_field(&l.api, "apiName");
        let t = to_lowercase(l.title.as_str());
        let a = to_lowercase(called.as_str());
        if same(t.as_str(), needle.as_str()) {
            param(&mut title, l.namespace.as_str(), l.title.as_str());
        } else if same(a.as_str(), needle.as_str()) {
            param(&mut api_name, l.namespace.as_str(), l.title.as_str());
        } else if holds(t.as_str(), needle.as_str()) || holds(a.as_str(), needle.as_str()) {
            param(&mut partial, l.namespace.as_str(), l.title.as_str());
        }
        i = i + 1;
    }
    assert(all.take(i as int) =~= all);
    assert(pairs(title@).len() == title@.len() && pairs(api_name@).len() == api_name@.len());
    if title.len() > 0 {
        (Tier::Title, title)
    } else if api_name.len() > 0 {
        (Tier::ApiName, api_name)
    } else {
        (Tier::Partial, partial)
    }
}

/// An exact title is never outranked: where an API has the name for a title,
/// only APIs with that title are matched.
pub proof fn an_exact_title_settles_a_name(apis: Seq<Published>, needle: Seq<char>, i: int)
    requires
        0 <= i < apis.len(),
        lowered(apis[i].title) == needle,
    ensures
        best_hits(apis, needle).0 is Title,
        best_hits(apis, needle).1.contains((apis[i].namespace, apis[i].title)),
{
    lemma_hits_contain(apis, needle, i);
}

proof fn lemma_hits_contain(apis: Seq<Published>, needle: Seq<char>, i: int)
    requires
        0 <= i < apis.len(),
        lowered(apis[i].title) == needle,
    ensures
        hits(apis, needle, Tier::Title).contains((apis[i].namespace, apis[i].title)),
    decreases apis.len(),
{
    let x = (apis[i].namespace, apis[i].title);
    let rest = hits(apis.drop_last(), needle, Tier::Title);
    if i == apis.len() - 1 {
        assert(rest.push(x).last() == x);
        assert(rest.push(x).contains(x));
    } else {
        assert(apis.drop_last()[i] == apis[i]);
        lemma_hits_contain(apis.drop_last(), needle, i);
        let k = choose|k: int| 0 <= k < rest.len() && rest[k] == x;
        assert(hits(apis, needle, Tier::Title)[k] == x);
    }
}

/// A list of names in quotes.
pub open spec fn in_quotes(items: Seq<Seq<char>>) -> Seq<char> {
    joined(items.map_values(|s: Seq<char>| "'"@ + s + "'"@), ", "@)
}

/// Lists names in quotes.
pub fn quoted(items: &Vec<String>) -> (r: String)
    ensures
        r@ == in_quotes(texts(items@)),
{
    let ghost all = texts(items@).map_values(|s: Seq<char>| "'"@ + s + "'"@);
    let mut parts: Vec<String> = Vec::new();
    let mut i: usize = 0;
    assert(texts(parts@) =~= all.take(0));
    while i < items.len()
        invariant
            i <= items.len(),
            all == texts(items@).map_values(|s: Seq<char>| "'"@ + s + "'"@),
            texts(parts@) == all.take(i as int),
        decreases items.len() - i,
    {
        let ghost prior = texts(parts@);
        let part = "'".to_owned().concat(items[i].as_str()).concat("'");
        parts.push(part);
        assert(texts(parts@) =~= prior.push(part@));
        assert(all[i as int] == part@);
        assert(all.take(i + 1) =~= all.take(i as int).push(all[i as int]));
        i = i + 1;
    }
    assert(all.take(i as int) =~= all);
    join(&parts, ", ")
}

/// The question whether one of a few names was meant.
pub open spec fn did_you_mean(near: Seq<Seq<char>>) -> Seq<char> {
    if near.len() == 0 {
        Seq::empty()
    } else {
        " — did you mean "@ + in_quotes(near) + "?"@
    }
}

fn ask_if_meant(near: &Vec<String>) -> (r: String)
    ensures
        r@ == did_you_mean(texts(near@)),
{
    assert(texts(near@).len() == near@.len());
    if near.len() == 0 {
        String::new()
    } else {
        " — did you mean ".to_owned().concat(quoted(near).as_str()).concat("?")
    }
}

/// The titles of a list of APIs.
pub open spec fn titles_of(apis: Seq<Published>) -> Seq<Seq<char>> {
    apis.map_values(|p: Published| p.title)
}

/// The failure of a name that no API answers to.
pub open spec fn unmatched(
    apis: Seq<Published>,
    name: Seq<char>,
    namespace: Option<Seq<char>>,
) -> Fault {
    Fault::Usage(
        "no API matching '"@ + name + "'"@ + (match namespace {
            Some(ns) => " in namespace '"@ + ns + "'"@,
            None => Seq::empty(),
        }) + did_you_mean(guesses(name, titles_of(apis))) + "; run `sn api search '"@ + name
            + "'` or `sn api list`"@,
    )
}

/// Reports a name that no API answers to.
pub fn no_such_api(cat: &Vec<(String, Json)>, name: &str, namespace: &Option<String>) -> (e: Error)
    ensures
        e@ == unmatched(published(members(cat@)), name@, text_option(*namespace)),
{
    let list = flatten(cat);
    let ghost all = listed(list@);
    let mut titles: Vec<String> = Vec::new();
    let mut i: usize = 0;
    assert(texts(titles@) =~= titles_of(all.take(0)));
    while i < list.len()
        invariant
            i <= list.len(),
            all == listed(list@),
            texts(titles@) == titles_of(all.take(i as int)),
        decreases list.len() - i,
    {
        let ghost prior = texts(titles@);
        titles.push(list[i].title.clone());
        assert(texts(titles@) =~= prior.push(list@[i as int].title@));
        assert(all[i as int] == list@[i as int]@);
        assert(titles_of(all.take(i + 1)) =~= titles_of(all.take(i as int)).push(
            all[i as int].title,
        ));
        i = i + 1;
    }
    assert(all.take(i as int) =~= all);
    let near = near_matches(name, &titles);
    let scope = match namespace {
        Some(ns) => " in namespace '".to_owned().concat(ns.as_str()).concat("'"),
        None => String::new(),
    };
    Error::Usage(
        "no API matching '".to_owned().concat(name).concat("'").concat(scope.as_str()).concat(
            ask_if_meant(&near).as_str(),
        ).concat("; run `sn api search '").concat(name).concat("'` or `sn api list`"),
    )
}

/// A list without the copies of an item that follow it directly.
pub open spec fn without_repeats(s: Seq<Seq<char>>) -> Seq<Seq<char>>
    decreases s.len(),
{
    if s.len() <= 1 {
        s
    } else if s.last() == s[s.len() - 2] {
        without_repeats(s.drop_last())
    } else {
        without_repeats(s.drop_last()).push(s.last())
    }
}

/// The namespaces of a list of matches.
pub open spec fn match_namespaces(matches: Seq<(Seq<char>, Seq<char>)>) -> Seq<Seq<char>> {
    without_repeats(matches.map_values(|m: (Seq<char>, Seq<char>)| m.0))
}

/// What a caller can do about a name that several APIs answer to. An exact name
/// cannot break an exact tie, so that is never advised.
pub open spec fn advice(tier: Tier, matches: Seq<(Seq<char>, Seq<char>)>) -> Seq<char> {
    let namespaces = match_namespaces(matches);
    if namespaces.len() > 1 {
        if tier is Partial {
            "name one of them exactly, or narrow with `--namespace` (one of: "@ + joined(
                namespaces,
                ", "@,
            ) + ")"@
        } else {
            "an exact name cannot break a tie across namespaces — narrow with `--namespace` (one of: "@
                + joined(namespaces, ", "@) + ")"@
        }
    } else if tier is Partial {
        "name one of them exactly"@
    } else {
        "use the catalogue title from `sn api list --namespace "@ + matches[0].0
            + "`, which wins over a matching apiName"@
    }
}

/// The failure of a name that several APIs answer to.
pub open spec fn ambiguity(tier: Tier, matches: Seq<(Seq<char>, Seq<char>)>, name: Seq<char>) -> Fault {
    Fault::Usage(
        "'"@ + name + "' matches "@ + digits(matches.len()) + " APIs: "@ + joined(
            matches.map_values(|m: (Seq<char>, Seq<char>)| m.0 + "/"@ + m.1),
            ", "@,
        ) + "; "@ + advice(tier, matches),
    )
}

/// Reports a name that several APIs answer to.
pub fn ambiguous(tier: Tier, matches: &Vec<(String, String)>, name: &str) -> (e: Error)
    requires
        matches.len() > 0,
    ensures
        e@ == ambiguity(tier, pairs(matches@), name@),
{
    let ghost all = pairs(matches@);
    let ghost full = all.map_values(|m: (Seq<char>, Seq<char>)| m.0 + "/"@ + m.1);
    let ghost spaces = all.map_values(|m: (Seq<char>, Seq<char>)| m.0);
    let mut names: Vec<String> = Vec::new();
    let mut namespaces: Vec<String> = Vec::new();
    let mut i: usize = 0;
    assert(texts(names@) =~= full.take(0));
    assert(texts(namespaces@) =~= without_repeats(spaces.take(0)));
    while i < matches.len()
        invariant
            i <= matches.len(),
            all == pairs(matches@),
            full == all.map_values(|m: (Seq<char>, Seq<char>)| m.0 + "/"@ + m.1),
            spaces == all.map_values(|m: (Seq<char>, Seq<char>)| m.0),
            texts(names@) == full.take(i as int),
            texts(namespaces@) == without_repeats(spaces.take(i as int)),
        decreases matches.len() - i,
    {
        let ns = matches[i].0.as_str();
        let ghost prior = texts(names@);
        let entry = ns.to_owned().concat("/").concat(matches[i].1.as_str());
        names.push(entry);
        assert(texts(names@) =~= prior.push(entry@));
        assert(all[i as int] == (matches@[i as int].0@, matches@[i as int].1@));
        assert(full.take(i + 1) =~= full.take(i as int).push(full[i as int]));
        assert(spaces.take(i + 1).drop_last() =~= spaces.take(i as int));
        assert(spaces.take(i + 1).last() == ns@);
        let repeated = i > 0 && same(matches[i - 1].0.as_str(), ns);
        if i > 0 {
            assert(spaces.take(i + 1)[i - 1] == all[i - 1].0);
            assert(all[i - 1].0 == matches@[i - 1].0@);
        }
        if !repeated {
            let ghost so_far = texts(namespaces@);
            namespaces.push(ns.to_owned());
            assert(texts(namespaces@) =~= so_far.push(ns@));
            if i == 0 {
                assert(spaces.take(1) =~= so_far.push(ns@));
            }
        }
        i = i + 1;
    }
    assert(full.take(i as int) =~= full);
    assert(spaces.take(i as int) =~= spaces);
    assert(texts(namespaces@).len() == namespaces@.len());
    assert(all[0].0 == matches@[0].0@);
    let hint = if namespaces.len() > 1 {
        let list = join(&namespaces, ", ");
        match tier {
            Tier::Partial => {
                "name one of them exactly, or narrow with `--namespace` (one of: ".to_owned().concat(
                    list.as_str(),
                ).concat(")")
            },
            _ => {
                "an exact name cannot break a tie across namespaces — narrow with `--namespace` (one of: ".to_owned().concat(
                    list.as_str(),
                ).concat(")")
            },
        }
    } else {
        match tier {
            Tier::Partial => "name one of them exactly".to_owned(),
            _ => "use the catalogue title from `sn api list --namespace ".to_owned().concat(
                matches[0].0.as_str(),
            ).concat("`, which wins over a matching apiName"),
        }
    };
    Error::Usage(
        "'".to_owned().concat(name).concat("' matches ").concat(
            crate::text::decimal(matches.len() as u64).as_str(),
        ).concat(" APIs: ").concat(join(&names, ", ").as_str()).concat("; ").concat(
            hint.as_str(),
        ),
    )
}

/// The one API that a name stands for, or why there is none.
pub open spec fn named_api(
    apis: Seq<Published>,
    name: Seq<char>,
    namespace: Option<Seq<char>>,
) -> Result<(Seq<char>, Seq<char>), Fault> {
    let (tier, found) = best_hits(apis, lowered(name));
    if found.len() == 1 {
        Ok(found[0])
    } else if found.len() == 0 {
        Err(unmatched(apis, name, namespace))
    } else {
        Err(ambiguity(tier, found, name))
    }
}

/// Finds the one API that a name stands for: its namespace and its title.
pub fn resolve_api(resp: &Json, name: &str, namespace: &Option<String>) -> (r: Result<
    (String, String),
    Error,
>)
    ensures
        match r {
            Ok(p) => named_api(
                published(namespaces_of(resp@)),
                name@,
                text_option(*namespace),
            ) == Ok::<(Seq<char>, Seq<char>), Fault>((p.0@, p.1@)),
            Err(e) => named_api(
                published(namespaces_of(resp@)),
                name@,
                text_option(*namespace),
            ) == Err::<(Seq<char>, Seq<char>), Fault>(e@),
        },
{
    let cat = catalogue(resp);
    let (tier, mut matches) = match_apis(&cat, name);
    assert(pairs(matches@).len() == matches@.len());
    if matches.len() == 0 {
        return Err(no_such_api(&cat, name, namespace));
    }
    if matches.len() > 1 {
        return Err(ambiguous(tier, &matches, name));
    }
    assert(pairs(matches@)[0] == (matches@[0].0@, matches@[0].1@));
    Ok(matches.remove(0))
}

/// The request for the whole catalogue, or for one namespace.
pub fn fetch_catalogue(namespace: &Option<String>) -> (r: Request)
    ensures
        r@ == (Call {
            method: Method::Get,
            path: if namespace is Some {
                "/api/now/doc/services"@
            } else {
                "/api/now/doc"@
            },
            query: with_param(Seq::empty(), "namespace"@, text_option(*namespace)),
            body: None,
        }),
{
    let mut q = no_query();
    param_option(&mut q, "namespace", namespace);
    if namespace.is_some() {
        get(SERVICES_PATH.to_owned(), q)
    } else {
        get(DOC_PATH.to_owned(), q)
    }
}

/// The request for the names of the namespaces.
pub fn namespaces_request() -> (r: Request)
    ensures
        r@ == (Call {
            method: Method::Get,
            path: "/api/now/doc/namespaces"@,
            query: Seq::empty(),
            body: None,
        }),
{
    get(NAMESPACES_PATH.to_owned(), no_query())
}

/// The strings among a list of documents.
pub open spec fn strings_in(items: Seq<Doc>) -> Seq<Seq<char>>
    decreases items.len(),
{
    if items.len() == 0 {
        Seq::empty()
    } else {
        match items.last() {
            Doc::Str(s) => strings_in(items.drop_last()).push(s),
            _ => strings_in(items.drop_last()),
        }
    }
}

/// The names of the namespaces in an answer.
pub open spec fn names_in(resp: Doc) -> Seq<Seq<char>> {
    match resp.field("result"@) {
        Some(Doc::Array(items)) => strings_in(items),
        _ => Seq::empty(),
    }
}

/// Reads the names of the namespaces from an answer.
pub fn fetch_namespaces(resp: &Json) -> (r: Vec<String>)
    ensures
        texts(r@) == names_in(resp@),
{
    let mut out: Vec<String> = Vec::new();
    assert(texts(out@) =~= Seq::<Seq<char>>::empty());
    if let Some(Json::Array(items)) = resp.get("result") {
        let ghost all = docs(items@);
        let mut i: usize = 0;
        proof {
            lemma_docs(items@);
        }
        while i < items.len()
            invariant
                i <= items.len(),
                all == docs(items@),
                all.len() == items@.len(),
                forall|k: int| 0 <= k < items@.len() ==> #[trigger] all[k] == items@[k]@,
                texts(out@) == strings_in(all.take(i as int)),
            decreases items.len() - i,
        {
            assert(all.take(i + 1).drop_last() =~= all.take(i as int));
            assert(all.take(i + 1).last() == items@[i as int]@);
            if let Json::Str(s) = &items[i] {
                let ghost prior = texts(out@);
                out.push(s.clone());
                assert(texts(out@) =~= prior.push(s@));
            }
            i = i + 1;
        }
        assert(all.take(i as int) =~= all);
    }
    out
}

/// Why a namespace came back empty: it may be misspelled, or publish nothing;
/// where the names could not be read, neither is claimed.
pub open spec fn namespace_fault(ns: Seq<char>, all: Option<Seq<Seq<char>>>) -> Fault {
    Fault::Usage(
        match all {
            None => "no APIs in namespace '"@ + ns
                + "' on this instance; run `sn api list` for the namespaces that publish them"@,
            Some(names) => if names.contains(ns) {
                "namespace '"@ + ns
                    + "' exists on this instance but publishes no REST API; run `sn api list` for the namespaces that do"@
            } else {
                "no namespace '"@ + ns + "' on this instance"@ + did_you_mean(guesses(ns, names))
                    + "; run `sn api list` for the namespaces that publish APIs"@
            },
        },
    )
}

/// What a list of names holds, where there is one.
pub open spec fn texts_option(v: Option<Vec<String>>) -> Option<Seq<Seq<char>>> {
    match v {
        Some(v) => Some(texts(v@)),
        None => None,
    }
}

/// Whether a text is in a list.
pub fn list_has(v: &Vec<String>, s: &str) -> (r: bool)
    ensures
        r == texts(v@).contains(s@),
{
    let ghost all = texts(v@);
    let mut i: usize = 0;
    while i < v.len()
        invariant
            i <= v.len(),
            all == texts(v@),
            forall|j: int| 0 <= j < i ==> #[trigger] all[j] != s@,
        decreases v.len() - i,
    {
        assert(all[i as int] == v@[i as int]@);
        if same(v[i].as_str(), s) {
            return true;
        }
        i = i + 1;
    }
    false
}

/// Reports a namespace that came back empty, given the names of all of them.
pub fn unknown_namespace(ns: &str, all: &Option<Vec<String>>) -> (e: Error)
    ensures
        e@ == namespace_fault(ns@, texts_option(*all)),
{
    let names = match all {
        Some(names) => names,
        None => {
            return Error::Usage(
                "no APIs in namespace '".to_owned().concat(ns).concat(
                    "' on this instance; run `sn api list` for the namespaces that publish them",
                ),
            );
        },
    };
    if list_has(names, ns) {
        return Error::Usage(
            "namespace '".to_owned().concat(ns).concat(
                "' exists on this instance but publishes no REST API; run `sn api list` for the namespaces that do",
            ),
        );
    }
    let near = near_matches(ns, names);
    Error::Usage(
        "no namespace '".to_owned().concat(ns).concat("' on this instance").concat(
            ask_if_meant(&near).as_str(),
        ).concat("; run `sn api list` for the namespaces that publish APIs"),
    )
}

/// A failure says that there is nothing at a path.
pub open spec fn is_missing(f: Fault) -> bool {
    f matches Fault::Api { status, .. } && status == 404
}

/// What a missing path means. Where the whole family of endpoints is missing the
/// release is named; else the reason that the endpoint gives, or its message.
/// Every other failure stays as it is.
pub open spec fn explained_404(
    path: Seq<char>,
    f: Fault,
    family_missing: bool,
    hint: Option<Seq<char>>,
) -> Fault {
    match f {
        Fault::Api { status, message, detail, transaction_id, sn_error } => if status == 404 {
            let what = match detail {
                Some(d) => if trimmed(d).len() > 0 {
                    trimmed(d)
                } else {
                    message
                },
                None => message,
            };
            Fault::Api {
                status,
                message: if family_missing {
                    path + " not found on this instance ("@ + message
                        + "); it is an undocumented REST API Explorer endpoint and may be absent on older releases"@
                } else {
                    path + ": "@ + what + (match hint {
                        Some(h) => h,
                        None => Seq::empty(),
                    })
                },
                detail,
                transaction_id,
                sn_error,
            }
        } else {
            f
        },
        _ => f,
    }
}

/// Explains a missing path.
pub fn rewrite_404(path: &str, err: Error, family_missing: bool, hint: &Option<String>) -> (e: Error)
    ensures
        e@ == explained_404(path@, err@, family_missing, text_option(*hint)),
{
    match err {
        Error::Api { status: 404, message, detail, transaction_id, sn_error } => {
            let explained = if family_missing {
                path.to_owned().concat(" not found on this instance (").concat(
                    message.as_str(),
                ).concat(
                    "); it is an undocumented REST API Explorer endpoint and may be absent on older releases",
                )
            } else {
                let what = match &detail {
                    Some(d) => {
                        let t = trim(d.as_str());
                        if t.as_str().is_empty() {
                            message
                        } else {
                            t
                        }
                    },
                    None => message,
                };
                let start = path.to_owned().concat(": ").concat(what.as_str());
                match hint {
                    Some(h) => start.concat(h.as_str()),
                    None => start.concat(""),
                }
            };
            proof {
                reveal_strlit("");
                assert(""@ =~= Seq::<char>::empty());
            }
            Error::Api { status: 404, message: explained, detail, transaction_id, sn_error }
        },
        other => other,
    }
}

/// Whether a failure has to be explained by probing the family of endpoints.
pub fn needs_probe(err: &Error) -> (r: bool)
    ensures
        r == is_missing(err@),
{
    matches!(err, Error::Api { status: 404, .. })
}

/// Explains a failure, given what the probe of the family of endpoints failed
/// with, if it did. Only a probe that is missing itself proves the family gone.
pub fn diagnose(path: &str, err: Error, probe: &Option<Error>, hint: &Option<String>) -> (e: Error)
    ensures
        e@ == explained_404(
            path@,
            err@,
            probe matches Some(p) && is_missing(p@),
            text_option(*hint),
        ),
{
    let family_missing = match probe {
        Some(p) => needs_probe(p),
        None => false,
    };
    rewrite_404(path, err, family_missing, hint)
}

/// What follows a reply to a request for the catalogue.
#[derive(Debug)]
pub enum CatalogueStep {
    /// This is the catalogue.
    Ready(Json),
    /// The namespace published nothing: ask for the names of all of them and report
    /// it with [`unknown_namespace`].
    Unknown(String),
    /// The endpoint is missing: ask for the names of the namespaces and explain the
    /// failure with [`diagnose`].
    Probe(Error),
    /// The request failed for another reason.
    Fail(Error),
}

/// Takes in the reply. A namespace that comes back empty is unknown, since an
/// unknown name is answered with an empty object.
pub fn receive_catalogue(reply: Result<Json, Error>, namespace: &Option<String>) -> (r:
    CatalogueStep)
    ensures
        match reply {
            Ok(resp) => if namespace is Some && namespaces_of(resp@) == Map::<Seq<char>, Doc>::empty() {
                r matches CatalogueStep::Unknown(ns) && Some(ns@) == text_option(*namespace)
            } else {
                r == CatalogueStep::Ready(resp)
            },
            Err(e) => if is_missing(e@) {
                r == CatalogueStep::Probe(e)
            } else {
                r == CatalogueStep::Fail(e)
            },
        },
{
    match reply {
        Ok(resp) => {
            if let Some(ns) = namespace {
                let cat = catalogue(&resp);
                if cat.len() == 0 {
                    assert(namespaces_of(resp@) =~= Map::empty());
                    return CatalogueStep::Unknown(ns.clone());
                }
                assert(members(cat@).contains_key(cat@[cat@.len() - 1].0@));
            }
            CatalogueStep::Ready(resp)
        },
        Err(e) => if needs_probe(&e) {
            CatalogueStep::Probe(e)
        } else {
            CatalogueStep::Fail(e)
        },
    }
}

/// Explaining a failure loses nothing: the status, the detail, the transaction
/// and the answer of the instance are those of the failure, and so is the exit
/// status.
pub proof fn explanations_keep_the_failure(
    path: Seq<char>,
    f: Fault,
    family_missing: bool,
    hint: Option<Seq<char>>,
)
    ensures
        explained_404(path, f, family_missing, hint).exit_code() == f.exit_code(),
        explained_404(path, f, family_missing, hint).status() == f.status(),
        explained_404(path, f, family_missing, hint).detail() == f.detail(),
        explained_404(path, f, family_missing, hint).transaction_id() == f.transaction_id(),
        explained_404(path, f, family_missing, hint).sn_error() == f.sn_error(),
        !is_missing(f) ==> explained_404(path, f, family_missing, hint) == f,
{
}

/// The parameters of an export.
pub open spec fn spec_params(
    namespace: Seq<char>,
    name: Seq<char>,
    format: SpecFormat,
    version: Option<Seq<char>>,
) -> Seq<(Seq<char>, Seq<char>)> {
    with_param(
        seq![
            ("namespace"@, namespace),
            ("name"@, name),
            (
                "format"@,
                match format {
                    SpecFormat::Json => "json"@,
                    SpecFormat::Yaml => "yaml"@,
                },
            ),
        ],
        "version"@,
        version,
    )
}

/// The request that exports one API.
pub fn spec(namespace: &str, name: &str, format: SpecFormat, version: &Option<String>) -> (r: Request)
    ensures
        r@ == (Call {
            method: Method::Get,
            path: "/api/now/doc/oas_3"@,
            query: spec_params(namespace@, name@, format, text_option(*version)),
            body: None,
        }),
{
    let mut q = no_query();
    param(&mut q, "namespace", namespace);
    param(&mut q, "name", name);
    param(
        &mut q,
        "format",
        match format {
            SpecFormat::Json => "json",
            SpecFormat::Yaml => "yaml",
        },
    );
    assert(pairs(q@) =~= spec_params(namespace@, name@, format, None));
    param_option(&mut q, "version", version);
    get(OAS_PATH.to_owned(), q)
}

/// What to look at where an export is missing.
pub fn spec_hint(namespace: &str) -> (r: String)
    ensures
        r@ == "; `sn api list --namespace "@ + namespace@ + "` reports each API's versions"@,
{
    "; `sn api list --namespace ".to_owned().concat(namespace).concat(
        "` reports each API's versions",
    )
}

/// The text of an export as it is written out: it ends with a line end.
pub fn closed_text(bytes: Vec<u8>) -> (r: Vec<u8>)
    ensures
        r@ == (if bytes@.len() > 0 && bytes@.last() == 10u8 {
            bytes@
        } else {
            bytes@.push(10u8)
        }),
{
    let mut out = bytes;
    let n = out.len();
    if n == 0 || out[n - 1] != 10u8 {
        out.push(10u8);
    }
    out
}

/// The hexadecimal digit for a number below sixteen, with a capital letter.
pub open spec fn capital_hex(n: int) -> char {
    if n < 10 {
        ('0' as int + n) as char
    } else {
        ('A' as int + n - 10) as char
    }
}

/// What stands for a byte in form encoding: letters, digits and a few signs stand for
/// themselves, a plus for the blank, and an escape for every other byte.
pub open spec fn form_byte(b: u8) -> Seq<char> {
    let c = b as char;
    if ('a' <= c && c <= 'z') || ('A' <= c && c <= 'Z') || ('0' <= c && c <= '9') || c == '*' || c
        == '-' || c == '.' || c == '_' {
        seq![c]
    } else if c == ' ' {
        seq!['+']
    } else {
        seq!['%', capital_hex(b as int / 16), capital_hex(b as int % 16)]
    }
}

/// Bytes in form encoding.
pub open spec fn form_bytes(bytes: Seq<u8>) -> Seq<char>
    decreases bytes.len(),
{
    if bytes.len() == 0 {
        Seq::empty()
    } else {
        form_bytes(bytes.drop_last()) + form_byte(bytes.last())
    }
}

/// A parameter in form encoding.
pub open spec fn form_pair(p: (Seq<char>, Seq<char>)) -> Seq<char> {
    form_bytes(encode_utf8(p.0)) + seq!['='] + form_bytes(encode_utf8(p.1))
}

/// Parameters in form encoding.
pub open spec fn encoded(query: Seq<(Seq<char>, Seq<char>)>) -> Seq<char>
    decreases query.len(),
{
    if query.len() == 0 {
        Seq::empty()
    } else if query.len() == 1 {
        form_pair(query.last())
    } else {
        encoded(query.drop_last()) + seq!['&'] + form_pair(query.last())
    }
}

/// A character that means something in a query or behind it.
pub open spec fn parts_query(c: char) -> bool {
    c == '&' || c == '=' || c == '#' || c == ' '
}

proof fn lemma_form_byte(b: u8)
    ensures
        forall|i: int| 0 <= i < form_byte(b).len() ==> !parts_query(#[trigger] form_byte(b)[i]),
{
    let n = b as int;
    let (hi, lo) = (capital_hex(n / 16), capital_hex(n % 16));
    assert('0' <= hi && hi <= 'F');
    assert('0' <= lo && lo <= 'F');
    assert(hi != '=' && lo != '=');
}

/// Nothing in a name or a value splits a query: what parts parameters from each
/// other, names from values and the query from the rest is escaped in them.
pub proof fn no_value_splits_a_query(bytes: Seq<u8>)
    ensures
        forall|i: int|
            0 <= i < form_bytes(bytes).len() ==> !parts_query(#[trigger] form_bytes(bytes)[i]),
    decreases bytes.len(),
{
    if bytes.len() > 0 {
        no_value_splits_a_query(bytes.drop_last());
        lemma_form_byte(bytes.last());
        let (a, b) = (form_bytes(bytes.drop_last()), form_byte(bytes.last()));
        assert forall|i: int| 0 <= i < form_bytes(bytes).len() implies !parts_query(
            #[trigger] form_bytes(bytes)[i],
        ) by {
            if i >= a.len() {
                assert(form_bytes(bytes)[i] == b[i - a.len()]);
            }
        }
    }
}

/// `reqwest::Url::query_pairs_mut` with `extend_pairs`, read back by `query`:
/// the parameters in form encoding.
#[verifier::external_body]
fn encode(query: &Vec<(String, String)>) -> (r: String)
    ensures
        r@ == encoded(pairs(query@)),
{
    let mut url = reqwest::Url::parse("https://encoder.invalid/").unwrap();
    url.query_pairs_mut().extend_pairs(query.iter().map(|(k, v)| (k.as_str(), v.as_str())));
    url.query().unwrap_or("").to_string()
}

/// A path with an encoded query behind it, if there is one.
pub open spec fn with_query(path: Seq<char>, query: Seq<char>) -> Seq<char> {
    if query.len() == 0 {
        path
    } else {
        path + "?"@ + query
    }
}

/// Puts an encoded query behind a path.
pub fn attach_query(path: &str, query: &str) -> (r: String)
    ensures
        r@ == with_query(path@, query@),
{
    if query.is_empty() {
        path.to_owned()
    } else {
        path.to_owned().concat("?").concat(query)
    }
}

/// A path with its query parameters in form encoding.
pub fn path_with_query(path: &str, query: &Vec<(String, String)>) -> (r: String)
    ensures
        r@ == with_query(path@, encoded(pairs(query@))),
        query@.len() == 0 ==> r@ == path@,
{
    attach_query(path, encode(query).as_str())
}

/// An endpoint is shown part by part.
pub proof fn an_endpoint_is_shown_part_by_part(p: Published, version: Seq<char>, r: Doc)
    ensures
        ({
            let d = endpoint_line(p, version, r);
            &&& d.field("namespace"@) == Some(Doc::Str(p.namespace))
            &&& d.field("name"@) == Some(Doc::Str(p.title))
            &&& d.field("api_name"@) == Some(Doc::Str(text_of(p.api, "apiName"@)))
            &&& d.field("version"@) == Some(Doc::Str(version))
            &&& d.field("method"@) == Some(Doc::Str(text_of(r, "httpMethod"@)))
            &&& d.field("route"@) == Some(Doc::Str(text_of(r, "route"@)))
            &&& d.field("description"@) == Some(Doc::Str(text_of(r, "description"@)))
        }),
{
    reveal_strlit("namespace");
    reveal_strlit("name");
    reveal_strlit("api_name");
    reveal_strlit("version");
    reveal_strlit("method");
    reveal_strlit("route");
    reveal_strlit("description");
    assert("namespace"@.len() == 9 && "name"@.len() == 4 && "api_name"@.len() == 8 && "version"@.len() == 7 && "method"@.len() == 6 && "route"@.len() == 5 && "description"@.len() == 11);
}

/// An API and a namespace are shown part by part, with the numbers of what they hold.
pub proof fn an_api_is_shown_part_by_part(p: Published, m: Map<Seq<char>, Doc>)
    requires
        m.dom().finite(),
    ensures
        ({
            let d = api_line(p);
            &&& d.field("namespace"@) == Some(Doc::Str(p.namespace))
            &&& d.field("name"@) == Some(Doc::Str(p.title))
            &&& d.field("api_name"@) == Some(Doc::Str(text_of(p.api, "apiName"@)))
            &&& d.field("endpoints"@) == Some(Doc::Number(digits(endpoints(p.api).len())))
            &&& d.field("scripted"@) == Some(
                Doc::Bool(p.api.field("scripted"@) == Some(Doc::Bool(true))),
            )
            &&& d.field("description"@) == Some(Doc::Str(text_of(p.api, "description"@)))
        }),
        ({
            let d = namespace_line(p.namespace, Doc::Object(m));
            &&& d.field("namespace"@) == Some(Doc::Str(p.namespace))
            &&& d.field("apis"@) == Some(Doc::Number(digits(m.dom().len())))
            &&& d.field("endpoints"@) == Some(
                Doc::Number(digits(endpoint_count(published_in(p.namespace, Doc::Object(m))))),
            )
        }),
{
    reveal_strlit("namespace");
    reveal_strlit("name");
    reveal_strlit("api_name");
    reveal_strlit("versions");
    reveal_strlit("endpoints");
    reveal_strlit("scripted");
    reveal_strlit("description");
    reveal_strlit("apis");
    assert("namespace"@.len() == 9 && "name"@.len() == 4 && "api_name"@.len() == 8 && "versions"@.len() == 8 && "endpoints"@.len() == 9 && "scripted"@.len() == 8 && "description"@.len() == 11 && "apis"@.len() == 4);
    assert("namespace"@[0] != "endpoints"@[0]);
    assert("name"@[0] != "apis"@[0]);
    assert("api_name"@[0] != "versions"@[0]);
    assert("api_name"@[0] != "scripted"@[0]);
    assert("versions"@[0] != "scripted"@[0]);
    crate::order::lemma_in_order(m.dom());
    let ks = in_order(m.dom());
    assert(ks.no_duplicates()) by {
        assert forall|i: int, j: int| 0 <= i < j < ks.len() implies ks[i] != ks[j] by {
            crate::order::lemma_before_irreflexive(ks[i]);
        }
    }
    ks.unique_seq_to_set();
    assert(ks.to_set() =~= m.dom());
}

/// The versions of an API are shown in order, each that it has.
pub proof fn the_versions_of_an_api_are_shown(p: Published, m: Map<Seq<char>, Doc>, v: Seq<char>)
    requires
        m.dom().finite(),
        p.api.field("versions"@) == Some(Doc::Object(m)),
    ensures
        api_line(p).field("versions"@) matches Some(Doc::Array(vs)) && (m.contains_key(v)
            <==> vs.contains(Doc::Str(v))),
{
    reveal_strlit("namespace");
    reveal_strlit("name");
    reveal_strlit("api_name");
    reveal_strlit("versions");
    reveal_strlit("endpoints");
    reveal_strlit("scripted");
    reveal_strlit("description");
    assert("namespace"@.len() == 9 && "name"@.len() == 4 && "api_name"@.len() == 8 && "versions"@.len() == 8 && "endpoints"@.len() == 9 && "scripted"@.len() == 8 && "description"@.len() == 11);
    assert("namespace"@[0] != "endpoints"@[0]);
    assert("api_name"@[0] != "versions"@[0]);
    assert("api_name"@[0] != "scripted"@[0]);
    assert("versions"@[0] != "scripted"@[0]);
    crate::order::lemma_in_order(m.dom());
    let ks = in_order(m.dom());
    let vs = ks.map_values(|v: Seq<char>| Doc::Str(v));
    if m.contains_key(v) {
        assert(ks.contains(v));
        let i = ks.index_of(v);
        assert(vs[i] == Doc::Str(v));
    }
    if vs.contains(Doc::Str(v)) {
        let i = vs.index_of(Doc::Str(v));
        assert(ks[i] == v);
        assert(ks.contains(v));
    }
}

proof fn lemma_resources(m: Map<Seq<char>, Doc>, versions: Seq<Seq<char>>, v: Seq<char>, r: Doc)
    ensures
        resources_in(m, versions).contains((v, r)) <==> versions.contains(v) && items_in(
            m[v].field("resources"@),
        ).contains(r),
    decreases versions.len(),
{
    let all = resources_in(m, versions);
    if versions.len() > 0 {
        let less = versions.drop_last();
        let last = versions.last();
        lemma_resources(m, less, v, r);
        let a = resources_in(m, less);
        let b = version_resources(last, m[last]);
        let items = items_in(m[last].field("resources"@));
        assert(b.contains((v, r)) <==> last == v && items.contains(r)) by {
            if b.contains((v, r)) {
                let i = b.index_of((v, r));
                assert(items[i] == r);
            }
            if last == v && items.contains(r) {
                let i = items.index_of(r);
                assert(b[i] == (v, r));
            }
        }
        assert(all.contains((v, r)) <==> a.contains((v, r)) || b.contains((v, r))) by {
            if a.contains((v, r)) {
                let i = a.index_of((v, r));
                assert(all[i] == (v, r));
            }
            if b.contains((v, r)) {
                let i = b.index_of((v, r));
                assert(all[a.len() + i] == (v, r));
            }
            if all.contains((v, r)) {
                let i = all.index_of((v, r));
                if i < a.len() {
                    assert(a[i] == (v, r));
                } else {
                    assert(b[i - a.len()] == (v, r));
                }
            }
        }
        assert(versions.contains(v) <==> less.contains(v) || last == v) by {
            if less.contains(v) {
                let i = less.index_of(v);
                assert(versions[i] == v);
            }
            if last == v {
                assert(versions[versions.len() - 1] == v);
            }
            if versions.contains(v) {
                let i = versions.index_of(v);
                if i < less.len() {
                    assert(less[i] == v);
                }
            }
        }
    }
}

/// The endpoints of an API are those that its versions list, each under its version.
pub proof fn the_endpoints_are_those_of_the_versions(
    api: Doc,
    m: Map<Seq<char>, Doc>,
    v: Seq<char>,
    r: Doc,
)
    requires
        m.dom().finite(),
        api.field("versions"@) == Some(Doc::Object(m)),
    ensures
        endpoints(api).contains((v, r)) <==> m.contains_key(v) && items_in(
            m[v].field("resources"@),
        ).contains(r),
{
    crate::order::lemma_in_order(m.dom());
    lemma_resources(m, in_order(m.dom()), v, r);
}

proof fn lemma_published(cat: Map<Seq<char>, Doc>, namespaces: Seq<Seq<char>>, p: Published)
    ensures
        published_by(cat, namespaces).contains(p) <==> namespaces.contains(p.namespace)
            && published_in(p.namespace, cat[p.namespace]).contains(p),
    decreases namespaces.len(),
{
    let all = published_by(cat, namespaces);
    if namespaces.len() > 0 {
        let less = namespaces.drop_last();
        let last = namespaces.last();
        lemma_published(cat, less, p);
        let a = published_by(cat, less);
        let b = published_in(last, cat[last]);
        assert(b.contains(p) ==> p.namespace == last);
        assert(all.contains(p) <==> a.contains(p) || b.contains(p)) by {
            if a.contains(p) {
                let i = a.index_of(p);
                assert(all[i] == p);
            }
            if b.contains(p) {
                let i = b.index_of(p);
                assert(all[a.len() + i] == p);
            }
            if all.contains(p) {
                let i = all.index_of(p);
                if i < a.len() {
                    assert(a[i] == p);
                } else {
                    assert(b[i - a.len()] == p);
                }
            }
        }
        assert(namespaces.contains(p.namespace) <==> less.contains(p.namespace) || last
            == p.namespace) by {
            if less.contains(p.namespace) {
                let i = less.index_of(p.namespace);
                assert(namespaces[i] == p.namespace);
            }
            if last == p.namespace {
                assert(namespaces[namespaces.len() - 1] == p.namespace);
            }
            if namespaces.contains(p.namespace) {
                let i = namespaces.index_of(p.namespace);
                if i < less.len() {
                    assert(less[i] == p.namespace);
                }
            }
        }
    }
}

/// The APIs of a catalogue are those that its namespaces hold, each under its title.
pub proof fn the_apis_are_those_of_the_namespaces(
    cat: Map<Seq<char>, Doc>,
    p: Published,
    m: Map<Seq<char>, Doc>,
)
    requires
        cat.dom().finite(),
        m.dom().finite(),
        cat.contains_key(p.namespace) ==> cat[p.namespace] == Doc::Object(m),
    ensures
        published(cat).contains(p) <==> cat.contains_key(p.namespace) && m.contains_key(p.title)
            && m[p.title] == p.api,
{
    crate::order::lemma_in_order(cat.dom());
    crate::order::lemma_in_order(m.dom());
    lemma_published(cat, in_order(cat.dom()), p);
    let ks = in_order(m.dom());
    let l = titled(p.namespace, m, ks);
    if m.contains_key(p.title) && m[p.title] == p.api {
        assert(ks.contains(p.title));
        let i = ks.index_of(p.title);
        assert(l[i] == p);
    }
    if l.contains(p) {
        let i = l.index_of(p);
        assert(ks[i] == p.title);
        assert(ks.contains(ks[i]));
    }
}

/// An endpoint answers to a search where one of the texts of it or its API has what is
/// searched, and never where the method is another.
pub proof fn a_hit_has_what_is_searched(
    p: Published,
    r: Doc,
    needle: Seq<char>,
    method: Option<Seq<char>>,
)
    ensures
        endpoint_hit(p, r, needle, None) <==> crate::text::has(lowered(p.namespace), needle)
            || crate::text::has(lowered(p.title), needle) || crate::text::has(
            lowered(text_of(p.api, "apiName"@)),
            needle,
        ) || crate::text::has(lowered(text_of(p.api, "description"@)), needle) || crate::text::has(
            lowered(text_of(r, "route"@)),
            needle,
        ) || crate::text::has(lowered(text_of(r, "description"@)), needle),
        method matches Some(m) ==> (endpoint_hit(p, r, needle, method) <==> endpoint_hit(
            p,
            r,
            needle,
            None,
        ) && ascii_lowered(text_of(r, "httpMethod"@)) == ascii_lowered(m)),
{
}

proof fn lemma_matches(
    p: Published,
    found: Seq<(Seq<char>, Doc)>,
    needle: Seq<char>,
    method: Option<Seq<char>>,
    line: Doc,
)
    ensures
        api_matches(p, found, needle, method).contains(line) <==> exists|j: int|
            0 <= j < found.len() && endpoint_hit(p, (#[trigger] found[j]).1, needle, method) && line
                == endpoint_line(p, found[j].0, found[j].1),
    decreases found.len(),
{
    let all = api_matches(p, found, needle, method);
    if found.len() > 0 {
        let less = found.drop_last();
        lemma_matches(p, less, needle, method, line);
        let a = api_matches(p, less, needle, method);
        if all.contains(line) {
            let i = all.index_of(line);
            if i < a.len() {
                assert(a[i] == line);
                let j = choose|j: int|
                    0 <= j < less.len() && endpoint_hit(
                        p,
                        (#[trigger] less[j]).1,
                        needle,
                        method,
                    ) && line == endpoint_line(p, less[j].0, less[j].1);
                assert(found[j] == less[j]);
            } else {
                assert(found[found.len() - 1] == found.last());
            }
        }
        if exists|j: int|
            0 <= j < found.len() && endpoint_hit(p, (#[trigger] found[j]).1, needle, method) && line
                == endpoint_line(p, found[j].0, found[j].1) {
            let j = choose|j: int|
                0 <= j < found.len() && endpoint_hit(p, (#[trigger] found[j]).1, needle, method)
                    && line == endpoint_line(p, found[j].0, found[j].1);
            if j < less.len() {
                assert(less[j] == found[j]);
                assert(a.contains(line));
                let i = a.index_of(line);
                assert(all[i] == line);
            } else {
                assert(all[a.len() as int] == line);
            }
        }
    }
}

/// Whether one of the APIs has an endpoint that answers to a search and is shown by the
/// given line.
pub open spec fn found_in(
    apis: Seq<Published>,
    needle: Seq<char>,
    method: Option<Seq<char>>,
    line: Doc,
    i: int,
    j: int,
) -> bool {
    &&& 0 <= i < apis.len()
    &&& 0 <= j < endpoints(apis[i].api).len()
    &&& endpoint_hit(apis[i], endpoints(apis[i].api)[j].1, needle, method)
    &&& line == endpoint_line(
        apis[i],
        endpoints(apis[i].api)[j].0,
        endpoints(apis[i].api)[j].1,
    )
}

/// A search shows the endpoints that answer to it: all of them, and no others.
pub proof fn a_search_shows_every_hit(
    apis: Seq<Published>,
    needle: Seq<char>,
    method: Option<Seq<char>>,
    line: Doc,
)
    ensures
        search_lines(apis, needle, method).contains(line) <==> exists|i: int, j: int| #[trigger]
            found_in(apis, needle, method, line, i, j),
    decreases apis.len(),
{
    let all = search_lines(apis, needle, method);
    if apis.len() > 0 {
        let less = apis.drop_last();
        let last = apis.last();
        let found = endpoints(last.api);
        a_search_shows_every_hit(less, needle, method, line);
        lemma_matches(last, found, needle, method, line);
        let a = search_lines(less, needle, method);
        let b = api_matches(last, found, needle, method);
        if all.contains(line) {
            let k = all.index_of(line);
            if k < a.len() {
                assert(a[k] == line);
                let (i, j) = choose|i: int, j: int| #[trigger]
                    found_in(less, needle, method, line, i, j);
                assert(less[i] == apis[i]);
                assert(found_in(apis, needle, method, line, i, j));
            } else {
                assert(b[k - a.len()] == line);
                let j = choose|j: int|
                    0 <= j < found.len() && endpoint_hit(
                        last,
                        (#[trigger] found[j]).1,
                        needle,
                        method,
                    ) && line == endpoint_line(last, found[j].0, found[j].1);
                assert(found_in(apis, needle, method, line, apis.len() - 1, j));
            }
        }
        if exists|i: int, j: int| #[trigger] found_in(apis, needle, method, line, i, j) {
            let (i, j) = choose|i: int, j: int| #[trigger]
                found_in(apis, needle, method, line, i, j);
            if i < less.len() {
                assert(less[i] == apis[i]);
                assert(found_in(less, needle, method, line, i, j));
                let k = a.index_of(line);
                assert(all[k] == line);
            } else {
                assert(found[j].1 == found[j].1);
                assert(b.contains(line));
                let k = b.index_of(line);
                assert(all[a.len() + k] == line);
            }
        }
    }
}

proof fn lemma_first_alike(ks: Seq<Seq<char>>, ns: Seq<char>)
    ensures
        first_alike(ks, ns) matches Some(k) ==> ks.contains(k) && ascii_lowered(k)
            == ascii_lowered(ns),
        first_alike(ks, ns) is None <==> forall|i: int|
            0 <= i < ks.len() ==> ascii_lowered(#[trigger] ks[i]) != ascii_lowered(ns),
    decreases ks.len(),
{
    if ks.len() > 0 {
        let rest = ks.drop_first();
        lemma_first_alike(rest, ns);
        if ascii_lowered(ks[0]) == ascii_lowered(ns) {
            assert(ks.contains(ks[0]));
        } else {
            if let Some(k) = first_alike(rest, ns) {
                let i = rest.index_of(k);
                assert(ks[i + 1] == k);
            } else {
                assert forall|i: int| 0 <= i < ks.len() implies ascii_lowered(#[trigger] ks[i])
                    != ascii_lowered(ns) by {
                    if i > 0 {
                        assert(rest[i - 1] == ks[i]);
                    }
                }
            }
        }
    }
}

/// A namespace is found by its name, in any case of its letters; the exact name comes
/// first.
pub proof fn a_namespace_is_found_by_its_name(
    cat: Map<Seq<char>, Doc>,
    ns: Seq<char>,
    other: Seq<char>,
)
    requires
        cat.dom().finite(),
    ensures
        cat.contains_key(ns) ==> entry_key(cat, ns) == Some(ns),
        entry_key(cat, ns) matches Some(k) ==> cat.contains_key(k) && ascii_lowered(k)
            == ascii_lowered(ns),
        cat.contains_key(other) && ascii_lowered(other) == ascii_lowered(ns) ==> entry_key(cat, ns)
            is Some,
{
    crate::order::lemma_in_order(cat.dom());
    let ks = in_order(cat.dom());
    lemma_first_alike(ks, ns);
    if cat.contains_key(other) && ascii_lowered(other) == ascii_lowered(ns) {
        assert(ks.contains(other));
        let i = ks.index_of(other);
        assert(ascii_lowered(ks[i]) == ascii_lowered(ns));
    }
}

proof fn lemma_hits(apis: Seq<Published>, needle: Seq<char>, tier: Tier, m: (Seq<char>, Seq<char>))
    ensures
        hits(apis, needle, tier).contains(m) <==> exists|i: int|
            0 <= i < apis.len() && tier_of(#[trigger] apis[i], needle) == Some(tier) && m == (
            apis[i].namespace,
            apis[i].title,
            ),
    decreases apis.len(),
{
    let all = hits(apis, needle, tier);
    if apis.len() > 0 {
        let less = apis.drop_last();
        lemma_hits(less, needle, tier, m);
        let a = hits(less, needle, tier);
        if all.contains(m) {
            let k = all.index_of(m);
            if k < a.len() {
                assert(a[k] == m);
                let i = choose|i: int|
                    0 <= i < less.len() && tier_of(#[trigger] less[i], needle) == Some(tier) && m
                        == (less[i].namespace, less[i].title);
                assert(apis[i] == less[i]);
            } else {
                assert(apis[apis.len() - 1] == apis.last());
            }
        }
        if exists|i: int|
            0 <= i < apis.len() && tier_of(#[trigger] apis[i], needle) == Some(tier) && m == (
            apis[i].namespace,
            apis[i].title,
            ) {
            let i = choose|i: int|
                0 <= i < apis.len() && tier_of(#[trigger] apis[i], needle) == Some(tier) && m == (
                apis[i].namespace,
                apis[i].title,
                );
            if i < less.len() {
                assert(less[i] == apis[i]);
                let k = a.index_of(m);
                assert(all[k] == m);
            } else {
                assert(all[a.len() as int] == m);
            }
        }
    }
}

/// A name stands for an API whose title or name it is or is part of; one that no title
/// or name has stands for none.
pub proof fn a_name_stands_for_an_api_that_has_it(
    apis: Seq<Published>,
    name: Seq<char>,
    namespace: Option<Seq<char>>,
)
    ensures
        named_api(apis, name, namespace) matches Ok(m) ==> exists|i: int|
            0 <= i < apis.len() && m == ((#[trigger] apis[i]).namespace, apis[i].title) && (
            lowered(apis[i].title) == lowered(name) || lowered(text_of(apis[i].api, "apiName"@))
                == lowered(name) || crate::text::has(lowered(apis[i].title), lowered(name))
                || crate::text::has(lowered(text_of(apis[i].api, "apiName"@)), lowered(name))),
        (forall|i: int|
            0 <= i < apis.len() ==> tier_of(#[trigger] apis[i], lowered(name)) is None)
            ==> named_api(apis, name, namespace) == Err::<(Seq<char>, Seq<char>), Fault>(
            unmatched(apis, name, namespace),
        ),
{
    let needle = lowered(name);
    let (tier, found) = best_hits(apis, needle);
    if found.len() > 0 {
        assert(found.contains(found[0]));
        lemma_hits(apis, needle, tier, found[0]);
        let i = choose|i: int|
            0 <= i < apis.len() && tier_of(#[trigger] apis[i], needle) == Some(tier) && found[0]
                == (apis[i].namespace, apis[i].title);
        assert(tier_of(apis[i], needle) is Some);
    }
}

/// The exact title comes before the exact name, and that before what only has the name
/// in it.
pub proof fn an_exact_name_comes_first(p: Published, needle: Seq<char>)
    ensures
        lowered(p.title) == needle <==> tier_of(p, needle) == Some(Tier::Title),
        tier_of(p, needle) == Some(Tier::ApiName) <==> lowered(p.title) != needle && lowered(
            text_of(p.api, "apiName"@),
        ) == needle,
        tier_of(p, needle) == Some(Tier::Partial) ==> crate::text::has(lowered(p.title), needle)
            || crate::text::has(lowered(text_of(p.api, "apiName"@)), needle),
        tier_of(p, needle) is None ==> !crate::text::has(lowered(p.title), needle)
            && !crate::text::has(lowered(text_of(p.api, "apiName"@)), needle),
{
}

/// An export names the API, its namespace, its version and the format.
pub proof fn an_export_names_its_api(
    namespace: Seq<char>,
    name: Seq<char>,
    format: SpecFormat,
    version: Option<Seq<char>>,
)
    ensures
        ({
            let q = spec_params(namespace, name, format, version);
            &&& param_in(q, "namespace"@) == Some(namespace)
            &&& param_in(q, "name"@) == Some(name)
            &&& param_in(q, "version"@) == version
            &&& format is Json ==> param_in(q, "format"@) == Some("json"@)
            &&& format is Yaml ==> param_in(q, "format"@) == Some("yaml"@)
        }),
{
    broadcast use {
        crate::request::lemma_param_with,
        crate::request::lemma_param_flag,
        crate::request::lemma_param_none,
        crate::request::lemma_param_push,
    };

    reveal_strlit("namespace");
    reveal_strlit("name");
    reveal_strlit("version");
    reveal_strlit("format");
    assert("namespace"@.len() == 9 && "name"@.len() == 4 && "version"@.len() == 7 && "format"@.len() == 6);
    let f = match format {
        SpecFormat::Json => "json"@,
        SpecFormat::Yaml => "yaml"@,
    };
    let e = Seq::<(Seq<char>, Seq<char>)>::empty();
    let q = seq![("namespace"@, namespace), ("name"@, name), ("format"@, f)];
    assert(q =~= e.push(("namespace"@, namespace)).push(("name"@, name)).push(("format"@, f)));
}

/// A byte stands for itself, as a plus or as the two digits of its value.
pub proof fn a_byte_is_encoded_by_its_value(b: u8)
    ensures
        form_byte(b).len() == 1 || form_byte(b).len() == 3,
        form_byte(b).len() == 3 ==> form_byte(b)[0] == '%' && form_byte(b)[1]
            == "0123456789ABCDEF"@[b as int / 16] && form_byte(b)[2] == "0123456789ABCDEF"@[b as int
            % 16],
        form_byte(b).len() == 1 ==> form_byte(b)[0] == (if b == 32 {
            '+'
        } else {
            b as char
        }),
        form_byte(b).len() == 1 <==> b == 32 || 48 <= b <= 57 || 65 <= b <= 90 || 97 <= b <= 122
            || b == 42 || b == 45 || b == 46 || b == 95,
{
    reveal_strlit("0123456789ABCDEF");
    let h = b as int / 16;
    let l = b as int % 16;
    assert(0 <= h < 16 && 0 <= l < 16);
    assert forall|n: int| 0 <= n < 16 implies #[trigger] capital_hex(n) == "0123456789ABCDEF"@[n] by {
        if n == 0 {
        } else if n == 1 {
        } else if n == 2 {
        } else if n == 3 {
        } else if n == 4 {
        } else if n == 5 {
        } else if n == 6 {
        } else if n == 7 {
        } else if n == 8 {
        } else if n == 9 {
        } else if n == 10 {
        } else if n == 11 {
        } else if n == 12 {
        } else if n == 13 {
        } else if n == 14 {
        } else {
            assert(n == 15);
        }
    }
    assert(capital_hex(h) == "0123456789ABCDEF"@[h]);
    assert(capital_hex(l) == "0123456789ABCDEF"@[l]);
}

/// Parameters are encoded one by one, name before value, with an ampersand between two.
pub proof fn parameters_are_encoded_one_by_one(
    q: Seq<(Seq<char>, Seq<char>)>,
    name: Seq<char>,
    value: Seq<char>,
)
    ensures
        encoded(q.push((name, value))) == (if q.len() == 0 {
            Seq::empty()
        } else {
            encoded(q) + "&"@
        }) + (form_bytes(encode_utf8(name)) + "="@ + form_bytes(encode_utf8(value))),
        encoded(Seq::empty()) == Seq::<char>::empty(),
{
    reveal_strlit("&");
    reveal_strlit("=");
    assert("&"@ =~= seq!['&']);
    assert("="@ =~= seq!['=']);
    let all = q.push((name, value));
    assert(all.drop_last() =~= q);
    assert(all.last() == (name, value));
    let pair = form_pair((name, value));
    if q.len() == 0 {
        assert(Seq::<char>::empty() + pair =~= pair);
    } else {
        assert(encoded(q) + "&"@ + pair =~= encoded(q) + seq!['&'] + pair);
    }
}

/// The namespace that came back empty is called missing only where the names are known
/// and it is none of them.
pub proof fn a_namespace_is_missing_only_where_it_is_not_named(
    ns: Seq<char>,
    names: Seq<Seq<char>>,
)
    ensures
        names.contains(ns) ==> namespace_fault(ns, Some(names)).message() == "namespace '"@ + ns
            + "' exists on this instance but publishes no REST API; run `sn api list` for the namespaces that do"@,
        namespace_fault(ns, None).message() == "no APIs in namespace '"@ + ns
            + "' on this instance; run `sn api list` for the namespaces that publish them"@,
        !names.contains(ns) ==> ("no namespace '"@ + ns + "' on this instance"@).is_prefix_of(
            namespace_fault(ns, Some(names)).message(),
        ),
{
}

/// No name stands twice in a row in what is listed, and every name that was there is.
pub proof fn repeats_are_left_out(s: Seq<Seq<char>>, t: Seq<char>)
    ensures
        without_repeats(s).contains(t) <==> s.contains(t),
        s.len() > 0 ==> without_repeats(s).len() > 0 && without_repeats(s).last() == s.last(),
        forall|i: int|
            0 < i < without_repeats(s).len() ==> #[trigger] without_repeats(s)[i]
                != without_repeats(s)[i - 1],
    decreases s.len(),
{
    if s.len() > 1 {
        let less = s.drop_last();
        repeats_are_left_out(less, t);
        let a = without_repeats(less);
        let all = without_repeats(s);
        assert(less.last() == s[s.len() - 2]);
        assert(s.contains(t) <==> less.contains(t) || s.last() == t) by {
            if less.contains(t) {
                let i = less.index_of(t);
                assert(s[i] == t);
            }
            if s.last() == t {
                assert(s[s.len() - 1] == t);
            }
            if s.contains(t) {
                let i = s.index_of(t);
                if i < less.len() {
                    assert(less[i] == t);
                }
            }
        }
        if s.last() == s[s.len() - 2] {
            assert(less[less.len() - 1] == s.last());
        } else {
            assert(all.contains(t) <==> a.contains(t) || s.last() == t) by {
                if a.contains(t) {
                    let i = a.index_of(t);
                    assert(all[i] == t);
                }
                if s.last() == t {
                    assert(all[a.len() as int] == t);
                }
                if all.contains(t) {
                    let i = all.index_of(t);
                    if i < a.len() {
                        assert(a[i] == t);
                    }
                }
            }
        }
    }
}

/// Without a namespace every namespace has its line, in order; with one every API of
/// it has.
pub proof fn a_list_has_a_line_for_each(
    resp: Doc,
    cat: Map<Seq<char>, Doc>,
    ns: Seq<char>,
    m: Map<Seq<char>, Doc>,
    i: int,
)
    requires
        resp.field("result"@) == Some(Doc::Object(cat)),
        cat.dom().finite(),
        m.dom().finite(),
        cat.contains_key(ns) && cat[ns] == Doc::Object(m),
    ensures
        list_lines(resp, None) matches Some(ls) && ls.len() == in_order(cat.dom()).len() && (0 <= i
            < ls.len() ==> ls[i] == namespace_line(
            in_order(cat.dom())[i],
            cat[in_order(cat.dom())[i]],
        )),
        list_lines(resp, Some(ns)) matches Some(ls) && ls.len() == in_order(m.dom()).len() && (0
            <= i < ls.len() ==> ls[i] == api_line(
            (Published { namespace: ns, title: in_order(m.dom())[i], api: m[in_order(m.dom())[i]] }),
        )),
{
}

/// A namespace that is not there has no lines.
pub proof fn a_missing_namespace_has_no_lines(resp: Doc, ns: Seq<char>)
    requires
        namespaces_of(resp).dom().finite(),
        forall|k: Seq<char>| #[trigger]
            namespaces_of(resp).contains_key(k) ==> ascii_lowered(k) != ascii_lowered(ns),
    ensures
        list_lines(resp, Some(ns)) is None,
        resp.field("result"@) is None ==> list_lines(resp, None) == Some(Seq::<Doc>::empty()),
{
    let cat = namespaces_of(resp);
    a_namespace_is_found_by_its_name(cat, ns, ns);
    crate::order::lemma_in_order(cat.dom());
    if resp.field("result"@) is None {
        let ks = in_order(cat.dom());
        if ks.len() > 0 {
            assert(ks.contains(ks[0]));
            assert(cat.contains_key(ks[0]));
        }
        let ls = list_lines(resp, None)->0;
        assert(ls =~= Seq::empty());
    }
}

/// The names of namespaces are the texts of the answer, in their order.
pub proof fn names_are_the_texts_of_the_answer(items: Seq<Doc>, name: Seq<char>, d: Doc)
    ensures
        strings_in(items.push(Doc::Str(name))) == strings_in(items).push(name),
        !(d is Str) ==> strings_in(items.push(d)) == strings_in(items),
        strings_in(Seq::empty()).len() == 0,
        names_in(Doc::Object(Map::empty().insert("result"@, Doc::Array(items)))) == strings_in(
            items,
        ),
{
    assert(items.push(Doc::Str(name)).drop_last() =~= items);
    assert(items.push(d).drop_last() =~= items);
}

/// A query stands behind its path and a question mark; an empty one leaves the path as
/// it is.
pub proof fn a_query_stands_behind_its_path(path: Seq<char>, query: Seq<char>)
    ensures
        query.len() == 0 ==> with_query(path, query) == path,
        query.len() > 0 ==> with_query(path, query) == path + "?"@ + query,
{
}

/// A name that several APIs answer to is refused with all of them; the tie is never
/// said to be broken by the exact name it already is.
pub proof fn a_tie_names_all_that_answer(
    tier: Tier,
    matches: Seq<(Seq<char>, Seq<char>)>,
    name: Seq<char>,
)
    requires
        matches.len() > 1,
    ensures
        ambiguity(tier, matches, name) is Usage,
        ("'"@ + name + "' matches "@ + digits(matches.len()) + " APIs: "@ + joined(
            Seq::new(matches.len(), |i: int| matches[i].0 + "/"@ + matches[i].1),
            ", "@,
        )).is_prefix_of(ambiguity(tier, matches, name).message()),
        match_namespaces(matches).len() > 1 ==> has(
            advice(tier, matches),
            joined(match_namespaces(matches), ", "@),
        ),
        match_namespaces(matches).len() <= 1 && tier is Partial ==> advice(tier, matches)
            == "name one of them exactly"@,
        match_namespaces(matches).len() <= 1 && !(tier is Partial) ==> has(
            advice(tier, matches),
            matches[0].0,
        ),
{
    let all = matches.map_values(|m: (Seq<char>, Seq<char>)| m.0 + "/"@ + m.1);
    assert(all =~= Seq::new(matches.len(), |i: int| matches[i].0 + "/"@ + matches[i].1));
    let start = "'"@ + name + "' matches "@ + digits(matches.len()) + " APIs: "@ + joined(
        all,
        ", "@,
    );
    let end = "; "@ + advice(tier, matches);
    assert(ambiguity(tier, matches, name).message() =~= start + end);
    let n = joined(match_namespaces(matches), ", "@);
    if match_namespaces(matches).len() > 1 {
        let lead = if tier is Partial {
            "name one of them exactly, or narrow with `--namespace` (one of: "@
        } else {
            "an exact name cannot break a tie across namespaces — narrow with `--namespace` (one of: "@
        };
        assert(advice(tier, matches) == lead + n + ")"@);
        assert(advice(tier, matches).subrange(lead.len() as int, (lead.len() + n.len()) as int)
            =~= n);
    } else if !(tier is Partial) {
        let lead = "use the catalogue title from `sn api list --namespace "@;
        let a = advice(tier, matches);
        assert(a.subrange(lead.len() as int, (lead.len() + matches[0].0.len()) as int)
            =~= matches[0].0);
    }
}

/// The names that are near are offered in quotes, and nothing is asked where none is.
pub proof fn near_names_are_offered(near: Seq<Seq<char>>, t: Seq<char>)
    ensures
        did_you_mean(Seq::empty()).len() == 0,
        did_you_mean(seq![t]) == " — did you mean "@ + ("'"@ + t + "'"@) + "?"@,
        near.len() > 0 ==> in_quotes(near.push(t)) == in_quotes(near) + ", "@ + ("'"@ + t + "'"@),
{
    let f = |s: Seq<char>| "'"@ + s + "'"@;
    let one = seq![t].map_values(f);
    assert(one =~= seq!["'"@ + t + "'"@]);
    let all = near.push(t).map_values(f);
    assert(all.drop_last() =~= near.map_values(f));
}

} // verus!
