//! Configuration items.
//!
//! The instance takes the fields of an item in an envelope that also names their
//! source, and takes texts only. Fields that are given flat are put in an
//! envelope, and their values are made texts.

use vstd::prelude::*;

use crate::draft::{read, reads, removal, removes, submit, writes, Draft, Sketch};
use crate::error::{text_option, Error, Fault};
use crate::flags::{BodyArgs, EmptyBody};
use crate::json::{dup_entries, field_in, keys, member, members, put, rendered, Doc, Json};
use crate::order::{in_order, listing, texts};
use crate::request::{
    no_query, number_option, param_number, param_number_option, param_option, with_param, Method,
};
use crate::text::digits;

verus! {

/// The commands on configuration items.
#[derive(Debug)]
pub enum CmdbSub {
    List(CmdbListArgs),
    Get(CmdbGetArgs),
    Create(CmdbCreateArgs),
    Update(CmdbUpdateArgs),
    Meta(CmdbMetaArgs),
    Relation(CmdbRelationSub),
}

/// The flags of a list.
#[derive(Debug)]
pub struct CmdbListArgs {
    pub class: String,
    pub query: Option<String>,
    pub setlimit: u32,
    pub offset: Option<u32>,
}

/// An item.
#[derive(Debug)]
pub struct CmdbGetArgs {
    pub class: String,
    pub sys_id: String,
}

/// The flags of a creation.
#[derive(Debug)]
pub struct CmdbCreateArgs {
    pub class: String,
    pub data: Option<String>,
    pub field: Vec<String>,
    pub source: Option<String>,
}

/// The flags of an update.
#[derive(Debug)]
pub struct CmdbUpdateArgs {
    pub class: String,
    pub sys_id: String,
    pub data: Option<String>,
    pub field: Vec<String>,
    pub source: Option<String>,
}

/// A class.
#[derive(Debug)]
pub struct CmdbMetaArgs {
    pub class: String,
}

/// The commands on relations.
#[derive(Debug)]
pub enum CmdbRelationSub {
    Add(CmdbRelationAddArgs),
    Delete(CmdbRelationDeleteArgs),
}

/// The flags of the addition of a relation.
#[derive(Debug)]
pub struct CmdbRelationAddArgs {
    pub class: String,
    pub sys_id: String,
    pub data: Option<String>,
    pub field: Vec<String>,
}

/// The flags of the deletion of a relation.
#[derive(Debug)]
pub struct CmdbRelationDeleteArgs {
    pub class: String,
    pub sys_id: String,
    pub rel_sys_id: String,
    pub yes: bool,
}

/// A text in quotes, with what cannot be shown escaped: what `std` writes for a
/// text with `{:?}`.
pub uninterp spec fn debugged(s: Seq<char>) -> Seq<char>;

/// The `Debug` form of a text, by `std`'s `format!` with `{:?}`. The result is
/// named, not described: it is a function of the text alone.
#[verifier::external_body]
fn debug(s: &str) -> (r: String)
    ensures
        r@ == debugged(s@),
{
    format!("{s:?}")
}

/// The value as a text, where it is a number or a truth value.
pub open spec fn as_text(d: Doc) -> Doc {
    match d {
        Doc::Number(n) => Doc::Str(n),
        Doc::Bool(b) => Doc::Str(
            if b {
                "true"@
            } else {
                "false"@
            },
        ),
        other => other,
    }
}

/// Whether a value can become a text.
pub open spec fn is_plain(d: Doc) -> bool {
    !(d is Object) && !(d is Array)
}

/// The first of the names whose value cannot become a text.
pub open spec fn first_nested(m: Map<Seq<char>, Doc>, names: Seq<Seq<char>>) -> Option<Seq<char>>
    decreases names.len(),
{
    if names.len() == 0 {
        None
    } else if !is_plain(m[names[0]]) {
        Some(names[0])
    } else {
        first_nested(m, names.drop_first())
    }
}

/// The failure of an attribute that cannot become a text.
pub open spec fn nested_fault(name: Seq<char>, d: Doc) -> Fault {
    Fault::Usage(
        "attribute "@ + debugged(name) + " is a JSON "@ + (if d is Array {
            "array"@
        } else {
            "object"@
        })
            + "; the CMDB Instance API takes only string values for attributes (it rejects anything else with an HTTP 500 cast error). Pass it as a string if the column really holds JSON"@,
    )
}

/// The attributes of an item with texts for values.
pub open spec fn stringified(attrs: Doc) -> Result<Doc, Fault> {
    match attrs {
        Doc::Object(m) => match first_nested(m, in_order(m.dom())) {
            Some(k) => Err(nested_fault(k, m[k])),
            None => Ok(Doc::Object(m.map_values(|d: Doc| as_text(d)))),
        },
        other => Ok(other),
    }
}

/// The envelope that a body comes to: one that already is an envelope stays one,
/// anything else is put in one. A flat body's own `source` would be lost either
/// way, and is refused.
pub open spec fn enveloped(body: Doc) -> Result<Map<Seq<char>, Doc>, Fault> {
    let wrapped = Map::empty().insert("attributes"@, body);
    match body {
        Doc::Object(m) => if m.contains_key("attributes"@) && m["attributes"@] is Object {
            Ok(m)
        } else if m.contains_key("source"@) {
            Err(
                Fault::Usage(
                    "\"source\" in a flat body is ambiguous and would be dropped: to the CMDB Instance API a top-level \"source\" is the record's provenance, never an attribute. Pass provenance as --source "@
                        + rendered(m["source"@])
                        + ", or write a class's own `source` column with an explicit envelope: {\"attributes\": {\"source\": ...}, \"source\": \"<provenance>\"}"@,
                ),
            )
        } else {
            Ok(wrapped)
        },
        _ => Ok(wrapped),
    }
}

/// The envelope with its source: named once, as a text, and `Manual Entry` where
/// nobody names it.
pub open spec fn sourced(m: Map<Seq<char>, Doc>, source: Option<Seq<char>>) -> Result<
    Map<Seq<char>, Doc>,
    Fault,
> {
    if m.contains_key("source"@) {
        match source {
            Some(flag) => Err(
                Fault::Usage(
                    "source given twice: --source "@ + debugged(flag) + " and \"source\": "@
                        + rendered(m["source"@]) + " in the body; pass it one way"@,
                ),
            ),
            None => if m["source"@] is Str {
                Ok(m)
            } else {
                Err(
                    Fault::Usage(
                        "\"source\": "@ + rendered(m["source"@])
                            + " must be a string — a choice value from cmdb_ci.discovery_source"@,
                    ),
                )
            },
        }
    } else {
        Ok(
            m.insert(
                "source"@,
                Doc::Str(
                    match source {
                        Some(s) => s,
                        None => "Manual Entry"@,
                    },
                ),
            ),
        )
    }
}

/// The envelope of a write.
pub open spec fn envelope(body: Doc, source: Option<Seq<char>>) -> Result<Doc, Fault> {
    match enveloped(body) {
        Err(f) => Err(f),
        Ok(m) => match sourced(m, source) {
            Err(f) => Err(f),
            Ok(m) => if m.contains_key("attributes"@) {
                match stringified(m["attributes"@]) {
                    Err(f) => Err(f),
                    Ok(a) => Ok(Doc::Object(m.insert("attributes"@, a))),
                }
            } else {
                Ok(Doc::Object(m))
            },
        },
    }
}

/// Makes the attributes of an item texts.
fn stringify_attributes(attrs: &Json) -> (r: Result<Json, Error>)
    ensures
        match stringified(attrs@) {
            Ok(d) => r matches Ok(j) && j@ == d,
            Err(f) => r matches Err(e) && e@ == f,
        },
{
    let entries = match attrs {
        Json::Object(entries) => entries,
        other => {
            return Ok(other.dup());
        },
    };
    let ghost m = members(entries@);
    let names = keys(entries);
    let ghost all = texts(names@);
    let mut out: Vec<(String, Json)> = Vec::new();
    let mut i: usize = 0;
    assert(all.skip(0) =~= all);
    while i < names.len()
        invariant
            i <= names.len(),
            all == texts(names@),
            m == members(entries@),
            attrs@ == Doc::Object(m),
            all == in_order(m.dom()),
            listing(all, m.dom()),
            first_nested(m, all) == first_nested(m, all.skip(i as int)),
            forall|k: Seq<char>|
                members(out@).contains_key(k) <==> exists|j: int|
                    0 <= j < i && #[trigger] all[j] == k,
            forall|k: Seq<char>| #[trigger]
                members(out@).contains_key(k) ==> members(out@)[k] == as_text(m[k]),
        decreases names.len() - i,
    {
        let name = names[i].as_str();
        assert(all[i as int] == name@);
        assert(all.contains(name@));
        assert(m.contains_key(name@));
        assert(all.skip(i as int)[0] == name@);
        assert(all.skip(i as int).drop_first() =~= all.skip(i + 1));
        let ghost prior = members(out@);
        match member(entries, name) {
            None => {},
            Some(v) => {
                let nested = match v {
                    Json::Array(_) => Some("array"),
                    Json::Object(_) => Some("object"),
                    _ => None,
                };
                if let Some(kind) = nested {
                    return Err(
                        Error::Usage(
                            "attribute ".to_owned().concat(debug(name).as_str()).concat(
                                " is a JSON ",
                            ).concat(kind).concat(
                                "; the CMDB Instance API takes only string values for attributes (it rejects anything else with an HTTP 500 cast error). Pass it as a string if the column really holds JSON",
                            ),
                        ),
                    );
                }
                let text = match v {
                    Json::Number(n) => Json::Str(n.clone()),
                    Json::Bool(b) => if *b {
                        Json::str("true")
                    } else {
                        Json::str("false")
                    },
                    other => other.dup(),
                };
                assert(text@ == as_text(m[name@]));
                put(&mut out, name, text);
            },
        }
        assert forall|k: Seq<char>| members(out@).contains_key(k) <==> exists|j: int|
            0 <= j < i + 1 && #[trigger] all[j] == k by {
            if prior.contains_key(k) {
                let j = choose|j: int| 0 <= j < i && #[trigger] all[j] == k;
                assert(all[j] == k);
            }
            if exists|j: int| 0 <= j < i + 1 && #[trigger] all[j] == k {
                let j = choose|j: int| 0 <= j < i + 1 && #[trigger] all[j] == k;
                if j < i {
                    assert(prior.contains_key(k));
                }
            }
        }
        i = i + 1;
    }
    proof {
        assert forall|k: Seq<char>| members(out@).contains_key(k) <==> m.contains_key(k) by {
            if m.contains_key(k) {
                assert(all.contains(k));
                let j = choose|j: int| 0 <= j < all.len() && all[j] == k;
                assert(all[j] == k);
            }
            if members(out@).contains_key(k) {
                let j = choose|j: int| 0 <= j < all.len() && #[trigger] all[j] == k;
                assert(all.contains(k));
            }
        }
        assert(members(out@) =~= m.map_values(|d: Doc| as_text(d)));
    }
    Ok(Json::Object(out))
}

/// Puts a body in the envelope that a write takes.
pub fn ire_envelope(body: Json, source: Option<String>) -> (r: Result<Json, Error>)
    ensures
        match envelope(body@, text_option(source)) {
            Ok(d) => r matches Ok(j) && j@ == d,
            Err(f) => r matches Err(e) && e@ == f,
        },
{
    let is_envelope = match body.get("attributes") {
        Some(Json::Object(_)) => true,
        _ => false,
    };
    let mut entries: Vec<(String, Json)>;
    if is_envelope {
        entries = match &body {
            Json::Object(m) => dup_entries(m),
            _ => Vec::new(),
        };
    } else {
        if let Some(in_body) = body.get("source") {
            return Err(
                Error::Usage(
                    "\"source\" in a flat body is ambiguous and would be dropped: to the CMDB Instance API a top-level \"source\" is the record's provenance, never an attribute. Pass provenance as --source ".to_owned().concat(
                        in_body.render().as_str(),
                    ).concat(
                        ", or write a class's own `source` column with an explicit envelope: {\"attributes\": {\"source\": ...}, \"source\": \"<provenance>\"}",
                    ),
                ),
            );
        }
        entries = Vec::new();
        put(&mut entries, "attributes", body.dup());
    }
    assert(enveloped(body@) == Ok::<Map<Seq<char>, Doc>, Fault>(members(entries@)));
    let found = match member(&entries, "source") {
        Some(in_body) => {
            let is_text = match in_body {
                Json::Str(_) => true,
                _ => false,
            };
            let shown = in_body.render();
            if let Some(flag) = &source {
                return Err(
                    Error::Usage(
                        "source given twice: --source ".to_owned().concat(
                            debug(flag.as_str()).as_str(),
                        ).concat(" and \"source\": ").concat(shown.as_str()).concat(
                            " in the body; pass it one way",
                        ),
                    ),
                );
            }
            if !is_text {
                return Err(
                    Error::Usage(
                        "\"source\": ".to_owned().concat(shown.as_str()).concat(
                            " must be a string — a choice value from cmdb_ci.discovery_source",
                        ),
                    ),
                );
            }
            true
        },
        None => false,
    };
    if !found {
        let chosen = match source {
            Some(s) => s,
            None => "Manual Entry".to_owned(),
        };
        put(&mut entries, "source", Json::Str(chosen));
    }
    let attrs = match member(&entries, "attributes") {
        Some(a) => Some(stringify_attributes(a)),
        None => None,
    };
    match attrs {
        Some(Err(e)) => {
            return Err(e);
        },
        Some(Ok(a)) => put(&mut entries, "attributes", a),
        None => {},
    }
    Ok(Json::Object(entries))
}

proof fn lemma_all_plain(m: Map<Seq<char>, Doc>, names: Seq<Seq<char>>)
    requires
        first_nested(m, names) is None,
    ensures
        forall|k: Seq<char>| #[trigger] names.contains(k) ==> is_plain(m[k]),
    decreases names.len(),
{
    if names.len() > 0 {
        let rest = names.drop_first();
        lemma_all_plain(m, rest);
        assert forall|k: Seq<char>| #[trigger] names.contains(k) implies is_plain(m[k]) by {
            let i = choose|i: int| 0 <= i < names.len() && names[i] == k;
            if i > 0 {
                assert(rest[i - 1] == k);
                assert(rest.contains(k));
            }
        }
    }
}

/// Whether the attributes of an item can be written: each is a text or null.
pub open spec fn writable(attrs: Doc) -> bool {
    attrs matches Doc::Object(m) ==> forall|k: Seq<char>| #[trigger]
        m.contains_key(k) ==> m[k] is Str || m[k] is Null
}

/// What is sent names its source, as a text, beside attributes that are texts or
/// null.
pub proof fn an_envelope_is_complete(body: Map<Seq<char>, Doc>, source: Option<Seq<char>>)
    requires
        body.dom().finite(),
        body.contains_key("attributes"@) ==> (body["attributes"@] matches Doc::Object(m)
            ==> m.dom().finite()),
        envelope(Doc::Object(body), source) is Ok,
    ensures
        envelope(Doc::Object(body), source)->Ok_0 matches Doc::Object(m) && m.contains_key(
            "attributes"@,
        ) && m.contains_key("source"@) && m["source"@] is Str && writable(m["attributes"@]),
{
    reveal_strlit("attributes");
    reveal_strlit("source");
    assert("attributes"@.len() != "source"@.len());
    let start = enveloped(Doc::Object(body))->Ok_0;
    let attrs = start["attributes"@];
    if let Doc::Object(m) = attrs {
        crate::order::lemma_in_order(m.dom());
        lemma_all_plain(m, in_order(m.dom()));
        let done = m.map_values(|d: Doc| as_text(d));
        assert(stringified(attrs) == Ok::<Doc, Fault>(Doc::Object(done)));
        assert forall|k: Seq<char>| #[trigger] done.contains_key(k) implies done[k] is Str
            || done[k] is Null by {
            assert(m.contains_key(k));
            assert(in_order(m.dom()).contains(k));
            assert(is_plain(m[k]));
        }
    }
}

/// The path of an item.
pub open spec fn item_path(class: Seq<char>, sys_id: Seq<char>) -> Seq<char> {
    "/api/now/cmdb/instance/"@ + class + "/"@ + sys_id
}

/// The path of an item.
fn path_of_item(class: &String, sys_id: &String) -> (r: String)
    ensures
        r@ == item_path(class@, sys_id@),
{
    "/api/now/cmdb/instance/".to_owned().concat(class.as_str()).concat("/").concat(
        sys_id.as_str(),
    )
}

/// Lists the items of a class.
pub fn list(args: &CmdbListArgs) -> (r: Draft)
    ensures
        r@ == reads(
            "/api/now/cmdb/instance/"@ + args.class@,
            with_param(
                with_param(Seq::empty(), "sysparm_query"@, text_option(args.query)).push(
                    ("sysparm_limit"@, digits(args.setlimit as nat)),
                ),
                "sysparm_offset"@,
                number_option(args.offset),
            ),
        ),
{
    let mut q = no_query();
    param_option(&mut q, "sysparm_query", &args.query);
    param_number(&mut q, "sysparm_limit", args.setlimit);
    param_number_option(&mut q, "sysparm_offset", args.offset);
    read("/api/now/cmdb/instance/".to_owned().concat(args.class.as_str()), q)
}

/// Reads an item.
pub fn get(args: &CmdbGetArgs) -> (r: Draft)
    ensures
        r@ == reads(item_path(args.class@, args.sys_id@), Seq::empty()),
{
    read(path_of_item(&args.class, &args.sys_id), no_query())
}

/// The request that creates an item, with the body that was read.
pub fn create(class: &str, body: Json, source: Option<String>) -> (r: Result<
    crate::request::Request,
    Error,
>)
    ensures
        match envelope(body@, text_option(source)) {
            Ok(d) => r matches Ok(q) && q@ == (crate::request::Call {
                method: Method::Post,
                path: "/api/now/cmdb/instance/"@ + class@,
                query: Seq::empty(),
                body: Some(d),
            }),
            Err(f) => r matches Err(e) && e@ == f,
        },
{
    match ire_envelope(body, source) {
        Ok(j) => Ok(
            crate::request::with_body(
                Method::Post,
                "/api/now/cmdb/instance/".to_owned().concat(class),
                no_query(),
                j,
            ),
        ),
        Err(e) => Err(e),
    }
}

/// The request that updates an item, with the body that was read.
pub fn update(class: &String, sys_id: &String, body: Json, source: Option<String>) -> (r: Result<
    crate::request::Request,
    Error,
>)
    ensures
        match envelope(body@, text_option(source)) {
            Ok(d) => r matches Ok(q) && q@ == (crate::request::Call {
                method: Method::Patch,
                path: item_path(class@, sys_id@),
                query: Seq::empty(),
                body: Some(d),
            }),
            Err(f) => r matches Err(e) && e@ == f,
        },
{
    match ire_envelope(body, source) {
        Ok(j) => Ok(
            crate::request::with_body(
                Method::Patch,
                path_of_item(class, sys_id),
                no_query(),
                j,
            ),
        ),
        Err(e) => Err(e),
    }
}

/// Reads what is known of a class.
pub fn meta(args: &CmdbMetaArgs) -> (r: Draft)
    ensures
        r@ == reads("/api/now/cmdb/meta/"@ + args.class@, Seq::empty()),
{
    read("/api/now/cmdb/meta/".to_owned().concat(args.class.as_str()), no_query())
}

/// What a command on relations comes to.
pub open spec fn relation_sketch(sub: CmdbRelationSub) -> Sketch {
    match sub {
        CmdbRelationSub::Add(a) => writes(
            Method::Post,
            item_path(a.class@, a.sys_id@) + "/relation"@,
            Seq::empty(),
            BodyArgs { data: a.data, field: a.field },
            EmptyBody::Reject,
        ),
        CmdbRelationSub::Delete(a) => removes(
            a.yes,
            "delete"@,
            "relation "@ + a.rel_sys_id@ + " on "@ + a.class@ + "/"@ + a.sys_id@,
            item_path(a.class@, a.sys_id@) + "/relation/"@ + a.rel_sys_id@,
        ),
    }
}

/// The commands on relations.
pub fn relation(sub: CmdbRelationSub) -> (r: Draft)
    ensures
        r@ == relation_sketch(sub),
{
    match sub {
        CmdbRelationSub::Add(a) => {
            let path = path_of_item(&a.class, &a.sys_id).concat("/relation");
            submit(
                Method::Post,
                path,
                no_query(),
                BodyArgs { data: a.data, field: a.field },
                EmptyBody::Reject,
            )
        },
        CmdbRelationSub::Delete(a) => {
            let path = path_of_item(&a.class, &a.sys_id).concat("/relation/").concat(
                a.rel_sys_id.as_str(),
            );
            let what = "relation ".to_owned().concat(a.rel_sys_id.as_str()).concat(
                " on ",
            ).concat(a.class.as_str()).concat("/").concat(a.sys_id.as_str());
            removal(a.yes, "delete", what, path)
        },
    }
}

/// An attribute is written with its own value, as a text: a text stays as it is, a
/// number and a truth value become their JSON, and null stays null.
pub proof fn an_attribute_is_written_as_text(d: Doc)
    ensures
        d is Str || d == Doc::Null ==> as_text(d) == d,
        d is Number || d is Bool ==> as_text(d) == Doc::Str(rendered(d)),
        is_plain(d) ==> as_text(d) is Str || as_text(d) == Doc::Null,
{
}

proof fn lemma_first_nested(m: Map<Seq<char>, Doc>, names: Seq<Seq<char>>)
    ensures
        first_nested(m, names) is None <==> forall|i: int|
            0 <= i < names.len() ==> is_plain(m[#[trigger] names[i]]),
    decreases names.len(),
{
    if names.len() > 0 {
        let rest = names.drop_first();
        lemma_first_nested(m, rest);
        if is_plain(m[names[0]]) {
            if forall|i: int| 0 <= i < rest.len() ==> is_plain(m[#[trigger] rest[i]]) {
                assert forall|i: int| 0 <= i < names.len() implies is_plain(
                    m[#[trigger] names[i]],
                ) by {
                    if i > 0 {
                        assert(rest[i - 1] == names[i]);
                    }
                }
            } else {
                let i = choose|i: int| 0 <= i < rest.len() && !is_plain(m[#[trigger] rest[i]]);
                assert(names[i + 1] == rest[i]);
            }
        }
    }
}

/// A flat body becomes the attributes of the item, each under its own name, with the
/// source that was given or `Manual Entry`; it is refused exactly where it names a
/// source itself or holds something that is no plain value.
pub proof fn a_flat_body_becomes_the_attributes(
    body: Map<Seq<char>, Doc>,
    source: Option<Seq<char>>,
    k: Seq<char>,
)
    requires
        body.dom().finite(),
        !body.contains_key("attributes"@),
    ensures
        envelope(Doc::Object(body), source) is Ok <==> !body.contains_key("source"@) && forall|
            n: Seq<char>,
        | #[trigger]
            body.contains_key(n) ==> is_plain(body[n]),
        envelope(Doc::Object(body), source) matches Ok(d) ==> {
            &&& d.field("source"@) == Some(
                Doc::Str(
                    match source {
                        Some(s) => s,
                        None => "Manual Entry"@,
                    },
                ),
            )
            &&& field_in(d.field("attributes"@), k) == (if body.contains_key(k) {
                Some(as_text(body[k]))
            } else {
                None
            })
        },
{
    reveal_strlit("attributes");
    reveal_strlit("source");
    assert("attributes"@.len() == 10 && "source"@.len() == 6);
    let ks = in_order(body.dom());
    crate::order::lemma_in_order(body.dom());
    lemma_first_nested(body, ks);
    if forall|n: Seq<char>| #[trigger] body.contains_key(n) ==> is_plain(body[n]) {
        assert forall|i: int| 0 <= i < ks.len() implies is_plain(body[#[trigger] ks[i]]) by {
            assert(ks.contains(ks[i]));
            assert(body.contains_key(ks[i]));
        }
    } else {
        let n = choose|n: Seq<char>| #[trigger] body.contains_key(n) && !is_plain(body[n]);
        assert(ks.contains(n));
        let i = choose|i: int| 0 <= i < ks.len() && ks[i] == n;
        assert(!is_plain(body[ks[i]]));
    }
}

/// An envelope stays an envelope: its own source is kept, and to name it a second
/// time is refused.
pub proof fn an_envelope_names_its_source_once(
    body: Map<Seq<char>, Doc>,
    source: Seq<char>,
    given: Seq<char>,
)
    requires
        body.dom().finite(),
        body.contains_key("attributes"@) && body["attributes"@] is Object,
        body.contains_key("source"@) && body["source"@] == Doc::Str(source),
    ensures
        envelope(Doc::Object(body), Some(given)) is Err,
        envelope(Doc::Object(body), None) matches Ok(d) ==> d.field("source"@) == Some(
            Doc::Str(source),
        ),
{
    reveal_strlit("attributes");
    reveal_strlit("source");
    assert("attributes"@.len() == 10 && "source"@.len() == 6);
}

/// An item is named by its class and its sys_id, and its relations stand below it; to
/// take one away has to be confirmed.
pub proof fn an_item_is_named_by_its_class(sub: CmdbRelationSub, class: Seq<char>, id: Seq<char>)
    ensures
        item_path(class, id) == "/api/now/cmdb/instance/"@ + class + "/"@ + id,
        sub matches CmdbRelationSub::Add(a) ==> relation_sketch(sub).method == Method::Post
            && relation_sketch(sub).path == item_path(a.class@, a.sys_id@) + "/relation"@,
        sub matches CmdbRelationSub::Delete(a) ==> relation_sketch(sub).method == Method::Delete
            && relation_sketch(sub).path == item_path(a.class@, a.sys_id@) + "/relation"@ + "/"@
            + a.rel_sys_id@ && (relation_sketch(sub).deed matches Some(d) && d.yes == a.yes),
{
    reveal_strlit("/relation/");
    reveal_strlit("/relation");
    reveal_strlit("/");
    assert("/relation/"@ =~= "/relation"@ + "/"@);
    if let CmdbRelationSub::Delete(a) = sub {
        let p = item_path(a.class@, a.sys_id@);
        assert(p + "/relation/"@ + a.rel_sys_id@ =~= p + "/relation"@ + "/"@ + a.rel_sys_id@);
    }
}

} // verus!
