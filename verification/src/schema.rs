//! Tables, columns and choices of the instance.

use vstd::prelude::*;

use crate::error::{text_option, Error, Fault};
use crate::flags::OutputMode;
use crate::json::{
    doc_option_ref, docs, field_in, get_in, keys, lemma_docs, lemma_docs_push, member, members, put,
    text_in, text_of_option, Doc, Json,
};
use crate::order::{in_order, lemma_in_order, listing, texts};
use crate::ping::{bool_in, bool_of_option};
use crate::request::{get, no_query, Call, Method, Request};
use crate::text::{ascii_lowered, contains, has, lowered, same, same_ignoring_case, to_lowercase};

verus! {

/// The commands on the schema.
#[derive(Debug)]
pub enum SchemaSub {
    Tables(SchemaTablesArgs),
    Columns(SchemaColumnsArgs),
    Choices(SchemaChoicesArgs),
}

/// The flags of a list of tables.
#[derive(Debug)]
pub struct SchemaTablesArgs {
    pub filter: Option<String>,
    pub reference_only: bool,
}

/// The flags of a list of columns.
#[derive(Debug)]
pub struct SchemaColumnsArgs {
    pub table: String,
    pub filter: Option<String>,
    pub column_type: Option<String>,
    pub mandatory: bool,
    pub writable: bool,
    pub choices_only: bool,
    pub references_only: bool,
}

/// The flags of a list of choices.
#[derive(Debug)]
pub struct SchemaChoicesArgs {
    pub table: String,
    pub field: String,
}

/// The request for every table.
pub fn tables_request() -> (r: Request)
    ensures
        r@ == (Call {
            method: Method::Get,
            path: "/api/now/doc/table/schema"@,
            query: Seq::empty(),
            body: None,
        }),
{
    get("/api/now/doc/table/schema".to_owned(), no_query())
}

/// The request for the columns of a table.
pub fn meta_request(table: &str) -> (r: Request)
    ensures
        r@ == (Call {
            method: Method::Get,
            path: "/api/now/ui/meta/"@ + table@,
            query: Seq::empty(),
            body: None,
        }),
{
    get("/api/now/ui/meta/".to_owned().concat(table), no_query())
}

/// Whether a flag of a document is set.
pub open spec fn flagged(d: Doc, key: Seq<char>) -> bool {
    bool_in(d.field(key)) == Some(true)
}

/// Whether a text of a document holds a needle, whatever the case of its letters.
pub open spec fn mentions(d: Doc, key: Seq<char>, needle: Seq<char>) -> bool {
    has(lowered(text_in(d.field(key))), needle)
}

/// Whether a table passes the flags.
pub open spec fn keeps_table(t: Doc, filter: Option<Seq<char>>, reference_only: bool) -> bool {
    &&& reference_only ==> flagged(t, "reference"@)
    &&& filter matches Some(f) ==> mentions(t, "label"@, lowered(f)) || mentions(
        t,
        "value"@,
        lowered(f),
    )
}

/// The tables that pass the flags, in their order.
pub open spec fn kept_tables(items: Seq<Doc>, filter: Option<Seq<char>>, reference_only: bool) -> Seq<
    Doc,
>
    decreases items.len(),
{
    if items.len() == 0 {
        Seq::empty()
    } else if keeps_table(items.last(), filter, reference_only) {
        kept_tables(items.drop_last(), filter, reference_only).push(items.last())
    } else {
        kept_tables(items.drop_last(), filter, reference_only)
    }
}

/// Whether a flag of a document is set.
fn is_flagged(j: &Json, key: &str) -> (r: bool)
    ensures
        r == flagged(j@, key@),
{
    match bool_of_option(j.get(key)) {
        Some(b) => b,
        None => false,
    }
}

/// Whether a text of a document holds a needle, whatever the case of its letters.
fn does_mention(j: &Json, key: &str, needle: &str) -> (r: bool)
    ensures
        r == mentions(j@, key@, needle@),
{
    let text = text_of_option(j.get(key));
    contains(to_lowercase(text.as_str()).as_str(), needle)
}

/// Whether a table passes the flags.
fn keep_table(t: &Json, args: &SchemaTablesArgs) -> (r: bool)
    ensures
        r == keeps_table(t@, text_option(args.filter), args.reference_only),
{
    if args.reference_only && !is_flagged(t, "reference") {
        return false;
    }
    match &args.filter {
        Some(f) => {
            let needle = to_lowercase(f.as_str());
            does_mention(t, "label", needle.as_str()) || does_mention(t, "value", needle.as_str())
        },
        None => true,
    }
}

/// Leaves out the tables that do not pass the flags.
pub fn filter_tables(items: &Vec<Json>, args: &SchemaTablesArgs) -> (r: Vec<Json>)
    ensures
        docs(r@) == kept_tables(docs(items@), text_option(args.filter), args.reference_only),
{
    let ghost all = docs(items@);
    let ghost filter = text_option(args.filter);
    proof {
        lemma_docs(items@);
    }
    let mut out: Vec<Json> = Vec::new();
    let mut i: usize = 0;
    assert(all.take(0) =~= Seq::empty());
    while i < items.len()
        invariant
            i <= items.len(),
            all == docs(items@),
            all.len() == items@.len(),
            filter == text_option(args.filter),
            forall|k: int| 0 <= k < items@.len() ==> #[trigger] all[k] == items@[k]@,
            docs(out@) == kept_tables(all.take(i as int), filter, args.reference_only),
        decreases items.len() - i,
    {
        broadcast use lemma_docs_push;

        assert(all[i as int] == items@[i as int]@);
        assert(all.take(i + 1).drop_last() =~= all.take(i as int));
        assert(all.take(i + 1).last() == items@[i as int]@);
        if keep_table(&items[i], args) {
            out.push(items[i].dup());
        }
        i = i + 1;
    }
    assert(all.take(i as int) =~= all);
    out
}

/// What is shown of the tables. An answer without a list is shown as it is, since
/// an empty list would say that there are none.
pub open spec fn tables_of(
    resp: Doc,
    filter: Option<Seq<char>>,
    reference_only: bool,
    output: OutputMode,
) -> Doc {
    if output == OutputMode::Raw {
        resp
    } else {
        match resp.field("result"@) {
            Some(Doc::Array(items)) => Doc::Array(kept_tables(items, filter, reference_only)),
            Some(other) => other,
            None => resp,
        }
    }
}

/// What is shown of the tables.
pub fn tables(resp: Json, args: &SchemaTablesArgs, output: OutputMode) -> (r: Json)
    ensures
        r@ == tables_of(resp@, text_option(args.filter), args.reference_only, output),
{
    if let OutputMode::Raw = output {
        return resp;
    }
    match resp.get("result") {
        Some(Json::Array(items)) => {
            return Json::Array(filter_tables(items, args));
        },
        Some(other) => {
            return other.dup();
        },
        None => {},
    }
    resp
}

/// The flags of a list of columns, as a view.
pub ghost struct ColumnFilter {
    pub table: Seq<char>,
    pub filter: Option<Seq<char>>,
    pub column_type: Option<Seq<char>>,
    pub mandatory: bool,
    pub writable: bool,
    pub choices_only: bool,
    pub references_only: bool,
}

impl SchemaColumnsArgs {
    pub open spec fn view(&self) -> ColumnFilter {
        ColumnFilter {
            table: self.table@,
            filter: text_option(self.filter),
            column_type: text_option(self.column_type),
            mandatory: self.mandatory,
            writable: self.writable,
            choices_only: self.choices_only,
            references_only: self.references_only,
        }
    }
}

/// Whether a column has choices.
pub open spec fn has_choices(c: Doc) -> bool {
    c.field("choices"@) matches Some(Doc::Array(items)) && items.len() > 0
}

/// Whether a column passes the flags.
pub open spec fn keeps_column(c: Doc, f: ColumnFilter) -> bool {
    &&& f.mandatory ==> flagged(c, "mandatory"@)
    &&& f.writable ==> !flagged(c, "read_only"@)
    &&& f.choices_only ==> has_choices(c)
    &&& f.references_only ==> text_in(c.field("type"@)) == "reference"@
    &&& f.column_type matches Some(t) ==> ascii_lowered(text_in(c.field("type"@)))
        == ascii_lowered(t)
    &&& f.filter matches Some(n) ==> mentions(c, "name"@, lowered(n)) || mentions(
        c,
        "label"@,
        lowered(n),
    )
}

/// Whether a column passes the flags.
pub fn keep_column(col: &Json, args: &SchemaColumnsArgs) -> (r: bool)
    ensures
        r == keeps_column(col@, args@),
{
    if args.mandatory && !is_flagged(col, "mandatory") {
        return false;
    }
    if args.writable && is_flagged(col, "read_only") {
        return false;
    }
    if args.choices_only {
        match col.get("choices") {
            Some(Json::Array(items)) => {
                proof {
                    lemma_docs(items@);
                }
                if items.len() == 0 {
                    return false;
                }
            },
            _ => {
                return false;
            },
        }
    }
    let kind = text_of_option(col.get("type"));
    if args.references_only && !same(kind.as_str(), "reference") {
        return false;
    }
    if let Some(t) = &args.column_type {
        if !same_ignoring_case(kind.as_str(), t.as_str()) {
            return false;
        }
    }
    match &args.filter {
        Some(f) => {
            let needle = to_lowercase(f.as_str());
            does_mention(col, "name", needle.as_str()) || does_mention(
                col,
                "label",
                needle.as_str(),
            )
        },
        None => true,
    }
}

/// A column with its name.
pub open spec fn with_name(c: Doc, name: Seq<char>) -> Doc {
    match c {
        Doc::Object(m) => Doc::Object(m.insert("name"@, Doc::Str(name))),
        other => other,
    }
}

/// The columns under the given names that pass the flags.
pub open spec fn kept_columns(m: Map<Seq<char>, Doc>, names: Seq<Seq<char>>, f: ColumnFilter) -> Seq<
    Doc,
>
    decreases names.len(),
{
    if names.len() == 0 {
        Seq::empty()
    } else {
        let rest = kept_columns(m, names.drop_last(), f);
        let c = with_name(m[names.last()], names.last());
        if keeps_column(c, f) {
            rest.push(c)
        } else {
            rest
        }
    }
}

/// The columns of a table that pass the flags, in the order of their names.
pub open spec fn columns_in(cols: Option<Doc>, f: ColumnFilter) -> Seq<Doc> {
    match cols {
        Some(Doc::Object(m)) => kept_columns(m, in_order(m.dom()), f),
        _ => Seq::empty(),
    }
}

/// A column with its name.
fn name_column(c: &Json, name: &str) -> (r: Json)
    ensures
        r@ == with_name(c@, name@),
{
    match c {
        Json::Object(entries) => {
            let mut copy = crate::json::dup_entries(entries);
            put(&mut copy, "name", Json::str(name));
            Json::Object(copy)
        },
        other => other.dup(),
    }
}

/// Leaves out the columns that do not pass the flags, and names the others.
pub fn filter_columns(cols: Option<&Json>, args: &SchemaColumnsArgs) -> (r: Vec<Json>)
    ensures
        docs(r@) == columns_in(doc_option_ref(cols), args@),
{
    let mut out: Vec<Json> = Vec::new();
    let entries = match cols {
        Some(Json::Object(entries)) => entries,
        _ => {
            return out;
        },
    };
    let ghost m = members(entries@);
    let names = keys(entries);
    let ghost all = texts(names@);
    let mut i: usize = 0;
    assert(all.take(0) =~= Seq::empty());
    while i < names.len()
        invariant
            i <= names.len(),
            all == texts(names@),
            m == members(entries@),
            listing(all, m.dom()),
            docs(out@) == kept_columns(m, all.take(i as int), args@),
        decreases names.len() - i,
    {
        broadcast use lemma_docs_push;

        let name = names[i].as_str();
        assert(all[i as int] == name@);
        assert(all.contains(name@));
        assert(all.take(i + 1).drop_last() =~= all.take(i as int));
        assert(all.take(i + 1).last() == name@);
        if let Some(c) = member(entries, name) {
            let column = name_column(c, name);
            if keep_column(&column, args) {
                out.push(column);
            }
        }
        i = i + 1;
    }
    assert(all.take(i as int) =~= all);
    out
}

/// What is shown of the columns.
pub fn columns(resp: Json, args: &SchemaColumnsArgs, output: OutputMode) -> (r: Json)
    ensures
        output == OutputMode::Raw ==> r == resp,
        output != OutputMode::Raw ==> r@ == Doc::Array(
            columns_in(field_in(resp@.field("result"@), "columns"@), args@),
        ),
{
    if let OutputMode::Raw = output {
        return resp;
    }
    Json::Array(filter_columns(get_in(resp.get("result"), "columns"), args))
}

/// What is shown of the choices of a column; a column without any is refused.
pub fn choices(resp: Json, args: &SchemaChoicesArgs, output: OutputMode) -> (r: Result<Json, Error>)
    ensures
        output == OutputMode::Raw ==> r == Ok::<Json, Error>(resp),
        output != OutputMode::Raw ==> match field_in(
            field_in(field_in(resp@.field("result"@), "columns"@), args.field@),
            "choices"@,
        ) {
            Some(d) => r matches Ok(j) && j@ == d,
            None => r matches Err(e) && e@ == Fault::Usage(
                "no choices found on field '"@ + args.field@ + "' in table '"@ + args.table@ + "'"@,
            ),
        },
{
    if let OutputMode::Raw = output {
        return Ok(resp);
    }
    match get_in(
        get_in(get_in(resp.get("result"), "columns"), args.field.as_str()),
        "choices",
    ) {
        Some(j) => Ok(j.dup()),
        None => Err(
            Error::Usage(
                "no choices found on field '".to_owned().concat(args.field.as_str()).concat(
                    "' in table '",
                ).concat(args.table.as_str()).concat("'"),
            ),
        ),
    }
}

proof fn lemma_kept_columns(m: Map<Seq<char>, Doc>, names: Seq<Seq<char>>, f: ColumnFilter)
    ensures
        forall|i: int|
            0 <= i < names.len() && keeps_column(with_name(m[#[trigger] names[i]], names[i]), f)
                ==> kept_columns(m, names, f).contains(with_name(m[names[i]], names[i])),
        forall|k: int|
            0 <= k < kept_columns(m, names, f).len() ==> keeps_column(
                #[trigger] kept_columns(m, names, f)[k],
                f,
            ) && exists|i: int|
                0 <= i < names.len() && kept_columns(m, names, f)[k] == with_name(
                    m[#[trigger] names[i]],
                    names[i],
                ),
        kept_columns(m, names, f).len() <= names.len(),
        (forall|i: int|
            0 <= i < names.len() ==> keeps_column(with_name(m[#[trigger] names[i]], names[i]), f))
            ==> kept_columns(m, names, f).len() == names.len(),
    decreases names.len(),
{
    if names.len() > 0 {
        let n = names.drop_last();
        lemma_kept_columns(m, n, f);
        let rest = kept_columns(m, n, f);
        let all = kept_columns(m, names, f);
        let c = with_name(m[names.last()], names.last());
        assert forall|i: int|
            0 <= i < names.len() && keeps_column(with_name(m[#[trigger] names[i]], names[i]), f)
            implies all.contains(with_name(m[names[i]], names[i])) by {
            if i < n.len() {
                assert(n[i] == names[i]);
                let k = choose|k: int| 0 <= k < rest.len() && rest[k] == with_name(m[n[i]], n[i]);
                assert(all[k] == rest[k]);
            } else {
                assert(all[all.len() - 1] == c);
            }
        }
        assert forall|k: int| 0 <= k < all.len() implies keeps_column(#[trigger] all[k], f)
            && exists|i: int|
            0 <= i < names.len() && all[k] == with_name(m[#[trigger] names[i]], names[i]) by {
            if k < rest.len() {
                assert(all[k] == rest[k]);
                let i = choose|i: int|
                    0 <= i < n.len() && rest[k] == with_name(m[#[trigger] n[i]], n[i]);
                assert(names[i] == n[i]);
            } else {
                assert(names[names.len() - 1] == names.last());
            }
        }
        if forall|i: int|
            0 <= i < names.len() ==> keeps_column(with_name(m[#[trigger] names[i]], names[i]), f) {
            assert forall|i: int| 0 <= i < n.len() implies keeps_column(
                with_name(m[#[trigger] n[i]], n[i]),
                f,
            ) by {
                assert(names[i] == n[i]);
            }
            assert(names[names.len() - 1] == names.last());
        }
    }
}

/// Each flag leaves out the columns that lack its property: what is shown under
/// `writable` can be written, under `mandatory` must be filled, under the two
/// restrictions has choices or is a reference, and has the type and the name that
/// were asked for.
pub proof fn a_shown_column_has_every_property_asked_for(
    m: Map<Seq<char>, Doc>,
    f: ColumnFilter,
    k: int,
)
    requires
        0 <= k < columns_in(Some(Doc::Object(m)), f).len(),
    ensures
        ({
            let c = columns_in(Some(Doc::Object(m)), f)[k];
            &&& f.writable ==> c.field("read_only"@) != Some(Doc::Bool(true))
            &&& f.mandatory ==> c.field("mandatory"@) == Some(Doc::Bool(true))
            &&& f.choices_only ==> (c.field("choices"@) matches Some(Doc::Array(items))
                && items.len() > 0)
            &&& f.references_only ==> c.field("type"@) == Some(Doc::Str("reference"@))
            &&& f.column_type matches Some(t) ==> (t.len() > 0 ==> (c.field(
                "type"@,
            ) matches Some(Doc::Str(s)) && ascii_lowered(s) == ascii_lowered(t)))
            &&& f.filter matches Some(t) ==> {
                ||| c.field("name"@) matches Some(Doc::Str(s)) && has(lowered(s), lowered(t))
                ||| c.field("label"@) matches Some(Doc::Str(s)) && has(lowered(s), lowered(t))
                ||| has(lowered(Seq::empty()), lowered(t))
            }
        }),
{
    reveal_strlit("reference");
    lemma_kept_columns(m, in_order(m.dom()), f);
    let c = columns_in(Some(Doc::Object(m)), f)[k];
    assert(keeps_column(c, f));
    let kind = text_in(c.field("type"@));
    if let Some(t) = f.column_type {
        assert(ascii_lowered(t).len() == t.len());
        assert(ascii_lowered(kind).len() == kind.len());
    }
    if f.references_only {
        assert(kind.len() == 9);
    }
}

/// A column that has the properties asked for is shown, under its name: each flag
/// that is not set leaves nothing out.
pub proof fn a_column_with_the_properties_is_shown(
    m: Map<Seq<char>, Doc>,
    f: ColumnFilter,
    name: Seq<char>,
    column: Map<Seq<char>, Doc>,
)
    requires
        m.dom().finite(),
        m.contains_key(name) && m[name] == Doc::Object(column),
        f.writable ==> !column.contains_key("read_only"@) || column["read_only"@] != Doc::Bool(
            true,
        ),
        f.mandatory ==> column.contains_key("mandatory"@) && column["mandatory"@] == Doc::Bool(
            true,
        ),
        f.choices_only ==> column.contains_key("choices"@) && (
        column["choices"@] matches Doc::Array(items) && items.len() > 0),
        f.references_only ==> column.contains_key("type"@) && column["type"@] == Doc::Str(
            "reference"@,
        ),
        f.column_type matches Some(t) ==> column.contains_key("type"@) && column["type"@]
            == Doc::Str(t),
        f.filter matches Some(t) ==> has(lowered(name), lowered(t)) || (column.contains_key(
            "label"@,
        ) && (column["label"@] matches Doc::Str(s) && has(lowered(s), lowered(t)))),
    ensures
        columns_in(Some(Doc::Object(m)), f).contains(
            Doc::Object(column.insert("name"@, Doc::Str(name))),
        ),
{
    reveal_strlit("name");
    reveal_strlit("type");
    reveal_strlit("label");
    reveal_strlit("read_only");
    reveal_strlit("mandatory");
    reveal_strlit("choices");
    assert("name"@ != "type"@) by {
        assert("name"@[0] != "type"@[0]);
    }
    assert("label"@.len() == 5 && "read_only"@.len() == 9 && "mandatory"@.len() == 9
        && "choices"@.len() == 7 && "name"@.len() == 4);
    lemma_in_order(m.dom());
    let ks = in_order(m.dom());
    lemma_kept_columns(m, ks, f);
    assert(ks.contains(name));
    let i = choose|i: int| 0 <= i < ks.len() && ks[i] == name;
    assert(ks[i] == name);
    let c = with_name(m[name], name);
    assert(c == Doc::Object(column.insert("name"@, Doc::Str(name))));
    assert(keeps_column(c, f));
}

proof fn lemma_kept_tables(items: Seq<Doc>, filter: Option<Seq<char>>, reference_only: bool)
    ensures
        kept_tables(items, filter, reference_only) == items.filter(
            |t: Doc| keeps_table(t, filter, reference_only),
        ),
    decreases items.len(),
{
    reveal(Seq::filter);
    if items.len() > 0 {
        lemma_kept_tables(items.drop_last(), filter, reference_only);
    }
}

/// The tables that are shown are those of the answer, in its order, that hold the
/// needle in their label or their name; and only those that can be referred to where
/// that was asked for.
pub proof fn the_tables_shown_pass_the_flags(
    resp: Doc,
    items: Seq<Doc>,
    filter: Option<Seq<char>>,
    reference_only: bool,
    output: OutputMode,
)
    requires
        resp.field("result"@) == Some(Doc::Array(items)),
        output != OutputMode::Raw,
    ensures
        tables_of(resp, filter, reference_only, output) == Doc::Array(
            items.filter(
                |t: Doc|
                    {
                        &&& reference_only ==> t.field("reference"@) == Some(Doc::Bool(true))
                        &&& filter matches Some(f) ==> has(
                            lowered(text_in(t.field("label"@))),
                            lowered(f),
                        ) || has(lowered(text_in(t.field("value"@))), lowered(f))
                    },
            ),
        ),
{
    lemma_kept_tables(items, filter, reference_only);
    let p = |t: Doc| keeps_table(t, filter, reference_only);
    let q = |t: Doc|
        {
            &&& reference_only ==> t.field("reference"@) == Some(Doc::Bool(true))
            &&& filter matches Some(f) ==> has(lowered(text_in(t.field("label"@))), lowered(f))
                || has(lowered(text_in(t.field("value"@))), lowered(f))
        };
    assert(p =~= q);
}

} // verus!
