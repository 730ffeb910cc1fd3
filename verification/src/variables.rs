//! The catalog variables of a record, read and written with verification.
//!
//! The values of a request item and those of any other record stand in different
//! tables. A task holds none: its request item does. A write is accepted by the
//! instance whatever it names, so unknown names are refused before anything is
//! sent, and what was stored is read back afterwards.

use vstd::prelude::*;

use crate::error::{text_option, Error, Fault};
use crate::journal::{
    bad_identifier, bad_sys_id, is_identifier, is_record_id, validate_identifier, validate_sys_id,
};
use crate::json::{
    docs, field_in, get_in, items_in, items_of_option, keys, lemma_docs, lemma_docs_push, member,
    members, put, rendered, text_in, text_of_option, Doc, Json,
};
use crate::named::Named;
use crate::order::{before, in_order, is_before, listing, texts};
use crate::request::{get, no_query, pairs, param, param_in, with_body, Call, Method, Request};
use crate::streams::{plain_error, plain_fault};
use crate::table::{path_of, record_path};
use crate::text::{join, joined, same};

verus! {

/// The commands on variables.
#[derive(Debug)]
pub enum VariablesSub {
    Get(VariablesGetArgs),
    Assign(VariablesSetArgs),
}

/// The flags of a read.
#[derive(Debug)]
pub struct VariablesGetArgs {
    pub table: String,
    pub sys_id: String,
}

/// The flags of a write.
#[derive(Debug)]
pub struct VariablesSetArgs {
    pub table: String,
    pub sys_id: String,
    pub data: Option<String>,
    pub field: Vec<String>,
}

/// One variable.
#[derive(Debug)]
pub struct VarRow {
    pub name: String,
    pub label: Option<String>,
    pub value: String,
}

/// One variable, as a view.
pub ghost struct Variable {
    pub name: Seq<char>,
    pub label: Option<Seq<char>>,
    pub value: Seq<char>,
}

impl VarRow {
    pub open spec fn view(&self) -> Variable {
        Variable { name: self.name@, label: text_option(self.label), value: self.value@ }
    }
}

/// The variables of a list.
pub open spec fn variables(rows: Seq<VarRow>) -> Seq<Variable> {
    rows.map_values(|r: VarRow| r@)
}

/// A variable as JSON, without a label where it has none.
pub open spec fn variable_doc(v: Variable) -> Doc {
    Doc::Object(
        crate::error::with_text(
            Map::empty().insert("name"@, Doc::Str(v.name)),
            "label"@,
            v.label,
        ).insert("value"@, Doc::Str(v.value)),
    )
}

/// Variables as a JSON array.
pub open spec fn variables_doc(s: Seq<Variable>) -> Doc {
    Doc::Array(s.map_values(|v: Variable| variable_doc(v)))
}

/// Variables as a JSON array.
pub fn rows_json(rows: &Vec<VarRow>) -> (r: Json)
    ensures
        r@ == variables_doc(variables(rows@)),
{
    let ghost all = variables(rows@).map_values(|v: Variable| variable_doc(v));
    let mut out: Vec<Json> = Vec::new();
    let mut i: usize = 0;
    assert(docs(out@) =~= all.take(0));
    while i < rows.len()
        invariant
            i <= rows.len(),
            all == variables(rows@).map_values(|v: Variable| variable_doc(v)),
            docs(out@) == all.take(i as int),
        decreases rows.len() - i,
    {
        broadcast use lemma_docs_push;

        let row = &rows[i];
        assert(variables(rows@)[i as int] == row@);
        let mut m: Vec<(String, Json)> = Vec::new();
        put(&mut m, "name", Json::str(row.name.as_str()));
        crate::error::put_text(&mut m, "label", &row.label);
        put(&mut m, "value", Json::str(row.value.as_str()));
        out.push(Json::Object(m));
        assert(all[i as int] == variable_doc(row@));
        assert(all.take(i + 1) =~= all.take(i as int).push(all[i as int]));
        i = i + 1;
    }
    assert(all.take(i as int) =~= all);
    Json::Array(out)
}

/// Puts a variable in its place: behind every one whose name is not greater.
pub open spec fn slotted(s: Seq<Variable>, v: Variable) -> Seq<Variable>
    decreases s.len(),
{
    if s.len() == 0 {
        seq![v]
    } else if before(v.name, s.last().name) {
        slotted(s.drop_last(), v).push(s.last())
    } else {
        s.push(v)
    }
}

/// Variables in the order of their names; variables of one name keep their order.
pub open spec fn by_name(s: Seq<Variable>) -> Seq<Variable>
    decreases s.len(),
{
    if s.len() == 0 {
        s
    } else {
        slotted(by_name(s.drop_last()), s.last())
    }
}

/// No variable has a smaller name than one before it.
pub open spec fn is_by_name(s: Seq<Variable>) -> bool {
    forall|i: int, j: int|
        0 <= i < j < s.len() ==> !before((#[trigger] s[j]).name, (#[trigger] s[i]).name)
}

proof fn lemma_slotted(s: Seq<Variable>, n: Variable)
    requires
        is_by_name(s),
    ensures
        is_by_name(slotted(s, n)),
        slotted(s, n).to_multiset() == s.to_multiset().insert(n),
        forall|k: int|
            0 <= k < slotted(s, n).len() ==> (#[trigger] slotted(s, n)[k]) == n || s.contains(
                slotted(s, n)[k],
            ),
    decreases s.len(),
{
    broadcast use vstd::seq_lib::group_to_multiset_ensures;

    if s.len() == 0 {
        assert(seq![n] =~= s.push(n));
    } else if before(n.name, s.last().name) {
        let t = s.drop_last();
        assert forall|i: int, j: int| 0 <= i < j < t.len() implies !before(
            (#[trigger] t[j]).name,
            (#[trigger] t[i]).name,
        ) by {
            assert(t[i] == s[i] && t[j] == s[j]);
        }
        lemma_slotted(t, n);
        let p = slotted(t, n);
        let all = p.push(s.last());
        assert forall|i: int, j: int| 0 <= i < j < all.len() implies !before(
            (#[trigger] all[j]).name,
            (#[trigger] all[i]).name,
        ) by {
            if j == p.len() {
                if p[i] == n {
                    if before(s.last().name, n.name) {
                        crate::order::lemma_before_transitive(n.name, s.last().name, n.name);
                        crate::order::lemma_before_irreflexive(n.name);
                    }
                } else {
                    let k = choose|k: int| 0 <= k < t.len() && t[k] == p[i];
                    assert(s[k] == p[i]);
                    assert(!before(s[s.len() - 1].name, s[k].name));
                }
            } else {
                assert(all[i] == p[i] && all[j] == p[j]);
            }
        }
        assert forall|k: int| 0 <= k < all.len() implies (#[trigger] all[k]) == n || s.contains(
            all[k],
        ) by {
            if k < p.len() {
                if p[k] != n {
                    let q = choose|q: int| 0 <= q < t.len() && t[q] == p[k];
                    assert(s[q] == p[k]);
                }
            } else {
                assert(all[k] == s[s.len() - 1]);
            }
        }
        assert(s =~= t.push(s.last()));
        assert(all.to_multiset() =~= s.to_multiset().insert(n));
    } else {
        let all = s.push(n);
        assert forall|i: int, j: int| 0 <= i < j < all.len() implies !before(
            (#[trigger] all[j]).name,
            (#[trigger] all[i]).name,
        ) by {
            if j == s.len() {
                let l = s[s.len() - 1];
                assert(!before(n.name, l.name));
                if i < s.len() - 1 {
                    assert(!before(l.name, s[i].name));
                    if before(n.name, s[i].name) {
                        crate::order::lemma_before_total(l.name, n.name);
                        if before(l.name, n.name) {
                            crate::order::lemma_before_transitive(l.name, n.name, s[i].name);
                        }
                    }
                }
            } else {
                assert(all[i] == s[i] && all[j] == s[j]);
            }
        }
        assert forall|k: int| 0 <= k < all.len() implies (#[trigger] all[k]) == n || s.contains(
            all[k],
        ) by {
            if k < s.len() {
                assert(all[k] == s[k]);
            }
        }
    }
}

/// Sorting variables loses and adds none, and gives them in the order of their
/// names.
pub proof fn variables_are_listed_by_name(s: Seq<Variable>)
    ensures
        is_by_name(by_name(s)),
        by_name(s).to_multiset() == s.to_multiset(),
    decreases s.len(),
{
    broadcast use vstd::seq_lib::group_to_multiset_ensures;

    if s.len() > 0 {
        variables_are_listed_by_name(s.drop_last());
        lemma_slotted(by_name(s.drop_last()), s.last());
        assert(s =~= s.drop_last().push(s.last()));
    }
}

/// Puts a variable in its place.
fn slot(v: &mut Vec<VarRow>, e: VarRow)
    ensures
        variables(final(v)@) == slotted(variables(old(v)@), e@),
{
    let ghost all = variables(v@);
    let ghost n = e@;
    let mut i: usize = v.len();
    assert(all.take(i as int) =~= all);
    assert(slotted(all, n) =~= slotted(all.take(i as int), n) + all.skip(i as int));
    while i > 0 && is_before(e.name.as_str(), v[i - 1].name.as_str())
        invariant
            i <= v.len(),
            all == variables(v@),
            n == e@,
            v@ == old(v)@,
            slotted(all, n) == slotted(all.take(i as int), n) + all.skip(i as int),
        decreases i,
    {
        let ghost t = all.take(i as int);
        assert(t.last() == all[i - 1]);
        assert(all[i - 1] == v@[i - 1]@);
        assert(t.drop_last() =~= all.take(i - 1));
        assert(slotted(t.drop_last(), n).push(t.last()) + all.skip(i as int) =~= slotted(
            all.take(i - 1),
            n,
        ) + all.skip(i - 1));
        i = i - 1;
    }
    proof {
        let t = all.take(i as int);
        if i > 0 {
            assert(t.last() == all[i - 1]);
            assert(all[i - 1] == v@[i - 1]@);
        }
        assert(slotted(t, n) =~= t.push(n));
    }
    v.insert(i, e);
    assert(variables(v@) =~= all.take(i as int).push(n) + all.skip(i as int));
}

/// Where the variables of a table stand: the path, the condition, and the columns
/// that hold the name, the label and the value.
pub ghost struct Store {
    pub path: Seq<char>,
    pub condition: Seq<char>,
    pub name: Seq<char>,
    pub label: Seq<char>,
    pub value: Seq<char>,
}

/// Where the variables of a record stand.
pub open spec fn store(table: Seq<char>, sys_id: Seq<char>) -> Store {
    if table == "sc_req_item"@ {
        Store {
            path: "/api/now/table/sc_item_option_mtom"@,
            condition: "request_item="@ + sys_id,
            name: "sc_item_option.item_option_new.name"@,
            label: "sc_item_option.item_option_new.question_text"@,
            value: "sc_item_option.value"@,
        }
    } else {
        Store {
            path: "/api/now/table/question_answer"@,
            condition: "table_name="@ + table + "^table_sys_id="@ + sys_id,
            name: "question.name"@,
            label: "question.question_text"@,
            value: "value"@,
        }
    }
}

/// The request that reads the variables of a record.
pub open spec fn pool_call(table: Seq<char>, sys_id: Seq<char>) -> Call {
    let s = store(table, sys_id);
    Call {
        method: Method::Get,
        path: s.path,
        query: seq![
            ("sysparm_query"@, s.condition),
            ("sysparm_fields"@, s.name + ","@ + s.label + ","@ + s.value),
            ("sysparm_display_value"@, "false"@),
            ("sysparm_limit"@, "1000"@),
        ],
        body: None,
    }
}

/// The request that asks whether a record is there at all.
pub open spec fn probe_call(table: Seq<char>, sys_id: Seq<char>) -> Call {
    Call {
        method: Method::Get,
        path: record_path(table, sys_id),
        query: seq![("sysparm_fields"@, "sys_id"@)],
        body: None,
    }
}

/// The columns that hold the name, the label and the value.
fn columns(table: &str) -> (r: (&'static str, &'static str, &'static str))
    ensures
        forall|id: Seq<char>|
            {
                let s = #[trigger] store(table@, id);
                s.name == r.0@ && s.label == r.1@ && s.value == r.2@
            },
{
    if same(table, "sc_req_item") {
        (
            "sc_item_option.item_option_new.name",
            "sc_item_option.item_option_new.question_text",
            "sc_item_option.value",
        )
    } else {
        ("question.name", "question.question_text", "value")
    }
}

/// Makes the request that reads the variables of a record.
fn pool_request(table: &str, sys_id: &str) -> (r: Request)
    ensures
        r@ == pool_call(table@, sys_id@),
{
    let (name, label, value) = columns(table);
    let ghost s = store(table@, sys_id@);
    let item = same(table, "sc_req_item");
    let condition = if item {
        "request_item=".to_owned().concat(sys_id)
    } else {
        "table_name=".to_owned().concat(table).concat("^table_sys_id=").concat(sys_id)
    };
    let path = if item {
        "/api/now/table/sc_item_option_mtom".to_owned()
    } else {
        "/api/now/table/question_answer".to_owned()
    };
    let fields = name.to_owned().concat(",").concat(label).concat(",").concat(value);
    let mut q = no_query();
    param(&mut q, "sysparm_query", condition.as_str());
    param(&mut q, "sysparm_fields", fields.as_str());
    param(&mut q, "sysparm_display_value", "false");
    param(&mut q, "sysparm_limit", "1000");
    assert(pairs(q@) =~= pool_call(table@, sys_id@).query);
    get(path, q)
}

/// Makes the request that asks whether a record is there at all.
fn probe_request(table: &str, sys_id: &str) -> (r: Request)
    ensures
        r@ == probe_call(table@, sys_id@),
{
    let mut q = no_query();
    param(&mut q, "sysparm_fields", "sys_id");
    assert(pairs(q@) =~= probe_call(table@, sys_id@).query);
    get(path_of(table, sys_id), q)
}

/// A label, where there is one.
pub open spec fn label_of(s: Seq<char>) -> Option<Seq<char>> {
    if s.len() == 0 {
        None
    } else {
        Some(s)
    }
}

/// The variables that the rows of an answer hold. Rows without a name are layout,
/// and are left out.
pub open spec fn named_rows(s: Store, rows: Seq<Doc>) -> Seq<Variable>
    decreases rows.len(),
{
    if rows.len() == 0 {
        Seq::empty()
    } else {
        let rest = named_rows(s, rows.drop_last());
        let row = rows.last();
        let name = text_in(row.field(s.name));
        if name.len() == 0 {
            rest
        } else {
            rest.push(
                Variable {
                    name,
                    label: label_of(text_in(row.field(s.label))),
                    value: text_in(row.field(s.value)),
                },
            )
        }
    }
}

/// The variables of an answer, in the order of their names.
pub open spec fn pool(table: Seq<char>, resp: Doc) -> Seq<Variable> {
    by_name(named_rows(store(table, Seq::empty()), items_in(resp.field("result"@))))
}

/// Reads the variables of an answer.
pub fn var_rows(table: &str, resp: &Json) -> (r: Vec<VarRow>)
    ensures
        variables(r@) == pool(table@, resp@),
{
    let rows = items_of_option(resp.get("result"));
    let (name_key, label_key, value_key) = columns(table);
    let ghost s = store(table@, Seq::empty());
    let ghost all = docs(rows@);
    proof {
        lemma_docs(rows@);
    }
    let mut out: Vec<VarRow> = Vec::new();
    let mut i: usize = 0;
    assert(all.take(0) =~= Seq::empty());
    assert(variables(out@) =~= by_name(named_rows(s, all.take(0))));
    while i < rows.len()
        invariant
            i <= rows.len(),
            all == docs(rows@),
            all.len() == rows@.len(),
            forall|k: int| 0 <= k < rows@.len() ==> #[trigger] all[k] == rows@[k]@,
            s.name == name_key@,
            s.label == label_key@,
            s.value == value_key@,
            variables(out@) == by_name(named_rows(s, all.take(i as int))),
        decreases rows.len() - i,
    {
        let row = &rows[i];
        assert(all[i as int] == row@);
        assert(all.take(i + 1).drop_last() =~= all.take(i as int));
        let ghost prior = named_rows(s, all.take(i as int));
        let name = text_of_option(row.get(name_key));
        if !name.as_str().is_empty() {
            let label = text_of_option(row.get(label_key));
            let value = text_of_option(row.get(value_key));
            let label = if label.as_str().is_empty() {
                None
            } else {
                Some(label)
            };
            let v = VarRow { name, label, value };
            assert(prior.push(v@).drop_last() =~= prior);
            slot(&mut out, v);
        }
        i = i + 1;
    }
    assert(all.take(i as int) =~= all);
    out
}

/// The values of variables under their names; where a name stands twice the later
/// value counts.
pub open spec fn values(s: Seq<Variable>) -> Map<Seq<char>, Seq<char>>
    decreases s.len(),
{
    if s.len() == 0 {
        Map::empty()
    } else {
        values(s.drop_last()).insert(s.last().name, s.last().value)
    }
}

/// The texts of a table of values.
pub open spec fn value_texts(m: Map<Seq<char>, String>) -> Map<Seq<char>, Seq<char>> {
    m.map_values(|s: String| s@)
}

/// The values of variables under their names.
pub fn var_map(rows: &Vec<VarRow>) -> (r: Named<String>)
    ensures
        value_texts(r@) == values(variables(rows@)),
{
    let ghost all = variables(rows@);
    let mut out: Named<String> = Named::new();
    let mut i: usize = 0;
    assert(all.take(0) =~= Seq::empty());
    assert(value_texts(out@) =~= values(all.take(0)));
    while i < rows.len()
        invariant
            i <= rows.len(),
            all == variables(rows@),
            value_texts(out@) == values(all.take(i as int)),
        decreases rows.len() - i,
    {
        assert(all.take(i + 1).drop_last() =~= all.take(i as int));
        assert(all.take(i + 1).last() == rows@[i as int]@);
        let ghost prior = out@;
        let value = rows[i].value.clone();
        out.insert(rows[i].name.as_str(), value);
        assert(value_texts(prior.insert(rows@[i as int].name@, value)) =~= value_texts(
            prior,
        ).insert(rows@[i as int].name@, value@));
        i = i + 1;
    }
    assert(all.take(i as int) =~= all);
    out
}

/// The text that a value of a body is expected to read back as: every value is
/// stored as a text.
pub open spec fn stored(d: Doc) -> Seq<char> {
    match d {
        Doc::Str(s) => s,
        Doc::Bool(b) => if b {
            "true"@
        } else {
            "false"@
        },
        Doc::Number(n) => n,
        Doc::Null => Seq::empty(),
        other => rendered(other),
    }
}

/// The text that a value of a body is expected to read back as.
pub fn comparable(v: &Json) -> (r: String)
    ensures
        r@ == stored(v@),
{
    match v {
        Json::Str(s) => s.clone(),
        Json::Bool(b) => if *b {
            "true".to_owned()
        } else {
            "false".to_owned()
        },
        Json::Number(n) => n.clone(),
        Json::Null => String::new(),
        other => other.render(),
    }
}

/// How far the reading of variables has come.
#[derive(Debug, Clone, Copy, PartialEq, Eq, Structural)]
pub enum PoolPhase {
    /// The request item of a task was asked for.
    Target,
    /// The variables were asked for.
    Rows,
    /// None were there, and the record itself was asked for.
    Probe,
}

/// The reading of the variables of a record. `from` is the task that the record
/// was named by, where it was one. With `probe`, a record without variables is
/// asked for itself, so that one that is not there is an error.
#[derive(Debug)]
pub struct PoolRead {
    pub table: String,
    pub sys_id: String,
    pub from: Option<String>,
    pub phase: PoolPhase,
    pub probe: bool,
}

/// The reading of the variables of a record, as a view.
pub ghost struct Reading {
    pub table: Seq<char>,
    pub sys_id: Seq<char>,
    pub from: Option<Seq<char>>,
    pub phase: PoolPhase,
    pub probe: bool,
}

/// What comes next in reading variables.
#[derive(Debug)]
pub enum PoolStep {
    Ask(Request),
    Done(Vec<VarRow>),
    Fail(Error),
}

/// What comes next in reading variables, as a view.
pub ghost enum PoolNext {
    Ask(Call),
    Done(Seq<Variable>),
    Fail(Fault),
}

impl PoolRead {
    pub open spec fn view(&self) -> Reading {
        Reading {
            table: self.table@,
            sys_id: self.sys_id@,
            from: text_option(self.from),
            phase: self.phase,
            probe: self.probe,
        }
    }
}

impl PoolStep {
    pub open spec fn view(&self) -> PoolNext {
        match self {
            PoolStep::Ask(r) => PoolNext::Ask(r@),
            PoolStep::Done(v) => PoolNext::Done(variables(v@)),
            PoolStep::Fail(e) => PoolNext::Fail(e@),
        }
    }
}

/// The request that finds the request item of a task.
pub open spec fn item_call(sys_id: Seq<char>) -> Call {
    Call {
        method: Method::Get,
        path: "/api/now/table/sc_task/"@ + sys_id,
        query: seq![
            ("sysparm_fields"@, "request_item"@),
            ("sysparm_display_value"@, "false"@),
        ],
        body: None,
    }
}

/// How the reading begins: with the request item for a task, with the variables
/// for anything else.
pub open spec fn pool_start(table: Seq<char>, sys_id: Seq<char>, probe: bool) -> (Reading, Call) {
    if table == "sc_task"@ {
        (
            Reading { table, sys_id, from: None, phase: PoolPhase::Target, probe },
            item_call(sys_id),
        )
    } else {
        (
            Reading { table, sys_id, from: None, phase: PoolPhase::Rows, probe },
            pool_call(table, sys_id),
        )
    }
}

/// How the reading goes on with an answer.
pub open spec fn pool_next(p: Reading, resp: Doc) -> (Reading, PoolNext) {
    match p.phase {
        PoolPhase::Target => {
            let item = text_in(
                field_in(field_in(resp.field("result"@), "request_item"@), "value"@),
            );
            if item.len() == 0 {
                (
                    p,
                    PoolNext::Fail(
                        plain_fault(
                            200,
                            "sc_task "@ + p.sys_id
                                + " has no request_item; its variable pool cannot be located"@,
                        ),
                    ),
                )
            } else {
                (
                    Reading {
                        table: "sc_req_item"@,
                        sys_id: item,
                        from: Some(p.sys_id),
                        phase: PoolPhase::Rows,
                        probe: p.probe,
                    },
                    PoolNext::Ask(pool_call("sc_req_item"@, item)),
                )
            }
        },
        PoolPhase::Rows => if p.probe && items_in(resp.field("result"@)).len() == 0 {
            (
                Reading { phase: PoolPhase::Probe, ..p },
                PoolNext::Ask(probe_call(p.table, p.sys_id)),
            )
        } else {
            (p, PoolNext::Done(pool(p.table, resp)))
        },
        PoolPhase::Probe => (p, PoolNext::Done(Seq::empty())),
    }
}

impl PoolRead {
    /// Begins to read the variables of a record.
    pub fn new(table: &str, sys_id: &str, probe: bool) -> (r: (Self, Request))
        ensures
            (r.0@, r.1@) == pool_start(table@, sys_id@, probe),
    {
        let mut p = PoolRead {
            table: table.to_owned(),
            sys_id: sys_id.to_owned(),
            from: None,
            phase: PoolPhase::Rows,
            probe,
        };
        if same(table, "sc_task") {
            p.phase = PoolPhase::Target;
            let mut q = no_query();
            param(&mut q, "sysparm_fields", "request_item");
            param(&mut q, "sysparm_display_value", "false");
            assert(pairs(q@) =~= item_call(sys_id@).query);
            let r = get("/api/now/table/sc_task/".to_owned().concat(sys_id), q);
            return (p, r);
        }
        (p, pool_request(table, sys_id))
    }

    /// Takes in an answer.
    pub fn receive(&mut self, resp: &Json) -> (r: PoolStep)
        ensures
            (final(self)@, r@) == pool_next(old(self)@, resp@),
    {
        match self.phase {
            PoolPhase::Target => {
                let item = text_of_option(
                    get_in(get_in(resp.get("result"), "request_item"), "value"),
                );
                if item.as_str().is_empty() {
                    return PoolStep::Fail(
                        plain_error(
                            200,
                            "sc_task ".to_owned().concat(self.sys_id.as_str()).concat(
                                " has no request_item; its variable pool cannot be located",
                            ),
                        ),
                    );
                }
                let request = pool_request("sc_req_item", item.as_str());
                self.from = Some(self.sys_id.clone());
                self.table = "sc_req_item".to_owned();
                self.sys_id = item;
                self.phase = PoolPhase::Rows;
                PoolStep::Ask(request)
            },
            PoolPhase::Rows => {
                let rows = items_of_option(resp.get("result"));
                proof {
                    lemma_docs(rows@);
                }
                if self.probe && rows.len() == 0 {
                    self.phase = PoolPhase::Probe;
                    return PoolStep::Ask(probe_request(self.table.as_str(), self.sys_id.as_str()));
                }
                PoolStep::Done(var_rows(self.table.as_str(), resp))
            },
            PoolPhase::Probe => {
                let none: Vec<VarRow> = Vec::new();
                assert(variables(none@) =~= Seq::empty());
                PoolStep::Done(none)
            },
        }
    }

    /// Begins to read the variables again, where they were found.
    pub fn again(&mut self) -> (r: Request)
        ensures
            final(self)@ == (Reading { phase: PoolPhase::Rows, ..old(self)@ }),
            r@ == pool_call(old(self)@.table, old(self)@.sys_id),
    {
        self.phase = PoolPhase::Rows;
        pool_request(self.table.as_str(), self.sys_id.as_str())
    }
}

/// Checks how a record is named.
pub fn check(table: &str, sys_id: &str) -> (r: Result<(), Error>)
    ensures
        !is_identifier(table@) ==> (r matches Err(e) && e@ == bad_identifier(table@, "table"@)),
        is_identifier(table@) && !is_record_id(sys_id@) ==> (r matches Err(e) && e@ == bad_sys_id(
            sys_id@,
        )),
        is_identifier(table@) && is_record_id(sys_id@) ==> r is Ok,
{
    if let Err(e) = validate_identifier(table, "table") {
        return Err(e);
    }
    validate_sys_id(sys_id)
}

/// The names that have no value.
pub open spec fn unknown(names: Seq<Seq<char>>, known: Map<Seq<char>, Seq<char>>) -> Seq<Seq<char>>
    decreases names.len(),
{
    if names.len() == 0 {
        Seq::empty()
    } else if known.contains_key(names.last()) {
        unknown(names.drop_last(), known)
    } else {
        unknown(names.drop_last(), known).push(names.last())
    }
}

/// What is decided before a write: the write itself, or a refusal that names what
/// is not there and what is.
pub open spec fn preflight_of(
    table: Seq<char>,
    sys_id: Seq<char>,
    requested: Map<Seq<char>, Doc>,
    known: Map<Seq<char>, Seq<char>>,
) -> Result<Call, Fault> {
    let missing = unknown(in_order(requested.dom()), known);
    if missing.len() > 0 {
        Err(
            Fault::Usage(
                "unknown variable(s) "@ + joined(missing, ", "@) + " on "@ + table + " "@ + sys_id
                    + " (names are case-sensitive); available: "@ + joined(
                    in_order(known.dom()),
                    ", "@,
                ),
            ),
        )
    } else {
        Ok(
            Call {
                method: Method::Put,
                path: "/api/sn_sc/servicecatalog/variables/"@ + table + "/"@ + sys_id,
                query: Seq::empty(),
                body: Some(Doc::Object(requested)),
            },
        )
    }
}

/// Decides before a write whether every name is known.
pub fn preflight(
    table: &str,
    sys_id: &str,
    requested: &Vec<(String, Json)>,
    known: &Named<String>,
) -> (r: Result<Request, Error>)
    ensures
        match preflight_of(table@, sys_id@, members(requested@), value_texts(known@)) {
            Ok(c) => r matches Ok(q) && q@ == c,
            Err(f) => r matches Err(e) && e@ == f,
        },
{
    let names = keys(requested);
    let ghost all = texts(names@);
    let ghost m = value_texts(known@);
    let mut missing: Vec<String> = Vec::new();
    let mut i: usize = 0;
    assert(all.take(0) =~= Seq::empty());
    assert(texts(missing@) =~= Seq::empty());
    while i < names.len()
        invariant
            i <= names.len(),
            all == texts(names@),
            m == value_texts(known@),
            texts(missing@) == unknown(all.take(i as int), m),
        decreases names.len() - i,
    {
        assert(all.take(i + 1).drop_last() =~= all.take(i as int));
        assert(all.take(i + 1).last() == names@[i as int]@);
        if !known.has(names[i].as_str()) {
            let ghost prior = texts(missing@);
            missing.push(names[i].clone());
            assert(texts(missing@) =~= prior.push(names@[i as int]@));
        }
        i = i + 1;
    }
    assert(all.take(i as int) =~= all);
    assert(texts(missing@).len() == missing@.len());
    if missing.len() > 0 {
        let available = known.names();
        assert(m.dom() =~= known@.dom());
        return Err(
            Error::Usage(
                "unknown variable(s) ".to_owned().concat(join(&missing, ", ").as_str()).concat(
                    " on ",
                ).concat(table).concat(" ").concat(sys_id).concat(
                    " (names are case-sensitive); available: ",
                ).concat(join(&available, ", ").as_str()),
            ),
        );
    }
    let path = "/api/sn_sc/servicecatalog/variables/".to_owned().concat(table).concat("/").concat(
        sys_id,
    );
    let body = Json::Object(crate::json::dup_entries(requested));
    Ok(with_body(Method::Put, path, no_query(), body))
}

/// The value under a name, or an empty one.
pub open spec fn value_at(m: Map<Seq<char>, Seq<char>>, k: Seq<char>) -> Seq<char> {
    if m.contains_key(k) {
        m[k]
    } else {
        Seq::empty()
    }
}

/// What a write was to do: what was asked for, and what stood before and after.
pub ghost struct Written {
    pub requested: Map<Seq<char>, Doc>,
    pub before: Map<Seq<char>, Seq<char>>,
    pub after: Map<Seq<char>, Seq<char>>,
}

impl Written {
    /// The text that was asked for.
    pub open spec fn want(self, k: Seq<char>) -> Seq<char> {
        stored(self.requested[k])
    }

    /// Among some names, those whose value now stands and did not before.
    pub open spec fn updated(self, among: Set<Seq<char>>) -> Map<Seq<char>, Doc> {
        Map::new(
            |k: Seq<char>|
                among.contains(k) && value_at(self.after, k) == self.want(k) && value_at(
                    self.before,
                    k,
                ) != value_at(self.after, k),
            |k: Seq<char>|
                Doc::Object(
                    Map::empty().insert("from"@, Doc::Str(value_at(self.before, k))).insert(
                        "to"@,
                        Doc::Str(value_at(self.after, k)),
                    ),
                ),
        )
    }

    /// Among some names, those whose value stood before and still does.
    pub open spec fn unchanged(self, among: Set<Seq<char>>) -> Map<Seq<char>, Doc> {
        Map::new(
            |k: Seq<char>|
                among.contains(k) && value_at(self.after, k) == self.want(k) && value_at(
                    self.before,
                    k,
                ) == value_at(self.after, k),
            |k: Seq<char>| Doc::Str(value_at(self.after, k)),
        )
    }

    /// Among some names, those whose value does not stand.
    pub open spec fn failed(self, among: Set<Seq<char>>) -> Map<Seq<char>, Doc> {
        Map::new(
            |k: Seq<char>| among.contains(k) && value_at(self.after, k) != self.want(k),
            |k: Seq<char>|
                Doc::Object(
                    Map::empty().insert("requested"@, Doc::Str(self.want(k))).insert(
                        "stored"@,
                        Doc::Str(value_at(self.after, k)),
                    ),
                ),
        )
    }

    /// What is reported of the write: a failure where any value does not stand.
    pub open spec fn report(
        self,
        table: Seq<char>,
        sys_id: Seq<char>,
        from: Option<Seq<char>>,
    ) -> Result<Doc, Fault> {
        let all = self.requested.dom();
        if self.failed(all).dom() != Set::<Seq<char>>::empty() {
            Err(
                Fault::Api {
                    status: 200,
                    message: "variable write did not persist for: "@ + joined(
                        in_order(self.failed(all).dom()),
                        ", "@,
                    )
                        + " (the endpoint returned 200 but the stored value differs; read-only variable or value normalization)"@,
                    detail: None,
                    transaction_id: None,
                    sn_error: Some(Doc::Object(self.failed(all))),
                },
            )
        } else {
            let m = Map::empty().insert("table"@, Doc::Str(table)).insert(
                "sys_id"@,
                Doc::Str(sys_id),
            );
            let m = match from {
                Some(id) => m.insert("resolved_from"@, task_doc(id)),
                None => m,
            };
            Ok(
                Doc::Object(
                    m.insert("updated"@, Doc::Object(self.updated(all))).insert(
                        "unchanged"@,
                        Doc::Object(self.unchanged(all)),
                    ),
                ),
            )
        }
    }
}

/// The task that a record was named by.
pub open spec fn task_doc(id: Seq<char>) -> Doc {
    Doc::Object(
        Map::empty().insert("table"@, Doc::Str("sc_task"@)).insert("sys_id"@, Doc::Str(id)),
    )
}

/// The value under a name, or an empty one.
fn value_or_empty(m: &Named<String>, k: &str) -> (r: String)
    ensures
        r@ == value_at(value_texts(m@), k@),
{
    match m.get(k) {
        Some(s) => s.clone(),
        None => String::new(),
    }
}

/// Compares what was asked for with what is stored, and reports it.
pub fn verify(
    table: &str,
    sys_id: &str,
    from: &Option<String>,
    requested: &Vec<(String, Json)>,
    before: &Named<String>,
    after: &Named<String>,
) -> (r: Result<Json, Error>)
    ensures
        match (Written {
            requested: members(requested@),
            before: value_texts(before@),
            after: value_texts(after@),
        }).report(table@, sys_id@, text_option(*from)) {
            Ok(d) => r matches Ok(j) && j@ == d,
            Err(f) => r matches Err(e) && e@ == f,
        },
{
    let ghost w = Written {
        requested: members(requested@),
        before: value_texts(before@),
        after: value_texts(after@),
    };
    let names = keys(requested);
    let ghost all = texts(names@);
    let mut updated: Vec<(String, Json)> = Vec::new();
    let mut unchanged: Vec<(String, Json)> = Vec::new();
    let mut failed: Vec<(String, Json)> = Vec::new();
    let mut i: usize = 0;
    proof {
        assert(all.take(0).to_set() =~= Set::empty());
        assert(members(updated@) =~= w.updated(Set::empty()));
        assert(members(unchanged@) =~= w.unchanged(Set::empty()));
        assert(members(failed@) =~= w.failed(Set::empty()));
    }
    while i < names.len()
        invariant
            i <= names.len(),
            all == texts(names@),
            listing(all, members(requested@).dom()),
            w.requested == members(requested@),
            w.before == value_texts(before@),
            w.after == value_texts(after@),
            members(updated@) == w.updated(all.take(i as int).to_set()),
            members(unchanged@) == w.unchanged(all.take(i as int).to_set()),
            members(failed@) == w.failed(all.take(i as int).to_set()),
        decreases names.len() - i,
    {
        let k = names[i].as_str();
        let ghost some = all.take(i as int).to_set();
        let ghost more = all.take(i + 1).to_set();
        proof {
            assert(all[i as int] == k@);
            assert(all.contains(k@));
            assert(all.take(i + 1) =~= all.take(i as int).push(k@));
            lemma_one_more(all.take(i as int), k@);
            assert(more == some.insert(k@));
        }
        let want = match member(requested, k) {
            Some(v) => comparable(v),
            None => String::new(),
        };
        assert(want@ == w.want(k@));
        let was = value_or_empty(before, k);
        let now = value_or_empty(after, k);
        if same(now.as_str(), want.as_str()) {
            if same(was.as_str(), now.as_str()) {
                put(&mut unchanged, k, Json::Str(now));
            } else {
                let mut m: Vec<(String, Json)> = Vec::new();
                put(&mut m, "from", Json::Str(was));
                put(&mut m, "to", Json::Str(now));
                put(&mut updated, k, Json::Object(m));
            }
        } else {
            let mut m: Vec<(String, Json)> = Vec::new();
            put(&mut m, "requested", Json::Str(want));
            put(&mut m, "stored", Json::Str(now));
            put(&mut failed, k, Json::Object(m));
        }
        proof {
            assert(members(updated@) =~= w.updated(more));
            assert(members(unchanged@) =~= w.unchanged(more));
            assert(members(failed@) =~= w.failed(more));
        }
        i = i + 1;
    }
    proof {
        assert(all.take(i as int) =~= all);
        assert(all.to_set() =~= members(requested@).dom());
    }
    let bad = keys(&failed);
    if bad.len() > 0 {
        proof {
            assert(texts(bad@)[0] == bad@[0]@);
            assert(texts(bad@).contains(bad@[0]@));
            assert(members(failed@).dom().contains(bad@[0]@));
        }
        return Err(
            Error::Api {
                status: 200,
                message: "variable write did not persist for: ".to_owned().concat(
                    join(&bad, ", ").as_str(),
                ).concat(
                    " (the endpoint returned 200 but the stored value differs; read-only variable or value normalization)",
                ),
                detail: None,
                transaction_id: None,
                sn_error: Some(Json::Object(failed)),
            },
        );
    }
    proof {
        assert forall|k: Seq<char>| !members(failed@).dom().contains(k) by {
            if members(failed@).dom().contains(k) {
                assert(texts(bad@).contains(k));
            }
        }
        assert(members(failed@).dom() =~= Set::<Seq<char>>::empty());
    }
    let mut out: Vec<(String, Json)> = Vec::new();
    put(&mut out, "table", Json::str(table));
    put(&mut out, "sys_id", Json::str(sys_id));
    if let Some(id) = from {
        let mut m: Vec<(String, Json)> = Vec::new();
        put(&mut m, "table", Json::str("sc_task"));
        put(&mut m, "sys_id", Json::str(id.as_str()));
        put(&mut out, "resolved_from", Json::Object(m));
    }
    put(&mut out, "updated", Json::Object(updated));
    put(&mut out, "unchanged", Json::Object(unchanged));
    Ok(Json::Object(out))
}

proof fn lemma_one_more(s: Seq<Seq<char>>, k: Seq<char>)
    ensures
        s.push(k).to_set() == s.to_set().insert(k),
{
    let t = s.push(k);
    assert forall|x: Seq<char>| t.to_set().contains(x) <==> s.to_set().insert(k).contains(x) by {
        if s.to_set().contains(x) {
            let i = choose|i: int| 0 <= i < s.len() && s[i] == x;
            assert(t[i] == x);
        }
        if x == k {
            assert(t[s.len() as int] == x);
        }
        if t.contains(x) {
            let i = choose|i: int| 0 <= i < t.len() && t[i] == x;
            if i < s.len() {
                assert(s[i] == x);
            }
        }
    }
    assert(t.to_set() =~= s.to_set().insert(k));
}

/// How far a write has come.
#[derive(Debug, Clone, Copy, PartialEq, Eq, Structural)]
pub enum Stage {
    /// The variables are read before the write.
    Before,
    /// The write was sent.
    Write,
    /// The variables are read after the write.
    After,
}

/// A write of variables under way.
#[derive(Debug)]
pub struct Setting {
    pub pool: PoolRead,
    pub requested: Vec<(String, Json)>,
    pub known: Vec<VarRow>,
    pub stage: Stage,
}

/// A write of variables under way, as a view.
pub ghost struct SettingState {
    pub pool: Reading,
    pub requested: Map<Seq<char>, Doc>,
    pub known: Seq<Variable>,
    pub stage: Stage,
}

/// What comes next in a write.
#[derive(Debug)]
pub enum SetStep {
    Ask(Request),
    Done(Json),
    Fail(Error),
}

/// What comes next in a write, as a view.
pub ghost enum SetNext {
    Ask(Call),
    Done(Doc),
    Fail(Fault),
}

impl Setting {
    pub open spec fn view(&self) -> SettingState {
        SettingState {
            pool: self.pool@,
            requested: members(self.requested@),
            known: variables(self.known@),
            stage: self.stage,
        }
    }
}

impl SetStep {
    pub open spec fn view(&self) -> SetNext {
        match self {
            SetStep::Ask(r) => SetNext::Ask(r@),
            SetStep::Done(j) => SetNext::Done(j@),
            SetStep::Fail(e) => SetNext::Fail(e@),
        }
    }
}

/// How a write goes on with an answer: the variables are read, the write is sent
/// if every name is known, the variables are read again and compared.
pub open spec fn set_next(s: SettingState, resp: Doc) -> (SettingState, SetNext) {
    match s.stage {
        Stage::Before => {
            let (pool, next) = pool_next(s.pool, resp);
            let t = SettingState { pool, ..s };
            match next {
                PoolNext::Ask(c) => (t, SetNext::Ask(c)),
                PoolNext::Fail(f) => (t, SetNext::Fail(f)),
                PoolNext::Done(known) => match preflight_of(
                    pool.table,
                    pool.sys_id,
                    s.requested,
                    values(known),
                ) {
                    Err(f) => (SettingState { known, ..t }, SetNext::Fail(f)),
                    Ok(c) => (
                        SettingState { known, stage: Stage::Write, ..t },
                        SetNext::Ask(c),
                    ),
                },
            }
        },
        Stage::Write => (
            SettingState {
                pool: Reading { phase: PoolPhase::Rows, ..s.pool },
                stage: Stage::After,
                ..s
            },
            SetNext::Ask(pool_call(s.pool.table, s.pool.sys_id)),
        ),
        Stage::After => {
            let (pool, next) = pool_next(s.pool, resp);
            let t = SettingState { pool, ..s };
            match next {
                PoolNext::Ask(c) => (t, SetNext::Ask(c)),
                PoolNext::Fail(f) => (t, SetNext::Fail(f)),
                PoolNext::Done(after) => match (Written {
                    requested: s.requested,
                    before: values(s.known),
                    after: values(after),
                }).report(pool.table, pool.sys_id, pool.from) {
                    Err(f) => (t, SetNext::Fail(f)),
                    Ok(d) => (t, SetNext::Done(d)),
                },
            }
        },
    }
}

impl Setting {
    /// Begins a write. One that names nothing is refused.
    pub fn new(table: &str, sys_id: &str, requested: Vec<(String, Json)>) -> (r: Result<
        (Self, Request),
        Error,
    >)
        ensures
            requested@.len() == 0 ==> (r matches Err(e) && e@ == Fault::Usage(
                "no variables to set; the body is empty"@,
            )),
            requested@.len() > 0 ==> (r matches Ok((s, q)) && s@ == (SettingState {
                pool: pool_start(table@, sys_id@, true).0,
                requested: members(requested@),
                known: Seq::empty(),
                stage: Stage::Before,
            }) && q@ == pool_start(table@, sys_id@, true).1),
    {
        if requested.len() == 0 {
            return Err(Error::Usage("no variables to set; the body is empty".to_owned()));
        }
        let (pool, request) = PoolRead::new(table, sys_id, true);
        let known: Vec<VarRow> = Vec::new();
        assert(variables(known@) =~= Seq::empty());
        Ok((Setting { pool, requested, known, stage: Stage::Before }, request))
    }

    /// Takes in an answer.
    pub fn receive(&mut self, resp: &Json) -> (r: SetStep)
        ensures
            (final(self)@, r@) == set_next(old(self)@, resp@),
    {
        match self.stage {
            Stage::Before => match self.pool.receive(resp) {
                PoolStep::Ask(q) => SetStep::Ask(q),
                PoolStep::Fail(e) => SetStep::Fail(e),
                PoolStep::Done(rows) => {
                    let known = var_map(&rows);
                    self.known = rows;
                    match preflight(
                        self.pool.table.as_str(),
                        self.pool.sys_id.as_str(),
                        &self.requested,
                        &known,
                    ) {
                        Err(e) => SetStep::Fail(e),
                        Ok(q) => {
                            self.stage = Stage::Write;
                            SetStep::Ask(q)
                        },
                    }
                },
            },
            Stage::Write => {
                self.stage = Stage::After;
                SetStep::Ask(self.pool.again())
            },
            Stage::After => match self.pool.receive(resp) {
                PoolStep::Ask(q) => SetStep::Ask(q),
                PoolStep::Fail(e) => SetStep::Fail(e),
                PoolStep::Done(rows) => {
                    let before = var_map(&self.known);
                    let after = var_map(&rows);
                    match verify(
                        self.pool.table.as_str(),
                        self.pool.sys_id.as_str(),
                        &self.pool.from,
                        &self.requested,
                        &before,
                        &after,
                    ) {
                        Err(e) => SetStep::Fail(e),
                        Ok(j) => SetStep::Done(j),
                    }
                },
            },
        }
    }
}

proof fn lemma_unknown(names: Seq<Seq<char>>, known: Map<Seq<char>, Seq<char>>)
    ensures
        unknown(names, known).len() == 0 ==> forall|k: Seq<char>| #[trigger]
            names.contains(k) ==> known.contains_key(k),
    decreases names.len(),
{
    if names.len() > 0 {
        let rest = names.drop_last();
        lemma_unknown(rest, known);
        if unknown(names, known).len() == 0 {
            assert forall|k: Seq<char>| #[trigger] names.contains(k) implies known.contains_key(
                k,
            ) by {
                let i = choose|i: int| 0 <= i < names.len() && names[i] == k;
                if i < rest.len() {
                    assert(rest[i] == k);
                    assert(rest.contains(k));
                }
            }
        }
    }
}

/// A write is sent only if every name that it holds was found on the record.
pub proof fn only_known_names_are_written(
    table: Seq<char>,
    sys_id: Seq<char>,
    requested: Map<Seq<char>, Doc>,
    known: Map<Seq<char>, Seq<char>>,
)
    requires
        requested.dom().finite(),
        preflight_of(table, sys_id, requested, known) is Ok,
    ensures
        requested.dom().subset_of(known.dom()),
{
    let ks = in_order(requested.dom());
    crate::order::lemma_in_order(requested.dom());
    lemma_unknown(ks, known);
    assert forall|k: Seq<char>| requested.dom().contains(k) implies known.dom().contains(k) by {
        assert(ks.contains(k));
    }
}

/// Success is reported only if every value that was asked for is the one that was
/// read back, and then each name is reported once: as updated or as unchanged.
pub proof fn a_reported_write_stands(
    w: Written,
    table: Seq<char>,
    sys_id: Seq<char>,
    from: Option<Seq<char>>,
)
    requires
        w.report(table, sys_id, from) is Ok,
    ensures
        forall|k: Seq<char>|
            #[trigger] w.requested.dom().contains(k) ==> value_at(w.after, k) == w.want(k),
        forall|k: Seq<char>| #[trigger]
            w.requested.dom().contains(k) <==> (w.updated(
                w.requested.dom(),
            ).dom().contains(k) || w.unchanged(w.requested.dom()).dom().contains(k)),
        w.updated(w.requested.dom()).dom().disjoint(w.unchanged(w.requested.dom()).dom()),
{
    let all = w.requested.dom();
    assert forall|k: Seq<char>| #[trigger] all.contains(k) implies value_at(w.after, k) == w.want(
        k,
    ) by {
        assert(!w.failed(all).dom().contains(k));
    }
}

/// A task is followed to its request item before anything of it is read, and what
/// is read is then the request item's.
pub proof fn a_task_is_followed_to_its_item(sys_id: Seq<char>, probe: bool, resp: Doc)
    ensures
        pool_start("sc_task"@, sys_id, probe).1 == item_call(sys_id),
        pool_next(pool_start("sc_task"@, sys_id, probe).0, resp).1 matches PoolNext::Ask(c) ==> {
            let p = pool_next(pool_start("sc_task"@, sys_id, probe).0, resp).0;
            p.table == "sc_req_item"@ && p.from == Some(sys_id) && c == pool_call(
                p.table,
                p.sys_id,
            )
        },
{
}

proof fn lemma_named_rows(s: Store, rows: Seq<Doc>)
    ensures
        forall|i: int|
            0 <= i < rows.len() && text_in((#[trigger] rows[i]).field(s.name)).len() > 0
                ==> named_rows(s, rows).contains(
                Variable {
                    name: text_in(rows[i].field(s.name)),
                    label: label_of(text_in(rows[i].field(s.label))),
                    value: text_in(rows[i].field(s.value)),
                },
            ),
        forall|k: int|
            0 <= k < named_rows(s, rows).len() ==> exists|i: int|
                0 <= i < rows.len() && text_in((#[trigger] rows[i]).field(s.name)).len() > 0
                    && #[trigger] named_rows(s, rows)[k] == (Variable {
                    name: text_in(rows[i].field(s.name)),
                    label: label_of(text_in(rows[i].field(s.label))),
                    value: text_in(rows[i].field(s.value)),
                }),
        named_rows(s, rows).len() <= rows.len(),
    decreases rows.len(),
{
    if rows.len() > 0 {
        let n = rows.drop_last();
        lemma_named_rows(s, n);
        let rest = named_rows(s, n);
        let all = named_rows(s, rows);
        assert forall|i: int|
            0 <= i < rows.len() && text_in((#[trigger] rows[i]).field(s.name)).len() > 0
            implies all.contains(
            Variable {
                name: text_in(rows[i].field(s.name)),
                label: label_of(text_in(rows[i].field(s.label))),
                value: text_in(rows[i].field(s.value)),
            },
        ) by {
            if i < n.len() {
                assert(n[i] == rows[i]);
                let v = Variable {
                    name: text_in(n[i].field(s.name)),
                    label: label_of(text_in(n[i].field(s.label))),
                    value: text_in(n[i].field(s.value)),
                };
                let k = choose|k: int| 0 <= k < rest.len() && rest[k] == v;
                assert(all[k] == v);
            } else {
                assert(all[all.len() - 1] == all.last());
            }
        }
        assert forall|k: int| 0 <= k < all.len() implies exists|i: int|
            0 <= i < rows.len() && text_in((#[trigger] rows[i]).field(s.name)).len() > 0
                && #[trigger] all[k] == (Variable {
                name: text_in(rows[i].field(s.name)),
                label: label_of(text_in(rows[i].field(s.label))),
                value: text_in(rows[i].field(s.value)),
            }) by {
            if k < rest.len() {
                assert(all[k] == rest[k]);
                let i = choose|i: int|
                    0 <= i < n.len() && text_in((#[trigger] n[i]).field(s.name)).len() > 0
                        && rest[k] == (Variable {
                        name: text_in(n[i].field(s.name)),
                        label: label_of(text_in(n[i].field(s.label))),
                        value: text_in(n[i].field(s.value)),
                    });
                assert(rows[i] == n[i]);
            } else {
                assert(rows[rows.len() - 1] == rows.last());
            }
        }
    }
}

/// A row is read as the variable of the name in its name column, with the question as
/// its label and the answer as its value. The columns are those of the catalogue for a
/// request item and those of the questionnaire for any other record.
pub proof fn a_row_is_read_as_its_variable(
    table: Seq<char>,
    resp: Doc,
    rows: Seq<Doc>,
    i: int,
    name: Seq<char>,
    question: Seq<char>,
    answer: Seq<char>,
)
    requires
        resp.field("result"@) == Some(Doc::Array(rows)),
        0 <= i < rows.len(),
        name.len() > 0 && question.len() > 0,
        table == "sc_req_item"@ ==> {
            &&& rows[i].field("sc_item_option.item_option_new.name"@) == Some(Doc::Str(name))
            &&& rows[i].field("sc_item_option.item_option_new.question_text"@) == Some(
                Doc::Str(question),
            )
            &&& rows[i].field("sc_item_option.value"@) == Some(Doc::Str(answer))
        },
        table != "sc_req_item"@ ==> {
            &&& rows[i].field("question.name"@) == Some(Doc::Str(name))
            &&& rows[i].field("question.question_text"@) == Some(Doc::Str(question))
            &&& rows[i].field("value"@) == Some(Doc::Str(answer))
        },
    ensures
        pool(table, resp).contains(Variable { name, label: Some(question), value: answer }),
{
    broadcast use vstd::seq_lib::group_to_multiset_ensures;

    let s = store(table, Seq::empty());
    lemma_named_rows(s, rows);
    let found = named_rows(s, rows);
    variables_are_listed_by_name(found);
    let v = Variable { name, label: Some(question), value: answer };
    assert(found.contains(v));
    assert(found.to_multiset().contains(v));
}

/// Every variable that is read stands in a row of the answer under its name; rows
/// without a name give none.
pub proof fn every_variable_stands_in_a_row(
    table: Seq<char>,
    resp: Doc,
    rows: Seq<Doc>,
    k: int,
)
    requires
        resp.field("result"@) == Some(Doc::Array(rows)),
        0 <= k < pool(table, resp).len(),
    ensures
        ({
            let v = pool(table, resp)[k];
            exists|i: int|
                0 <= i < rows.len() && v.name.len() > 0 && (if table == "sc_req_item"@ {
                    (#[trigger] rows[i]).field("sc_item_option.item_option_new.name"@) == Some(
                        Doc::Str(v.name),
                    ) && v.value == text_in(rows[i].field("sc_item_option.value"@))
                } else {
                    rows[i].field("question.name"@) == Some(Doc::Str(v.name)) && v.value == text_in(
                        rows[i].field("value"@),
                    )
                })
        }),
        pool(table, resp).len() <= rows.len(),
{
    broadcast use vstd::seq_lib::group_to_multiset_ensures;

    let s = store(table, Seq::empty());
    lemma_named_rows(s, rows);
    let found = named_rows(s, rows);
    variables_are_listed_by_name(found);
    let p = pool(table, resp);
    assert(p.to_multiset().contains(p[k]));
    assert(found.contains(p[k]));
    let j = choose|j: int| 0 <= j < found.len() && found[j] == p[k];
    assert(found[j] == p[k]);
    let i = choose|i: int|
        0 <= i < rows.len() && text_in((#[trigger] rows[i]).field(s.name)).len() > 0 && found[j]
            == (Variable {
            name: text_in(rows[i].field(s.name)),
            label: label_of(text_in(rows[i].field(s.label))),
            value: text_in(rows[i].field(s.value)),
        });
    assert(rows[i] == rows[i]);
    assert(p.to_multiset().len() == p.len() && found.to_multiset().len() == found.len());
}

/// The columns that are read are asked for, of the rows that belong to the record.
pub proof fn the_rows_of_the_record_are_asked_for(table: Seq<char>, sys_id: Seq<char>)
    ensures
        pool_call(table, sys_id).method == Method::Get,
        table == "sc_req_item"@ ==> {
            &&& pool_call(table, sys_id).path == "/api/now/table/sc_item_option_mtom"@
            &&& pool_call(table, sys_id).query.contains(
                ("sysparm_query"@, "request_item="@ + sys_id),
            )
            &&& pool_call(table, sys_id).query.contains(
                (
                    "sysparm_fields"@,
                    "sc_item_option.item_option_new.name"@ + ","@
                        + "sc_item_option.item_option_new.question_text"@ + ","@
                        + "sc_item_option.value"@,
                ),
            )
        },
        table != "sc_req_item"@ ==> {
            &&& pool_call(table, sys_id).path == "/api/now/table/question_answer"@
            &&& pool_call(table, sys_id).query.contains(
                ("sysparm_query"@, "table_name="@ + table + "^table_sys_id="@ + sys_id),
            )
            &&& pool_call(table, sys_id).query.contains(
                (
                    "sysparm_fields"@,
                    "question.name"@ + ","@ + "question.question_text"@ + ","@ + "value"@,
                ),
            )
        },
{
    let q = pool_call(table, sys_id).query;
    assert(q[0] == q[0] && q[1] == q[1]);
}

/// Whatever is written is expected to read back as its text: a text as it is, and
/// every other value but null as its JSON.
pub proof fn a_value_is_stored_as_its_text(d: Doc)
    ensures
        d matches Doc::Str(s) ==> stored(d) == s,
        d == Doc::Null ==> stored(d).len() == 0,
        d !is Str && d != Doc::Null ==> stored(d) == rendered(d),
{
}

/// Where a name stands in several rows, the last one counts.
pub proof fn the_last_value_counts(s: Seq<Variable>, i: int)
    requires
        0 <= i < s.len(),
        forall|j: int| i < j < s.len() ==> (#[trigger] s[j]).name != s[i].name,
    ensures
        values(s).contains_key(s[i].name) && values(s)[s[i].name] == s[i].value,
    decreases s.len(),
{
    if i < s.len() - 1 {
        assert(s[s.len() - 1].name != s[i].name);
        the_last_value_counts(s.drop_last(), i);
    }
}

/// A name has a value only where a variable has that name.
pub proof fn only_variables_have_values(s: Seq<Variable>, k: Seq<char>)
    requires
        values(s).contains_key(k),
    ensures
        exists|i: int| 0 <= i < s.len() && (#[trigger] s[i]).name == k && s[i].value == values(s)[k],
    decreases s.len(),
{
    if s.len() > 0 {
        if s.last().name == k {
            assert(s[s.len() - 1].name == k);
        } else {
            only_variables_have_values(s.drop_last(), k);
            let i = choose|i: int|
                0 <= i < s.len() - 1 && (#[trigger] s.drop_last()[i]).name == k
                    && s.drop_last()[i].value == values(s.drop_last())[k];
            assert(s[i] == s.drop_last()[i]);
        }
    }
}

proof fn lemma_none_unknown(names: Seq<Seq<char>>, known: Map<Seq<char>, Seq<char>>)
    ensures
        unknown(names, known).len() == 0 <==> forall|i: int|
            0 <= i < names.len() ==> known.contains_key(#[trigger] names[i]),
    decreases names.len(),
{
    if names.len() > 0 {
        let less = names.drop_last();
        lemma_none_unknown(less, known);
        assert(names[names.len() - 1] == names.last());
        if forall|i: int| 0 <= i < less.len() ==> known.contains_key(#[trigger] less[i]) {
            if known.contains_key(names.last()) {
                assert forall|i: int| 0 <= i < names.len() implies known.contains_key(
                    #[trigger] names[i],
                ) by {
                    if i < less.len() {
                        assert(less[i] == names[i]);
                    }
                }
            }
        } else {
            let i = choose|i: int| 0 <= i < less.len() && !known.contains_key(#[trigger] less[i]);
            assert(names[i] == less[i]);
        }
    }
}

/// A write goes to the record it is meant for, carries what was asked for and nothing
/// else, and is refused exactly where one of its names is not known.
pub proof fn a_write_carries_what_was_asked_for(
    table: Seq<char>,
    sys_id: Seq<char>,
    requested: Map<Seq<char>, Doc>,
    known: Map<Seq<char>, Seq<char>>,
)
    requires
        requested.dom().finite(),
    ensures
        preflight_of(table, sys_id, requested, known) is Ok <==> requested.dom().subset_of(
            known.dom(),
        ),
        preflight_of(table, sys_id, requested, known) matches Ok(c) ==> c.method == Method::Put
            && c.path == "/api/sn_sc/servicecatalog/variables/"@ + table + "/"@ + sys_id && c.body
            == Some(Doc::Object(requested)) && c.query.len() == 0,
        preflight_of(table, sys_id, requested, known) matches Err(f) ==> f is Usage,
{
    let ks = in_order(requested.dom());
    crate::order::lemma_in_order(requested.dom());
    lemma_none_unknown(ks, known);
    if requested.dom().subset_of(known.dom()) {
        assert forall|i: int| 0 <= i < ks.len() implies known.contains_key(#[trigger] ks[i]) by {
            assert(ks.contains(ks[i]));
        }
    } else {
        let k = choose|k: Seq<char>| requested.dom().contains(k) && !known.dom().contains(k);
        assert(ks.contains(k));
        let i = choose|i: int| 0 <= i < ks.len() && ks[i] == k;
        assert(ks[i] == k);
    }
}

/// A write is reported as done exactly where every value stands; what stood before is
/// reported as unchanged, and what did not as updated, from the old value to the new.
pub proof fn a_report_tells_what_became_of_each_value(
    w: Written,
    table: Seq<char>,
    sys_id: Seq<char>,
    from: Option<Seq<char>>,
    k: Seq<char>,
)
    ensures
        w.report(table, sys_id, from) is Ok <==> forall|n: Seq<char>| #[trigger]
            w.requested.contains_key(n) ==> value_at(w.after, n) == stored(w.requested[n]),
        w.report(table, sys_id, from) matches Ok(d) ==> {
            &&& d.field("table"@) == Some(Doc::Str(table))
            &&& d.field("sys_id"@) == Some(Doc::Str(sys_id))
            &&& w.requested.contains_key(k) ==> {
                let (old_value, new_value) = (value_at(w.before, k), value_at(w.after, k));
                if old_value == new_value {
                    &&& field_in(d.field("unchanged"@), k) == Some(Doc::Str(new_value))
                    &&& field_in(d.field("updated"@), k) is None
                } else {
                    &&& field_in(d.field("unchanged"@), k) is None
                    &&& field_in(field_in(d.field("updated"@), k), "from"@) == Some(
                        Doc::Str(old_value),
                    )
                    &&& field_in(field_in(d.field("updated"@), k), "to"@) == Some(
                        Doc::Str(new_value),
                    )
                }
            }
        },
{
    reveal_strlit("table");
    reveal_strlit("sys_id");
    reveal_strlit("resolved_from");
    reveal_strlit("updated");
    reveal_strlit("unchanged");
    reveal_strlit("from");
    reveal_strlit("to");
    assert("table"@.len() == 5 && "sys_id"@.len() == 6 && "resolved_from"@.len() == 13
        && "updated"@.len() == 7 && "unchanged"@.len() == 9 && "from"@.len() == 4 && "to"@.len()
        == 2);
    let all = w.requested.dom();
    let lost = w.failed(all).dom();
    if lost =~= Set::<Seq<char>>::empty() {
        assert forall|n: Seq<char>| #[trigger] w.requested.contains_key(n) implies value_at(
            w.after,
            n,
        ) == stored(w.requested[n]) by {
            if value_at(w.after, n) != stored(w.requested[n]) {
                assert(lost.contains(n));
            }
        }
    } else {
        let n = choose|n: Seq<char>| lost.contains(n);
        assert(w.requested.contains_key(n));
    }
}

/// A variable is shown with its name, its value and its label.
pub proof fn a_variable_is_shown_part_by_part(s: Seq<Variable>, i: int)
    requires
        0 <= i < s.len(),
    ensures
        variables_doc(s) matches Doc::Array(out) && out.len() == s.len() && {
            &&& out[i].field("name"@) == Some(Doc::Str(s[i].name))
            &&& out[i].field("value"@) == Some(Doc::Str(s[i].value))
            &&& out[i].field_text("label"@) == s[i].label
        },
{
    reveal_strlit("name");
    reveal_strlit("label");
    reveal_strlit("value");
    assert("name"@.len() == 4 && "label"@.len() == 5 && "value"@.len() == 5);
    assert("label"@[0] != "value"@[0]);
}

/// A task is asked for the item it belongs to, and the variables that are read and
/// written are those of that item; any other record is read itself.
pub proof fn the_variables_of_a_task_are_those_of_its_item(
    table: Seq<char>,
    sys_id: Seq<char>,
    probe: bool,
    resp: Doc,
    item: Seq<char>,
)
    requires
        item.len() > 0,
        field_in(field_in(resp.field("result"@), "request_item"@), "value"@) == Some(
            Doc::Str(item),
        ),
    ensures
        table == "sc_task"@ ==> {
            let (p, c) = pool_start(table, sys_id, probe);
            &&& c.path == "/api/now/table/sc_task/"@ + sys_id
            &&& pool_next(p, resp).1 == PoolNext::Ask(pool_call("sc_req_item"@, item))
            &&& pool_next(p, resp).0.sys_id == item
        },
        table != "sc_task"@ ==> pool_start(table, sys_id, probe).1 == pool_call(table, sys_id)
            && pool_start(table, sys_id, probe).0.sys_id == sys_id,
{
}

/// What a reading ends in are the variables of the answer; a record without any is
/// looked for first, where that was asked.
pub proof fn a_reading_ends_in_the_variables(p: Reading, resp: Doc, rows: Seq<Doc>)
    requires
        p.phase == PoolPhase::Rows,
        resp.field("result"@) == Some(Doc::Array(rows)),
    ensures
        rows.len() > 0 || !p.probe ==> pool_next(p, resp).1 == PoolNext::Done(
            pool(p.table, resp),
        ),
        rows.len() == 0 && p.probe ==> (pool_next(p, resp).1 matches PoolNext::Ask(c) && c.path
            == record_path(p.table, p.sys_id) && c.method == Method::Get),
{
}

/// A write is made of a reading, the write itself, and a second reading that it is
/// held against: nothing is written before the names are known, and nothing is
/// reported before the values were read again.
pub proof fn a_write_is_read_back(s: SettingState, resp: Doc)
    ensures
        s.stage == Stage::Before ==> set_next(s, resp).1 !is Done,
        s.stage == Stage::Write ==> set_next(s, resp).1 == SetNext::Ask(
            pool_call(s.pool.table, s.pool.sys_id),
        ) && set_next(s, resp).0.stage == Stage::After && set_next(s, resp).0.known == s.known,
        s.stage == Stage::After ==> (set_next(s, resp).1 matches SetNext::Done(d) ==> (pool_next(
            s.pool,
            resp,
        ).1 matches PoolNext::Done(now) && forall|n: Seq<char>| #[trigger]
            s.requested.contains_key(n) ==> value_at(values(now), n) == stored(s.requested[n]))),
        set_next(s, resp).1 matches SetNext::Ask(c) ==> (c.method == Method::Put ==> s.stage
            == Stage::Before && c.body == Some(Doc::Object(s.requested))),
{
    if s.stage == Stage::After {
        if let PoolNext::Done(now) = pool_next(s.pool, resp).1 {
            let p = pool_next(s.pool, resp).0;
            a_report_tells_what_became_of_each_value(
                Written { requested: s.requested, before: values(s.known), after: values(now) },
                p.table,
                p.sys_id,
                p.from,
                Seq::empty(),
            );
        }
    }
}

/// The variables are asked for with the values that are stored, up to a thousand of
/// them.
pub proof fn stored_values_are_asked_for(table: Seq<char>, sys_id: Seq<char>)
    ensures
        param_in(pool_call(table, sys_id).query, "sysparm_display_value"@) == Some("false"@),
        param_in(pool_call(table, sys_id).query, "sysparm_limit"@) == Some("1000"@),
        item_call(sys_id).method == Method::Get,
        item_call(sys_id).path == "/api/now/table/sc_task/"@ + sys_id,
        param_in(item_call(sys_id).query, "sysparm_fields"@) == Some("request_item"@),
        param_in(item_call(sys_id).query, "sysparm_display_value"@) == Some("false"@),
        probe_call(table, sys_id).method == Method::Get,
        probe_call(table, sys_id).path == "/api/now/table/"@ + table + "/"@ + sys_id,
        param_in(probe_call(table, sys_id).query, "sysparm_fields"@) == Some("sys_id"@),
{
    broadcast use {
        crate::request::lemma_param_with,
        crate::request::lemma_param_flag,
        crate::request::lemma_param_none,
        crate::request::lemma_param_push,
    };

    reveal_strlit("sysparm_query");
    reveal_strlit("sysparm_fields");
    reveal_strlit("sysparm_display_value");
    reveal_strlit("sysparm_limit");
    assert("sysparm_query"@.len() == 13 && "sysparm_fields"@.len() == 14 && "sysparm_display_value"@.len() == 21 && "sysparm_limit"@.len() == 13);
    assert("sysparm_query"@[8] != "sysparm_limit"@[8]);
    let e = Seq::<(Seq<char>, Seq<char>)>::empty();
    let s = store(table, sys_id);
    assert(pool_call(table, sys_id).query =~= e.push(("sysparm_query"@, s.condition)).push(
        ("sysparm_fields"@, s.name + ","@ + s.label + ","@ + s.value),
    ).push(("sysparm_display_value"@, "false"@)).push(("sysparm_limit"@, "1000"@)));
    assert(item_call(sys_id).query =~= e.push(("sysparm_fields"@, "request_item"@)).push(
        ("sysparm_display_value"@, "false"@),
    ));
    assert(probe_call(table, sys_id).query =~= e.push(("sysparm_fields"@, "sys_id"@)));
}

} // verus!
