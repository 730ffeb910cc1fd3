//! One record by reference, with its variables and its journal.
//!
//! One document resolves the reference and reads the journal columns. A column
//! that the table does not have is left out and the document is asked again.

use vstd::prelude::*;

use crate::error::{Error, Fault, NO_HTTP_STATUS};
use crate::flags::{unwrap_or_raw, unwrapped, DisplayValueOpt, OutputMode};
use crate::graphql::{errors_fault, errors_of, errors_to_api_error, execute, graphql_call, graphql_errors};
use crate::journal::{entries_json, newest_first, notes, notes_doc, undefined, undefined_field, Entry, Note};
use crate::json::{
    docs, field_in, get_in, items_in, items_of_option, lemma_docs, number_in, number_of_option, put,
    text_in, text_of_option, Doc, Json,
};
use crate::order::texts;
use crate::query::GetQuery;
use crate::record_ref::{dropped, dropped_error, get_ref, gives, parse_get_ref, Named, RecordRef, RefId, Reference};
use crate::request::{get, pairs, param, Call, Method, Request};
use crate::streams::{
    all_notes, displayed, merge_streams, not_queryable, not_queryable_error, plain_error,
    plain_fault, rows_of,
};
use crate::table::{path_of, record_path};
use crate::variables::{
    pool_next, pool_start, rows_json, variables_doc, PoolNext, PoolRead, PoolStep, Reading,
};

verus! {

/// The flags of the command.
#[derive(Debug)]
pub struct GetRecordArgs {
    pub reference: String,
    pub fields: Option<String>,
    pub display_value: DisplayValueOpt,
    pub exclude_reference_link: bool,
    pub view: Option<String>,
    pub query_no_domain: bool,
}

/// What the flags come to before anything is asked: the record, or the reason why
/// the command is refused.
pub open spec fn checked(reference: Seq<char>, output: OutputMode) -> Result<Reference, Fault> {
    if output == OutputMode::Raw {
        Err(
            Fault::Usage(
                "--output raw cannot render sn get's composite result (three requests, no single envelope to keep); use the default output or --output table, or `sn table get` for the bare record"@,
            ),
        )
    } else {
        get_ref(reference)
    }
}

/// Checks the flags, before anything is asked.
pub fn check(args: &GetRecordArgs, output: OutputMode) -> (r: Result<RecordRef, Error>)
    ensures
        gives(r, checked(args.reference@, output)),
{
    if let OutputMode::Raw = output {
        return Err(
            Error::Usage(
                "--output raw cannot render sn get's composite result (three requests, no single envelope to keep); use the default output or --output table, or `sn table get` for the bare record".to_owned(),
            ),
        );
    }
    parse_get_ref(args.reference.as_str())
}

/// The condition that selects the record.
pub open spec fn condition(id: Named) -> Seq<char> {
    match id {
        Named::SysId(id) => "sys_id="@ + id,
        Named::Number(n) => "number="@ + n,
    }
}

/// The selection of the journal columns.
pub open spec fn column_selection(cols: Seq<Seq<char>>) -> Seq<char>
    decreases cols.len(),
{
    if cols.len() == 0 {
        Seq::empty()
    } else {
        column_selection(cols.drop_last()) + " "@ + cols.last() + " { displayValue }"@
    }
}

/// The document that resolves a record and reads its journal columns.
pub open spec fn record_document(table: Seq<char>, cols: Seq<Seq<char>>) -> Seq<char> {
    "query ($qc: String!) { GlideRecord_Query { "@ + table
        + "(queryConditions: $qc, pagination: { limit: 2 }) { _rowCount _results { sys_id { value }"@
        + column_selection(cols) + " } } } }"@
}

/// The request that resolves a record and reads its journal columns.
pub open spec fn record_call(r: Reference, cols: Seq<Seq<char>>) -> Call {
    graphql_call(
        record_document(r.table, cols),
        Some(Doc::Object(Map::empty().insert("qc"@, Doc::Str(condition(r.id))))),
        None,
    )
}

/// The columns that the errors do not call undefined.
pub open spec fn defined(cols: Seq<Seq<char>>, errors: Seq<Doc>) -> Seq<Seq<char>>
    decreases cols.len(),
{
    if cols.len() == 0 {
        Seq::empty()
    } else if undefined(errors, cols.last()) {
        defined(cols.drop_last(), errors)
    } else {
        defined(cols.drop_last(), errors).push(cols.last())
    }
}

/// What comes next in resolving a record.
#[derive(Debug)]
pub enum ResolveStep {
    Ask(Request),
    Done(String, Vec<Entry>),
    Fail(Error),
}

/// What comes next in resolving a record, as a view.
pub ghost enum Resolving {
    Ask(Call),
    Done(Seq<char>, Seq<Note>),
    Fail(Fault),
}

impl ResolveStep {
    pub open spec fn view(&self) -> Resolving {
        match self {
            ResolveStep::Ask(r) => Resolving::Ask(r@),
            ResolveStep::Done(id, v) => Resolving::Done(id@, notes(v@)),
            ResolveStep::Fail(e) => Resolving::Fail(e@),
        }
    }
}

/// How a record is named in a message.
pub open spec fn named(id: Named) -> Seq<char> {
    match id {
        Named::SysId(id) => "sys_id "@ + id,
        Named::Number(n) => "number "@ + n,
    }
}

/// What the rows of an answer come to.
pub open spec fn settled(r: Reference, cols: Seq<Seq<char>>, node: Option<Doc>) -> Resolving {
    let count = number_in(field_in(node, "_rowCount"@));
    let rows = items_in(field_in(node, "_results"@));
    if r.id is Number && (rows.len() > 1 || count > 1) {
        Resolving::Fail(dropped(r.table, r.id->Number_0))
    } else if rows.len() == 0 {
        Resolving::Fail(
            plain_fault(
                NO_HTTP_STATUS,
                "no "@ + r.table + " record with "@ + named(r.id)
                    + " (or not readable by this profile)"@,
            ),
        )
    } else {
        let id = text_in(field_in(rows[0].field("sys_id"@), "value"@));
        if id.len() == 0 {
            Resolving::Fail(
                Fault::Instance {
                    message: "the "@ + r.table + " record matching "@ + condition(r.id)
                        + " came back without a sys_id"@,
                    detail: None,
                },
            )
        } else {
            match all_notes(displayed(rows[0], cols)) {
                Err(f) => Resolving::Fail(f),
                Ok(s) => Resolving::Done(id, newest_first(s)),
            }
        }
    }
}

/// What an answer comes to: the columns to go on with, and what is next.
pub open spec fn resolving(r: Reference, cols: Seq<Seq<char>>, resp: Doc) -> (
    Seq<Seq<char>>,
    Resolving,
) {
    let errors = errors_of(resp);
    if errors.len() == 0 {
        (cols, settled(r, cols, rows_of(resp, r.table)))
    } else if undefined(errors, r.table) {
        (cols, Resolving::Fail(not_queryable(r.table, errors)))
    } else if defined(cols, errors).len() < cols.len() {
        (defined(cols, errors), Resolving::Ask(record_call(r, defined(cols, errors))))
    } else {
        (cols, Resolving::Fail(errors_fault(errors)))
    }
}

/// The selection of the journal columns.
fn select_columns(cols: &Vec<String>) -> (r: String)
    ensures
        r@ == column_selection(texts(cols@)),
{
    let ghost all = texts(cols@);
    let mut out = String::new();
    let mut i: usize = 0;
    assert(all.take(0) =~= Seq::empty());
    while i < cols.len()
        invariant
            i <= cols.len(),
            all == texts(cols@),
            out@ == column_selection(all.take(i as int)),
        decreases cols.len() - i,
    {
        assert(all.take(i + 1).drop_last() =~= all.take(i as int));
        assert(all.take(i + 1).last() == cols@[i as int]@);
        out = out.concat(" ").concat(cols[i].as_str()).concat(" { displayValue }");
        i = i + 1;
    }
    assert(all.take(i as int) =~= all);
    out
}

/// The condition that selects the record.
fn condition_of(id: &RefId) -> (r: String)
    ensures
        r@ == condition(id@),
{
    match id {
        RefId::SysId(id) => "sys_id=".to_owned().concat(id.as_str()),
        RefId::Number(n) => "number=".to_owned().concat(n.as_str()),
    }
}

/// Makes the request that resolves a record and reads its journal columns.
fn record_request(r: &RecordRef, cols: &Vec<String>) -> (q: Request)
    ensures
        q@ == record_call(r@, texts(cols@)),
{
    let document = "query ($qc: String!) { GlideRecord_Query { ".to_owned().concat(
        r.table.as_str(),
    ).concat(
        "(queryConditions: $qc, pagination: { limit: 2 }) { _rowCount _results { sys_id { value }",
    ).concat(select_columns(cols).as_str()).concat(" } } } }");
    let mut vars: Vec<(String, Json)> = Vec::new();
    put(&mut vars, "qc", Json::Str(condition_of(&r.id)));
    execute(document.as_str(), Some(Json::Object(vars)), &None)
}

/// The resolving of a record: what it is, and the columns that are still asked
/// for.
#[derive(Debug)]
pub struct Resolver {
    pub record: RecordRef,
    pub cols: Vec<String>,
}

impl Resolver {
    /// Begins to resolve a record, with both journal columns.
    pub fn new(record: RecordRef) -> (r: (Self, Request))
        ensures
            r.0.record == record,
            texts(r.0.cols@) == seq!["comments"@, "work_notes"@],
            r.1@ == record_call(record@, seq!["comments"@, "work_notes"@]),
    {
        let mut cols: Vec<String> = Vec::new();
        cols.push("comments".to_owned());
        cols.push("work_notes".to_owned());
        assert(texts(cols@) =~= seq!["comments"@, "work_notes"@]);
        let q = record_request(&record, &cols);
        (Resolver { record, cols }, q)
    }

    /// The columns that the errors do not call undefined.
    fn retain(&self, errors: &Vec<Json>) -> (r: Vec<String>)
        ensures
            texts(r@) == defined(texts(self.cols@), docs(errors@)),
    {
        let ghost all = texts(self.cols@);
        let mut out: Vec<String> = Vec::new();
        let mut i: usize = 0;
        assert(texts(out@) =~= Seq::empty());
        assert(all.take(0) =~= Seq::empty());
        while i < self.cols.len()
            invariant
                i <= self.cols.len(),
                all == texts(self.cols@),
                texts(out@) == defined(all.take(i as int), docs(errors@)),
            decreases self.cols.len() - i,
        {
            assert(all.take(i + 1).drop_last() =~= all.take(i as int));
            assert(all.take(i + 1).last() == self.cols@[i as int]@);
            if !undefined_field(errors, self.cols[i].as_str()) {
                let ghost prior = texts(out@);
                out.push(self.cols[i].clone());
                assert(texts(out@) =~= prior.push(self.cols@[i as int]@));
            }
            i = i + 1;
        }
        assert(all.take(i as int) =~= all);
        out
    }

    /// What the rows of an answer come to.
    fn settle(&self, node: Option<&Json>) -> (r: ResolveStep)
        ensures
            r@ == settled(self.record@, texts(self.cols@), crate::json::doc_option_ref(node)),
    {
        let count = number_of_option(get_in(node, "_rowCount"));
        let rows = items_of_option(get_in(node, "_results"));
        let table = self.record.table.as_str();
        proof {
            lemma_docs(rows@);
        }
        if let RefId::Number(n) = &self.record.id {
            if rows.len() > 1 || count > 1 {
                return ResolveStep::Fail(dropped_error(table, n.as_str()));
            }
        }
        if rows.len() == 0 {
            let named = match &self.record.id {
                RefId::SysId(id) => "sys_id ".to_owned().concat(id.as_str()),
                RefId::Number(n) => "number ".to_owned().concat(n.as_str()),
            };
            return ResolveStep::Fail(
                plain_error(
                    NO_HTTP_STATUS,
                    "no ".to_owned().concat(table).concat(" record with ").concat(
                        named.as_str(),
                    ).concat(" (or not readable by this profile)"),
                ),
            );
        }
        let row = &rows[0];
        let id = text_of_option(get_in(row.get("sys_id"), "value"));
        if id.as_str().is_empty() {
            return ResolveStep::Fail(
                Error::Instance {
                    message: "the ".to_owned().concat(table).concat(" record matching ").concat(
                        condition_of(&self.record.id).as_str(),
                    ).concat(" came back without a sys_id"),
                    detail: None,
                },
            );
        }
        let ghost cs = texts(self.cols@);
        let ghost all = displayed(row@, cs);
        let mut streams: Vec<(String, String)> = Vec::new();
        let mut i: usize = 0;
        assert(pairs(streams@) =~= all.take(0));
        while i < self.cols.len()
            invariant
                i <= self.cols.len(),
                cs == texts(self.cols@),
                all == displayed(row@, cs),
                pairs(streams@) == all.take(i as int),
            decreases self.cols.len() - i,
        {
            let c = self.cols[i].as_str();
            let stream = text_of_option(get_in(row.get(c), "displayValue"));
            param(&mut streams, c, stream.as_str());
            assert(cs[i as int] == c@);
            assert(all[i as int] == (c@, stream@));
            assert(all.take(i + 1) =~= all.take(i as int).push(all[i as int]));
            i = i + 1;
        }
        assert(all.take(i as int) =~= all);
        match merge_streams(&streams) {
            Ok(v) => ResolveStep::Done(id, v),
            Err(e) => ResolveStep::Fail(e),
        }
    }

    /// Takes in an answer: asks again with fewer columns, or comes to an end.
    pub fn receive(&mut self, resp: &Json) -> (r: ResolveStep)
        ensures
            (texts(final(self).cols@), r@) == resolving(
                old(self).record@,
                texts(old(self).cols@),
                resp@,
            ),
            final(self).record == old(self).record,
            r is Ask ==> final(self).cols@.len() < old(self).cols@.len(),
    {
        let errors = graphql_errors(resp);
        if errors.len() > 0 {
            if undefined_field(&errors, self.record.table.as_str()) {
                return ResolveStep::Fail(not_queryable_error(self.record.table.as_str(), errors));
            }
            let kept = self.retain(&errors);
            assert(texts(kept@).len() == kept@.len());
            assert(texts(self.cols@).len() == self.cols@.len());
            if kept.len() < self.cols.len() {
                self.cols = kept;
                return ResolveStep::Ask(record_request(&self.record, &self.cols));
            }
            return ResolveStep::Fail(errors_to_api_error(errors));
        }
        let node = get_in(
            get_in(resp.get("data"), "GlideRecord_Query"),
            self.record.table.as_str(),
        );
        self.settle(node)
    }
}

impl GetRecordArgs {
    /// The parameters of the read of the record itself.
    pub open spec fn params(self) -> Seq<(Seq<char>, Seq<char>)> {
        (GetQuery {
            fields: self.fields,
            display_value: self.display_value.display_value,
            exclude_reference_link: self.exclude_reference_link,
            view: self.view,
            query_no_domain: self.query_no_domain,
        }).params()
    }
}

/// The request that reads the record itself.
pub open spec fn read_call(
    params: Seq<(Seq<char>, Seq<char>)>,
    table: Seq<char>,
    sys_id: Seq<char>,
) -> Call {
    Call {
        method: Method::Get,
        path: record_path(table, sys_id),
        query: params,
        body: None,
    }
}

/// The request that reads the record itself.
pub fn read_record(args: &GetRecordArgs, table: &str, sys_id: &str) -> (r: Request)
    ensures
        r@ == read_call(args.params(), table@, sys_id@),
{
    let q = GetQuery {
        fields: crate::error::dup_option(&args.fields),
        display_value: args.display_value.display_value,
        exclude_reference_link: args.exclude_reference_link,
        view: crate::error::dup_option(&args.view),
        query_no_domain: args.query_no_domain,
    };
    get(path_of(table, sys_id), q.to_pairs())
}

/// What the command shows: the record, its variables and its journal.
pub fn run(table: &str, sys_id: &str, record: Json, variables: Json, entries: &Vec<Entry>) -> (r:
    Json)
    ensures
        r@ == composite(table@, sys_id@, record@, variables@, notes(entries@)),
{
    let mut m: Vec<(String, Json)> = Vec::new();
    put(&mut m, "table", Json::str(table));
    put(&mut m, "sys_id", Json::str(sys_id));
    put(&mut m, "record", record);
    put(&mut m, "variables", variables);
    put(&mut m, "journal", entries_json(entries));
    Json::Object(m)
}

/// What the command shows.
pub open spec fn composite(
    table: Seq<char>,
    sys_id: Seq<char>,
    record: Doc,
    variables: Doc,
    journal: Seq<Note>,
) -> Doc {
    Doc::Object(
        Map::empty().insert("table"@, Doc::Str(table)).insert("sys_id"@, Doc::Str(sys_id)).insert(
            "record"@,
            record,
        ).insert("variables"@, variables).insert("journal"@, notes_doc(journal)),
    )
}

/// What the command asked for last, and what it knows.
#[derive(Debug)]
pub enum GetPhase {
    /// The record's sys_id and journal.
    Resolve(Resolver),
    /// The record.
    Record { table: String, sys_id: String, entries: Vec<Entry> },
    /// The variables.
    Variables { table: String, sys_id: String, entries: Vec<Entry>, record: Json, pool: PoolRead },
}

/// What the command asked for last, and what it knows, as a view.
pub ghost enum GetStage {
    Resolve(Reference, Seq<Seq<char>>),
    Record { table: Seq<char>, sys_id: Seq<char>, journal: Seq<Note> },
    Variables {
        table: Seq<char>,
        sys_id: Seq<char>,
        journal: Seq<Note>,
        record: Doc,
        pool: Reading,
    },
}

/// What comes next in the command.
#[derive(Debug)]
pub enum GetStep {
    Ask(GetPhase, Request),
    Done(Json),
    Fail(Error),
}

/// What comes next in the command, as a view.
pub ghost enum GetNext {
    Ask(GetStage, Call),
    Done(Doc),
    Fail(Fault),
}

impl GetPhase {
    pub open spec fn view(&self) -> GetStage {
        match self {
            GetPhase::Resolve(r) => GetStage::Resolve(r.record@, texts(r.cols@)),
            GetPhase::Record { table, sys_id, entries } => GetStage::Record {
                table: table@,
                sys_id: sys_id@,
                journal: notes(entries@),
            },
            GetPhase::Variables { table, sys_id, entries, record, pool } => GetStage::Variables {
                table: table@,
                sys_id: sys_id@,
                journal: notes(entries@),
                record: record@,
                pool: pool@,
            },
        }
    }
}

impl GetStep {
    pub open spec fn view(&self) -> GetNext {
        match self {
            GetStep::Ask(p, r) => GetNext::Ask(p@, r@),
            GetStep::Done(j) => GetNext::Done(j@),
            GetStep::Fail(e) => GetNext::Fail(e@),
        }
    }
}

/// How the command goes on with an answer: the reference is resolved, the record is
/// read out of its envelope, and its variables are read. A record without variables
/// has none; it is not asked for again.
pub open spec fn get_next(
    stage: GetStage,
    params: Seq<(Seq<char>, Seq<char>)>,
    resp: Doc,
) -> GetNext {
    match stage {
        GetStage::Resolve(r, cols) => match resolving(r, cols, resp) {
            (cols, Resolving::Ask(c)) => GetNext::Ask(GetStage::Resolve(r, cols), c),
            (_, Resolving::Fail(f)) => GetNext::Fail(f),
            (_, Resolving::Done(sys_id, journal)) => GetNext::Ask(
                GetStage::Record { table: r.table, sys_id, journal },
                read_call(params, r.table, sys_id),
            ),
        },
        GetStage::Record { table, sys_id, journal } => {
            let (pool, call) = pool_start(table, sys_id, false);
            GetNext::Ask(
                GetStage::Variables {
                    table,
                    sys_id,
                    journal,
                    record: unwrapped(resp, OutputMode::Default),
                    pool,
                },
                call,
            )
        },
        GetStage::Variables { table, sys_id, journal, record, pool } => match pool_next(
            pool,
            resp,
        ) {
            (pool, PoolNext::Ask(c)) => GetNext::Ask(
                GetStage::Variables { table, sys_id, journal, record, pool },
                c,
            ),
            (_, PoolNext::Fail(f)) => GetNext::Fail(f),
            (_, PoolNext::Done(rows)) => GetNext::Done(
                composite(table, sys_id, record, variables_doc(rows), journal),
            ),
        },
    }
}

/// Begins to read a record.
pub fn begin(record: RecordRef) -> (r: (GetPhase, Request))
    ensures
        r.0@ == GetStage::Resolve(record@, seq!["comments"@, "work_notes"@]),
        r.1@ == record_call(record@, seq!["comments"@, "work_notes"@]),
{
    let (resolver, request) = Resolver::new(record);
    (GetPhase::Resolve(resolver), request)
}

impl GetPhase {
    /// Takes in an answer.
    pub fn receive(self, args: &GetRecordArgs, resp: Json) -> (r: GetStep)
        ensures
            r@ == get_next(self@, args.params(), resp@),
    {
        match self {
            GetPhase::Resolve(resolver) => {
                let mut resolver = resolver;
                match resolver.receive(&resp) {
                    ResolveStep::Ask(q) => GetStep::Ask(GetPhase::Resolve(resolver), q),
                    ResolveStep::Fail(e) => GetStep::Fail(e),
                    ResolveStep::Done(sys_id, entries) => {
                        let table = resolver.record.table;
                        let q = read_record(args, table.as_str(), sys_id.as_str());
                        GetStep::Ask(GetPhase::Record { table, sys_id, entries }, q)
                    },
                }
            },
            GetPhase::Record { table, sys_id, entries } => {
                let record = unwrap_or_raw(resp, OutputMode::Default);
                let (pool, q) = PoolRead::new(table.as_str(), sys_id.as_str(), false);
                GetStep::Ask(GetPhase::Variables { table, sys_id, entries, record, pool }, q)
            },
            GetPhase::Variables { table, sys_id, entries, record, pool } => {
                let mut pool = pool;
                match pool.receive(&resp) {
                    PoolStep::Ask(q) => GetStep::Ask(
                        GetPhase::Variables { table, sys_id, entries, record, pool },
                        q,
                    ),
                    PoolStep::Fail(e) => GetStep::Fail(e),
                    PoolStep::Done(rows) => GetStep::Done(
                        run(table.as_str(), sys_id.as_str(), record, rows_json(&rows), &entries),
                    ),
                }
            },
        }
    }
}

/// A number never resolves to one of several records: a count or a second row
/// ends in a failure, whatever else the answer holds.
pub proof fn several_records_settle_nothing(r: Reference, cols: Seq<Seq<char>>, node: Option<Doc>)
    requires
        r.id is Number,
        items_in(field_in(node, "_results"@)).len() > 1 || number_in(
            field_in(node, "_rowCount"@),
        ) > 1,
    ensures
        settled(r, cols, node) == Resolving::Fail(dropped(r.table, r.id->Number_0)),
{
}

/// Asking again always means asking for fewer columns, none of which was called
/// undefined.
pub proof fn asking_again_asks_for_less(r: Reference, cols: Seq<Seq<char>>, resp: Doc)
    ensures
        resolving(r, cols, resp).1 is Ask ==> {
            let next = resolving(r, cols, resp).0;
            &&& next.len() < cols.len()
            &&& forall|i: int|
                0 <= i < next.len() ==> cols.contains(#[trigger] next[i]) && !undefined(
                    errors_of(resp),
                    next[i],
                )
        },
{
    lemma_defined_members(cols, errors_of(resp));
}

proof fn lemma_defined_members(cols: Seq<Seq<char>>, errors: Seq<Doc>)
    ensures
        forall|i: int|
            0 <= i < defined(cols, errors).len() ==> cols.contains(
                #[trigger] defined(cols, errors)[i],
            ) && !undefined(errors, defined(cols, errors)[i]),
    decreases cols.len(),
{
    if cols.len() > 0 {
        let rest = cols.drop_last();
        lemma_defined_members(rest, errors);
        assert forall|i: int| 0 <= i < defined(cols, errors).len() implies cols.contains(
            #[trigger] defined(cols, errors)[i],
        ) && !undefined(errors, defined(cols, errors)[i]) by {
            let d = defined(rest, errors);
            if i < d.len() {
                assert(defined(cols, errors)[i] == d[i]);
                assert(rest.contains(d[i]));
                let k = choose|k: int| 0 <= k < rest.len() && rest[k] == d[i];
                assert(cols[k] == d[i]);
            } else {
                assert(cols[cols.len() - 1] == cols.last());
            }
        }
    }
}

/// What is shown holds each part under its own name.
pub proof fn a_composite_holds_its_parts(
    table: Seq<char>,
    sys_id: Seq<char>,
    record: Doc,
    variables: Doc,
    journal: Seq<Note>,
)
    ensures
        ({
            let d = composite(table, sys_id, record, variables, journal);
            &&& d.field("table"@) == Some(Doc::Str(table))
            &&& d.field("sys_id"@) == Some(Doc::Str(sys_id))
            &&& d.field("record"@) == Some(record)
            &&& d.field("variables"@) == Some(variables)
            &&& d.field("journal"@) == Some(notes_doc(journal))
        }),
{
    reveal_strlit("table");
    reveal_strlit("sys_id");
    reveal_strlit("record");
    reveal_strlit("variables");
    reveal_strlit("journal");
    assert("table"@.len() == 5 && "sys_id"@.len() == 6 && "record"@.len() == 6 && "variables"@.len() == 9 && "journal"@.len() == 7);
    assert("sys_id"@[0] != "record"@[0]);
}

/// A record is asked for by what it was named by.
pub proof fn a_record_is_asked_for_by_its_name(id: Seq<char>, table: Seq<char>)
    ensures
        condition(Named::SysId(id)) == "sys_id="@ + id,
        condition(Named::Number(id)) == "number="@ + id,
        checked(table, OutputMode::Raw) is Err,
{
}

/// The record that is read, shown and looked for variables is the one that the answer
/// settled: the sys_id of its row, in the table of the reference.
pub proof fn the_record_that_is_found_is_read(
    r: Reference,
    cols: Seq<Seq<char>>,
    params: Seq<(Seq<char>, Seq<char>)>,
    resp: Doc,
    row: Doc,
    id: Seq<char>,
    record: Doc,
    wrapped: Doc,
)
    requires
        resp.field("errors"@) is None,
        field_in(
            field_in(field_in(resp.field("data"@), "GlideRecord_Query"@), r.table),
            "_results"@,
        ) == Some(Doc::Array(seq![row])),
        number_in(
            field_in(
                field_in(field_in(resp.field("data"@), "GlideRecord_Query"@), r.table),
                "_rowCount"@,
            ),
        ) <= 1,
        field_in(row.field("sys_id"@), "value"@) == Some(Doc::Str(id)),
        id.len() > 0,
        wrapped.field("result"@) == Some(record),
    ensures
        get_next(GetStage::Resolve(r, cols), params, resp) matches GetNext::Ask(stage, c) ==> {
            &&& c.method == Method::Get && c.path == record_path(r.table, id) && c.query == params
            &&& stage matches GetStage::Record { table, sys_id, .. } && table == r.table && sys_id
                == id
            &&& get_next(stage, params, wrapped) matches GetNext::Ask(
                GetStage::Variables { record: shown, table, sys_id, .. },
                _,
            ) && shown == record && table == r.table && sys_id == id
        },
        get_next(GetStage::Resolve(r, cols), params, resp) !is Done,
{
}

/// The document that resolves a record names its table and each of the columns, and its
/// condition travels as a variable.
pub proof fn the_columns_of_the_record_are_asked_for(
    r: Reference,
    cols: Seq<Seq<char>>,
    c: Seq<char>,
)
    ensures
        column_selection(cols.push(c)) == column_selection(cols) + " "@ + c
            + " { displayValue }"@,
        column_selection(Seq::empty()).len() == 0,
        record_document(r.table, cols) == "query ($qc: String!) { GlideRecord_Query { "@ + r.table
            + "(queryConditions: $qc, pagination: { limit: 2 }) { _rowCount _results { sys_id { value }"@
            + column_selection(cols) + " } } } }"@,
        record_call(r, cols).body matches Some(b) && field_in(b.field("variables"@), "qc"@) == Some(
            Doc::Str(condition(r.id)),
        ) && b.field("query"@) == Some(Doc::Str(record_document(r.table, cols))),
{
    reveal_strlit("query");
    reveal_strlit("variables");
    reveal_strlit("operationName");
    assert("query"@.len() == 5 && "variables"@.len() == 9 && "operationName"@.len() == 13);
    assert(cols.push(c).drop_last() =~= cols);
}

/// The columns that are left are those that no error calls undefined.
pub proof fn undefined_columns_are_left_out(cols: Seq<Seq<char>>, errors: Seq<Doc>, c: Seq<char>)
    ensures
        defined(cols, errors).contains(c) <==> cols.contains(c) && !undefined(errors, c),
    decreases cols.len(),
{
    if cols.len() > 0 {
        let less = cols.drop_last();
        undefined_columns_are_left_out(less, errors, c);
        let a = defined(less, errors);
        let all = defined(cols, errors);
        assert(cols.contains(c) <==> less.contains(c) || cols.last() == c) by {
            if less.contains(c) {
                let i = less.index_of(c);
                assert(cols[i] == c);
            }
            if cols.last() == c {
                assert(cols[cols.len() - 1] == c);
            }
            if cols.contains(c) {
                let i = cols.index_of(c);
                if i < less.len() {
                    assert(less[i] == c);
                }
            }
        }
        if !undefined(errors, cols.last()) {
            assert(all.contains(c) <==> a.contains(c) || cols.last() == c) by {
                if a.contains(c) {
                    let i = a.index_of(c);
                    assert(all[i] == c);
                }
                if cols.last() == c {
                    assert(all[a.len() as int] == c);
                }
                if all.contains(c) {
                    let i = all.index_of(c);
                    if i < a.len() {
                        assert(a[i] == c);
                    }
                }
            }
        }
    }
}

} // verus!
