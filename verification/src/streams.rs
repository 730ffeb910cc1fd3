//! Reading the journal of a record: which document to run, what to try where a
//! column does not exist, and what the answers hold.

use vstd::prelude::*;

use crate::error::{text_option, Error, Fault};
use crate::graphql::{errors_fault, errors_of, errors_to_api_error, execute, graphql_call, graphql_errors};
use crate::journal::{
    entries_json, newest_first, notes, notes_doc, parse_stream, sort_newest_first, stream_notes,
    undefined, undefined_field, Entry, Note,
};
use crate::json::{
    docs, field_in, get_in, items_in, items_of_option, lemma_docs, number_in, number_of_option, put,
    text_in, text_of_option, Doc, Json,
};
use crate::order::texts;
use crate::request::{pairs, param, Call, Method, Request};
use crate::text::{decimal, digits, join, joined};

verus! {

/// Which columns are asked for.
#[derive(Debug, Clone, Copy, PartialEq, Eq, Structural)]
pub enum Wanted {
    All,
    Comments,
    WorkNotes,
}

impl Wanted {
    /// The column of a filter.
    pub open spec fn column(self) -> Option<Seq<char>> {
        match self {
            Wanted::All => None,
            Wanted::Comments => Some("comments"@),
            Wanted::WorkNotes => Some("work_notes"@),
        }
    }

    /// The columns to try, one attempt after the other. A filter has one attempt
    /// only: a column that does not exist is reported, not replaced.
    pub open spec fn attempts(self) -> Seq<Seq<Seq<char>>> {
        match self {
            Wanted::Comments => seq![seq!["comments"@]],
            Wanted::WorkNotes => seq![seq!["work_notes"@]],
            Wanted::All => seq![
                seq!["comments_and_work_notes"@],
                seq!["comments"@, "work_notes"@],
                seq!["comments"@],
                seq!["work_notes"@],
            ],
        }
    }

    /// The columns of the flags.
    pub fn from_flags(comments: bool, work_notes: bool) -> (r: Self)
        ensures
            r == (if comments {
                Wanted::Comments
            } else if work_notes {
                Wanted::WorkNotes
            } else {
                Wanted::All
            }),
    {
        if comments {
            Wanted::Comments
        } else if work_notes {
            Wanted::WorkNotes
        } else {
            Wanted::All
        }
    }

    /// The number of attempts.
    fn count(self) -> (r: usize)
        ensures
            r == self.attempts().len(),
    {
        match self {
            Wanted::All => 4,
            _ => 1,
        }
    }

    /// The columns of an attempt.
    fn columns(self, i: usize) -> (r: Vec<String>)
        requires
            i < self.attempts().len(),
        ensures
            texts(r@) == self.attempts()[i as int],
    {
        let mut out: Vec<String> = Vec::new();
        match self {
            Wanted::Comments => out.push("comments".to_owned()),
            Wanted::WorkNotes => out.push("work_notes".to_owned()),
            Wanted::All => {
                if i == 0 {
                    out.push("comments_and_work_notes".to_owned());
                }
                if i == 1 || i == 2 {
                    out.push("comments".to_owned());
                }
                if i == 1 || i == 3 {
                    out.push("work_notes".to_owned());
                }
            },
        }
        assert(texts(out@) =~= self.attempts()[i as int]);
        out
    }
}

/// The first attempt from `i` on that does not ask for a column that is known to
/// be missing.
pub open spec fn next_attempt(wanted: Wanted, i: int, missing: Option<Seq<char>>) -> Option<int>
    decreases wanted.attempts().len() - i,
{
    if i >= wanted.attempts().len() || i < 0 {
        None
    } else if missing matches Some(m) && wanted.attempts()[i].contains(m) {
        next_attempt(wanted, i + 1, missing)
    } else {
        Some(i)
    }
}

/// The selection of the columns.
pub open spec fn selections(cols: Seq<Seq<char>>) -> Seq<Seq<char>> {
    cols.map_values(|c: Seq<char>| c + " { displayValue }"@)
}

/// The document that reads columns of a record.
pub open spec fn streams_document(table: Seq<char>, cols: Seq<Seq<char>>) -> Seq<char> {
    "query ($id: String!) { GlideRecord_Query { "@ + table + "(sys_id: $id) { _results { "@
        + joined(selections(cols), " "@) + " } } } }"@
}

/// The request that reads columns of a record.
pub open spec fn streams_call(table: Seq<char>, sys_id: Seq<char>, cols: Seq<Seq<char>>) -> Call {
    graphql_call(
        streams_document(table, cols),
        Some(Doc::Object(Map::empty().insert("id"@, Doc::Str(sys_id)))),
        None,
    )
}

/// The selection of the columns.
pub fn select(cols: &Vec<String>) -> (r: Vec<String>)
    ensures
        texts(r@) == selections(texts(cols@)),
{
    let ghost all = selections(texts(cols@));
    let mut out: Vec<String> = Vec::new();
    let mut i: usize = 0;
    assert(texts(out@) =~= all.take(0));
    while i < cols.len()
        invariant
            i <= cols.len(),
            all == selections(texts(cols@)),
            texts(out@) == all.take(i as int),
        decreases cols.len() - i,
    {
        let ghost prior = texts(out@);
        let s = cols[i].clone().concat(" { displayValue }");
        out.push(s);
        assert(texts(out@) =~= prior.push(s@));
        assert(texts(cols@)[i as int] == cols@[i as int]@);
        assert(all[i as int] == s@);
        assert(all.take(i + 1) =~= all.take(i as int).push(all[i as int]));
        i = i + 1;
    }
    assert(all.take(i as int) =~= all);
    out
}

/// Makes the request that reads columns of a record.
fn streams_request(table: &str, sys_id: &str, cols: &Vec<String>) -> (r: Request)
    ensures
        r@ == streams_call(table@, sys_id@, texts(cols@)),
{
    let selection = join(&select(cols), " ");
    let document = "query ($id: String!) { GlideRecord_Query { ".to_owned().concat(table).concat(
        "(sys_id: $id) { _results { ",
    ).concat(selection.as_str()).concat(" } } } }");
    let mut vars: Vec<(String, Json)> = Vec::new();
    put(&mut vars, "id", Json::str(sys_id));
    execute(document.as_str(), Some(Json::Object(vars)), &None)
}

/// The failure of a table that GraphQL does not know.
pub open spec fn not_queryable(table: Seq<char>, errors: Seq<Doc>) -> Fault {
    Fault::Api {
        status: 200,
        message: "table '"@ + table + "' is not queryable via GraphQL"@,
        detail: None,
        transaction_id: None,
        sn_error: Some(Doc::Array(errors)),
    }
}

/// Reports a table that GraphQL does not know.
pub fn not_queryable_error(table: &str, errors: Vec<Json>) -> (e: Error)
    ensures
        e@ == not_queryable(table@, docs(errors@)),
{
    Error::Api {
        status: 200,
        message: "table '".to_owned().concat(table).concat("' is not queryable via GraphQL"),
        detail: None,
        transaction_id: None,
        sn_error: Some(Json::Array(errors)),
    }
}

/// A failure that names nothing but a message.
pub open spec fn plain_fault(status: u16, message: Seq<char>) -> Fault {
    Fault::Api { status, message, detail: None, transaction_id: None, sn_error: None }
}

/// A failure that names nothing but a message.
pub fn plain_error(status: u16, message: String) -> (e: Error)
    ensures
        e@ == plain_fault(status, message@),
{
    Error::Api { status, message, detail: None, transaction_id: None, sn_error: None }
}

/// The failure of a table without the columns.
pub open spec fn no_columns(table: Seq<char>, wanted: Wanted) -> Fault {
    plain_fault(
        200,
        match wanted.column() {
            Some(col) => "table '"@ + table + "' has no "@ + col + " field"@,
            None => "table '"@ + table + "' has no journal fields (comments/work_notes)"@,
        },
    )
}

/// What comes next in reading the columns of a record.
#[derive(Debug)]
pub enum FetchStep {
    Ask(Request),
    Done(Vec<(String, String)>),
    Fail(Error),
}

/// What comes next, as a view.
pub ghost enum Fetching {
    Ask(Call),
    Done(Seq<(Seq<char>, Seq<char>)>),
    Fail(Fault),
}

impl FetchStep {
    pub open spec fn view(&self) -> Fetching {
        match self {
            FetchStep::Ask(r) => Fetching::Ask(r@),
            FetchStep::Done(v) => Fetching::Done(pairs(v@)),
            FetchStep::Fail(e) => Fetching::Fail(e@),
        }
    }
}

/// The reading of the columns of a record: what is asked for, the attempt that is
/// under way, and the column that was found to be missing last.
#[derive(Debug)]
pub struct StreamsFetch {
    pub table: String,
    pub sys_id: String,
    pub wanted: Wanted,
    pub at: usize,
    pub missing: Option<String>,
}

/// Where the reading stands, and what comes next, from an attempt on.
pub open spec fn go_on(
    table: Seq<char>,
    sys_id: Seq<char>,
    wanted: Wanted,
    i: int,
    missing: Option<Seq<char>>,
) -> (int, Fetching) {
    match next_attempt(wanted, i, missing) {
        Some(j) => (j, Fetching::Ask(streams_call(table, sys_id, wanted.attempts()[j]))),
        None => (wanted.attempts().len() as int, Fetching::Fail(no_columns(table, wanted))),
    }
}

/// The first of the columns that the errors call undefined.
pub open spec fn first_undefined(errors: Seq<Doc>, cols: Seq<Seq<char>>) -> Option<Seq<char>>
    decreases cols.len(),
{
    if cols.len() == 0 {
        None
    } else if undefined(errors, cols[0]) {
        Some(cols[0])
    } else {
        first_undefined(errors, cols.drop_first())
    }
}

/// The rows that an answer holds for a table.
pub open spec fn rows_of(resp: Doc, table: Seq<char>) -> Option<Doc> {
    field_in(field_in(resp.field("data"@), "GlideRecord_Query"@), table)
}

/// The columns of a row, as they are displayed.
pub open spec fn displayed(row: Doc, cols: Seq<Seq<char>>) -> Seq<(Seq<char>, Seq<char>)> {
    cols.map_values(
        |c: Seq<char>| (c, text_in(field_in(row.field(c), "displayValue"@))),
    )
}

/// What an answer to an attempt means: a missing column leads to the next
/// attempt, any other error ends the reading, and so does a record that is not
/// there.
pub open spec fn answered(
    table: Seq<char>,
    sys_id: Seq<char>,
    wanted: Wanted,
    at: int,
    missing: Option<Seq<char>>,
    resp: Doc,
) -> (int, Option<Seq<char>>, Fetching) {
    let errors = errors_of(resp);
    let cols = wanted.attempts()[at];
    if errors.len() > 0 {
        if undefined(errors, table) {
            (at, missing, Fetching::Fail(not_queryable(table, errors)))
        } else {
            match first_undefined(errors, cols) {
                Some(col) => {
                    let (j, next) = go_on(table, sys_id, wanted, at + 1, Some(col));
                    (j, Some(col), next)
                },
                None => (at, missing, Fetching::Fail(errors_fault(errors))),
            }
        }
    } else {
        let rows = items_in(field_in(rows_of(resp, table), "_results"@));
        if rows.len() == 0 {
            (
                at,
                missing,
                Fetching::Fail(
                    plain_fault(404, "no "@ + table + " record with sys_id "@ + sys_id),
                ),
            )
        } else {
            (at, missing, Fetching::Done(displayed(rows[0], cols)))
        }
    }
}

proof fn lemma_next_attempt(wanted: Wanted, i: int, missing: Option<Seq<char>>)
    requires
        0 <= i,
    ensures
        next_attempt(wanted, i, missing) matches Some(j) ==> i <= j < wanted.attempts().len() && (
        missing matches Some(m) ==> !wanted.attempts()[j].contains(m)),
    decreases wanted.attempts().len() - i,
{
    if i < wanted.attempts().len() {
        lemma_next_attempt(wanted, i + 1, missing);
    }
}

proof fn lemma_first_undefined(errors: Seq<Doc>, cols: Seq<Seq<char>>)
    ensures
        first_undefined(errors, cols) matches Some(c) ==> cols.contains(c) && undefined(errors, c),
    decreases cols.len(),
{
    if cols.len() > 0 {
        lemma_first_undefined(errors, cols.drop_first());
        match first_undefined(errors, cols) {
            Some(c) => {
                if !undefined(errors, cols[0]) {
                    let k = choose|k: int|
                        0 <= k < cols.drop_first().len() && cols.drop_first()[k] == c;
                    assert(cols[k + 1] == c);
                }
            },
            None => {},
        }
    }
}

/// A further attempt is only made because a column of the last one is missing, and
/// it asks for other columns. A filter has no further attempt: it asks for its own
/// column and for nothing else.
pub proof fn a_missing_column_is_not_asked_for_again(
    table: Seq<char>,
    sys_id: Seq<char>,
    wanted: Wanted,
    at: int,
    missing: Option<Seq<char>>,
    resp: Doc,
)
    requires
        0 <= at < wanted.attempts().len(),
    ensures
        answered(table, sys_id, wanted, at, missing, resp).2 is Ask ==> {
            let (j, gone, step) = answered(table, sys_id, wanted, at, missing, resp);
            &&& at < j < wanted.attempts().len()
            &&& gone matches Some(col) && wanted.attempts()[at].contains(col)
                && !wanted.attempts()[j].contains(col) && undefined(errors_of(resp), col)
            &&& step == Fetching::Ask(streams_call(table, sys_id, wanted.attempts()[j]))
        },
        wanted.column() matches Some(c) ==> wanted.attempts() == seq![seq![c]] && !(answered(
            table,
            sys_id,
            wanted,
            at,
            missing,
            resp,
        ).2 is Ask),
{
    let errors = errors_of(resp);
    let cols = wanted.attempts()[at];
    lemma_first_undefined(errors, cols);
    match first_undefined(errors, cols) {
        Some(col) => {
            lemma_next_attempt(wanted, at + 1, Some(col));
        },
        None => {},
    }
}

impl StreamsFetch {
    /// The attempts that there are, and the columns that are known to be missing.
    pub open spec fn inv(self) -> bool {
        self.at < self.wanted.attempts().len()
    }

    /// Goes on with the next attempt that makes sense.
    fn advance(&mut self, from: usize) -> (r: FetchStep)
        requires
            from <= old(self).wanted.attempts().len(),
        ensures
            (final(self).at as int, r@) == go_on(
                old(self).table@,
                old(self).sys_id@,
                old(self).wanted,
                from as int,
                text_option(old(self).missing),
            ),
            final(self).table == old(self).table,
            final(self).sys_id == old(self).sys_id,
            final(self).wanted == old(self).wanted,
            final(self).missing == old(self).missing,
    {
        let ghost missing = text_option(self.missing);
        let mut i: usize = from;
        while i < self.wanted.count()
            invariant
                i <= self.wanted.attempts().len(),
                *self == *old(self),
                missing == text_option(self.missing),
                next_attempt(self.wanted, from as int, missing) == next_attempt(
                    self.wanted,
                    i as int,
                    missing,
                ),
            decreases self.wanted.attempts().len() - i,
        {
            let cols = self.wanted.columns(i);
            let hopeless = match &self.missing {
                Some(m) => crate::api::list_has(&cols, m.as_str()),
                None => false,
            };
            if !hopeless {
                self.at = i;
                return FetchStep::Ask(
                    streams_request(self.table.as_str(), self.sys_id.as_str(), &cols),
                );
            }
            i = i + 1;
        }
        self.at = i;
        let t = "table '".to_owned().concat(self.table.as_str());
        let message = match self.wanted {
            Wanted::Comments => t.concat("' has no ").concat("comments").concat(" field"),
            Wanted::WorkNotes => t.concat("' has no ").concat("work_notes").concat(" field"),
            Wanted::All => t.concat("' has no journal fields (comments/work_notes)"),
        };
        FetchStep::Fail(plain_error(200, message))
    }

    /// Begins to read the columns of a record.
    pub fn new(table: &str, sys_id: &str, wanted: Wanted) -> (r: (Self, FetchStep))
        ensures
            r.0.inv(),
            r.0.table@ == table@,
            r.0.sys_id@ == sys_id@,
            r.0.wanted == wanted,
            r.0.at == 0,
            r.0.missing is None,
            r.1@ == Fetching::Ask(streams_call(table@, sys_id@, wanted.attempts()[0])),
    {
        let mut s = StreamsFetch {
            table: table.to_owned(),
            sys_id: sys_id.to_owned(),
            wanted,
            at: 0,
            missing: None,
        };
        let step = s.advance(0);
        (s, step)
    }

    /// Takes in the answer to an attempt.
    pub fn receive(&mut self, resp: &Json) -> (r: FetchStep)
        requires
            old(self).inv(),
        ensures
            (final(self).at as int, text_option(final(self).missing), r@) == answered(
                old(self).table@,
                old(self).sys_id@,
                old(self).wanted,
                old(self).at as int,
                text_option(old(self).missing),
                resp@,
            ),
            r is Ask ==> final(self).inv() && final(self).at > old(self).at,
            final(self).table == old(self).table,
            final(self).sys_id == old(self).sys_id,
            final(self).wanted == old(self).wanted,
    {
        let cols = self.wanted.columns(self.at);
        let ghost cs = texts(cols@);
        let errors = graphql_errors(resp);
        if errors.len() > 0 {
            if undefined_field(&errors, self.table.as_str()) {
                return FetchStep::Fail(not_queryable_error(self.table.as_str(), errors));
            }
            let mut i: usize = 0;
            assert(cs.skip(0) =~= cs);
            while i < cols.len()
                invariant
                    i <= cols.len(),
                    cs == texts(cols@),
                    *self == *old(self),
                    self.inv(),
                    cs == self.wanted.attempts()[self.at as int],
                    docs(errors@) == errors_of(resp@),
                    errors_of(resp@).len() > 0,
                    !undefined(errors_of(resp@), self.table@),
                    first_undefined(docs(errors@), cs) == first_undefined(
                        docs(errors@),
                        cs.skip(i as int),
                    ),
                decreases cols.len() - i,
            {
                assert(cs.skip(i as int).drop_first() =~= cs.skip(i + 1));
                assert(cs.skip(i as int)[0] == cols@[i as int]@);
                if undefined_field(&errors, cols[i].as_str()) {
                    self.missing = Some(cols[i].clone());
                    let from = self.at + 1;
                    proof {
                        lemma_next_attempt(self.wanted, from as int, text_option(self.missing));
                    }
                    return self.advance(from);
                }
                i = i + 1;
            }
            return FetchStep::Fail(errors_to_api_error(errors));
        }
        let node = get_in(get_in(resp.get("data"), "GlideRecord_Query"), self.table.as_str());
        let rows = items_of_option(get_in(node, "_results"));
        proof {
            lemma_docs(rows@);
        }
        if rows.len() == 0 {
            return FetchStep::Fail(
                plain_error(
                    404,
                    "no ".to_owned().concat(self.table.as_str()).concat(
                        " record with sys_id ",
                    ).concat(self.sys_id.as_str()),
                ),
            );
        }
        let row = &rows[0];
        let ghost all = displayed(row@, cs);
        let mut out: Vec<(String, String)> = Vec::new();
        let mut i: usize = 0;
        assert(pairs(out@) =~= all.take(0));
        while i < cols.len()
            invariant
                i <= cols.len(),
                cs == texts(cols@),
                all == displayed(row@, cs),
                pairs(out@) == all.take(i as int),
                *self == *old(self),
            decreases cols.len() - i,
        {
            let c = cols[i].as_str();
            let stream = text_of_option(get_in(row.get(c), "displayValue"));
            param(&mut out, c, stream.as_str());
            assert(cs[i as int] == c@);
            assert(all[i as int] == (c@, stream@));
            assert(all.take(i + 1) =~= all.take(i as int).push(all[i as int]));
            i = i + 1;
        }
        assert(all.take(i as int) =~= all);
        FetchStep::Done(out)
    }
}

/// The entries of several streams, one after the other.
pub open spec fn all_notes(streams: Seq<(Seq<char>, Seq<char>)>) -> Result<Seq<Note>, Fault>
    decreases streams.len(),
{
    if streams.len() == 0 {
        Ok(Seq::empty())
    } else {
        match all_notes(streams.drop_last()) {
            Err(f) => Err(f),
            Ok(s) => match stream_notes(streams.last().1) {
                Err(f) => Err(f),
                Ok(t) => Ok(s + t),
            },
        }
    }
}

proof fn lemma_notes_stop(streams: Seq<(Seq<char>, Seq<char>)>, i: int)
    requires
        0 <= i <= streams.len(),
        all_notes(streams.take(i)) is Err,
    ensures
        all_notes(streams) == all_notes(streams.take(i)),
    decreases streams.len() - i,
{
    if i == streams.len() {
        assert(streams.take(i) =~= streams);
    } else {
        assert(streams.take(i + 1).drop_last() =~= streams.take(i));
        lemma_notes_stop(streams, i + 1);
    }
}

/// Parses several streams and sorts what they hold, newest first.
pub fn merge_streams(streams: &Vec<(String, String)>) -> (r: Result<Vec<Entry>, Error>)
    ensures
        match all_notes(pairs(streams@)) {
            Ok(s) => r matches Ok(v) && notes(v@) == newest_first(s),
            Err(f) => r matches Err(e) && e@ == f,
        },
{
    let ghost all = pairs(streams@);
    let mut out: Vec<Entry> = Vec::new();
    let mut i: usize = 0;
    assert(notes(out@) =~= Seq::empty());
    while i < streams.len()
        invariant
            i <= streams.len(),
            all == pairs(streams@),
            all_notes(all.take(i as int)) == Ok::<Seq<Note>, Fault>(notes(out@)),
        decreases streams.len() - i,
    {
        assert(all.take(i + 1).drop_last() =~= all.take(i as int));
        assert(all.take(i + 1).last() == (streams@[i as int].0@, streams@[i as int].1@));
        let mut found = match parse_stream(streams[i].1.as_str()) {
            Ok(v) => v,
            Err(e) => {
                proof {
                    lemma_notes_stop(all, i + 1);
                }
                return Err(e);
            },
        };
        let ghost prior = notes(out@);
        let ghost more = notes(found@);
        out.append(&mut found);
        assert(notes(out@) =~= prior + more);
        i = i + 1;
    }
    assert(all.take(i as int) =~= all);
    sort_newest_first(&mut out);
    Ok(out)
}

/// The streams as they are, one after the other.
pub open spec fn raw_streams(streams: Seq<(Seq<char>, Seq<char>)>) -> Seq<char> {
    joined(streams.map_values(|p: (Seq<char>, Seq<char>)| p.1), ""@)
}

/// The first entries of a list, where there is a limit.
pub open spec fn limited(s: Seq<Note>, limit: Option<usize>) -> Seq<Note> {
    match limit {
        Some(n) => if n < s.len() {
            s.take(n as int)
        } else {
            s
        },
        None => s,
    }
}

/// What is shown of the streams of a record: the entries, newest first and at
/// most as many as asked for, or the streams as they are.
pub fn run(streams: &Vec<(String, String)>, raw: bool, limit: Option<usize>) -> (r: Result<Json, Error>)
    ensures
        raw ==> (r matches Ok(j) && j@ == Doc::Str(raw_streams(pairs(streams@)))),
        !raw ==> match all_notes(pairs(streams@)) {
            Ok(s) => r matches Ok(j) && j@ == notes_doc(limited(newest_first(s), limit)),
            Err(f) => r matches Err(e) && e@ == f,
        },
{
    if raw {
        let ghost all = pairs(streams@).map_values(|p: (Seq<char>, Seq<char>)| p.1);
        let mut parts: Vec<String> = Vec::new();
        let mut i: usize = 0;
        assert(texts(parts@) =~= all.take(0));
        while i < streams.len()
            invariant
                i <= streams.len(),
                all == pairs(streams@).map_values(|p: (Seq<char>, Seq<char>)| p.1),
                texts(parts@) == all.take(i as int),
            decreases streams.len() - i,
        {
            let ghost prior = texts(parts@);
            parts.push(streams[i].1.clone());
            assert(texts(parts@) =~= prior.push(streams@[i as int].1@));
            assert(all[i as int] == streams@[i as int].1@);
            assert(all.take(i + 1) =~= all.take(i as int).push(all[i as int]));
            i = i + 1;
        }
        assert(all.take(i as int) =~= all);
        return Ok(Json::Str(join(&parts, "")));
    }
    let mut entries = match merge_streams(streams) {
        Ok(v) => v,
        Err(e) => {
            return Err(e);
        },
    };
    let ghost all = notes(entries@);
    assert(all.len() == entries@.len());
    if let Some(n) = limit {
        entries.truncate(n);
        proof {
            if n < all.len() {
                assert(notes(entries@) =~= all.take(n as int));
            } else {
                assert(notes(entries@) =~= all);
            }
        }
    }
    Ok(entries_json(&entries))
}

/// The document that reads the rows of the journal table.
pub open spec fn rows_document() -> Seq<char> {
    "query ($qc: String!, $limit: Int) { GlideRecord_Query { sys_journal_field(queryConditions: $qc, pagination: { limit: $limit }) { _rowCount _results { element { value } value { value } sys_created_on { value } sys_created_by { value } } } } }"@
}

/// The condition that selects the rows of a record, newest first.
pub open spec fn rows_condition(sys_id: Seq<char>, wanted: Wanted) -> Seq<char> {
    "element_id="@ + sys_id + (match wanted.column() {
        Some(col) => "^element="@ + col,
        None => Seq::empty(),
    }) + "^ORDERBYDESCsys_created_on"@
}

/// Makes the request that reads the rows of the journal table: a thousand at
/// most unless a limit is given.
pub fn fetch_table_rows(sys_id: &str, wanted: Wanted, limit: Option<usize>) -> (r: Request)
    ensures
        r@ == graphql_call(
            rows_document(),
            Some(
                Doc::Object(
                    Map::empty().insert(
                        "qc"@,
                        Doc::Str(rows_condition(sys_id@, wanted)),
                    ).insert(
                        "limit"@,
                        Doc::Number(
                            digits(
                                match limit {
                                    Some(n) => n as nat,
                                    None => 1000,
                                },
                            ),
                        ),
                    ),
                ),
            ),
            None,
        ),
{
    let start = "element_id=".to_owned().concat(sys_id);
    let qc = match wanted {
        Wanted::All => start.concat(""),
        Wanted::Comments => start.concat("^element=comments"),
        Wanted::WorkNotes => start.concat("^element=work_notes"),
    };
    proof {
        reveal_strlit("");
        reveal_strlit("^element=");
        reveal_strlit("comments");
        reveal_strlit("work_notes");
        reveal_strlit("^element=comments");
        reveal_strlit("^element=work_notes");
        assert(""@ =~= Seq::<char>::empty());
        assert("^element=comments"@ =~= "^element="@ + "comments"@);
        assert("^element=work_notes"@ =~= "^element="@ + "work_notes"@);
    }
    let qc = qc.concat("^ORDERBYDESCsys_created_on");
    let n: u64 = match limit {
        Some(n) => n as u64,
        None => 1000,
    };
    let mut vars: Vec<(String, Json)> = Vec::new();
    put(&mut vars, "qc", Json::Str(qc));
    put(&mut vars, "limit", Json::number(n));
    execute(
        "query ($qc: String!, $limit: Int) { GlideRecord_Query { sys_journal_field(queryConditions: $qc, pagination: { limit: $limit }) { _rowCount _results { element { value } value { value } sys_created_on { value } sys_created_by { value } } } } }",
        Some(Json::Object(vars)),
        &None,
    )
}

/// The value of a column of a row.
pub open spec fn row_value(row: Doc, name: Seq<char>) -> Seq<char> {
    text_in(field_in(row.field(name), "value"@))
}

/// The entry that a row of the journal table is.
pub open spec fn row_note(row: Doc) -> Note {
    Note {
        created_on: row_value(row, "sys_created_on"@),
        author: row_value(row, "sys_created_by"@),
        element: Some(row_value(row, "element"@)),
        label: None,
        text: row_value(row, "value"@),
    }
}

/// The entries of an answer of the journal table. Where rows are counted but none
/// is shown, they were withheld, and that is the failure.
pub open spec fn table_notes(resp: Doc) -> Result<Seq<Note>, Fault> {
    if errors_of(resp).len() > 0 {
        Err(errors_fault(errors_of(resp)))
    } else {
        let node = rows_of(resp, "sys_journal_field"@);
        let count = number_in(field_in(node, "_rowCount"@));
        let rows = items_in(field_in(node, "_results"@));
        if count > 0 && rows.len() == 0 {
            Err(
                plain_fault(
                    200,
                    digits(count)
                        + " journal entries exist but were removed by ACLs (sys_journal_field is admin-readable by default); try --source record"@,
                ),
            )
        } else {
            Ok(rows.map_values(|r: Doc| row_note(r)))
        }
    }
}

/// The value of a column of a row.
fn column_value(row: &Json, name: &str) -> (r: String)
    ensures
        r@ == row_value(row@, name@),
{
    text_of_option(get_in(row.get(name), "value"))
}

/// Reads the entries of an answer of the journal table.
pub fn table_entries(resp: &Json) -> (r: Result<Vec<Entry>, Error>)
    ensures
        match table_notes(resp@) {
            Ok(s) => r matches Ok(v) && notes(v@) == s,
            Err(f) => r matches Err(e) && e@ == f,
        },
{
    let errors = graphql_errors(resp);
    if errors.len() > 0 {
        return Err(errors_to_api_error(errors));
    }
    let node = get_in(get_in(resp.get("data"), "GlideRecord_Query"), "sys_journal_field");
    let count = number_of_option(get_in(node, "_rowCount"));
    let rows = items_of_option(get_in(node, "_results"));
    proof {
        lemma_docs(rows@);
    }
    if count > 0 && rows.len() == 0 {
        return Err(
            plain_error(
                200,
                decimal(count).concat(
                    " journal entries exist but were removed by ACLs (sys_journal_field is admin-readable by default); try --source record",
                ),
            ),
        );
    }
    let ghost all = docs(rows@).map_values(|r: Doc| row_note(r));
    let mut out: Vec<Entry> = Vec::new();
    let mut i: usize = 0;
    assert(notes(out@) =~= all.take(0));
    while i < rows.len()
        invariant
            i <= rows.len(),
            all == docs(rows@).map_values(|r: Doc| row_note(r)),
            all.len() == rows@.len(),
            forall|k: int| 0 <= k < rows@.len() ==> #[trigger] docs(rows@)[k] == rows@[k]@,
            notes(out@) == all.take(i as int),
        decreases rows.len() - i,
    {
        let row = &rows[i];
        assert(docs(rows@)[i as int] == row@);
        let e = Entry {
            created_on: column_value(row, "sys_created_on"),
            author: column_value(row, "sys_created_by"),
            element: Some(column_value(row, "element")),
            label: None,
            text: column_value(row, "value"),
        };
        let ghost n = e@;
        let ghost prior = notes(out@);
        out.push(e);
        assert(notes(out@) =~= prior.push(n));
        assert(all[i as int] == n);
        assert(all.take(i + 1) =~= all.take(i as int).push(all[i as int]));
        i = i + 1;
    }
    assert(all.take(i as int) =~= all);
    Ok(out)
}

/// Each row of the journal table is one entry, at its place: the text is the row's
/// value, the column its element, and the moment and the author those of its
/// creation.
pub proof fn a_row_is_read_as_an_entry(
    resp: Doc,
    node: Doc,
    rows: Seq<Doc>,
    i: int,
)
    requires
        errors_of(resp).len() == 0,
        field_in(field_in(resp.field("data"@), "GlideRecord_Query"@), "sys_journal_field"@) == Some(
            node,
        ),
        node.field("_results"@) == Some(Doc::Array(rows)),
        0 <= i < rows.len(),
    ensures
        table_notes(resp) matches Ok(ns) && ns.len() == rows.len() && {
            &&& field_in(rows[i].field("value"@), "value"@) matches Some(Doc::Str(s)) ==> ns[i].text
                == s
            &&& field_in(rows[i].field("element"@), "value"@) matches Some(Doc::Str(s))
                ==> ns[i].element == Some(s)
            &&& field_in(rows[i].field("sys_created_on"@), "value"@) matches Some(Doc::Str(s))
                ==> ns[i].created_on == s
            &&& field_in(rows[i].field("sys_created_by"@), "value"@) matches Some(Doc::Str(s))
                ==> ns[i].author == s
        },
{
}

/// A filter asks for its column alone, in the document and in the condition.
pub proof fn a_filter_asks_for_its_column(sys_id: Seq<char>)
    ensures
        Wanted::Comments.attempts() == seq![seq!["comments"@]],
        Wanted::WorkNotes.attempts() == seq![seq!["work_notes"@]],
        rows_condition(sys_id, Wanted::Comments) == "element_id="@ + sys_id + "^element="@
            + "comments"@ + "^ORDERBYDESCsys_created_on"@,
        rows_condition(sys_id, Wanted::WorkNotes) == "element_id="@ + sys_id + "^element="@
            + "work_notes"@ + "^ORDERBYDESCsys_created_on"@,
        rows_condition(sys_id, Wanted::All) == "element_id="@ + sys_id
            + "^ORDERBYDESCsys_created_on"@,
{
    assert("element_id="@ + sys_id + Seq::<char>::empty() =~= "element_id="@ + sys_id);
    assert("element_id="@ + sys_id + ("^element="@ + "comments"@) =~= "element_id="@ + sys_id
        + "^element="@ + "comments"@);
    assert("element_id="@ + sys_id + ("^element="@ + "work_notes"@) =~= "element_id="@ + sys_id
        + "^element="@ + "work_notes"@);
}

/// What is read of a record are the displayed values of the columns of the attempt,
/// each under its own name.
pub proof fn the_columns_of_an_attempt_are_read(
    table: Seq<char>,
    sys_id: Seq<char>,
    wanted: Wanted,
    at: int,
    missing: Option<Seq<char>>,
    resp: Doc,
    rows: Seq<Doc>,
    k: int,
)
    requires
        0 <= at < wanted.attempts().len(),
        0 <= k < wanted.attempts()[at].len(),
        errors_of(resp).len() == 0,
        field_in(
            field_in(field_in(resp.field("data"@), "GlideRecord_Query"@), table),
            "_results"@,
        ) == Some(Doc::Array(rows)),
    ensures
        rows.len() == 0 ==> answered(table, sys_id, wanted, at, missing, resp).2 is Fail,
        rows.len() > 0 ==> (answered(table, sys_id, wanted, at, missing, resp).2 matches
            Fetching::Done(read) && read.len() == wanted.attempts()[at].len() && read[k].0
            == wanted.attempts()[at][k] && (field_in(
            rows[0].field(wanted.attempts()[at][k]),
            "displayValue"@,
        ) matches Some(Doc::Str(s)) ==> read[k].1 == s)),
{
}

/// Without a filter both columns are tried: together first, then side by side, then
/// each alone.
pub proof fn without_a_filter_both_columns_are_tried(c: Seq<char>)
    ensures
        Wanted::All.attempts()[0] == seq!["comments_and_work_notes"@],
        c == "comments"@ || c == "work_notes"@ ==> Wanted::All.attempts()[1].contains(c)
            && Wanted::All.attempts().contains(seq![c]),
{
    let a = Wanted::All.attempts();
    assert(a[1][0] == "comments"@ && a[1][1] == "work_notes"@);
    assert(a[2] == seq!["comments"@] && a[3] == seq!["work_notes"@]);
}

/// A limit keeps the first entries, as many as it says.
pub proof fn a_limit_keeps_the_first_entries(s: Seq<Note>, n: usize)
    ensures
        limited(s, Some(n)).len() == (if n < s.len() {
            n as nat
        } else {
            s.len()
        }),
        limited(s, Some(n)).is_prefix_of(s),
        limited(s, None) == s,
{
}

/// The document of an attempt selects each of its columns, of the table that was named,
/// and the record is named by a variable.
pub proof fn an_attempt_selects_its_columns(
    table: Seq<char>,
    sys_id: Seq<char>,
    cols: Seq<Seq<char>>,
    c: Seq<char>,
)
    ensures
        streams_document(table, seq![c]) == "query ($id: String!) { GlideRecord_Query { "@ + table
            + "(sys_id: $id) { _results { "@ + (c + " { displayValue }"@) + " } } } }"@,
        cols.len() > 0 ==> joined(selections(cols.push(c)), " "@) == joined(selections(cols), " "@)
            + " "@ + (c + " { displayValue }"@),
        streams_call(table, sys_id, cols).body matches Some(b) && field_in(
            b.field("variables"@),
            "id"@,
        ) == Some(Doc::Str(sys_id)) && b.field("query"@) == Some(
            Doc::Str(streams_document(table, cols)),
        ),
        streams_call(table, sys_id, cols).method == Method::Post,
        streams_call(table, sys_id, cols).path == "/api/now/graphql"@,
{
    reveal_strlit("query");
    reveal_strlit("variables");
    reveal_strlit("operationName");
    assert("query"@.len() == 5 && "variables"@.len() == 9 && "operationName"@.len() == 13);
    assert(selections(seq![c]) =~= seq![c + " { displayValue }"@]);
    assert(selections(cols.push(c)).drop_last() =~= selections(cols));
}

/// The entries of several streams follow one another; one that cannot be read fails all.
pub proof fn streams_follow_one_another(
    streams: Seq<(Seq<char>, Seq<char>)>,
    name: Seq<char>,
    stream: Seq<char>,
)
    ensures
        all_notes(streams.push((name, stream))) matches Ok(s) ==> (all_notes(streams) matches Ok(a)
            && stream_notes(stream) matches Ok(b) && s == a + b),
        all_notes(streams) is Ok && stream_notes(stream) is Ok ==> all_notes(
            streams.push((name, stream)),
        ) is Ok,
        raw_streams(streams.push((name, stream))) == raw_streams(streams) + stream,
{
    let all = streams.push((name, stream));
    assert(all.drop_last() =~= streams);
    reveal_strlit("");
    let f = |p: (Seq<char>, Seq<char>)| p.1;
    assert(all.map_values(f).drop_last() =~= streams.map_values(f));
    assert(all.map_values(f).last() == stream);
    if streams.len() == 0 {
        assert(raw_streams(streams) + stream =~= stream);
    } else {
        assert(raw_streams(all) =~= raw_streams(streams) + stream);
    }
}

/// The first column that the errors call undefined is the one that is missing.
pub proof fn the_first_undefined_column_is_missing(errors: Seq<Doc>, cols: Seq<Seq<char>>)
    ensures
        first_undefined(errors, cols) matches Some(c) ==> cols.contains(c) && undefined(errors, c),
        first_undefined(errors, cols) is None <==> forall|i: int|
            0 <= i < cols.len() ==> !undefined(errors, #[trigger] cols[i]),
    decreases cols.len(),
{
    if cols.len() > 0 {
        let rest = cols.drop_first();
        the_first_undefined_column_is_missing(errors, rest);
        if undefined(errors, cols[0]) {
            assert(cols.contains(cols[0]));
        } else if let Some(c) = first_undefined(errors, rest) {
            let i = rest.index_of(c);
            assert(cols[i + 1] == c);
        } else {
            assert forall|i: int| 0 <= i < cols.len() implies !undefined(
                errors,
                #[trigger] cols[i],
            ) by {
                if i > 0 {
                    assert(rest[i - 1] == cols[i]);
                }
            }
        }
    }
}

} // verus!
