//! Record references: `table:sys_id`, `table:number`, or a number whose prefix
//! names its table.
//!
//! Reading a reference asks nothing of the instance. Only a number costs a
//! lookup, and that lookup asks for two rows: `number` is unique where it exists,
//! so a second row shows that the instance dropped the condition.

use vstd::prelude::*;

use crate::error::{Error, Fault, NO_HTTP_STATUS};
use crate::journal::{
    bad_identifier, bad_sys_id, is_id_char, is_identifier, is_record_id, validate_identifier,
    validate_sys_id,
};
use crate::json::{items_in, items_of_option, lemma_docs, text_in, text_of_option, Doc, Json};
use crate::request::{get, no_query, param, Call, Method, Request};
use crate::streams::{plain_error, plain_fault};
use crate::text::{chars_of, find, first, halves, lemma_first, raised, same, slice, split_once, to_uppercase};

verus! {

/// A record: its table, and its sys_id or its number.
#[derive(Debug)]
pub struct RecordRef {
    pub table: String,
    pub id: RefId,
}

/// How a record is named.
#[derive(Debug)]
pub enum RefId {
    SysId(String),
    Number(String),
}

/// A record reference, as a view.
pub ghost struct Reference {
    pub table: Seq<char>,
    pub id: Named,
}

/// How a record is named, as a view.
pub ghost enum Named {
    SysId(Seq<char>),
    Number(Seq<char>),
}

impl RefId {
    pub open spec fn view(&self) -> Named {
        match self {
            RefId::SysId(s) => Named::SysId(s@),
            RefId::Number(s) => Named::Number(s@),
        }
    }
}

impl RecordRef {
    pub open spec fn view(&self) -> Reference {
        Reference { table: self.table@, id: self.id@ }
    }

    /// The wording of a prompt: what the caller typed, since learning the sys_id of
    /// a number would take a request.
    pub fn text(&self) -> (r: String)
        ensures
            r@ == match self@.id {
                Named::SysId(id) => self@.table + "/"@ + id,
                Named::Number(n) => self@.table + ":"@ + n,
            },
    {
        match &self.id {
            RefId::SysId(id) => self.table.clone().concat("/").concat(id.as_str()),
            RefId::Number(n) => self.table.clone().concat(":").concat(n.as_str()),
        }
    }
}

/// A hexadecimal digit.
pub open spec fn is_hex(c: char) -> bool {
    ('0' <= c && c <= '9') || ('a' <= c && c <= 'f') || ('A' <= c && c <= 'F')
}

/// The shape of every sys_id that the platform makes.
pub open spec fn sys_id_shape(s: Seq<char>) -> bool {
    s.len() == 32 && forall|i: int| 0 <= i < s.len() ==> is_hex(#[trigger] s[i])
}

/// Whether a text has the shape of a sys_id.
pub fn is_sys_id(s: &str) -> (r: bool)
    ensures
        r == sys_id_shape(s@),
{
    let v = chars_of(s);
    if v.len() != 32 {
        return false;
    }
    let mut i: usize = 0;
    while i < v.len()
        invariant
            i <= v.len(),
            v@ == s@,
            v@.len() == 32,
            forall|k: int| 0 <= k < i ==> is_hex(#[trigger] v@[k]),
        decreases v.len() - i,
    {
        let c = v[i];
        let hex = ('0' <= c && c <= '9') || ('a' <= c && c <= 'f') || ('A' <= c && c <= 'F');
        if !hex {
            assert(!is_hex(v@[i as int]));
            return false;
        }
        i = i + 1;
    }
    true
}

/// How an identifier names a record: a sys_id by its shape, a number otherwise.
pub open spec fn classified(id: Seq<char>) -> Named {
    if sys_id_shape(id) {
        Named::SysId(id)
    } else {
        Named::Number(id)
    }
}

/// A combined reference: what stands before the first colon is the table, what
/// stands behind it the identifier.
pub open spec fn combined(token: Seq<char>, what: Seq<char>) -> Result<Reference, Fault> {
    match halves(token, ':') {
        None => Err(
            Fault::Usage("'"@ + token + "' is not a "@ + what + ":identifier reference"@),
        ),
        Some((table, id)) => if !is_identifier(table) {
            Err(bad_identifier(table, what))
        } else if !is_record_id(id) {
            Err(bad_sys_id(id))
        } else {
            Ok(Reference { table, id: classified(id) })
        },
    }
}

/// A table and a sys_id, as they are.
pub open spec fn apart(table: Seq<char>, sys_id: Seq<char>, what: Seq<char>) -> Result<
    Reference,
    Fault,
> {
    if !is_identifier(table) {
        Err(bad_identifier(table, what))
    } else if !is_record_id(sys_id) {
        Err(bad_sys_id(sys_id))
    } else {
        Ok(Reference { table, id: Named::SysId(sys_id) })
    }
}

/// What a parse gives.
pub open spec fn gives(r: Result<RecordRef, Error>, s: Result<Reference, Fault>) -> bool {
    match r {
        Ok(x) => s == Ok::<Reference, Fault>(x@),
        Err(e) => s == Err::<Reference, Fault>(e@),
    }
}

/// Reads one `table:identifier` token.
pub fn parse_ref(token: &str, what: &str) -> (r: Result<RecordRef, Error>)
    ensures
        gives(r, combined(token@, what@)),
{
    match split_once(token, ':') {
        None => Err(
            Error::Usage(
                "'".to_owned().concat(token).concat("' is not a ").concat(what).concat(
                    ":identifier reference",
                ),
            ),
        ),
        Some((table, id)) => {
            if let Err(e) = validate_identifier(table.as_str(), what) {
                return Err(e);
            }
            if let Err(e) = validate_sys_id(id.as_str()) {
                return Err(e);
            }
            if is_sys_id(id.as_str()) {
                Ok(RecordRef { table, id: RefId::SysId(id) })
            } else {
                Ok(RecordRef { table, id: RefId::Number(id) })
            }
        },
    }
}

/// Reads a table and a sys_id.
fn parse_apart(table: &str, sys_id: &str, what: &str) -> (r: Result<RecordRef, Error>)
    ensures
        gives(r, apart(table@, sys_id@, what@)),
{
    if let Err(e) = validate_identifier(table, what) {
        return Err(e);
    }
    if let Err(e) = validate_sys_id(sys_id) {
        return Err(e);
    }
    Ok(RecordRef { table: table.to_owned(), id: RefId::SysId(sys_id.to_owned()) })
}

/// Whether a text holds a colon.
fn has_colon(s: &str) -> (r: bool)
    ensures
        r == s@.contains(':'),
{
    let v = chars_of(s);
    proof {
        lemma_first(s@, ':');
    }
    find(&v, ':').is_some()
}

/// The record of two positionals: a table and a sys_id, or one combined
/// reference. A combined reference with a second token is refused, since either
/// reading would lose something.
pub open spec fn pair_of(f: Seq<char>, second: Option<Seq<char>>, what: Seq<char>) -> Result<
    Reference,
    Fault,
> {
    match second {
        Some(sys_id) => if f.contains(':') {
            Err(
                Fault::Usage(
                    "give the record once: either `<"@ + raised(what)
                        + "> <SYS_ID>` or a combined `<"@ + raised(what)
                        + ">:<ID>` reference, not both"@,
                ),
            )
        } else {
            apart(f, sys_id, what)
        },
        None => if !f.contains(':') {
            Err(
                Fault::Usage(
                    "missing SYS_ID: pass `<"@ + raised(what) + "> <SYS_ID>` or a combined `<"@
                        + raised(what)
                        + ">:<SYS_ID|NUMBER>` reference (e.g. incident:INC0010001)"@,
                ),
            )
        } else {
            combined(f, what)
        },
    }
}

/// The text of an optional token.
pub open spec fn token_option(s: Option<&str>) -> Option<Seq<char>> {
    match s {
        Some(s) => Some(s@),
        None => None,
    }
}

/// Reads the two positionals that name a record.
pub fn parse_pair(first: &str, second: Option<&str>, what: &str) -> (r: Result<RecordRef, Error>)
    ensures
        gives(r, pair_of(first@, token_option(second), what@)),
{
    match second {
        Some(sys_id) => {
            if has_colon(first) {
                let up = to_uppercase(what);
                return Err(
                    Error::Usage(
                        "give the record once: either `<".to_owned().concat(up.as_str()).concat(
                            "> <SYS_ID>` or a combined `<",
                        ).concat(up.as_str()).concat(">:<ID>` reference, not both"),
                    ),
                );
            }
            parse_apart(first, sys_id, what)
        },
        None => {
            if !has_colon(first) {
                let up = to_uppercase(what);
                return Err(
                    Error::Usage(
                        "missing SYS_ID: pass `<".to_owned().concat(up.as_str()).concat(
                            "> <SYS_ID>` or a combined `<",
                        ).concat(up.as_str()).concat(
                            ">:<SYS_ID|NUMBER>` reference (e.g. incident:INC0010001)",
                        ),
                    ),
                );
            }
            parse_ref(first, what)
        },
    }
}

/// The record of two flags: a combined reference, or a table and a sys_id.
pub open spec fn flags_of(table: Option<Seq<char>>, record: Seq<char>) -> Result<Reference, Fault> {
    if record.contains(':') {
        if table is Some {
            Err(
                Fault::Usage(
                    "give the table once: either --table with a bare --record sys_id, or a combined --record `table:id` reference, not both"@,
                ),
            )
        } else {
            combined(record, "table"@)
        }
    } else {
        match table {
            None => Err(
                Fault::Usage(
                    "--table is required unless --record is a `table:identifier` reference"@,
                ),
            ),
            Some(t) => apart(t, record, "table"@),
        }
    }
}

/// Reads the two flags that name a record.
pub fn parse_flag_pair(table: Option<&str>, record: &str) -> (r: Result<RecordRef, Error>)
    ensures
        gives(r, flags_of(token_option(table), record@)),
{
    if has_colon(record) {
        if table.is_some() {
            return Err(
                Error::Usage(
                    "give the table once: either --table with a bare --record sys_id, or a combined --record `table:id` reference, not both".to_owned(),
                ),
            );
        }
        return parse_ref(record, "table");
    }
    match table {
        None => Err(
            Error::Usage(
                "--table is required unless --record is a `table:identifier` reference".to_owned(),
            ),
        ),
        Some(t) => parse_apart(t, record, "table"),
    }
}

/// The leading run of capital letters.
pub open spec fn capitals(s: Seq<char>) -> Seq<char>
    decreases s.len(),
{
    if s.len() > 0 && 'A' <= s[0] && s[0] <= 'Z' {
        seq![s[0]] + capitals(s.drop_first())
    } else {
        Seq::empty()
    }
}

/// The table of a number prefix.
pub open spec fn prefix_table(run: Seq<char>) -> Option<Seq<char>> {
    if run == "CHG"@ {
        Some("change_request"@)
    } else if run == "CTASK"@ {
        Some("change_task"@)
    } else if run == "INC"@ {
        Some("incident"@)
    } else if run == "KB"@ {
        Some("kb_knowledge"@)
    } else if run == "PRB"@ {
        Some("problem"@)
    } else if run == "REQ"@ {
        Some("sc_request"@)
    } else if run == "RITM"@ {
        Some("sc_req_item"@)
    } else if run == "SCTASK"@ {
        Some("sc_task"@)
    } else if run == "SIR"@ {
        Some("sn_si_incident"@)
    } else {
        None
    }
}

/// The length of the leading run of capital letters.
fn capital_run(v: &Vec<char>) -> (n: usize)
    ensures
        n <= v@.len(),
        capitals(v@) == v@.take(n as int),
{
    let mut n: usize = 0;
    assert(v@.skip(0) =~= v@);
    assert(v@.take(0) + capitals(v@) =~= capitals(v@));
    while n < v.len() && 'A' <= v[n] && v[n] <= 'Z'
        invariant
            n <= v@.len(),
            capitals(v@) == v@.take(n as int) + capitals(v@.skip(n as int)),
        decreases v.len() - n,
    {
        let ghost rest = v@.skip(n as int);
        assert(rest[0] == v@[n as int]);
        assert(rest.drop_first() =~= v@.skip(n + 1));
        assert(v@.take(n as int) + (seq![rest[0]] + capitals(v@.skip(n + 1))) =~= v@.take(n + 1)
            + capitals(v@.skip(n + 1)));
        n = n + 1;
    }
    assert(v@.take(n as int) + capitals(v@.skip(n as int)) =~= v@.take(n as int));
    n
}

/// The table that the prefix of a number names. The whole run of capitals has to
/// match.
pub fn table_for_number(number: &str) -> (r: Option<&'static str>)
    ensures
        match r {
            Some(t) => prefix_table(capitals(number@)) == Some(t@),
            None => prefix_table(capitals(number@)) is None,
        },
{
    let v = chars_of(number);
    let n = capital_run(&v);
    let run = slice(&v, 0, n);
    assert(run@ =~= capitals(number@));
    let p = run.as_str();
    if same(p, "CHG") {
        Some("change_request")
    } else if same(p, "CTASK") {
        Some("change_task")
    } else if same(p, "INC") {
        Some("incident")
    } else if same(p, "KB") {
        Some("kb_knowledge")
    } else if same(p, "PRB") {
        Some("problem")
    } else if same(p, "REQ") {
        Some("sc_request")
    } else if same(p, "RITM") {
        Some("sc_req_item")
    } else if same(p, "SCTASK") {
        Some("sc_task")
    } else if same(p, "SIR") {
        Some("sn_si_incident")
    } else {
        None
    }
}

/// The record of a single token: a combined reference, or a number with a known
/// prefix. A bare sys_id names no table.
pub open spec fn get_ref(token: Seq<char>) -> Result<Reference, Fault> {
    if token.contains(':') {
        combined(token, "table"@)
    } else if sys_id_shape(token) {
        Err(Fault::Usage("a bare sys_id names no table; use `table:"@ + token + "`"@))
    } else if !is_record_id(token) {
        Err(bad_sys_id(token))
    } else {
        match prefix_table(capitals(token)) {
            Some(table) => Ok(Reference { table, id: Named::Number(token) }),
            None => Err(
                Fault::Usage(
                    "'"@ + token
                        + "' has no recognized number prefix (known: CHG, CTASK, INC, KB, PRB, REQ, RITM, SCTASK, SIR; prefixes are uppercase); use a `table:number` reference to name the table yourself"@,
                ),
            ),
        }
    }
}

/// Reads the single token that names a record.
pub fn parse_get_ref(token: &str) -> (r: Result<RecordRef, Error>)
    ensures
        gives(r, get_ref(token@)),
{
    if has_colon(token) {
        return parse_ref(token, "table");
    }
    if is_sys_id(token) {
        return Err(
            Error::Usage(
                "a bare sys_id names no table; use `table:".to_owned().concat(token).concat("`"),
            ),
        );
    }
    if let Err(e) = validate_sys_id(token) {
        return Err(e);
    }
    match table_for_number(token) {
        Some(table) => Ok(
            RecordRef { table: table.to_owned(), id: RefId::Number(token.to_owned()) },
        ),
        None => Err(
            Error::Usage(
                "'".to_owned().concat(token).concat(
                    "' has no recognized number prefix (known: CHG, CTASK, INC, KB, PRB, REQ, RITM, SCTASK, SIR; prefixes are uppercase); use a `table:number` reference to name the table yourself",
                ),
            ),
        ),
    }
}

/// The lookup of a number.
pub open spec fn lookup_call(table: Seq<char>, number: Seq<char>) -> Call {
    Call {
        method: Method::Get,
        path: "/api/now/table/"@ + table,
        query: seq![
            ("sysparm_query"@, "number="@ + number),
            ("sysparm_fields"@, "sys_id"@),
            ("sysparm_limit"@, "2"@),
            ("sysparm_display_value"@, "false"@),
        ],
        body: None,
    }
}

/// The failure of a condition that the instance dropped.
pub open spec fn dropped(table: Seq<char>, number: Seq<char>) -> Fault {
    Fault::Instance {
        message: "cannot resolve "@ + number + ": the number="@ + number
            + " query term was dropped by the instance, so the rows returned are arbitrary"@,
        detail: Some(
            table
                + " likely has no queryable `number` field; pass the record's sys_id instead ("@
                + table + ":<sys_id>)"@,
        ),
    }
}

/// Reports a condition that the instance dropped.
pub fn dropped_error(table: &str, number: &str) -> (e: Error)
    ensures
        e@ == dropped(table@, number@),
{
    Error::Instance {
        message: "cannot resolve ".to_owned().concat(number).concat(": the number=").concat(
            number,
        ).concat(
            " query term was dropped by the instance, so the rows returned are arbitrary",
        ),
        detail: Some(
            table.to_owned().concat(
                " likely has no queryable `number` field; pass the record's sys_id instead (",
            ).concat(table).concat(":<sys_id>)"),
        ),
    }
}

/// What the lookup of a number found: exactly one row, with a sys_id.
pub open spec fn looked_up(table: Seq<char>, number: Seq<char>, resp: Doc) -> Result<
    Seq<char>,
    Fault,
> {
    let rows = items_in(resp.field("result"@));
    if rows.len() == 0 {
        Err(
            plain_fault(
                NO_HTTP_STATUS,
                "no "@ + table + " record with number "@ + number,
            ),
        )
    } else if rows.len() == 1 {
        let id = text_in(rows[0].field("sys_id"@));
        if id.len() == 0 {
            Err(
                Fault::Instance {
                    message: "the "@ + table + " record matching number "@ + number
                        + " came back without a sys_id"@,
                    detail: None,
                },
            )
        } else {
            Ok(id)
        }
    } else {
        Err(dropped(table, number))
    }
}

impl RecordRef {
    /// The request that the sys_id costs: none for a sys_id, one lookup for a number.
    pub fn lookup(&self) -> (r: Option<Request>)
        ensures
            match self@.id {
                Named::SysId(_) => r is None,
                Named::Number(n) => r matches Some(q) && q@ == lookup_call(self@.table, n),
            },
    {
        match &self.id {
            RefId::SysId(_) => None,
            RefId::Number(n) => {
                let mut q = no_query();
                let condition = "number=".to_owned().concat(n.as_str());
                param(&mut q, "sysparm_query", condition.as_str());
                param(&mut q, "sysparm_fields", "sys_id");
                param(&mut q, "sysparm_limit", "2");
                param(&mut q, "sysparm_display_value", "false");
                let r = get("/api/now/table/".to_owned().concat(self.table.as_str()), q);
                assert(r@.query =~= lookup_call(self@.table, n@).query);
                Some(r)
            },
        }
    }

    /// The record's sys_id, from the reply to the lookup where there was one.
    pub fn resolve(&self, resp: &Json) -> (r: Result<String, Error>)
        ensures
            match self@.id {
                Named::SysId(id) => r matches Ok(s) && s@ == id,
                Named::Number(n) => match looked_up(self@.table, n, resp@) {
                    Ok(id) => r matches Ok(s) && s@ == id,
                    Err(f) => r matches Err(e) && e@ == f,
                },
            },
    {
        let number = match &self.id {
            RefId::SysId(id) => {
                return Ok(id.clone());
            },
            RefId::Number(n) => n,
        };
        let rows = items_of_option(resp.get("result"));
        proof {
            lemma_docs(rows@);
        }
        if rows.len() == 0 {
            return Err(
                plain_error(
                    NO_HTTP_STATUS,
                    "no ".to_owned().concat(self.table.as_str()).concat(
                        " record with number ",
                    ).concat(number.as_str()),
                ),
            );
        }
        if rows.len() > 1 {
            return Err(dropped_error(self.table.as_str(), number.as_str()));
        }
        let id = text_of_option(rows[0].get("sys_id"));
        if id.as_str().is_empty() {
            return Err(
                Error::Instance {
                    message: "the ".to_owned().concat(self.table.as_str()).concat(
                        " record matching number ",
                    ).concat(number.as_str()).concat(" came back without a sys_id"),
                    detail: None,
                },
            );
        }
        Ok(id)
    }
}

/// Only an answer with exactly one row settles a number: none and several are
/// both failures, so a dropped condition never resolves to a stranger.
pub proof fn a_number_is_settled_by_one_row(table: Seq<char>, number: Seq<char>, resp: Doc)
    ensures
        looked_up(table, number, resp) is Ok ==> items_in(resp.field("result"@)).len() == 1,
        items_in(resp.field("result"@)).len() > 1 ==> looked_up(table, number, resp) == Err::<
            Seq<char>,
            Fault,
        >(dropped(table, number)),
{
}

/// Whatever form a record is named in, its table and its identifier hold no
/// character that would split a query or a path.
pub proof fn a_parsed_reference_is_clean(token: Seq<char>, what: Seq<char>)
    ensures
        combined(token, what) matches Ok(r) ==> is_identifier(r.table) && match r.id {
            Named::SysId(id) => is_record_id(id) && sys_id_shape(id),
            Named::Number(n) => is_record_id(n) && !sys_id_shape(n),
        },
{
}

/// A reference that is written out reads back as itself, for a number and for a
/// sys_id alike.
pub proof fn a_reference_reads_back(table: Seq<char>, id: Seq<char>, what: Seq<char>)
    requires
        is_identifier(table),
        is_record_id(id),
    ensures
        combined(table + ":"@ + id, what) == Ok::<Reference, Fault>(
            Reference { table, id: classified(id) },
        ),
{
    reveal_strlit(":");
    let token = table + ":"@ + id;
    let n = table.len() as int;
    lemma_first(token, ':');
    assert(token[n] == ':');
    let k = first(token, ':');
    if k < n {
        assert(token[k] == table[k]);
    }
    assert(k == n);
    assert(token.take(k) =~= table);
    assert(token.skip(k + 1) =~= id);
}

/// A number prefix names the one table that it is used in, and no other run of
/// letters names a table.
pub proof fn a_prefix_names_its_table(run: Seq<char>)
    ensures
        prefix_table(run) == Some("change_request"@) <==> run == "CHG"@,
        prefix_table(run) == Some("change_task"@) <==> run == "CTASK"@,
        prefix_table(run) == Some("incident"@) <==> run == "INC"@,
        prefix_table(run) == Some("kb_knowledge"@) <==> run == "KB"@,
        prefix_table(run) == Some("problem"@) <==> run == "PRB"@,
        prefix_table(run) == Some("sc_request"@) <==> run == "REQ"@,
        prefix_table(run) == Some("sc_req_item"@) <==> run == "RITM"@,
        prefix_table(run) == Some("sc_task"@) <==> run == "SCTASK"@,
        prefix_table(run) == Some("sn_si_incident"@) <==> run == "SIR"@,
        prefix_table(run) is Some <==> (run == "CHG"@ || run == "CTASK"@ || run == "INC"@ || run == "KB"@ || run == "PRB"@ || run == "REQ"@ || run == "RITM"@ || run == "SCTASK"@ || run == "SIR"@),
{
    reveal_strlit("CHG");
    reveal_strlit("CTASK");
    reveal_strlit("INC");
    reveal_strlit("KB");
    reveal_strlit("PRB");
    reveal_strlit("REQ");
    reveal_strlit("RITM");
    reveal_strlit("SCTASK");
    reveal_strlit("SIR");
    assert("CHG"@.len() == 3 && "CTASK"@.len() == 5 && "INC"@.len() == 3 && "KB"@.len() == 2 && "PRB"@.len() == 3 && "REQ"@.len() == 3 && "RITM"@.len() == 4 && "SCTASK"@.len() == 6 && "SIR"@.len() == 3);
    assert("CHG"@[0] != "INC"@[0]);
    assert("CHG"@[0] != "PRB"@[0]);
    assert("CHG"@[0] != "REQ"@[0]);
    assert("CHG"@[0] != "SIR"@[0]);
    assert("INC"@[0] != "PRB"@[0]);
    assert("INC"@[0] != "REQ"@[0]);
    assert("INC"@[0] != "SIR"@[0]);
    assert("PRB"@[0] != "REQ"@[0]);
    assert("PRB"@[0] != "SIR"@[0]);
    assert("REQ"@[0] != "SIR"@[0]);
    reveal_strlit("change_request");
    reveal_strlit("change_task");
    reveal_strlit("incident");
    reveal_strlit("kb_knowledge");
    reveal_strlit("problem");
    reveal_strlit("sc_request");
    reveal_strlit("sc_req_item");
    reveal_strlit("sc_task");
    reveal_strlit("sn_si_incident");
    assert("change_request"@.len() == 14 && "change_task"@.len() == 11 && "incident"@.len() == 8 && "kb_knowledge"@.len() == 12 && "problem"@.len() == 7 && "sc_request"@.len() == 10 && "sc_req_item"@.len() == 11 && "sc_task"@.len() == 7 && "sn_si_incident"@.len() == 14);
    assert("change_request"@[0] != "sn_si_incident"@[0]);
    assert("change_task"@[0] != "sc_req_item"@[0]);
    assert("problem"@[0] != "sc_task"@[0]);
}

/// A number on its own names the record of that number in the table of its prefix,
/// and one whose prefix is not known is refused.
pub proof fn a_number_names_a_record(prefix: Seq<char>, rest: Seq<char>)
    requires
        forall|i: int| 0 <= i < prefix.len() ==> 'A' <= #[trigger] prefix[i] && prefix[i] <= 'Z',
        rest.len() > 0 && '0' <= rest[0] && rest[0] <= '9',
        is_record_id(prefix + rest),
        !sys_id_shape(prefix + rest),
    ensures
        prefix_table(prefix) matches Some(table) ==> get_ref(prefix + rest) == Ok::<
            Reference,
            Fault,
        >(Reference { table, id: Named::Number(prefix + rest) }),
        prefix_table(prefix) is None ==> (get_ref(prefix + rest) matches Err(f) && f is Usage),
{
    let token = prefix + rest;
    lemma_capitals(prefix, rest);
    if token.contains(':') {
        let i = choose|i: int| 0 <= i < token.len() && token[i] == ':';
        assert(is_id_char(token[i]));
    }
}

proof fn lemma_capitals(prefix: Seq<char>, rest: Seq<char>)
    requires
        forall|i: int| 0 <= i < prefix.len() ==> 'A' <= #[trigger] prefix[i] && prefix[i] <= 'Z',
        rest.len() > 0 && !('A' <= rest[0] && rest[0] <= 'Z'),
    ensures
        capitals(prefix + rest) == prefix,
    decreases prefix.len(),
{
    let s = prefix + rest;
    if prefix.len() == 0 {
        assert(s[0] == rest[0]);
        assert(capitals(s) =~= prefix);
    } else {
        let less = prefix.drop_first();
        assert forall|i: int| 0 <= i < less.len() implies 'A' <= #[trigger] less[i] && less[i]
            <= 'Z' by {
            assert(less[i] == prefix[i + 1]);
        }
        lemma_capitals(less, rest);
        assert(s.drop_first() =~= less + rest);
        assert(s[0] == prefix[0]);
        assert(seq![prefix[0]] + less =~= prefix);
    }
}

/// A sys_id has the shape of thirty-two hexadecimal digits, and anything else is a
/// number: what is named is always the identifier itself.
pub proof fn an_identifier_names_itself(id: Seq<char>)
    ensures
        classified(id) == Named::SysId(id) || classified(id) == Named::Number(id),
        classified(id) is SysId <==> id.len() == 32 && forall|i: int|
            0 <= i < id.len() ==> ('0' <= #[trigger] id[i] && id[i] <= '9') || ('a' <= id[i]
                && id[i] <= 'f') || ('A' <= id[i] && id[i] <= 'F'),
{
}

/// A table and a sys_id name that record, whether they stand apart or in one
/// reference; to name it in both ways at once is refused, and so is to name it not at
/// all.
pub proof fn a_record_is_named_once(table: Seq<char>, id: Seq<char>, what: Seq<char>)
    requires
        is_identifier(table) && is_record_id(id),
    ensures
        pair_of(table, Some(id), what) == Ok::<Reference, Fault>(
            Reference { table, id: Named::SysId(id) },
        ),
        pair_of(table + ":"@ + id, None, what) == Ok::<Reference, Fault>(
            Reference { table, id: classified(id) },
        ),
        pair_of(table + ":"@ + id, Some(id), what) is Err,
        pair_of(table, None, what) is Err,
        flags_of(Some(table), id) == Ok::<Reference, Fault>(
            Reference { table, id: Named::SysId(id) },
        ),
        flags_of(None, table + ":"@ + id) == Ok::<Reference, Fault>(
            Reference { table, id: classified(id) },
        ),
        flags_of(Some(table), table + ":"@ + id) is Err,
        flags_of(None, id) is Err,
        get_ref(table + ":"@ + id) == Ok::<Reference, Fault>(
            Reference { table, id: classified(id) },
        ),
{
    reveal_strlit(":");
    a_reference_reads_back(table, id, what);
    a_reference_reads_back(table, id, "table"@);
    let token = table + ":"@ + id;
    assert(token[table.len() as int] == ':');
    assert(token.contains(':'));
    if table.contains(':') {
        let i = choose|i: int| 0 <= i < table.len() && table[i] == ':';
        assert(table[i] == ':');
    }
    if id.contains(':') {
        let i = choose|i: int| 0 <= i < id.len() && id[i] == ':';
        assert(is_id_char(id[i]));
    }
}

/// A number is looked up in its table, by its number alone, and the sys_id of the one
/// row that is found is what it comes to.
pub proof fn a_number_is_looked_up_by_itself(
    table: Seq<char>,
    number: Seq<char>,
    resp: Doc,
    row: Doc,
    id: Seq<char>,
)
    requires
        resp.field("result"@) == Some(Doc::Array(seq![row])),
        row.field("sys_id"@) == Some(Doc::Str(id)),
        id.len() > 0,
    ensures
        looked_up(table, number, resp) == Ok::<Seq<char>, Fault>(id),
        lookup_call(table, number).path == "/api/now/table/"@ + table,
        lookup_call(table, number).method == Method::Get,
        lookup_call(table, number).query.contains(("sysparm_query"@, "number="@ + number)),
        lookup_call(table, number).query.contains(("sysparm_fields"@, "sys_id"@)),
{
    let q = lookup_call(table, number).query;
    assert(q[0] == q[0] && q[1] == q[1]);
}

/// A table and a sys_id name a record where both are valid; the table is looked at
/// first.
pub proof fn a_table_and_a_sys_id_name_a_record(
    table: Seq<char>,
    sys_id: Seq<char>,
    what: Seq<char>,
)
    ensures
        apart(table, sys_id, what) is Ok <==> is_identifier(table) && is_record_id(sys_id),
        apart(table, sys_id, what) matches Ok(r) ==> r.table == table && r.id == Named::SysId(
            sys_id,
        ),
        !is_identifier(table) ==> apart(table, sys_id, what) == Err::<Reference, Fault>(
            bad_identifier(table, what),
        ),
{
}

} // verus!
