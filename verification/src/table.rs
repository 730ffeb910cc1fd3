//! Records of a table: listed, read, written and deleted.

use vstd::prelude::*;

use crate::error::{text_option, Error, Fault};
use crate::flags::{display_option, BodyArgs, BodyInput, DisplayValueOpt, OutputMode};
use crate::json::Json;
use crate::query::{a_list_carries_its_flags, DeleteQuery, GetQuery, ListQuery, WriteQuery};
use crate::record_ref::{gives, pair_of, parse_pair, RecordRef};
use crate::request::{
    delete as delete_of, get as get_of, number_option, pairs, param_in, with_body, Call, Method,
    Request,
};
use crate::text::digits;

verus! {

/// The commands on the records of a table.
#[derive(Debug)]
pub enum TableSub {
    List(TableListArgs),
    Get(TableGetArgs),
    Create(TableCreateArgs),
    Update(TableUpdateArgs),
    Delete(TableDeleteArgs),
}

/// The flags of a list.
#[derive(Debug)]
pub struct TableListArgs {
    pub table: String,
    pub query: Option<String>,
    pub fields: Option<String>,
    pub setlimit: u32,
    pub offset: Option<u32>,
    pub display_value: DisplayValueOpt,
    pub exclude_reference_link: bool,
    pub suppress_pagination_header: bool,
    pub view: Option<String>,
    pub query_category: Option<String>,
    pub query_no_domain: bool,
    pub no_count: bool,
    pub all: bool,
    pub array: bool,
    pub max_records: u32,
}

/// The flags of a read.
#[derive(Debug)]
pub struct TableGetArgs {
    pub table: String,
    pub sys_id: Option<String>,
    pub fields: Option<String>,
    pub display_value: DisplayValueOpt,
    pub exclude_reference_link: bool,
    pub view: Option<String>,
    pub query_no_domain: bool,
}

/// The flags of a creation.
#[derive(Debug)]
pub struct TableCreateArgs {
    pub table: String,
    pub body: BodyArgs,
    pub fields: Option<String>,
    pub display_value: DisplayValueOpt,
    pub exclude_reference_link: bool,
    pub input_display_value: bool,
    pub suppress_auto_sys_field: bool,
    pub view: Option<String>,
}

/// The flags of an update.
#[derive(Debug)]
pub struct TableUpdateArgs {
    pub table: String,
    pub sys_id: Option<String>,
    pub body: BodyArgs,
    pub fields: Option<String>,
    pub display_value: DisplayValueOpt,
    pub exclude_reference_link: bool,
    pub input_display_value: bool,
    pub suppress_auto_sys_field: bool,
    pub view: Option<String>,
    pub query_no_domain: bool,
}

/// The flags of a deletion.
#[derive(Debug)]
pub struct TableDeleteArgs {
    pub table: String,
    pub sys_id: Option<String>,
    pub yes: bool,
    pub query_no_domain: bool,
}

/// How a list is read.
#[derive(Debug)]
pub enum Listing {
    /// One request, answered as it is.
    Once(Request),
    /// Page after page from `path`, up to `cap` records, printed one by one or
    /// gathered in one array.
    Pages { path: String, query: Vec<(String, String)>, cap: Option<u32>, array: bool },
}

/// The path of a table.
pub open spec fn table_path(table: Seq<char>) -> Seq<char> {
    "/api/now/table/"@ + table
}

/// The path of a record.
pub open spec fn record_path(table: Seq<char>, sys_id: Seq<char>) -> Seq<char> {
    "/api/now/table/"@ + table + "/"@ + sys_id
}

/// The path of a record.
pub fn path_of(table: &str, sys_id: &str) -> (r: String)
    ensures
        r@ == record_path(table@, sys_id@),
{
    "/api/now/table/".to_owned().concat(table).concat("/").concat(sys_id)
}

/// The output modes that a stream of records cannot honour.
pub open spec fn unstreamable(mode: OutputMode, array: bool) -> Option<Fault> {
    match mode {
        OutputMode::Raw => Some(
            Fault::Usage(
                "--output raw cannot be combined with --all: pagination flattens each page's envelope into a record stream, so there is no envelope to keep; drop --all and page with --offset/--setlimit, or drop --output raw"@,
            ),
        ),
        OutputMode::Table => if array {
            None
        } else {
            Some(
                Fault::Usage(
                    "--output table cannot render the unbounded stream --all produces; add --array to buffer the records (capped by --max-records), or drop --all"@,
                ),
            )
        },
        OutputMode::Default => None,
    }
}

/// Refuses the output modes that a stream of records cannot honour: an envelope
/// is gone after paging, and a table needs every row before it can be laid out,
/// which it has only in an array.
pub fn reject_unstreamable_output(mode: OutputMode, array: bool) -> (r: Result<(), Error>)
    ensures
        match unstreamable(mode, array) {
            Some(f) => r matches Err(e) && e@ == f,
            None => r is Ok,
        },
{
    match mode {
        OutputMode::Raw => Err(
            Error::Usage(
                "--output raw cannot be combined with --all: pagination flattens each page's envelope into a record stream, so there is no envelope to keep; drop --all and page with --offset/--setlimit, or drop --output raw".to_owned(),
            ),
        ),
        OutputMode::Table => if array {
            Ok(())
        } else {
            Err(
                Error::Usage(
                    "--output table cannot render the unbounded stream --all produces; add --array to buffer the records (capped by --max-records), or drop --all".to_owned(),
                ),
            )
        },
        OutputMode::Default => Ok(()),
    }
}

impl TableListArgs {
    /// The parameters of the list. Paging keeps its own offset.
    pub open spec fn params(self) -> Seq<(Seq<char>, Seq<char>)> {
        (ListQuery {
            query: self.query,
            fields: self.fields,
            page_size: Some(self.setlimit),
            offset: if self.all {
                None
            } else {
                self.offset
            },
            display_value: self.display_value.display_value,
            exclude_reference_link: self.exclude_reference_link,
            suppress_pagination_header: self.suppress_pagination_header,
            view: self.view,
            query_category: self.query_category,
            query_no_domain: self.query_no_domain,
            no_count: self.no_count,
        }).params()
    }
}

/// Plans a list: one request, or with `--all` every page up to the cap, where a
/// cap of zero is none. What cannot be streamed is refused first.
pub fn list(args: TableListArgs, output: OutputMode) -> (r: Result<Listing, Error>)
    ensures
        args.all && unstreamable(output, args.array) is Some ==> (r matches Err(e) && Some(e@)
            == unstreamable(output, args.array)),
        args.all && unstreamable(output, args.array) is None ==> (r matches Ok(
            Listing::Pages { path, query, cap, array },
        ) && path@ == table_path(args.table@) && pairs(query@) == args.params() && cap == (
        if args.max_records == 0 {
            None
        } else {
            Some(args.max_records)
        }) && array == args.array),
        !args.all ==> (r matches Ok(Listing::Once(q)) && q@ == (Call {
            method: Method::Get,
            path: table_path(args.table@),
            query: args.params(),
            body: None,
        })),
{
    if args.all {
        if let Err(e) = reject_unstreamable_output(output, args.array) {
            return Err(e);
        }
    }
    let q = ListQuery {
        query: args.query,
        fields: args.fields,
        page_size: Some(args.setlimit),
        offset: if args.all {
            None
        } else {
            args.offset
        },
        display_value: args.display_value.display_value,
        exclude_reference_link: args.exclude_reference_link,
        suppress_pagination_header: args.suppress_pagination_header,
        view: args.view,
        query_category: args.query_category,
        query_no_domain: args.query_no_domain,
        no_count: args.no_count,
    };
    let path = "/api/now/table/".to_owned().concat(args.table.as_str());
    let query = q.to_pairs();
    if args.all {
        let cap = if args.max_records == 0 {
            None
        } else {
            Some(args.max_records)
        };
        return Ok(Listing::Pages { path, query, cap, array: args.array });
    }
    Ok(Listing::Once(get_of(path, query)))
}

/// The record that the positionals of a command name.
pub fn target(table: &String, sys_id: &Option<String>) -> (r: Result<RecordRef, Error>)
    ensures
        gives(r, pair_of(table@, text_option(*sys_id), "table"@)),
{
    match sys_id {
        Some(s) => parse_pair(table.as_str(), Some(s.as_str()), "table"),
        None => parse_pair(table.as_str(), None, "table"),
    }
}

/// The request that reads a record.
pub fn get(args: TableGetArgs, table: &str, sys_id: &str) -> (r: Request)
    ensures
        r@ == (Call {
            method: Method::Get,
            path: record_path(table@, sys_id@),
            query: (GetQuery {
                fields: args.fields,
                display_value: args.display_value.display_value,
                exclude_reference_link: args.exclude_reference_link,
                view: args.view,
                query_no_domain: args.query_no_domain,
            }).params(),
            body: None,
        }),
{
    let q = GetQuery {
        fields: args.fields,
        display_value: args.display_value.display_value,
        exclude_reference_link: args.exclude_reference_link,
        view: args.view,
        query_no_domain: args.query_no_domain,
    };
    get_of(path_of(table, sys_id), q.to_pairs())
}

/// The source of a body that has to be given.
pub fn require_body(body: BodyArgs) -> (r: Result<BodyInput, Error>)
    ensures
        body.data matches Some(d) ==> r == Ok::<BodyInput, Error>(BodyInput::Data(d)),
        body.data is None && body.field.len() > 0 ==> r == Ok::<BodyInput, Error>(
            BodyInput::Fields(body.field),
        ),
        body.data is None && body.field.len() == 0 ==> (r matches Err(e) && e@ == Fault::Usage(
            "provide --data or one or more --field"@,
        )),
{
    match body.into_input() {
        BodyInput::Absent => Err(Error::Usage("provide --data or one or more --field".to_owned())),
        input => Ok(input),
    }
}

/// The request that creates a record.
pub fn create(args: TableCreateArgs, body: Json) -> (r: Request)
    ensures
        r@ == (Call {
            method: Method::Post,
            path: table_path(args.table@),
            query: (WriteQuery {
                fields: args.fields,
                display_value: args.display_value.display_value,
                exclude_reference_link: args.exclude_reference_link,
                input_display_value: args.input_display_value,
                suppress_auto_sys_field: args.suppress_auto_sys_field,
                view: args.view,
                query_no_domain: false,
            }).params(),
            body: Some(body@),
        }),
{
    let q = WriteQuery {
        fields: args.fields,
        display_value: args.display_value.display_value,
        exclude_reference_link: args.exclude_reference_link,
        input_display_value: args.input_display_value,
        suppress_auto_sys_field: args.suppress_auto_sys_field,
        view: args.view,
        query_no_domain: false,
    };
    let path = "/api/now/table/".to_owned().concat(args.table.as_str());
    with_body(Method::Post, path, q.to_pairs(), body)
}

/// The request that changes a record.
pub fn update(args: TableUpdateArgs, table: &str, sys_id: &str, body: Json) -> (r: Request)
    ensures
        r@ == (Call {
            method: Method::Patch,
            path: record_path(table@, sys_id@),
            query: (WriteQuery {
                fields: args.fields,
                display_value: args.display_value.display_value,
                exclude_reference_link: args.exclude_reference_link,
                input_display_value: args.input_display_value,
                suppress_auto_sys_field: args.suppress_auto_sys_field,
                view: args.view,
                query_no_domain: args.query_no_domain,
            }).params(),
            body: Some(body@),
        }),
{
    let q = WriteQuery {
        fields: args.fields,
        display_value: args.display_value.display_value,
        exclude_reference_link: args.exclude_reference_link,
        input_display_value: args.input_display_value,
        suppress_auto_sys_field: args.suppress_auto_sys_field,
        view: args.view,
        query_no_domain: args.query_no_domain,
    };
    with_body(Method::Patch, path_of(table, sys_id), q.to_pairs(), body)
}

/// The request that deletes a record.
pub fn delete(args: &TableDeleteArgs, table: &str, sys_id: &str) -> (r: Request)
    ensures
        r@ == (Call {
            method: Method::Delete,
            path: record_path(table@, sys_id@),
            query: (DeleteQuery { query_no_domain: args.query_no_domain }).params(),
            body: None,
        }),
{
    let q = DeleteQuery { query_no_domain: args.query_no_domain };
    delete_of(path_of(table, sys_id), q.to_pairs())
}

/// A record stands below its table, and every table below the table API.
pub proof fn a_record_stands_below_its_table(table: Seq<char>, sys_id: Seq<char>)
    ensures
        record_path(table, sys_id) == table_path(table) + "/"@ + sys_id,
        table_path(table) == "/api/now/table/"@ + table,
{
}

/// A stream of records is refused where its pages would have to be kept whole, and as
/// a table unless it is gathered first.
pub proof fn a_stream_is_refused_where_it_cannot_be_shown(mode: OutputMode, array: bool)
    ensures
        unstreamable(mode, array) is Some <==> mode == OutputMode::Raw || (mode
            == OutputMode::Table && !array),
        unstreamable(mode, array) matches Some(f) ==> f is Usage,
{
}

/// The flags of a list go into the parameters that are named after them; with `--all`
/// the paging keeps its own offset.
pub proof fn a_listing_carries_its_flags(a: TableListArgs)
    ensures
        param_in(a.params(), "sysparm_query"@) == text_option(a.query),
        param_in(a.params(), "sysparm_fields"@) == text_option(a.fields),
        param_in(a.params(), "sysparm_limit"@) == Some(digits(a.setlimit as nat)),
        param_in(a.params(), "sysparm_offset"@) == (if a.all {
            None
        } else {
            number_option(a.offset)
        }),
        param_in(a.params(), "sysparm_display_value"@) == display_option(
            a.display_value.display_value,
        ),
        param_in(a.params(), "sysparm_view"@) == text_option(a.view),
        param_in(a.params(), "sysparm_query_category"@) == text_option(a.query_category),
        param_in(a.params(), "sysparm_exclude_reference_link"@) is Some
            <==> a.exclude_reference_link,
        param_in(a.params(), "sysparm_suppress_pagination_header"@) is Some
            <==> a.suppress_pagination_header,
        param_in(a.params(), "sysparm_query_no_domain"@) is Some <==> a.query_no_domain,
        param_in(a.params(), "sysparm_no_count"@) is Some <==> a.no_count,
{
    a_list_carries_its_flags(
        ListQuery {
            query: a.query,
            fields: a.fields,
            page_size: Some(a.setlimit),
            offset: if a.all {
                None
            } else {
                a.offset
            },
            display_value: a.display_value.display_value,
            exclude_reference_link: a.exclude_reference_link,
            suppress_pagination_header: a.suppress_pagination_header,
            view: a.view,
            query_category: a.query_category,
            query_no_domain: a.query_no_domain,
            no_count: a.no_count,
        },
    );
}

} // verus!
