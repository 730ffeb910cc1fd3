//! GraphQL requests and what their answers mean.

use vstd::prelude::*;

use crate::error::{text_option, usage, Error, Fault};
use crate::flags::OutputMode;
use crate::json::{
    docs, dup_items, lemma_docs, members, parse, put, read, Doc, Json,
};
use crate::order::texts;
use crate::request::{no_query, with_body, Call, Method, Request};
use crate::text::{chars_of, decimal, digits, halves, same, slice, split_once};

verus! {

/// The flags of `graphql`.
#[derive(Debug)]
pub struct GraphqlArgs {
    pub query: String,
    pub var: Vec<String>,
    pub variables: Option<String>,
    pub operation: Option<String>,
}

/// Where a text comes from.
#[derive(Debug)]
pub enum TextSource {
    Stdin,
    File(String),
    Inline(String),
}

/// Where a text comes from: `@-` is standard input, `@` and a path is a file,
/// anything else is the text itself.
pub fn read_text_input(raw: &str) -> (r: TextSource)
    ensures
        match r {
            TextSource::Stdin => raw@ == "@-"@,
            TextSource::File(path) => raw@ != "@-"@ && raw@ == seq!['@'] + path@,
            TextSource::Inline(t) => t@ == raw@ && (raw@.len() == 0 || raw@[0] != '@'),
        },
{
    proof {
        reveal_strlit("@-");
    }
    if same(raw, "@-") {
        return TextSource::Stdin;
    }
    let v = chars_of(raw);
    if v.len() > 0 && v[0] == '@' {
        let path = slice(&v, 1, v.len());
        assert(v@ =~= seq!['@'] + path@);
        return TextSource::File(path);
    }
    TextSource::Inline(raw.to_owned())
}

/// The body of a request.
pub open spec fn request_members(
    query: Seq<char>,
    variables: Option<Doc>,
    operation: Option<Seq<char>>,
) -> Map<Seq<char>, Doc> {
    let m = Map::empty().insert("query"@, Doc::Str(query));
    let m = match variables {
        Some(v) => m.insert("variables"@, v),
        None => m,
    };
    match operation {
        Some(op) => m.insert("operationName"@, Doc::Str(op)),
        None => m,
    }
}

/// The request that runs a document.
pub open spec fn graphql_call(
    query: Seq<char>,
    variables: Option<Doc>,
    operation: Option<Seq<char>>,
) -> Call {
    Call {
        method: Method::Post,
        path: "/api/now/graphql"@,
        query: Seq::empty(),
        body: Some(Doc::Object(request_members(query, variables, operation))),
    }
}

/// Makes the request that runs a document.
pub fn execute(query: &str, variables: Option<Json>, operation: &Option<String>) -> (r: Request)
    ensures
        r@ == graphql_call(query@, crate::json::doc_option(variables), text_option(*operation)),
{
    let mut body: Vec<(String, Json)> = Vec::new();
    put(&mut body, "query", Json::str(query));
    if let Some(v) = variables {
        put(&mut body, "variables", v);
    }
    if let Some(op) = operation {
        put(&mut body, "operationName", Json::str(op.as_str()));
    }
    with_body(Method::Post, "/api/now/graphql".to_owned(), no_query(), Json::Object(body))
}

/// The errors of an answer; none where the document ran.
pub open spec fn errors_of(resp: Doc) -> Seq<Doc> {
    match resp.field("errors"@) {
        Some(Doc::Array(items)) => items,
        _ => Seq::empty(),
    }
}

/// Reads the errors of an answer.
pub fn graphql_errors(resp: &Json) -> (r: Vec<Json>)
    ensures
        docs(r@) == errors_of(resp@),
        r.len() == errors_of(resp@).len(),
{
    if let Some(Json::Array(items)) = resp.get("errors") {
        proof {
            lemma_docs(items@);
        }
        return dup_items(items);
    }
    Vec::new()
}

/// The failure that a list of errors reports. The status was a success, and that
/// is what is reported.
pub open spec fn errors_fault(errors: Seq<Doc>) -> Fault {
    Fault::Api {
        status: 200,
        message: if errors.len() > 0 && errors[0].field_text("message"@) is Some {
            errors[0].field_text("message"@)->0
        } else {
            "GraphQL query failed"@
        },
        detail: if errors.len() > 1 {
            Some(digits(errors.len()) + " errors in total"@)
        } else {
            None
        },
        transaction_id: None,
        sn_error: Some(Doc::Array(errors)),
    }
}

/// Reports a list of errors.
pub fn errors_to_api_error(errors: Vec<Json>) -> (e: Error)
    ensures
        e@ == errors_fault(docs(errors@)),
{
    proof {
        lemma_docs(errors@);
    }
    let mut message = "GraphQL query failed".to_owned();
    if errors.len() > 0 {
        assert(docs(errors@)[0] == errors@[0]@);
        if let Some(m) = errors[0].get_str("message") {
            message = m.clone();
        }
    }
    let detail = if errors.len() > 1 {
        Some(decimal(errors.len() as u64).concat(" errors in total"))
    } else {
        None
    };
    Error::Api {
        status: 200,
        message,
        detail,
        transaction_id: None,
        sn_error: Some(Json::Array(errors)),
    }
}

/// What a command shows of an answer, and what it fails with.
#[derive(Debug)]
pub struct Outcome {
    pub shown: Option<Json>,
    pub failure: Option<Error>,
}

/// What is shown of an answer: its data, or all of it in raw mode. Of an answer
/// with errors only where there are data, and the command fails then.
pub open spec fn shown_of(resp: Doc, mode: OutputMode) -> Option<Doc> {
    let data = resp.field("data"@);
    if errors_of(resp).len() == 0 {
        Some(
            match data {
                Some(d) if !(mode is Raw) => d,
                _ => resp,
            },
        )
    } else {
        match data {
            Some(d) if d != Doc::Null => Some(
                if mode is Raw {
                    resp
                } else {
                    d
                },
            ),
            _ => None,
        }
    }
}

/// Decides what a command shows of an answer and whether it fails: an answer
/// with errors is a failure, whatever its HTTP status.
pub fn run(resp: Json, mode: OutputMode) -> (r: Outcome)
    ensures
        crate::json::doc_option(r.shown) == shown_of(resp@, mode),
        r.failure is Some <==> errors_of(resp@).len() > 0,
        r.failure matches Some(e) ==> e@ == errors_fault(errors_of(resp@)),
{
    let errors = graphql_errors(&resp);
    if errors.len() == 0 {
        let shown = match mode {
            OutputMode::Raw => resp,
            OutputMode::Default | OutputMode::Table => {
                let mut out = None;
                if let Some(d) = resp.get("data") {
                    out = Some(d.dup());
                }
                match out {
                    Some(d) => d,
                    None => resp,
                }
            },
        };
        return Outcome { shown: Some(shown), failure: None };
    }
    let shown = match resp.get("data") {
        None => None,
        Some(Json::Null) => None,
        Some(d) => Some(
            match mode {
                OutputMode::Raw => resp.dup(),
                OutputMode::Default | OutputMode::Table => d.dup(),
            },
        ),
    };
    Outcome { shown, failure: Some(errors_to_api_error(errors)) }
}

/// The variables that the flags add: each `--var` sets a string, and a later one
/// wins. The first that is malformed is the failure.
pub open spec fn with_vars(m: Map<Seq<char>, Doc>, vars: Seq<Seq<char>>) -> Result<
    Map<Seq<char>, Doc>,
    Fault,
>
    decreases vars.len(),
{
    if vars.len() == 0 {
        Ok(m)
    } else {
        match with_vars(m, vars.drop_last()) {
            Err(f) => Err(f),
            Ok(m) => match halves(vars.last(), '=') {
                None => Err(
                    Fault::Usage("--var '"@ + vars.last() + "' must be in key=value form"@),
                ),
                Some((k, v)) => if k.len() == 0 {
                    Err(Fault::Usage("--var '"@ + vars.last() + "' has empty key"@))
                } else {
                    Ok(m.insert(k, Doc::Str(v)))
                },
            },
        }
    }
}

/// The variables of a request: those of the `--variables` object, with those of
/// the `--var` flags on top; none where there are none.
pub open spec fn variables_of(content: Option<Result<Doc, Seq<char>>>, vars: Seq<Seq<char>>) -> Result<
    Option<Doc>,
    Fault,
> {
    match content {
        Some(Err(e)) => Err(Fault::Usage("--variables is not valid JSON: "@ + e)),
        Some(Ok(Doc::Object(m))) => merged(m, vars),
        Some(Ok(_)) => Err(Fault::Usage("--variables must be a JSON object at the top level"@)),
        None => merged(Map::empty(), vars),
    }
}

pub open spec fn merged(m: Map<Seq<char>, Doc>, vars: Seq<Seq<char>>) -> Result<Option<Doc>, Fault> {
    match with_vars(m, vars) {
        Err(f) => Err(f),
        Ok(m) => Ok(
            if m.dom().is_empty() {
                None
            } else {
                Some(Doc::Object(m))
            },
        ),
    }
}

/// What an optional text reads as.
pub open spec fn read_option(text: Option<Seq<char>>) -> Option<Result<Doc, Seq<char>>> {
    match text {
        Some(t) => Some(read(t)),
        None => None,
    }
}

/// A list of members that is empty exactly where it stands for no member.
proof fn lemma_no_members(entries: Seq<(String, Json)>)
    ensures
        entries.len() == 0 <==> members(entries).dom().is_empty(),
{
    if entries.len() > 0 {
        assert(members(entries).contains_key(entries.last().0@));
    } else {
        assert(members(entries).dom() =~= Set::empty());
    }
}

/// Merges the variables of a request, given what `--variables` reads as.
pub fn merge_variables(content: Option<Result<Json, String>>, vars: &Vec<String>) -> (r: Result<
    Option<Json>,
    Error,
>)
    ensures
        match r {
            Ok(j) => variables_of(
                match content {
                    Some(c) => Some(crate::client::content(c)),
                    None => None,
                },
                texts(vars@),
            ) == Ok::<Option<Doc>, Fault>(crate::json::doc_option(j)),
            Err(e) => variables_of(
                match content {
                    Some(c) => Some(crate::client::content(c)),
                    None => None,
                },
                texts(vars@),
            ) == Err::<Option<Doc>, Fault>(e@),
        },
{
    let mut map: Vec<(String, Json)> = match content {
        Some(Err(e)) => {
            return Err(
                Error::Usage("--variables is not valid JSON: ".to_owned().concat(e.as_str())),
            );
        },
        Some(Ok(Json::Object(m))) => m,
        Some(Ok(_)) => {
            return Err(usage("--variables must be a JSON object at the top level"));
        },
        None => Vec::new(),
    };
    let ghost start = members(map@);
    let ghost all = texts(vars@);
    let mut i: usize = 0;
    while i < vars.len()
        invariant
            i <= vars.len(),
            all == texts(vars@),
            with_vars(start, all.take(i as int)) == Ok::<Map<Seq<char>, Doc>, Fault>(
                members(map@),
            ),
            variables_of(
                match content {
                    Some(c) => Some(crate::client::content(c)),
                    None => None,
                },
                all,
            ) == merged(start, all),
        decreases vars.len() - i,
    {
        assert(all.take(i + 1).drop_last() =~= all.take(i as int));
        assert(all.take(i + 1).last() == vars@[i as int]@);
        let item = vars[i].as_str();
        match split_once(item, '=') {
            None => {
                proof {
                    lemma_vars_stop(start, all, i + 1);
                }
                return Err(
                    Error::Usage(
                        "--var '".to_owned().concat(item).concat("' must be in key=value form"),
                    ),
                );
            },
            Some((k, v)) => {
                if k.as_str().is_empty() {
                    proof {
                        lemma_vars_stop(start, all, i + 1);
                    }
                    return Err(
                        Error::Usage("--var '".to_owned().concat(item).concat("' has empty key")),
                    );
                }
                put(&mut map, k.as_str(), Json::Str(v));
            },
        }
        i = i + 1;
    }
    assert(all.take(i as int) =~= all);
    proof {
        lemma_no_members(map@);
    }
    if map.len() == 0 {
        Ok(None)
    } else {
        Ok(Some(Json::Object(map)))
    }
}

/// The first malformed flag decides.
proof fn lemma_vars_stop(m: Map<Seq<char>, Doc>, vars: Seq<Seq<char>>, i: int)
    requires
        0 <= i <= vars.len(),
        with_vars(m, vars.take(i)) is Err,
    ensures
        with_vars(m, vars) == with_vars(m, vars.take(i)),
    decreases vars.len() - i,
{
    if i == vars.len() {
        assert(vars.take(i) =~= vars);
    } else {
        assert(vars.take(i + 1).drop_last() =~= vars.take(i));
        lemma_vars_stop(m, vars, i + 1);
    }
}

/// Merges the variables of a request: the text of `--variables`, read as JSON,
/// and the `--var` flags.
pub fn build_variables(variables: Option<&str>, vars: &Vec<String>) -> (r: Result<
    Option<Json>,
    Error,
>)
    ensures
        match r {
            Ok(j) => variables_of(
                read_option(crate::config::str_option(variables)),
                texts(vars@),
            ) == Ok::<Option<Doc>, Fault>(crate::json::doc_option(j)),
            Err(e) => variables_of(
                read_option(crate::config::str_option(variables)),
                texts(vars@),
            ) == Err::<Option<Doc>, Fault>(e@),
        },
{
    let content = match variables {
        Some(t) => Some(parse(t)),
        None => None,
    };
    assert((match content {
        Some(c) => Some(crate::client::content(c)),
        None => None,
    }) == read_option(crate::config::str_option(variables)));
    merge_variables(content, vars)
}

/// A request carries the document, and its variables and its operation where there
/// are any, each under its own name.
pub proof fn a_request_carries_its_document(
    query: Seq<char>,
    variables: Option<Doc>,
    operation: Option<Seq<char>>,
)
    ensures
        graphql_call(query, variables, operation).method == Method::Post,
        graphql_call(query, variables, operation).path == "/api/now/graphql"@,
        graphql_call(query, variables, operation).body matches Some(b) && {
            &&& b.field("query"@) == Some(Doc::Str(query))
            &&& b.field("variables"@) == variables
            &&& b.field_text("operationName"@) == operation
        },
{
    reveal_strlit("query");
    reveal_strlit("variables");
    reveal_strlit("operationName");
    assert("query"@.len() == 5 && "variables"@.len() == 9 && "operationName"@.len() == 13);
}

/// An answer without errors is shown, its data or the whole of it; one with errors is
/// shown only where it has data as well, and what it says first is the failure.
pub proof fn an_answer_is_shown_by_its_errors(resp: Doc, errors: Seq<Doc>, data: Doc)
    ensures
        resp.field("errors"@) is None || resp.field("errors"@) == Some(Doc::Array(Seq::empty()))
            ==> errors_of(resp).len() == 0,
        resp.field("errors"@) == Some(Doc::Array(errors)) ==> errors_of(resp) == errors,
        resp.field("errors"@) is None && resp.field("data"@) == Some(data) ==> shown_of(
            resp,
            OutputMode::Default,
        ) == Some(data) && shown_of(resp, OutputMode::Raw) == Some(resp),
        resp.field("errors"@) == Some(Doc::Array(errors)) && errors.len() > 0 && resp.field(
            "data"@,
        ) is None ==> shown_of(resp, OutputMode::Default) is None && shown_of(
            resp,
            OutputMode::Raw,
        ) is None,
        resp.field("errors"@) == Some(Doc::Array(errors)) && errors.len() > 0 && resp.field(
            "data"@,
        ) == Some(data) && data != Doc::Null ==> shown_of(resp, OutputMode::Default) == Some(data)
            && shown_of(resp, OutputMode::Raw) == Some(resp),
{
}

/// The failure of a document says what its first error says, keeps all of them, and
/// leads to the exit status of the instance's own failures.
pub proof fn a_failed_document_says_why(errors: Seq<Doc>, message: Seq<char>)
    ensures
        errors_fault(errors).sn_error() == Some(Doc::Array(errors)),
        errors.len() > 0 && errors[0].field("message"@) == Some(Doc::Str(message)) ==> errors_fault(
            errors,
        ).message() == message,
        errors_fault(errors).exit_code() == 2,
        errors_fault(errors).detail() is Some <==> errors.len() > 1,
{
}

/// Each `--var` sets a text under its name, on top of what `--variables` holds; the
/// last one of a name counts, and no other variable changes.
pub proof fn a_variable_is_set_by_its_flag(
    m: Map<Seq<char>, Doc>,
    vars: Seq<Seq<char>>,
    name: Seq<char>,
    value: Seq<char>,
    other: Seq<char>,
)
    requires
        name.len() > 0 && !name.contains('='),
        with_vars(m, vars) is Ok,
    ensures
        with_vars(m, vars.push(name + seq!['='] + value)) matches Ok(out) && {
            &&& out.contains_key(name) && out[name] == Doc::Str(value)
            &&& other != name ==> (out.contains_key(other) <==> with_vars(
                m,
                vars,
            )->Ok_0.contains_key(other)) && (out.contains_key(other) ==> out[other] == with_vars(
                m,
                vars,
            )->Ok_0[other])
        },
        with_vars(m, Seq::empty()) == Ok::<Map<Seq<char>, Doc>, Fault>(m),
{
    let flag = name + seq!['='] + value;
    let all = vars.push(flag);
    assert(all.drop_last() =~= vars);
    crate::text::what_is_put_together_is_parted_again(name, '=', value);
}

/// A failed document is reported with a status of success, which it had.
pub proof fn a_failed_document_had_a_good_status(errors: Seq<Doc>)
    ensures
        errors_fault(errors).status() == Some(200u16),
        errors_fault(errors).exit_code() == 2,
        errors_fault(errors).sn_error() == Some(Doc::Array(errors)),
        errors_fault(errors).transaction_id() is None,
{
}

/// Variables are sent exactly where there are some: those of the object, with those of
/// the flags on top.
pub proof fn variables_are_sent_where_there_are_some(
    m: Map<Seq<char>, Doc>,
    vars: Seq<Seq<char>>,
    k: Seq<char>,
)
    ensures
        variables_of(None, Seq::empty()) == Ok::<Option<Doc>, Fault>(None),
        m.contains_key(k) ==> variables_of(Some(Ok(Doc::Object(m))), Seq::empty()) == Ok::<
            Option<Doc>,
            Fault,
        >(Some(Doc::Object(m))),
        with_vars(m, vars) matches Ok(n) ==> (n.contains_key(k) ==> variables_of(
            Some(Ok(Doc::Object(m))),
            vars,
        ) == Ok::<Option<Doc>, Fault>(Some(Doc::Object(n)))),
        with_vars(m, vars) is Err ==> variables_of(Some(Ok(Doc::Object(m))), vars) is Err,
{
    let none = Map::<Seq<char>, Doc>::empty();
    assert(none.dom() =~= Set::empty());
}

} // verus!
