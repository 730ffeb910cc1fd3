//! The bodies that the `--data` and `--field` flags describe.
//!
//! The files that the flags name are read elsewhere; here their texts become a
//! document.

use vstd::prelude::*;

use crate::error::{Error, Fault};
use crate::flags::EmptyBody;
use crate::json::{members, parse, read, Doc, Json};
use crate::text::{halves, split_once};

verus! {

/// What a text says as a body: it has to be a JSON object.
pub open spec fn body_of(content: Result<Doc, Seq<char>>) -> Result<Doc, Fault> {
    match content {
        Ok(d) => if d is Object {
            Ok(d)
        } else {
            Err(Fault::Usage("--data must be a JSON object"@))
        },
        Err(e) => Err(Fault::Usage("invalid JSON in --data: "@ + e)),
    }
}

/// The body that a parsed text is.
pub fn require_object(content: Result<Json, String>) -> (r: Result<Json, Error>)
    ensures
        match (content, r) {
            (Ok(j), Ok(b)) => body_of(Ok(j@)) == Ok::<Doc, Fault>(b@),
            (Ok(j), Err(e)) => body_of(Ok(j@)) == Err::<Doc, Fault>(e@),
            (Err(m), Ok(b)) => false,
            (Err(m), Err(e)) => body_of(Err(m@)) == Err::<Doc, Fault>(e@),
        },
{
    match content {
        Ok(Json::Object(m)) => Ok(Json::Object(m)),
        Ok(_) => Err(Error::Usage("--data must be a JSON object".to_owned())),
        Err(e) => Err(
            Error::Usage("invalid JSON in --data: ".to_owned().concat(e.as_str())),
        ),
    }
}

/// The body that the text of `--data` is.
pub fn from_data(text: &str) -> (r: Result<Json, Error>)
    ensures
        match r {
            Ok(b) => body_of(read(text@)) == Ok::<Doc, Fault>(b@),
            Err(e) => body_of(read(text@)) == Err::<Doc, Fault>(e@),
        },
{
    require_object(parse(text))
}

/// Name and value of a field, split at the first equals sign.
pub fn split_field(raw: &str) -> (r: Result<(String, String), Error>)
    ensures
        match r {
            Ok((name, value)) => halves(raw@, '=') == Some((name@, value@)) && name@.len() > 0,
            Err(e) => match halves(raw@, '=') {
                Some((name, _)) => name.len() == 0 && e@ == Fault::Usage(
                    "--field '"@ + raw@ + "' has empty name"@,
                ),
                None => e@ == Fault::Usage("--field '"@ + raw@ + "' must be in name=value form"@),
            },
        },
{
    match split_once(raw, '=') {
        Some((name, value)) => {
            if name.as_str().is_empty() {
                return Err(
                    Error::Usage(
                        "--field '".to_owned().concat(raw).concat("' has empty name"),
                    ),
                );
            }
            Ok((name, value))
        },
        None => Err(
            Error::Usage(
                "--field '".to_owned().concat(raw).concat("' must be in name=value form"),
            ),
        ),
    }
}

/// The value of a field: a JSON number, truth value or null where the text is one,
/// else the text. It is never an object and never an array.
pub open spec fn value_of(text: Seq<char>, content: Result<Doc, Seq<char>>) -> Doc {
    match content {
        Ok(Doc::Number(n)) => Doc::Number(n),
        Ok(Doc::Bool(b)) => Doc::Bool(b),
        Ok(Doc::Null) => Doc::Null,
        _ => Doc::Str(text),
    }
}

/// The value that a parsed text is.
pub fn scalar(text: &str, content: Result<Json, String>) -> (r: Json)
    ensures
        r@ == value_of(
            text@,
            match content {
                Ok(j) => Ok(j@),
                Err(e) => Err(e@),
            },
        ),
{
    match content {
        Ok(Json::Number(n)) => Json::Number(n),
        Ok(Json::Bool(b)) => Json::Bool(b),
        Ok(Json::Null) => Json::Null,
        _ => Json::str(text),
    }
}

/// The value of a field that stands in the flag itself.
pub fn inline_value(text: &str) -> (r: Json)
    ensures
        r@ == value_of(text@, read(text@)),
{
    scalar(text, parse(text))
}

/// The body of a list of fields; where a name stands twice the later field counts.
pub fn from_fields(fields: Vec<(String, Json)>) -> (r: Json)
    ensures
        r@ == Doc::Object(members(fields@)),
{
    Json::Object(fields)
}

/// The body of a command that was given none.
pub fn from_nothing(empty: EmptyBody) -> (r: Result<Json, Error>)
    ensures
        match empty {
            EmptyBody::Object => r matches Ok(j) && j@ == Doc::Object(Map::empty()),
            EmptyBody::Reject => r matches Err(e) && e@ == Fault::Usage(
                "no body given; use --data or --field"@,
            ),
        },
{
    match empty {
        EmptyBody::Object => {
            let none: Vec<(String, Json)> = Vec::new();
            assert(members(none@) =~= Map::empty());
            Ok(Json::Object(none))
        },
        EmptyBody::Reject => Err(Error::Usage("no body given; use --data or --field".to_owned())),
    }
}

/// A body is an object and is sent as it was given; anything else is refused.
pub proof fn a_body_is_an_object_as_given(content: Result<Doc, Seq<char>>)
    ensures
        body_of(content) is Ok <==> (content matches Ok(d) && d is Object),
        body_of(content) matches Ok(d) ==> content == Ok::<Doc, Seq<char>>(d),
        body_of(content) matches Err(f) ==> f is Usage,
{
}

/// A field keeps its text unless the text is a number, a truth value or null, and is
/// then just that. Text that reads as anything larger stays text.
pub proof fn a_field_is_a_scalar(text: Seq<char>, content: Result<Doc, Seq<char>>)
    ensures
        value_of(text, content) !is Object && value_of(text, content) !is Array,
        value_of(text, content) matches Doc::Str(s) ==> s == text,
        content matches Ok(d) ==> (d is Number || d is Bool || d == Doc::Null ==> value_of(
            text,
            content,
        ) == d),
        content is Err ==> value_of(text, content) == Doc::Str(text),
        content matches Ok(d) ==> (d is Str || d is Array || d is Object ==> value_of(text, content)
            == Doc::Str(text)),
{
}

} // verus!
