//! A record in a browser.

use vstd::prelude::*;

use crate::client::{base_url, normalize_base_url};
use crate::json::{put, Doc, Json};

verus! {

/// The flags of the command.
#[derive(Debug)]
pub struct OpenArgs {
    pub table: String,
    pub sys_id: Option<String>,
    pub print_url: bool,
}

/// The address of the form of a record.
pub open spec fn form_url(instance: Seq<char>, table: Seq<char>, sys_id: Seq<char>) -> Seq<char> {
    base_url(instance) + "/nav_to.do?uri=%2F"@ + table + ".do%3Fsys_id%3D"@ + sys_id
}

/// The address of the form of a record.
pub fn record_url(instance: &str, table: &str, sys_id: &str) -> (r: String)
    ensures
        r@ == form_url(instance@, table@, sys_id@),
{
    normalize_base_url(instance).concat("/nav_to.do?uri=%2F").concat(table).concat(
        ".do%3Fsys_id%3D",
    ).concat(sys_id)
}

/// What the command shows once the browser is open.
pub fn run(url: &str) -> (r: Json)
    ensures
        r@ == Doc::Object(
            Map::empty().insert("opened"@, Doc::Bool(true)).insert("url"@, Doc::Str(url@)),
        ),
{
    let mut m: Vec<(String, Json)> = Vec::new();
    put(&mut m, "opened", Json::Bool(true));
    put(&mut m, "url", Json::str(url));
    Json::Object(m)
}

/// The address of a form leads to the instance, the table and the record, each in its
/// place.
pub proof fn a_form_is_that_of_its_record(
    instance: Seq<char>,
    table: Seq<char>,
    sys_id: Seq<char>,
)
    ensures
        base_url(instance).is_prefix_of(form_url(instance, table, sys_id)),
        sys_id.is_suffix_of(form_url(instance, table, sys_id)),
        form_url(instance, table, sys_id) == base_url(instance) + ("/nav_to.do?uri=%2F"@ + table
            + ".do%3Fsys_id%3D"@ + sys_id),
{
    let u = form_url(instance, table, sys_id);
    assert(u =~= base_url(instance) + ("/nav_to.do?uri=%2F"@ + table + ".do%3Fsys_id%3D"@
        + sys_id));
    assert(sys_id =~= u.skip(u.len() - sys_id.len()));
}

} // verus!
