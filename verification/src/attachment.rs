//! Files attached to records.

use vstd::prelude::*;

use vstd::utf8::{encode_scalar, encode_utf8};

use crate::draft::{read, reads, removal, removes, Draft};
use crate::error::text_option;
use crate::flags::Paging;
use crate::json::{put, Doc, Json};
use crate::request::{
    get as get_of, no_query, number_option, pairs, param, param_in, param_number,
    param_number_option, param_option, with_param, Call, Method, Request,
};
use crate::text::{
    chars_of, decimal, decimal_wide, digits, last_sides, lemma_digits_len, same, slice,
    split_at_last, stands, tens,
};

verus! {

/// The commands on attachments.
#[derive(Debug)]
pub enum AttachmentSub {
    List(AttachmentListArgs),
    Get(AttachmentGetArgs),
    Upload(AttachmentUploadArgs),
    Download(AttachmentDownloadArgs),
    Delete(AttachmentDeleteArgs),
}

/// The flags of a list.
#[derive(Debug)]
pub struct AttachmentListArgs {
    pub query: Option<String>,
    pub paging: Paging<100>,
}

/// An attachment.
#[derive(Debug)]
pub struct AttachmentGetArgs {
    pub sys_id: String,
}

/// The flags of an upload.
#[derive(Debug)]
pub struct AttachmentUploadArgs {
    pub table: String,
    pub record: String,
    pub file: String,
    pub file_name: Option<String>,
    pub content_type: Option<String>,
    pub encryption_context: Option<String>,
}

/// The flags of a download.
#[derive(Debug)]
pub struct AttachmentDownloadArgs {
    pub sys_id: String,
    pub out: Option<String>,
}

/// The flags of a deletion.
#[derive(Debug)]
pub struct AttachmentDeleteArgs {
    pub sys_id: String,
    pub yes: bool,
}

/// Lists attachments.
pub fn list(args: &AttachmentListArgs) -> (r: Draft)
    ensures
        r@ == reads(
            "/api/now/attachment"@,
            with_param(
                with_param(Seq::empty(), "sysparm_query"@, text_option(args.query)).push(
                    ("sysparm_limit"@, digits(args.paging.limit.setlimit as nat)),
                ),
                "sysparm_offset"@,
                number_option(args.paging.offset),
            ),
        ),
{
    let mut q = no_query();
    param_option(&mut q, "sysparm_query", &args.query);
    param_number(&mut q, "sysparm_limit", args.paging.setlimit());
    param_number_option(&mut q, "sysparm_offset", args.paging.offset);
    read("/api/now/attachment".to_owned(), q)
}

/// Reads what is known of an attachment.
pub fn get(args: &AttachmentGetArgs) -> (r: Draft)
    ensures
        r@ == reads("/api/now/attachment/"@ + args.sys_id@, Seq::empty()),
{
    read("/api/now/attachment/".to_owned().concat(args.sys_id.as_str()), no_query())
}

/// The type of a file by the ending of its name.
pub open spec fn mime(extension: Option<Seq<char>>) -> Seq<char> {
    match extension {
        None => "application/octet-stream"@,
        Some(e) => if e == "json"@ {
            "application/json"@
        } else if e == "xml"@ {
            "application/xml"@
        } else if e == "csv"@ {
            "text/csv"@
        } else if e == "txt"@ || e == "log"@ {
            "text/plain"@
        } else if e == "pdf"@ {
            "application/pdf"@
        } else if e == "png"@ {
            "image/png"@
        } else if e == "jpg"@ || e == "jpeg"@ {
            "image/jpeg"@
        } else if e == "gif"@ {
            "image/gif"@
        } else if e == "zip"@ {
            "application/zip"@
        } else if e == "gz"@ || e == "gzip"@ {
            "application/gzip"@
        } else if e == "xlsx"@ {
            "application/vnd.openxmlformats-officedocument.spreadsheetml.sheet"@
        } else if e == "docx"@ {
            "application/vnd.openxmlformats-officedocument.wordprocessingml.document"@
        } else {
            "application/octet-stream"@
        },
    }
}

/// The type of a file by the ending of its name.
pub fn mime_from_extension(extension: &Option<String>) -> (r: &'static str)
    ensures
        r@ == mime(text_option(*extension)),
{
    match extension {
        None => "application/octet-stream",
        Some(s) => {
            let e = s.as_str();
            if same(e, "json") {
                "application/json"
            } else if same(e, "xml") {
                "application/xml"
            } else if same(e, "csv") {
                "text/csv"
            } else if same(e, "txt") || same(e, "log") {
                "text/plain"
            } else if same(e, "pdf") {
                "application/pdf"
            } else if same(e, "png") {
                "image/png"
            } else if same(e, "jpg") || same(e, "jpeg") {
                "image/jpeg"
            } else if same(e, "gif") {
                "image/gif"
            } else if same(e, "zip") {
                "application/zip"
            } else if same(e, "gz") || same(e, "gzip") {
                "application/gzip"
            } else if same(e, "xlsx") {
                "application/vnd.openxmlformats-officedocument.spreadsheetml.sheet"
            } else if same(e, "docx") {
                "application/vnd.openxmlformats-officedocument.wordprocessingml.document"
            } else {
                "application/octet-stream"
            }
        },
    }
}

/// The first of two texts that is there, or a third.
pub open spec fn first_of(a: Option<Seq<char>>, b: Option<Seq<char>>, c: Seq<char>) -> Seq<char> {
    match a {
        Some(s) => s,
        None => match b {
            Some(s) => s,
            None => c,
        },
    }
}

/// What stands behind the last slash of a path.
pub open spec fn behind_last_slash(path: Seq<char>) -> Seq<char> {
    match last_sides(path, "/"@) {
        Some((_, name)) => name,
        None => path,
    }
}

/// A path without the slashes, and the dots behind a slash, that it ends in.
pub open spec fn without_tail(path: Seq<char>) -> Seq<char>
    decreases path.len(),
{
    let n = path.len();
    if n > 0 && path[n - 1] == '/' {
        without_tail(path.take(n - 1))
    } else if n > 1 && path[n - 1] == '.' && path[n - 2] == '/' {
        without_tail(path.take(n - 2))
    } else {
        path
    }
}

/// The last part of a path: none where the path is empty or the root, or leads
/// upwards.
pub open spec fn last_part(path: Seq<char>) -> Option<Seq<char>> {
    let name = behind_last_slash(without_tail(path));
    if name.len() == 0 || name == ".."@ {
        None
    } else {
        Some(name)
    }
}

/// A path whose last part is the same wherever it is read. Backslashes, a colon as
/// the second character and two slashes at the beginning mean something else on some
/// platforms, and a single dot is no name.
pub open spec fn read_alike(path: Seq<char>) -> bool {
    &&& !path.contains('\\')
    &&& !(path.len() >= 2 && path[1] == ':')
    &&& !(path.len() >= 2 && path[0] == '/' && path[1] == '/')
    &&& last_part(path) != Some("."@)
}

/// The last part of a path, by `Path::file_name`: what stands behind the last slash
/// once slashes and dots at the end are taken off, where the path is read alike on
/// every platform. Of any other path nothing is said, as its last part is a matter of
/// the platform.
#[verifier::external_body]
fn base_name(path: &str) -> (r: Option<String>)
    ensures
        read_alike(path@) ==> text_option(r) == last_part(path@),
{
    std::path::Path::new(path).file_name().and_then(|name| name.to_str()).map(str::to_owned)
}

/// The ending of a name: what stands behind its last dot, unless the name begins
/// with that dot.
pub open spec fn ending(name: Seq<char>) -> Option<Seq<char>> {
    match last_sides(name, "."@) {
        Some((before, behind)) => if before.len() > 0 {
            Some(behind)
        } else {
            None
        },
        None => None,
    }
}

/// The ending of a name.
fn ending_of(name: &str) -> (r: Option<String>)
    ensures
        text_option(r) == ending(name@),
{
    match split_at_last(name, ".") {
        Some((before, behind)) => if before.as_str().is_empty() {
            None
        } else {
            Some(behind)
        },
        None => None,
    }
}

/// The request of an upload, without the bytes, for a path with the given last part.
pub open spec fn upload_call(args: AttachmentUploadArgs, base: Option<Seq<char>>) -> Call {
    Call {
        method: Method::Post,
        path: "/api/now/attachment/file"@,
        query: with_param(
            seq![
                ("table_name"@, args.table@),
                ("table_sys_id"@, args.record@),
                ("file_name"@, first_of(text_option(args.file_name), base, "upload"@)),
            ],
            "encryption_context"@,
            text_option(args.encryption_context),
        ),
        body: None,
    }
}

/// The type of an uploaded file, for a path with the given last part.
pub open spec fn upload_type(args: AttachmentUploadArgs, base: Option<Seq<char>>) -> Seq<char> {
    match text_option(args.content_type) {
        Some(t) => t,
        None => mime(
            match base {
                Some(name) => ending(name),
                None => None,
            },
        ),
    }
}

/// The request of an upload, without the bytes, and the type of the file. The name
/// of the file is the last part of its path unless another is given.
pub fn upload_as(args: &AttachmentUploadArgs, base: &Option<String>) -> (r: (Request, String))
    ensures
        r.0@ == upload_call(*args, text_option(*base)),
        r.1@ == upload_type(*args, text_option(*base)),
{
    let name = match &args.file_name {
        Some(s) => s.clone(),
        None => match base {
            Some(s) => s.clone(),
            None => "upload".to_owned(),
        },
    };
    let extension = match base {
        Some(s) => ending_of(s.as_str()),
        None => None,
    };
    let content_type = match &args.content_type {
        Some(t) => t.clone(),
        None => mime_from_extension(&extension).to_owned(),
    };
    let mut q = no_query();
    param(&mut q, "table_name", args.table.as_str());
    param(&mut q, "table_sys_id", args.record.as_str());
    param(&mut q, "file_name", name.as_str());
    assert(pairs(q@) =~= seq![
        ("table_name"@, args.table@),
        ("table_sys_id"@, args.record@),
        ("file_name"@, first_of(text_option(args.file_name), text_option(*base), "upload"@)),
    ]);
    param_option(&mut q, "encryption_context", &args.encryption_context);
    let request = Request {
        method: Method::Post,
        path: "/api/now/attachment/file".to_owned(),
        query: q,
        body: None,
    };
    (request, content_type)
}

/// The request of an upload, without the bytes, and the type of the file. Where the
/// last part of the path is a matter of the platform, both still are those for some
/// last part.
pub fn upload(args: &AttachmentUploadArgs) -> (r: (Request, String))
    ensures
        read_alike(args.file@) ==> r.0@ == upload_call(*args, last_part(args.file@)) && r.1@
            == upload_type(*args, last_part(args.file@)),
        exists|base: Option<Seq<char>>|
            r.0@ == #[trigger] upload_call(*args, base) && r.1@ == upload_type(*args, base),
{
    let base = base_name(args.file.as_str());
    upload_as(args, &base)
}

/// The request of a download.
pub fn download(args: &AttachmentDownloadArgs) -> (r: Request)
    ensures
        r@ == (Call {
            method: Method::Get,
            path: "/api/now/attachment/"@ + args.sys_id@ + "/file"@,
            query: Seq::empty(),
            body: None,
        }),
{
    get_of(
        "/api/now/attachment/".to_owned().concat(args.sys_id.as_str()).concat("/file"),
        no_query(),
    )
}

/// What is shown of a download to a file.
pub fn downloaded(out_path: &str, written: u64) -> (r: Json)
    ensures
        r@ == Doc::Object(
            Map::empty().insert("path"@, Doc::Str(out_path@)).insert(
                "size"@,
                Doc::Number(digits(written as nat)),
            ),
        ),
{
    let mut m: Vec<(String, Json)> = Vec::new();
    put(&mut m, "path", Json::str(out_path));
    put(&mut m, "size", Json::number(written));
    Json::Object(m)
}

/// Deletes an attachment.
pub fn delete(args: &AttachmentDeleteArgs) -> (r: Draft)
    ensures
        r@ == removes(
            args.yes,
            "delete"@,
            "attachment "@ + args.sys_id@,
            "/api/now/attachment/"@ + args.sys_id@,
        ),
{
    removal(
        args.yes,
        "delete",
        "attachment ".to_owned().concat(args.sys_id.as_str()),
        "/api/now/attachment/".to_owned().concat(args.sys_id.as_str()),
    )
}

/// The most bytes that the name of a staging file has.
pub const MAX_STAGING_NAME: usize = 255;

/// The bytes of a character.
pub open spec fn width(c: char) -> nat {
    encode_scalar(c as u32).len()
}

/// The longest beginning of a text that has at most so many bytes.
pub open spec fn fitted(s: Seq<char>, max: nat) -> Seq<char>
    decreases s.len(),
{
    if s.len() == 0 || width(s[0]) > max {
        Seq::empty()
    } else {
        seq![s[0]] + fitted(s.drop_first(), (max - width(s[0])) as nat)
    }
}

/// The beginning fits, and is the longest that does: with one more character it
/// would not.
pub proof fn a_fitted_text_is_the_longest_that_fits(s: Seq<char>, max: nat)
    ensures
        fitted(s, max).is_prefix_of(s),
        encode_utf8(fitted(s, max)).len() <= max,
        fitted(s, max).len() < s.len() ==> encode_utf8(s.take(fitted(s, max).len() as int + 1)).len()
            > max,
    decreases s.len(),
{
    let f = fitted(s, max);
    if s.len() == 0 {
    } else if width(s[0]) > max {
        let t = s.take(1);
        assert(t.drop_first() =~= Seq::empty());
        assert(encode_utf8(t) =~= encode_scalar(s[0] as u32) + encode_utf8(t.drop_first()));
    } else {
        let rest = s.drop_first();
        let left = (max - width(s[0])) as nat;
        a_fitted_text_is_the_longest_that_fits(rest, left);
        let g = fitted(rest, left);
        assert(f.drop_first() =~= g);
        assert(f =~= s.take(f.len() as int)) by {
            assert(g =~= rest.take(g.len() as int));
        }
        if f.len() < s.len() {
            let t = s.take(f.len() as int + 1);
            assert(t.drop_first() =~= rest.take(g.len() as int + 1));
            assert(t[0] == s[0]);
        }
    }
}

/// The bytes of a character.
fn width_of(c: char) -> (r: usize)
    ensures
        r == width(c),
        1 <= r <= 4,
{
    let n = c as u32;
    if n < 0x80 {
        1
    } else if n < 0x800 {
        2
    } else if n < 0x10000 {
        3
    } else {
        4
    }
}

/// The longest beginning of a text that has at most so many bytes. No character is
/// split.
pub fn truncate_bytes(s: &str, max: usize) -> (r: String)
    ensures
        r@ == fitted(s@, max as nat),
{
    let v = chars_of(s);
    let mut left: usize = max;
    let mut i: usize = 0;
    assert(v@.skip(0) =~= s@);
    assert(v@.take(0) + fitted(v@.skip(0), max as nat) =~= fitted(s@, max as nat));
    while i < v.len() && width_of(v[i]) <= left
        invariant
            i <= v.len(),
            v@ == s@,
            fitted(s@, max as nat) == v@.take(i as int) + fitted(v@.skip(i as int), left as nat),
        decreases v.len() - i,
    {
        let w = width_of(v[i]);
        let ghost rest = v@.skip(i as int);
        assert(rest[0] == v@[i as int]);
        assert(rest.drop_first() =~= v@.skip(i + 1));
        assert(v@.take(i as int) + (seq![rest[0]] + fitted(v@.skip(i + 1), (left - w) as nat))
            =~= v@.take(i + 1) + fitted(v@.skip(i + 1), (left - w) as nat));
        left = left - w;
        i = i + 1;
    }
    proof {
        if i < v@.len() {
            assert(v@.skip(i as int)[0] == v@[i as int]);
        }
        assert(fitted(v@.skip(i as int), left as nat) =~= Seq::empty());
        assert(v@.take(i as int) + fitted(v@.skip(i as int), left as nat) =~= v@.take(i as int));
    }
    let out = slice(&v, 0, i);
    assert(v@.subrange(0, i as int) =~= v@.take(i as int));
    out
}

/// What keeps the names of staging files apart.
pub open spec fn staging_suffix(pid: u32, nanos: u128) -> Seq<char> {
    ".sn"@ + digits(pid as nat) + "-"@ + digits(nanos as nat) + ".part"@
}

/// The name of a staging file: hidden, with as much of the destination's name as
/// fits, and the rest to keep it apart.
pub open spec fn staging_name(base: Option<Seq<char>>, pid: u32, nanos: u128) -> Seq<char> {
    let suffix = staging_suffix(pid, nanos);
    let budget = if suffix.len() + 1 <= 255 {
        (255 - (suffix.len() + 1)) as nat
    } else {
        0
    };
    "."@ + fitted(
        match base {
            Some(b) => b,
            None => "download"@,
        },
        budget,
    ) + suffix
}

proof fn lemma_bytes_of_sum(a: Seq<char>, b: Seq<char>)
    ensures
        encode_utf8(a + b) == encode_utf8(a) + encode_utf8(b),
    decreases a.len(),
{
    if a.len() == 0 {
        assert(a + b =~= b);
        assert(encode_utf8(a) + encode_utf8(b) =~= encode_utf8(b));
    } else {
        lemma_bytes_of_sum(a.drop_first(), b);
        assert((a + b).drop_first() =~= a.drop_first() + b);
        assert((a + b)[0] == a[0]);
        assert(encode_scalar(a[0] as u32) + (encode_utf8(a.drop_first()) + encode_utf8(b)) =~= (
        encode_scalar(a[0] as u32) + encode_utf8(a.drop_first())) + encode_utf8(b));
    }
}

proof fn lemma_plain_bytes(s: Seq<char>)
    requires
        forall|i: int| 0 <= i < s.len() ==> (#[trigger] s[i] as u32) < 128,
    ensures
        encode_utf8(s).len() == s.len(),
    decreases s.len(),
{
    if s.len() > 0 {
        let t = s.drop_first();
        assert forall|i: int| 0 <= i < t.len() implies (#[trigger] t[i] as u32) < 128 by {
            assert(t[i] == s[i + 1]);
        }
        lemma_plain_bytes(t);
        assert((s[0] as u32) < 128);
    }
}

/// What keeps the names of staging files apart is short.
proof fn lemma_suffix(pid: u32, nanos: u128)
    ensures
        staging_suffix(pid, nanos).len() <= 58,
        encode_utf8(staging_suffix(pid, nanos)).len() == staging_suffix(pid, nanos).len(),
{
    reveal_strlit(".sn");
    reveal_strlit("-");
    reveal_strlit(".part");
    reveal_with_fuel(tens, 40);
    assert(pid < tens(10));
    assert(nanos < tens(39));
    lemma_digits_len(pid as nat, 10);
    lemma_digits_len(nanos as nat, 39);
    let s = staging_suffix(pid, nanos);
    assert forall|i: int| 0 <= i < s.len() implies (#[trigger] s[i] as u32) < 128 by {
        let d = digits(pid as nat);
        let e = digits(nanos as nat);
        if i < 3 {
        } else if i < 3 + d.len() {
            assert(s[i] == d[i - 3]);
        } else if i == 3 + d.len() {
        } else if i < 4 + d.len() + e.len() {
            assert(s[i] == e[i - 4 - d.len()]);
        } else {
            assert(s[i] == ".part"@[i - 4 - d.len() - e.len()]);
        }
    }
    lemma_plain_bytes(s);
}

/// The name of a staging file always fits a file system, and always keeps what
/// tells it apart.
pub proof fn a_staging_name_fits(base: Option<Seq<char>>, pid: u32, nanos: u128)
    ensures
        encode_utf8(staging_name(base, pid, nanos)).len() <= 255,
        staging_suffix(pid, nanos).is_suffix_of(staging_name(base, pid, nanos)),
{
    reveal_strlit(".");
    let suffix = staging_suffix(pid, nanos);
    lemma_suffix(pid, nanos);
    let b = match base {
        Some(b) => b,
        None => "download"@,
    };
    let budget = (255 - (suffix.len() + 1)) as nat;
    a_fitted_text_is_the_longest_that_fits(b, budget);
    let f = fitted(b, budget);
    lemma_plain_bytes("."@);
    lemma_bytes_of_sum("."@, f);
    lemma_bytes_of_sum("."@ + f, suffix);
    let name = staging_name(base, pid, nanos);
    assert(name.skip(name.len() - suffix.len()) =~= suffix);
}

/// The name of a staging file for a destination with the given last part.
pub fn staging_name_of(base: &Option<String>, pid: u32, nanos: u128) -> (r: String)
    ensures
        r@ == staging_name(text_option(*base), pid, nanos),
{
    let suffix = ".sn".to_owned().concat(decimal(pid as u64).as_str()).concat("-").concat(
        decimal_wide(nanos).as_str(),
    ).concat(".part");
    proof {
        lemma_suffix(pid, nanos);
    }
    let count = chars_of(suffix.as_str()).len();
    let budget: usize = 255 - (count + 1);
    let start = match base {
        Some(b) => truncate_bytes(b.as_str(), budget),
        None => truncate_bytes("download", budget),
    };
    ".".to_owned().concat(start.as_str()).concat(suffix.as_str())
}

/// The name of a staging file for a destination. Where the last part of the
/// destination is a matter of the platform, it still is the name for some last part.
pub fn temp_file_name(dest: &str, pid: u32, nanos: u128) -> (r: String)
    ensures
        read_alike(dest@) ==> r@ == staging_name(last_part(dest@), pid, nanos),
        exists|base: Option<Seq<char>>| r@ == #[trigger] staging_name(base, pid, nanos),
{
    let base = base_name(dest);
    staging_name_of(&base, pid, nanos)
}

/// A file has the type of its ending, and no type has the endings of another.
#[verifier::rlimit(40)]
pub proof fn an_ending_tells_the_type(e: Seq<char>)
    ensures
        mime(Some(e)) == "application/json"@ <==> e == "json"@,
        mime(Some(e)) == "application/xml"@ <==> e == "xml"@,
        mime(Some(e)) == "text/csv"@ <==> e == "csv"@,
        mime(Some(e)) == "text/plain"@ <==> e == "txt"@ || e == "log"@,
        mime(Some(e)) == "application/pdf"@ <==> e == "pdf"@,
        mime(Some(e)) == "image/png"@ <==> e == "png"@,
        mime(Some(e)) == "image/jpeg"@ <==> e == "jpg"@ || e == "jpeg"@,
        mime(Some(e)) == "image/gif"@ <==> e == "gif"@,
        mime(Some(e)) == "application/zip"@ <==> e == "zip"@,
        mime(Some(e)) == "application/gzip"@ <==> e == "gz"@ || e == "gzip"@,
        mime(Some(e)) == "application/vnd.openxmlformats-officedocument.spreadsheetml.sheet"@ <==> e == "xlsx"@,
        mime(Some(e)) == "application/vnd.openxmlformats-officedocument.wordprocessingml.document"@ <==> e == "docx"@,
        mime(None) == "application/octet-stream"@,
{
    reveal_strlit("application/json");
    reveal_strlit("application/xml");
    reveal_strlit("text/csv");
    reveal_strlit("text/plain");
    reveal_strlit("application/pdf");
    reveal_strlit("image/png");
    reveal_strlit("image/jpeg");
    reveal_strlit("image/gif");
    reveal_strlit("application/zip");
    reveal_strlit("application/gzip");
    reveal_strlit("application/vnd.openxmlformats-officedocument.spreadsheetml.sheet");
    reveal_strlit("application/vnd.openxmlformats-officedocument.wordprocessingml.document");
    reveal_strlit("application/octet-stream");
    assert("application/json"@.len() == 16 && "application/xml"@.len() == 15 && "text/csv"@.len() == 8 && "text/plain"@.len() == 10 && "application/pdf"@.len() == 15 && "image/png"@.len() == 9 && "image/jpeg"@.len() == 10 && "image/gif"@.len() == 9 && "application/zip"@.len() == 15 && "application/gzip"@.len() == 16 && "application/vnd.openxmlformats-officedocument.spreadsheetml.sheet"@.len() == 65 && "application/vnd.openxmlformats-officedocument.wordprocessingml.document"@.len() == 71 && "application/octet-stream"@.len() == 24);
    assert("application/json"@[12] != "application/gzip"@[12]);
    assert("application/xml"@[12] != "application/pdf"@[12]);
    assert("application/xml"@[12] != "application/zip"@[12]);
    assert("text/plain"@[0] != "image/jpeg"@[0]);
    assert("application/pdf"@[12] != "application/zip"@[12]);
    assert("image/png"@[6] != "image/gif"@[6]);
    reveal_strlit("json");
    reveal_strlit("xml");
    reveal_strlit("csv");
    reveal_strlit("txt");
    reveal_strlit("log");
    reveal_strlit("pdf");
    reveal_strlit("png");
    reveal_strlit("jpg");
    reveal_strlit("jpeg");
    reveal_strlit("gif");
    reveal_strlit("zip");
    reveal_strlit("gz");
    reveal_strlit("gzip");
    reveal_strlit("xlsx");
    reveal_strlit("docx");
    assert("json"@.len() == 4 && "xml"@.len() == 3 && "csv"@.len() == 3 && "txt"@.len() == 3 && "log"@.len() == 3 && "pdf"@.len() == 3 && "png"@.len() == 3 && "jpg"@.len() == 3 && "jpeg"@.len() == 4 && "gif"@.len() == 3 && "zip"@.len() == 3 && "gz"@.len() == 2 && "gzip"@.len() == 4 && "xlsx"@.len() == 4 && "docx"@.len() == 4);
    assert("json"@[1] != "jpeg"@[1]);
    assert("json"@[0] != "gzip"@[0]);
    assert("json"@[0] != "xlsx"@[0]);
    assert("json"@[0] != "docx"@[0]);
    assert("xml"@[0] != "csv"@[0]);
    assert("xml"@[0] != "txt"@[0]);
    assert("xml"@[0] != "log"@[0]);
    assert("xml"@[0] != "pdf"@[0]);
    assert("xml"@[0] != "png"@[0]);
    assert("xml"@[0] != "jpg"@[0]);
    assert("xml"@[0] != "gif"@[0]);
    assert("xml"@[0] != "zip"@[0]);
    assert("csv"@[0] != "txt"@[0]);
    assert("csv"@[0] != "log"@[0]);
    assert("csv"@[0] != "pdf"@[0]);
    assert("csv"@[0] != "png"@[0]);
    assert("csv"@[0] != "jpg"@[0]);
    assert("csv"@[0] != "gif"@[0]);
    assert("csv"@[0] != "zip"@[0]);
    assert("txt"@[0] != "log"@[0]);
    assert("txt"@[0] != "pdf"@[0]);
    assert("txt"@[0] != "png"@[0]);
    assert("txt"@[0] != "jpg"@[0]);
    assert("txt"@[0] != "gif"@[0]);
    assert("txt"@[0] != "zip"@[0]);
    assert("log"@[0] != "pdf"@[0]);
    assert("log"@[0] != "png"@[0]);
    assert("log"@[0] != "jpg"@[0]);
    assert("log"@[0] != "gif"@[0]);
    assert("log"@[0] != "zip"@[0]);
    assert("pdf"@[1] != "png"@[1]);
    assert("pdf"@[0] != "jpg"@[0]);
    assert("pdf"@[0] != "gif"@[0]);
    assert("pdf"@[0] != "zip"@[0]);
    assert("png"@[0] != "jpg"@[0]);
    assert("png"@[0] != "gif"@[0]);
    assert("png"@[0] != "zip"@[0]);
    assert("jpg"@[0] != "gif"@[0]);
    assert("jpg"@[0] != "zip"@[0]);
    assert("jpeg"@[0] != "gzip"@[0]);
    assert("jpeg"@[0] != "xlsx"@[0]);
    assert("jpeg"@[0] != "docx"@[0]);
    assert("gif"@[0] != "zip"@[0]);
    assert("gzip"@[0] != "xlsx"@[0]);
    assert("gzip"@[0] != "docx"@[0]);
    assert("xlsx"@[0] != "docx"@[0]);
}

/// What ends a path behind its name: slashes, and dots behind a slash.
pub open spec fn only_tail(s: Seq<char>) -> bool {
    forall|i: int| 0 <= i < s.len() ==> #[trigger] s[i] == '/' || s[i] == '.'
}

proof fn lemma_without_tail(path: Seq<char>)
    ensures
        without_tail(path).is_prefix_of(path),
        only_tail(path.skip(without_tail(path).len() as int)),
        without_tail(path).len() > 0 ==> without_tail(path).last() != '/',
        without_tail(path).len() > 1 ==> !(without_tail(path).last() == '.' && without_tail(
            path,
        )[without_tail(path).len() - 2] == '/'),
    decreases path.len(),
{
    let n = path.len() as int;
    let w = without_tail(path);
    if n > 0 && path[n - 1] == '/' {
        lemma_without_tail(path.take(n - 1));
        assert forall|i: int| 0 <= i < path.skip(w.len() as int).len() implies #[trigger] path.skip(
            w.len() as int,
        )[i] == '/' || path.skip(w.len() as int)[i] == '.' by {
            if w.len() + i < n - 1 {
                assert(path.take(n - 1).skip(w.len() as int)[i] == path[w.len() + i]);
            }
        }
    } else if n > 1 && path[n - 1] == '.' && path[n - 2] == '/' {
        lemma_without_tail(path.take(n - 2));
        assert forall|i: int| 0 <= i < path.skip(w.len() as int).len() implies #[trigger] path.skip(
            w.len() as int,
        )[i] == '/' || path.skip(w.len() as int)[i] == '.' by {
            if w.len() + i < n - 2 {
                assert(path.take(n - 2).skip(w.len() as int)[i] == path[w.len() + i]);
            }
        }
    }
}

proof fn lemma_behind(a: Seq<char>, c: char, b: Seq<char>, t: Seq<char>)
    requires
        !b.contains(c),
        t == seq![c],
    ensures
        last_sides(a + seq![c] + b, t) == Some((a, b)),
{
    let s = a + seq![c] + b;
    let at = a.len() as int;
    assert(s[at] == c);
    assert(s.subrange(at, at + 1) =~= t);
    assert forall|k: int| at < k < s.len() implies !#[trigger] stands(s, t, k) by {
        assert(s[k] == b[k - at - 1]);
        assert(b.contains(s[k]));
        if stands(s, t, k) {
            assert(s.subrange(k, k + 1)[0] == t[0]);
        }
    }
    crate::text::lemma_last_place(s, t, s.len() as int, at);
    assert(s.take(at) =~= a);
    assert(s.skip(at + 1) =~= b);
}

/// A name behind a directory is the last part of the path, with or without a slash at
/// the end.
pub proof fn a_name_is_the_last_part_of_its_path(dir: Seq<char>, name: Seq<char>)
    requires
        name.len() > 0,
        !name.contains('/'),
        name != "."@,
        name != ".."@,
    ensures
        last_part(dir + "/"@ + name) == Some(name),
        last_part(dir + "/"@ + name + "/"@) == Some(name),
{
    reveal_strlit("/");
    reveal_strlit(".");
    let s = dir + "/"@ + name;
    assert("/"@ =~= seq!['/']);
    let n = s.len() as int;
    assert(s[n - 1] == name[name.len() - 1]);
    assert(name.contains(name[name.len() - 1]));
    if s[n - 1] == '.' && s[n - 2] == '/' {
        if name.len() > 1 {
            assert(s[n - 2] == name[name.len() - 2]);
            assert(name.contains(name[name.len() - 2]));
        } else {
            assert(name =~= "."@);
        }
    }
    assert(without_tail(s) == s);
    lemma_behind(dir, '/', name, "/"@);
    let t = s + "/"@;
    assert(t.take(n) =~= s);
    assert(t[n] == '/');
}

/// What is read as the last part of a path stands in it, and has no slash at its end.
pub proof fn the_last_part_stands_at_the_end(path: Seq<char>)
    ensures
        without_tail(path).is_prefix_of(path),
        only_tail(path.skip(without_tail(path).len() as int)),
        without_tail(path).len() > 0 ==> without_tail(path).last() != '/',
        last_part(path) != Some(Seq::<char>::empty()) && last_part(path) != Some(".."@),
{
    reveal_strlit("..");
    lemma_without_tail(path);
}

/// A name ends in what stands behind its last dot; a name that only begins with a dot
/// has no ending.
pub proof fn an_ending_stands_behind_the_last_dot(stem: Seq<char>, e: Seq<char>)
    requires
        !e.contains('.'),
    ensures
        stem.len() > 0 ==> ending(stem + "."@ + e) == Some(e),
        ending("."@ + e) is None,
{
    reveal_strlit(".");
    assert("."@ =~= seq!['.']);
    lemma_behind(stem, '.', e, "."@);
    lemma_behind(Seq::empty(), '.', e, "."@);
    assert(Seq::<char>::empty() + seq!['.'] + e =~= "."@ + e);
}

/// An upload goes to the record that was named, under the name that was given, else
/// under that of the file.
pub proof fn an_upload_names_its_record(args: AttachmentUploadArgs, base: Option<Seq<char>>)
    ensures
        ({
            let q = upload_call(args, base).query;
            &&& param_in(q, "table_name"@) == Some(args.table@)
            &&& param_in(q, "table_sys_id"@) == Some(args.record@)
            &&& param_in(q, "encryption_context"@) == text_option(args.encryption_context)
            &&& args.file_name is Some ==> param_in(q, "file_name"@) == text_option(args.file_name)
            &&& args.file_name is None && base is Some ==> param_in(q, "file_name"@) == base
            &&& args.file_name is None && base is None ==> param_in(q, "file_name"@) == Some(
                "upload"@,
            )
        }),
        upload_call(args, base).method == Method::Post,
        upload_call(args, base).path == "/api/now/attachment/file"@,
        args.content_type is Some ==> Some(upload_type(args, base)) == text_option(
            args.content_type,
        ),
        args.content_type is None ==> upload_type(args, base) == (match base {
            Some(name) => mime(ending(name)),
            None => mime(None),
        }),
{
    broadcast use {
        crate::request::lemma_param_with,
        crate::request::lemma_param_flag,
        crate::request::lemma_param_none,
        crate::request::lemma_param_push,
    };

    reveal_strlit("table_name");
    reveal_strlit("table_sys_id");
    reveal_strlit("file_name");
    reveal_strlit("encryption_context");
    assert("table_name"@.len() == 10 && "table_sys_id"@.len() == 12 && "file_name"@.len() == 9 && "encryption_context"@.len() == 18);
    let e = Seq::<(Seq<char>, Seq<char>)>::empty();
    let q = seq![
        ("table_name"@, args.table@),
        ("table_sys_id"@, args.record@),
        ("file_name"@, first_of(text_option(args.file_name), base, "upload"@)),
    ];
    assert(q =~= e.push(("table_name"@, args.table@)).push(("table_sys_id"@, args.record@)).push(
        ("file_name"@, first_of(text_option(args.file_name), base, "upload"@)),
    ));
}

/// A staging file is hidden, and no two processes, nor one process at two times, give
/// theirs the same ending.
pub proof fn a_staging_file_is_hidden(base: Option<Seq<char>>, pid: u32, nanos: u128)
    ensures
        staging_name(base, pid, nanos).len() > 0 && staging_name(base, pid, nanos)[0] == '.',
        staging_suffix(pid, nanos) == ".sn"@ + digits(pid as nat) + "-"@ + digits(nanos as nat)
            + ".part"@,
{
    reveal_strlit(".");
}

} // verus!
