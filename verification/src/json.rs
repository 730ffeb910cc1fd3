//! JSON documents.
//!
//! [`Json`] is the document that the logic works on; [`Doc`] is what it says,
//! and every contract speaks of that. Text is turned into a document by
//! `serde_json`, whose value tree is taken apart here node by node.

use vstd::prelude::*;

use crate::order::{ascending, in_order, insert_in_order, lemma_listing_unique, listing, texts};
use crate::text::{decimal, digits, same};

verus! {

/// A JSON document. A number is held as the text that JSON writes for it, so
/// that no value is ever rounded. An object lists its members; where a name
/// stands twice the later member counts.
#[derive(Debug)]
pub enum Json {
    Null,
    Bool(bool),
    Number(String),
    Str(String),
    Array(Vec<Json>),
    Object(Vec<(String, Json)>),
}

/// What a JSON document says: arrays are sequences, objects are maps.
#[verifier::ext_equal]
pub ghost enum Doc {
    Null,
    Bool(bool),
    Number(Seq<char>),
    Str(Seq<char>),
    Array(Seq<Doc>),
    Object(Map<Seq<char>, Doc>),
}

impl Doc {
    /// The member of an object under a name; nothing where the document is no
    /// object or has no such member.
    pub open spec fn field(self, key: Seq<char>) -> Option<Doc> {
        match self {
            Doc::Object(m) => if m.contains_key(key) {
                Some(m[key])
            } else {
                None
            },
            _ => None,
        }
    }

    /// The text of a string document.
    pub open spec fn text(self) -> Option<Seq<char>> {
        match self {
            Doc::Str(s) => Some(s),
            _ => None,
        }
    }

    /// The text of a string member.
    pub open spec fn field_text(self, key: Seq<char>) -> Option<Seq<char>> {
        match self.field(key) {
            Some(d) => d.text(),
            None => None,
        }
    }

    /// The items of an array document.
    pub open spec fn items(self) -> Option<Seq<Doc>> {
        match self {
            Doc::Array(s) => Some(s),
            _ => None,
        }
    }
}

/// The documents of a sequence of values.
pub open spec fn docs(items: Seq<Json>) -> Seq<Doc>
    decreases items,
{
    if items.len() == 0 {
        Seq::empty()
    } else {
        docs(items.drop_last()).push(items.last().view())
    }
}

/// The map that a list of members stands for: later members win.
pub open spec fn members(entries: Seq<(String, Json)>) -> Map<Seq<char>, Doc>
    decreases entries,
{
    if entries.len() == 0 {
        Map::empty()
    } else {
        members(entries.drop_last()).insert(entries.last().0@, entries.last().1.view())
    }
}

/// What an optional document says.
pub open spec fn doc_option(j: Option<Json>) -> Option<Doc> {
    match j {
        Some(j) => Some(j@),
        None => None,
    }
}

/// What an optional borrowed document says.
pub open spec fn doc_option_ref(j: Option<&Json>) -> Option<Doc> {
    match j {
        Some(j) => Some(j@),
        None => None,
    }
}

/// `docs` keeps the length and goes item by item.
pub broadcast proof fn lemma_docs(items: Seq<Json>)
    ensures
        #[trigger] docs(items).len() == items.len(),
        forall|i: int| 0 <= i < items.len() ==> #[trigger] docs(items)[i] == items[i]@,
    decreases items.len(),
{
    if items.len() > 0 {
        lemma_docs(items.drop_last());
        assert forall|i: int| 0 <= i < items.len() implies #[trigger] docs(items)[i]
            == items[i]@ by {
            if i < items.len() - 1 {
                assert(items.drop_last()[i] == items[i]);
            }
        }
    }
}

/// Appending a value appends its document.
pub broadcast proof fn lemma_docs_push(items: Seq<Json>, j: Json)
    ensures
        #[trigger] docs(items.push(j)) == docs(items).push(j@),
{
    assert(items.push(j).drop_last() =~= items);
}

/// Appending a member sets it.
pub broadcast proof fn lemma_members_push(entries: Seq<(String, Json)>, e: (String, Json))
    ensures
        #[trigger] members(entries.push(e)) == members(entries).insert(e.0@, e.1@),
{
    assert(entries.push(e).drop_last() =~= entries);
}

/// A name is a member of the map exactly where it stands in the list.
proof fn lemma_members_dom(entries: Seq<(String, Json)>, k: Seq<char>)
    ensures
        members(entries).contains_key(k) <==> exists|i: int|
            0 <= i < entries.len() && (#[trigger] entries[i]).0@ == k,
    decreases entries.len(),
{
    if entries.len() > 0 {
        let rest = entries.drop_last();
        lemma_members_dom(rest, k);
        if members(entries).contains_key(k) {
            if entries.last().0@ == k {
                assert(entries[entries.len() - 1].0@ == k);
            } else {
                let i = choose|i: int| 0 <= i < rest.len() && (#[trigger] rest[i]).0@ == k;
                assert(entries[i].0@ == k);
            }
        }
        if exists|i: int| 0 <= i < entries.len() && (#[trigger] entries[i]).0@ == k {
            let i = choose|i: int| 0 <= i < entries.len() && (#[trigger] entries[i]).0@ == k;
            if i < rest.len() {
                assert(rest[i].0@ == k);
            }
        }
    }
}

/// A list of members stands for a finite map.
pub proof fn lemma_members_finite(entries: Seq<(String, Json)>)
    ensures
        members(entries).dom().finite(),
    decreases entries.len(),
{
    if entries.len() > 0 {
        lemma_members_finite(entries.drop_last());
    }
}

impl Json {
    /// What the document says.
    pub open spec fn view(&self) -> Doc
        decreases self,
    {
        match self {
            Json::Null => Doc::Null,
            Json::Bool(b) => Doc::Bool(*b),
            Json::Number(n) => Doc::Number(n@),
            Json::Str(s) => Doc::Str(s@),
            Json::Array(items) => Doc::Array(docs(items@)),
            Json::Object(entries) => Doc::Object(members(entries@)),
        }
    }

    /// A string document.
    pub fn str(s: &str) -> (r: Json)
        ensures
            r@ == Doc::Str(s@),
    {
        Json::Str(s.to_owned())
    }

    /// The document of a natural number.
    pub fn number(n: u64) -> (r: Json)
        ensures
            r@ == Doc::Number(digits(n as nat)),
    {
        Json::Number(decimal(n))
    }

    /// A string document, or null.
    pub fn str_or_null(s: &Option<String>) -> (r: Json)
        ensures
            r@ == (match *s {
                Some(t) => Doc::Str(t@),
                None => Doc::Null,
            }),
    {
        match s {
            Some(t) => Json::str(t.as_str()),
            None => Json::Null,
        }
    }

    /// A copy that says the same.
    pub fn dup(&self) -> (r: Json)
        ensures
            r@ == self@,
        decreases self,
    {
        match self {
            Json::Null => Json::Null,
            Json::Bool(b) => Json::Bool(*b),
            Json::Number(n) => Json::Number(n.clone()),
            Json::Str(s) => Json::Str(s.clone()),
            Json::Array(items) => {
                let mut out: Vec<Json> = Vec::new();
                let mut i: usize = 0;
                while i < items.len()
                    invariant
                        i <= items.len(),
                        docs(out@) == docs(items@.take(i as int)),
                        decreases_to!(self => items@),
                    decreases items.len() - i,
                {
                    broadcast use lemma_docs_push;

                    assert(items@.take(i + 1) =~= items@.take(i as int).push(items@[i as int]));
                    assert(decreases_to!(items@ => items@[i as int]));
                    out.push(items[i].dup());
                    i = i + 1;
                }
                assert(items@.take(i as int) =~= items@);
                Json::Array(out)
            },
            Json::Object(entries) => {
                let mut out: Vec<(String, Json)> = Vec::new();
                let mut i: usize = 0;
                while i < entries.len()
                    invariant
                        i <= entries.len(),
                        members(out@) == members(entries@.take(i as int)),
                        decreases_to!(self => entries@),
                    decreases entries.len() - i,
                {
                    broadcast use lemma_members_push;

                    assert(entries@.take(i + 1) =~= entries@.take(i as int).push(
                        entries@[i as int],
                    ));
                    assert(decreases_to!(entries@ => entries@[i as int]));
                    out.push((entries[i].0.clone(), entries[i].1.dup()));
                    i = i + 1;
                }
                assert(entries@.take(i as int) =~= entries@);
                Json::Object(out)
            },
        }
    }

    /// The member of an object under a name.
    pub fn get(&self, key: &str) -> (r: Option<&Json>)
        ensures
            doc_option_ref(r) == self@.field(key@),
    {
        match self {
            Json::Object(entries) => member(entries, key),
            _ => None,
        }
    }

    /// The text of a string document.
    pub fn as_str(&self) -> (r: Option<&String>)
        ensures
            match r {
                Some(s) => self@.text() == Some(s@),
                None => self@.text() is None,
            },
    {
        match self {
            Json::Str(s) => Some(s),
            _ => None,
        }
    }

    /// The text of a string member.
    pub fn get_str(&self, key: &str) -> (r: Option<&String>)
        ensures
            match r {
                Some(s) => self@.field_text(key@) == Some(s@),
                None => self@.field_text(key@) is None,
            },
    {
        match self.get(key) {
            Some(j) => j.as_str(),
            None => None,
        }
    }

    /// The items of an array document.
    pub fn as_array(&self) -> (r: Option<&Vec<Json>>)
        ensures
            match r {
                Some(v) => self@ == Doc::Array(docs(v@)),
                None => !(self@ is Array),
            },
    {
        match self {
            Json::Array(items) => Some(items),
            _ => None,
        }
    }

    /// The document as compact JSON text.
    pub fn render(&self) -> (r: String)
        ensures
            r@ == rendered(self@),
    {
        render_doc(self)
    }
}

/// The member of an optional document.
pub open spec fn field_in(o: Option<Doc>, key: Seq<char>) -> Option<Doc> {
    match o {
        Some(d) => d.field(key),
        None => None,
    }
}

/// The text of an optional document, empty where it is none.
pub open spec fn text_in(o: Option<Doc>) -> Seq<char> {
    match o {
        Some(Doc::Str(s)) => s,
        _ => Seq::empty(),
    }
}

/// The items of an optional document, none where it is no array.
pub open spec fn items_in(o: Option<Doc>) -> Seq<Doc> {
    match o {
        Some(Doc::Array(items)) => items,
        _ => Seq::empty(),
    }
}

/// The member of an optional document.
pub fn get_in<'a>(o: Option<&'a Json>, key: &str) -> (r: Option<&'a Json>)
    ensures
        doc_option_ref(r) == field_in(doc_option_ref(o), key@),
{
    match o {
        Some(j) => j.get(key),
        None => None,
    }
}

/// The text of an optional document.
pub fn text_of_option(o: Option<&Json>) -> (r: String)
    ensures
        r@ == text_in(doc_option_ref(o)),
{
    match o {
        Some(Json::Str(s)) => s.clone(),
        _ => String::new(),
    }
}

/// A copy of the items of an optional document.
pub fn items_of_option(o: Option<&Json>) -> (r: Vec<Json>)
    ensures
        docs(r@) == items_in(doc_option_ref(o)),
        r.len() == items_in(doc_option_ref(o)).len(),
{
    match o {
        Some(Json::Array(items)) => {
            proof {
                lemma_docs(items@);
            }
            dup_items(items)
        },
        _ => Vec::new(),
    }
}

/// The value of a decimal, where a text is one.
pub open spec fn decimal_value(t: Seq<char>) -> Option<nat>
    decreases t.len(),
{
    if t.len() == 0 {
        None
    } else if !('0' <= t.last() && t.last() <= '9') {
        None
    } else {
        let d = (t.last() as u32 - 48) as nat;
        if t.len() == 1 {
            Some(d)
        } else {
            match decimal_value(t.drop_last()) {
                Some(n) => Some(n * 10 + d),
                None => None,
            }
        }
    }
}

/// The natural number that an optional document is, where it is one and has the
/// width of a machine number.
pub open spec fn natural_in(o: Option<Doc>) -> Option<nat> {
    match o {
        Some(Doc::Number(t)) => match decimal_value(t) {
            Some(n) => if n <= u64::MAX {
                Some(n)
            } else {
                None
            },
            None => None,
        },
        _ => None,
    }
}

/// The natural number that an optional document is, zero where it is none.
pub open spec fn number_in(o: Option<Doc>) -> nat {
    match natural_in(o) {
        Some(n) => n,
        None => 0,
    }
}

/// The value of a decimal of the width of a machine number.
fn parse_decimal(v: &Vec<char>, upto: usize) -> (r: Option<u64>)
    requires
        upto <= v.len(),
    ensures
        match r {
            Some(n) => decimal_value(v@.take(upto as int)) == Some(n as nat),
            None => decimal_value(v@.take(upto as int)) matches Some(n) ==> n > u64::MAX,
        },
    decreases upto,
{
    if upto == 0 {
        return None;
    }
    let ghost t = v@.take(upto as int);
    assert(t.drop_last() =~= v@.take(upto - 1));
    let c = v[upto - 1];
    assert(t.last() == c);
    if !('0' <= c && c <= '9') {
        return None;
    }
    let d: u64 = c as u64 - 48;
    if upto == 1 {
        return Some(d);
    }
    match parse_decimal(v, upto - 1) {
        Some(n) => match n.checked_mul(10) {
            Some(m) => m.checked_add(d),
            None => None,
        },
        None => None,
    }
}

/// The natural number that an optional document is, where it is one.
pub fn natural_of_option(o: Option<&Json>) -> (r: Option<u64>)
    ensures
        match r {
            Some(n) => natural_in(doc_option_ref(o)) == Some(n as nat),
            None => natural_in(doc_option_ref(o)) is None,
        },
{
    match o {
        Some(Json::Number(t)) => {
            let v = crate::text::chars_of(t.as_str());
            assert(v@.take(v@.len() as int) =~= v@);
            parse_decimal(&v, v.len())
        },
        _ => None,
    }
}

/// The natural number that an optional document is, zero where it is none.
pub fn number_of_option(o: Option<&Json>) -> (r: u64)
    ensures
        r == number_in(doc_option_ref(o)),
{
    match natural_of_option(o) {
        Some(n) => n,
        None => 0,
    }
}

/// A copy of a list of documents.
pub fn dup_items(items: &Vec<Json>) -> (r: Vec<Json>)
    ensures
        docs(r@) == docs(items@),
        r.len() == items.len(),
{
    let mut out: Vec<Json> = Vec::new();
    let mut i: usize = 0;
    while i < items.len()
        invariant
            i <= items.len(),
            out.len() == i,
            docs(out@) == docs(items@.take(i as int)),
        decreases items.len() - i,
    {
        broadcast use lemma_docs_push;

        assert(items@.take(i + 1) =~= items@.take(i as int).push(items@[i as int]));
        out.push(items[i].dup());
        i = i + 1;
    }
    assert(items@.take(i as int) =~= items@);
    out
}

/// A copy of a list of members.
pub fn dup_entries(entries: &Vec<(String, Json)>) -> (r: Vec<(String, Json)>)
    ensures
        members(r@) == members(entries@),
{
    let mut out: Vec<(String, Json)> = Vec::new();
    let mut i: usize = 0;
    while i < entries.len()
        invariant
            i <= entries.len(),
            members(out@) == members(entries@.take(i as int)),
        decreases entries.len() - i,
    {
        broadcast use lemma_members_push;

        assert(entries@.take(i + 1) =~= entries@.take(i as int).push(entries@[i as int]));
        out.push((entries[i].0.clone(), entries[i].1.dup()));
        i = i + 1;
    }
    assert(entries@.take(i as int) =~= entries@);
    out
}

/// The member of a list under a name.
pub fn member<'a>(entries: &'a Vec<(String, Json)>, key: &str) -> (r: Option<&'a Json>)
    ensures
        doc_option_ref(r) == Doc::Object(members(entries@)).field(key@),
        r matches Some(j) ==> exists|i: int| 0 <= i < entries.len() && #[trigger] entries@[i].1 == *j,
{
    let mut i: usize = entries.len();
    assert(entries@.take(i as int) =~= entries@);
    while i > 0
        invariant
            i <= entries.len(),
            Doc::Object(members(entries@)).field(key@) == Doc::Object(
                members(entries@.take(i as int)),
            ).field(key@),
        decreases i,
    {
        assert(entries@.take(i as int).drop_last() =~= entries@.take(i - 1));
        i = i - 1;
        if same(entries[i].0.as_str(), key) {
            return Some(&entries[i].1);
        }
    }
    None
}

/// Sets a member.
pub fn put(entries: &mut Vec<(String, Json)>, key: &str, value: Json)
    ensures
        members(final(entries)@) == members(old(entries)@).insert(key@, value@),
{
    let k = key.to_owned();
    proof {
        lemma_members_push(entries@, (k, value));
    }
    entries.push((k, value));
}

/// The list without the member of a name.
pub fn without(entries: &Vec<(String, Json)>, key: &str) -> (r: Vec<(String, Json)>)
    ensures
        members(r@) == members(entries@).remove(key@),
{
    let mut out: Vec<(String, Json)> = Vec::new();
    let mut i: usize = 0;
    assert(members(entries@.take(0)).remove(key@) =~= Map::<Seq<char>, Doc>::empty());
    while i < entries.len()
        invariant
            i <= entries.len(),
            members(out@) == members(entries@.take(i as int)).remove(key@),
        decreases entries.len() - i,
    {
        broadcast use lemma_members_push;

        assert(entries@.take(i + 1) =~= entries@.take(i as int).push(entries@[i as int]));
        let ghost prior = members(entries@.take(i as int));
        if !same(entries[i].0.as_str(), key) {
            let value = entries[i].1.dup();
            put(&mut out, entries[i].0.as_str(), value);
            assert(prior.remove(key@).insert(entries@[i as int].0@, value@) =~= prior.insert(
                entries@[i as int].0@,
                value@,
            ).remove(key@));
        } else {
            assert(prior.insert(key@, entries@[i as int].1@).remove(key@) =~= prior.remove(key@));
        }
        i = i + 1;
    }
    assert(entries@.take(i as int) =~= entries@);
    out
}

/// The names of the members in order.
pub fn keys(entries: &Vec<(String, Json)>) -> (r: Vec<String>)
    ensures
        texts(r@) == in_order(members(entries@).dom()),
        listing(texts(r@), members(entries@).dom()),
{
    let mut out: Vec<String> = Vec::new();
    let mut i: usize = 0;
    while i < entries.len()
        invariant
            i <= entries.len(),
            ascending(texts(out@)),
            forall|k: Seq<char>| #[trigger]
                texts(out@).contains(k) <==> exists|j: int|
                    0 <= j < i && (#[trigger] entries@[j]).0@ == k,
        decreases entries.len() - i,
    {
        let ghost prior = texts(out@);
        insert_in_order(&mut out, entries[i].0.as_str());
        proof {
            assert forall|k: Seq<char>| #[trigger] texts(out@).contains(k) <==> exists|j: int|
                0 <= j < i + 1 && (#[trigger] entries@[j]).0@ == k by {
                if texts(out@).contains(k) {
                    if k == entries@[i as int].0@ {
                        assert(entries@[i as int].0@ == k);
                    } else {
                        assert(prior.contains(k));
                    }
                }
                if exists|j: int| 0 <= j < i + 1 && (#[trigger] entries@[j]).0@ == k {
                    let j = choose|j: int| 0 <= j < i + 1 && (#[trigger] entries@[j]).0@ == k;
                    if j < i {
                        assert(prior.contains(k));
                    }
                }
            }
        }
        i = i + 1;
    }
    proof {
        let dom = members(entries@).dom();
        assert forall|k: Seq<char>| dom.contains(k) <==> #[trigger] texts(out@).contains(k) by {
            lemma_members_dom(entries@, k);
        }
        lemma_listing_unique(texts(out@), in_order(dom), dom);
    }
    out
}

/// The hexadecimal digit for a number below sixteen, with a small letter.
pub open spec fn hex_digit(n: int) -> char {
    if n < 10 {
        ('0' as int + n) as char
    } else {
        ('a' as int + n - 10) as char
    }
}

/// What stands for a character in a JSON string: quotes, backslashes and control
/// characters are escaped, and every other character stands for itself.
pub open spec fn escaped_char(c: char) -> Seq<char> {
    let n = c as int;
    if c == '"' || c == '\\' {
        seq!['\\', c]
    } else if n == 8 {
        seq!['\\', 'b']
    } else if c == '\t' {
        seq!['\\', 't']
    } else if c == '\n' {
        seq!['\\', 'n']
    } else if n == 12 {
        seq!['\\', 'f']
    } else if c == '\r' {
        seq!['\\', 'r']
    } else if n < 32 {
        seq!['\\', 'u', '0', '0', hex_digit(n / 16), hex_digit(n % 16)]
    } else {
        seq![c]
    }
}

/// What stands for a text between the quotes of a JSON string.
pub open spec fn escaped(s: Seq<char>) -> Seq<char>
    decreases s.len(),
{
    if s.len() == 0 {
        Seq::empty()
    } else {
        escaped(s.drop_last()) + escaped_char(s.last())
    }
}

/// The JSON string for a text.
pub open spec fn quoted(s: Seq<char>) -> Seq<char> {
    seq!['"'] + escaped(s) + seq!['"']
}

/// `<serde_json::Value as Display>::to_string` on a string value: the JSON
/// string for a text.
#[verifier::external_body]
pub(crate) fn quote(s: &str) -> (r: String)
    ensures
        r@ == quoted(s@),
{
    serde_json::Value::from(s).to_string()
}

/// A document as compact JSON: no blanks, the members of an object in the
/// order of their names.
pub open spec fn rendered(d: Doc) -> Seq<char>
    decreases d, 0nat,
{
    match d {
        Doc::Null => "null"@,
        Doc::Bool(b) => if b {
            "true"@
        } else {
            "false"@
        },
        Doc::Number(n) => n,
        Doc::Str(s) => quoted(s),
        Doc::Array(items) => "["@ + rendered_items(items) + "]"@,
        Doc::Object(m) => "{"@ + rendered_members(m, in_order(m.dom())) + "}"@,
    }
}

/// The items of an array, separated by commas.
pub open spec fn rendered_items(items: Seq<Doc>) -> Seq<char>
    decreases items, 0nat,
{
    if items.len() == 0 {
        Seq::empty()
    } else if items.len() == 1 {
        rendered(items.last())
    } else {
        rendered_items(items.drop_last()) + ","@ + rendered(items.last())
    }
}

/// The members of an object under the given names, separated by commas.
pub open spec fn rendered_members(m: Map<Seq<char>, Doc>, ks: Seq<Seq<char>>) -> Seq<char>
    decreases m, ks.len(),
{
    if ks.len() == 0 {
        Seq::empty()
    } else {
        let k = ks.last();
        let value = if m.dom().finite() && m.contains_key(k) {
            rendered(m[k])
        } else {
            Seq::empty()
        };
        if ks.len() == 1 {
            quoted(k) + ":"@ + value
        } else {
            rendered_members(m, ks.drop_last()) + ","@ + quoted(k) + ":"@ + value
        }
    }
}

/// Compact JSON text for a document.
fn render_doc(j: &Json) -> (r: String)
    ensures
        r@ == rendered(j@),
    decreases j,
{
    match j {
        Json::Null => "null".to_owned(),
        Json::Bool(b) => if *b {
            "true".to_owned()
        } else {
            "false".to_owned()
        },
        Json::Number(n) => n.clone(),
        Json::Str(s) => quote(s.as_str()),
        Json::Array(items) => {
            let mut body = String::new();
            let mut i: usize = 0;
            while i < items.len()
                invariant
                    i <= items.len(),
                    body@ == rendered_items(docs(items@.take(i as int))),
                    decreases_to!(j => items@),
                decreases items.len() - i,
            {
                broadcast use lemma_docs_push, lemma_docs;

                assert(items@.take(i + 1) =~= items@.take(i as int).push(items@[i as int]));
                assert(decreases_to!(items@ => items@[i as int]));
                let ghost prior = docs(items@.take(i as int));
                let item = render_doc(&items[i]);
                if i > 0 {
                    body = body.concat(",");
                }
                assert(prior.push(items@[i as int]@).drop_last() =~= prior);
                let ghost so_far = body@;
                body = body.concat(item.as_str());
                assert(so_far.len() == 0 ==> so_far + item@ =~= item@);
                i = i + 1;
            }
            assert(items@.take(i as int) =~= items@);
            "[".to_owned().concat(body.as_str()).concat("]")
        },
        Json::Object(entries) => {
            let names = keys(entries);
            let ghost m = members(entries@);
            proof {
                lemma_members_finite(entries@);
            }
            let ghost ks = texts(names@);
            let mut body = String::new();
            let mut i: usize = 0;
            while i < names.len()
                invariant
                    i <= names.len(),
                    m == members(entries@),
                    ks == texts(names@),
                    listing(ks, m.dom()),
                    m.dom().finite(),
                    body@ == rendered_members(m, ks.take(i as int)),
                    decreases_to!(j => entries@),
                decreases names.len() - i,
            {
                assert(ks.take(i + 1).drop_last() =~= ks.take(i as int));
                let name = &names[i];
                assert(ks[i as int] == name@);
                assert(ks.contains(name@));
                let ghost so_far = body@;
                if i > 0 {
                    body = body.concat(",");
                }
                body = body.concat(quote(name.as_str()).as_str()).concat(":");
                if let Some(value) = member(entries, name.as_str()) {
                    proof {
                        let at = choose|at: int|
                            0 <= at < entries.len() && #[trigger] entries@[at].1 == *value;
                        assert(decreases_to!(entries@ => entries@[at]));
                    }
                    body = body.concat(render_doc(value).as_str());
                }
                assert(i == 0 ==> Seq::<char>::empty() + quoted(name@) =~= quoted(name@));
                i = i + 1;
            }
            assert(ks.take(i as int) =~= ks);
            "{".to_owned().concat(body.as_str()).concat("}")
        },
    }
}

/// What `serde_json` holds in a value.
pub uninterp spec fn held(v: serde_json::Value) -> Doc;

/// What `serde_json` reads from a text: a document, or why it is none.
pub uninterp spec fn read(text: Seq<char>) -> Result<Doc, Seq<char>>;

/// The value tree of `serde_json`.
#[verifier::external_type_specification]
#[verifier::external_body]
pub struct ExValue(serde_json::Value);

/// One node of a value tree.
pub enum Node {
    Null,
    Bool(bool),
    Number(String),
    Str(String),
    Array(Vec<serde_json::Value>),
    Object(Vec<(String, serde_json::Value)>),
}

/// What the values of a sequence hold.
pub open spec fn held_items(items: Seq<serde_json::Value>) -> Seq<Doc> {
    items.map_values(|v: serde_json::Value| held(v))
}

/// The map of a list of named values.
pub open spec fn held_members(entries: Seq<(String, serde_json::Value)>) -> Map<Seq<char>, Doc>
    decreases entries.len(),
{
    if entries.len() == 0 {
        Map::empty()
    } else {
        held_members(entries.drop_last()).insert(entries.last().0@, held(entries.last().1))
    }
}

/// What a node holds.
pub open spec fn held_node(n: Node) -> Doc {
    match n {
        Node::Null => Doc::Null,
        Node::Bool(b) => Doc::Bool(b),
        Node::Number(s) => Doc::Number(s@),
        Node::Str(s) => Doc::Str(s@),
        Node::Array(items) => Doc::Array(held_items(items@)),
        Node::Object(entries) => Doc::Object(held_members(entries@)),
    }
}

/// No name stands twice in a list of named values.
pub open spec fn distinct_names(entries: Seq<(String, serde_json::Value)>) -> bool {
    forall|i: int, j: int|
        0 <= i < j < entries.len() ==> (#[trigger] entries[i]).0@ != (#[trigger] entries[j]).0@
}

/// Where no name stands twice, each name stands for its value.
proof fn lemma_held_members(entries: Seq<(String, serde_json::Value)>, i: int)
    requires
        distinct_names(entries),
        0 <= i < entries.len(),
    ensures
        held_members(entries).dom().finite(),
        held_members(entries).contains_key(entries[i].0@),
        held_members(entries)[entries[i].0@] == held(entries[i].1),
    decreases entries.len(),
{
    let rest = entries.drop_last();
    if i < rest.len() {
        assert(entries[i].0@ != entries[entries.len() - 1].0@);
        assert(rest[i] == entries[i]);
        lemma_held_members(rest, i);
    } else if rest.len() > 0 {
        lemma_held_members(rest, 0);
    } else {
        assert(held_members(rest) =~= Map::empty());
    }
}

/// `serde_json::from_str` into a value tree: what it reads, and the message of
/// the error otherwise, depend on the text alone.
#[verifier::external_body]
fn from_str(text: &str) -> (r: Result<serde_json::Value, String>)
    ensures
        match r {
            Ok(v) => read(text@) == Ok::<Doc, Seq<char>>(held(v)),
            Err(e) => read(text@) == Err::<Doc, Seq<char>>(e@),
        },
{
    serde_json::from_str(text).map_err(|e| e.to_string())
}

/// The variants of `serde_json::Value`, told apart: a node holds what the
/// value holds. A number is given as `serde_json::Number` displays it, and the
/// members of an object have different names.
#[verifier::external_body]
fn node(v: serde_json::Value) -> (n: Node)
    ensures
        held(v) == held_node(n),
        n matches Node::Object(entries) ==> distinct_names(entries@),
{
    match v {
        serde_json::Value::Null => Node::Null,
        serde_json::Value::Bool(b) => Node::Bool(b),
        serde_json::Value::Number(n) => Node::Number(n.to_string()),
        serde_json::Value::String(s) => Node::Str(s),
        serde_json::Value::Array(items) => Node::Array(items),
        serde_json::Value::Object(entries) => Node::Object(entries.into_iter().collect()),
    }
}

/// The document that a value tree holds.
pub fn from_value(v: serde_json::Value) -> (r: Json)
    ensures
        r@ == held(v),
    decreases held(v),
{
    let ghost whole = held(v);
    match node(v) {
        Node::Null => Json::Null,
        Node::Bool(b) => Json::Bool(b),
        Node::Number(n) => Json::Number(n),
        Node::Str(s) => Json::Str(s),
        Node::Array(items) => {
            let ghost all = items@;
            let mut rest = items;
            let mut out: Vec<Json> = Vec::new();
            while rest.len() > 0
                invariant
                    whole == held(v),
                    whole == Doc::Array(held_items(all)),
                    rest.len() <= all.len(),
                    rest@ == all.skip(all.len() - rest.len()),
                    docs(out@) == held_items(all.take(all.len() - rest.len())),
                decreases rest.len(),
            {
                broadcast use lemma_docs_push;

                let ghost i = all.len() - rest.len();
                let first = rest.remove(0);
                assert(all.take(i + 1) =~= all.take(i).push(all[i]));
                assert(held_items(all.take(i + 1)) =~= held_items(all.take(i)).push(held(first)));
                assert(held_items(all)[i] == held(first));
                assert(decreases_to!(whole => whole->Array_0));
                assert(decreases_to!(held_items(all) => held_items(all)[i]));
                out.push(from_value(first));
                assert(rest@ =~= all.skip(i + 1));
            }
            assert(all.take(all.len() as int) =~= all);
            Json::Array(out)
        },
        Node::Object(entries) => {
            let ghost all = entries@;
            let mut rest = entries;
            let mut out: Vec<(String, Json)> = Vec::new();
            assert(all.take(0) =~= Seq::empty());
            while rest.len() > 0
                invariant
                    whole == held(v),
                    whole == Doc::Object(held_members(all)),
                    distinct_names(all),
                    rest.len() <= all.len(),
                    rest@ == all.skip(all.len() - rest.len()),
                    members(out@) == held_members(all.take(all.len() - rest.len())),
                decreases rest.len(),
            {
                broadcast use lemma_members_push;

                let ghost i = all.len() - rest.len();
                let first = rest.remove(0);
                assert(all.take(i + 1).drop_last() =~= all.take(i));
                proof {
                    lemma_held_members(all, i);
                }
                let ghost m = held_members(all);
                assert(decreases_to!(whole => whole->Object_0));
                assert(decreases_to!(m => m[first.0@]));
                out.push((first.0, from_value(first.1)));
                assert(rest@ =~= all.skip(i + 1));
            }
            assert(all.take(all.len() as int) =~= all);
            Json::Object(out)
        },
    }
}

/// Reads a document from a text.
pub fn parse(text: &str) -> (r: Result<Json, String>)
    ensures
        match r {
            Ok(j) => read(text@) == Ok::<Doc, Seq<char>>(j@),
            Err(e) => read(text@) == Err::<Doc, Seq<char>>(e@),
        },
{
    match from_str(text) {
        Ok(v) => Ok(from_value(v)),
        Err(e) => Err(e),
    }
}

/// A member that comes later wins, and changes no other.
pub proof fn a_later_member_wins(
    entries: Seq<(String, Json)>,
    name: String,
    value: Json,
    other: Seq<char>,
)
    ensures
        Doc::Object(members(entries.push((name, value)))).field(name@) == Some(value@),
        other != name@ ==> Doc::Object(members(entries.push((name, value)))).field(other)
            == Doc::Object(members(entries)).field(other),
        Doc::Object(members(Seq::empty())).field(other) is None,
{
    assert(entries.push((name, value)).drop_last() =~= entries);
}

/// A number that is written in decimal is read back.
pub proof fn a_decimal_is_read_back(n: nat)
    ensures
        decimal_value(digits(n)) == Some(n),
        n <= u64::MAX ==> natural_in(Some(Doc::Number(digits(n)))) == Some(n),
        n > u64::MAX ==> natural_in(Some(Doc::Number(digits(n)))) is None,
    decreases n,
{
    let t = digits(n);
    if n < 10 {
        assert(t.last() == (48 + n) as char);
        assert(t.last() as u32 == 48 + n);
    } else {
        a_decimal_is_read_back(n / 10);
        assert(t.drop_last() =~= digits(n / 10));
        assert(t.last() == (48 + n % 10) as char);
        assert(t.last() as u32 == 48 + n % 10);
        assert(digits(n / 10).len() > 0);
        assert(n / 10 * 10 + n % 10 == n) by (nonlinear_arith);
    }
}

/// What is no decimal is no number.
pub proof fn only_decimals_are_numbers(t: Seq<char>)
    ensures
        decimal_value(t) is Some <==> t.len() > 0 && forall|i: int|
            0 <= i < t.len() ==> '0' <= #[trigger] t[i] && t[i] <= '9',
    decreases t.len(),
{
    if t.len() > 0 {
        let less = t.drop_last();
        only_decimals_are_numbers(less);
        assert(t[t.len() - 1] == t.last());
        if forall|i: int| 0 <= i < t.len() ==> '0' <= #[trigger] t[i] && t[i] <= '9' {
            assert forall|i: int| 0 <= i < less.len() implies '0' <= #[trigger] less[i] && less[i]
                <= '9' by {
                assert(less[i] == t[i]);
            }
        } else if t.len() > 1 {
            let i = choose|i: int|
                0 <= i < t.len() && !('0' <= #[trigger] t[i] && t[i] <= '9');
            if i < less.len() {
                assert(less[i] == t[i]);
            }
        }
        if decimal_value(t) is Some {
            assert forall|i: int| 0 <= i < t.len() implies '0' <= #[trigger] t[i] && t[i]
                <= '9' by {
                if i < less.len() {
                    assert(less[i] == t[i]);
                }
            }
        }
    }
}

/// Values without items or members are rendered by what they are.
pub proof fn a_plain_value_is_rendered_as_it_is(n: Seq<char>, s: Seq<char>)
    ensures
        rendered(Doc::Null) == "null"@,
        rendered(Doc::Bool(true)) == "true"@,
        rendered(Doc::Bool(false)) == "false"@,
        rendered(Doc::Number(n)) == n,
        rendered(Doc::Str(s)) == quoted(s),
{
}

/// The items of an array are rendered in their order, with commas between them.
pub proof fn items_are_rendered_in_their_order(items: Seq<Doc>, d: Doc)
    ensures
        rendered(Doc::Array(Seq::empty())) == "[]"@,
        rendered(Doc::Array(seq![d])) == "["@ + rendered(d) + "]"@,
        items.len() > 0 ==> rendered(Doc::Array(items.push(d))) == "["@ + rendered_items(items)
            + ","@ + rendered(d) + "]"@,
        items.len() > 0 ==> rendered(Doc::Array(items)) == "["@ + rendered_items(items) + "]"@,
{
    reveal_strlit("[");
    reveal_strlit("]");
    reveal_strlit("[]");
    let none = Seq::<Doc>::empty();
    assert(rendered_items(none) =~= Seq::empty());
    assert(rendered(Doc::Array(none)) =~= "[]"@);
    let all = items.push(d);
    assert(all.drop_last() =~= items);
    if items.len() > 0 {
        assert(rendered(Doc::Array(all)) =~= "["@ + rendered_items(items) + ","@ + rendered(d)
            + "]"@);
    }
}

/// The members of an object are rendered in the order of their names, each as its
/// quoted name, a colon and its value.
pub proof fn members_are_rendered_by_name(
    m: Map<Seq<char>, Doc>,
    ks: Seq<Seq<char>>,
    k: Seq<char>,
)
    requires
        m.dom().finite(),
        m.contains_key(k),
    ensures
        rendered_members(m, ks.push(k)) == (if ks.len() == 0 {
            Seq::empty()
        } else {
            rendered_members(m, ks) + ","@
        }) + (quoted(k) + ":"@ + rendered(m[k])),
        rendered(Doc::Object(m)) == "{"@ + rendered_members(m, in_order(m.dom())) + "}"@,
{
    let all = ks.push(k);
    assert(all.drop_last() =~= ks);
    let pair = quoted(k) + ":"@ + rendered(m[k]);
    if ks.len() == 0 {
        assert(Seq::<char>::empty() + pair =~= pair);
    } else {
        assert(rendered_members(m, ks) + ","@ + pair =~= rendered_members(m, ks) + ","@ + quoted(k)
            + ":"@ + rendered(m[k]));
    }
}

/// Texts are escaped character by character, so that what stands between two quotes
/// holds no bare quote and no line break.
pub proof fn a_quoted_text_stays_between_its_quotes(a: Seq<char>, c: char)
    ensures
        escaped(a.push(c)) == escaped(a) + escaped_char(c),
        c == '"' || c == '\\' ==> escaped_char(c) == seq!['\\', c],
        c == '\n' ==> escaped_char(c) == "\\n"@,
        c == '\r' ==> escaped_char(c) == "\\r"@,
        c == '\t' ==> escaped_char(c) == "\\t"@,
        c as int >= 32 && c != '"' && c != '\\' ==> escaped_char(c) == seq![c],
        c as int >= 32 || escaped_char(c)[0] == '\\',
{
    reveal_strlit("\\n");
    reveal_strlit("\\r");
    reveal_strlit("\\t");
    assert(a.push(c).drop_last() =~= a);
}

/// What is no number counts as none.
pub proof fn what_is_no_number_is_zero(o: Option<Doc>, n: u64)
    ensures
        o == Some(Doc::Number(digits(n as nat))) ==> number_in(o) == n,
        !(o matches Some(Doc::Number(_))) ==> number_in(o) == 0 && natural_in(o) is None,
        o matches Some(Doc::Str(s)) ==> text_in(o) == s,
        !(o matches Some(Doc::Str(_))) ==> text_in(o).len() == 0,
        o matches Some(Doc::Array(items)) ==> items_in(o) == items,
        !(o matches Some(Doc::Array(_))) ==> items_in(o).len() == 0,
{
    a_decimal_is_read_back(n as nat);
}

} // verus!
