//! Comments and work notes of a record, parsed into entries.

use vstd::prelude::*;

use crate::error::{put_text, text_option, with_text, Error, Fault};
use crate::json::{docs, lemma_docs, lemma_docs_push, put, Doc, Json};
use crate::order::{before, is_before, texts};
use crate::text::{
    chars_of, contains, has, join, joined, last_sides, lowered, pieces, sides, slice, split,
    lemma_last_place, lemma_next_place, split_at_first, split_at_last, stands, to_lowercase, trim,
    trim_end, trimmed, trimmed_end,
};

verus! {

/// The flags of `journal`.
#[derive(Debug)]
pub struct JournalArgs {
    pub table: String,
    pub sys_id: Option<String>,
    pub comments: bool,
    pub work_notes: bool,
    pub source: JournalSource,
    pub limit: Option<usize>,
    pub raw: bool,
}

/// Where entries are read from: the rendered columns of the record, or the rows
/// of the journal table.
#[derive(Debug, Clone, Copy, PartialEq, Eq, Structural)]
pub enum JournalSource {
    Record,
    Table,
}

/// One entry.
#[derive(Debug, PartialEq)]
pub struct Entry {
    pub created_on: String,
    pub author: String,
    pub element: Option<String>,
    pub label: Option<String>,
    pub text: String,
}

/// One entry, as a view.
pub ghost struct Note {
    pub created_on: Seq<char>,
    pub author: Seq<char>,
    pub element: Option<Seq<char>>,
    pub label: Option<Seq<char>>,
    pub text: Seq<char>,
}

impl Entry {
    pub open spec fn view(&self) -> Note {
        Note {
            created_on: self.created_on@,
            author: self.author@,
            element: text_option(self.element),
            label: text_option(self.label),
            text: self.text@,
        }
    }
}

/// What a list of entries holds.
pub open spec fn notes(v: Seq<Entry>) -> Seq<Note> {
    v.map_values(|e: Entry| e@)
}

/// An entry as JSON: what is not known has no member.
pub open spec fn note_doc(n: Note) -> Doc {
    let m = Map::empty().insert("created_on"@, Doc::Str(n.created_on)).insert(
        "author"@,
        Doc::Str(n.author),
    );
    Doc::Object(
        with_text(with_text(m, "element"@, n.element), "label"@, n.label).insert(
            "text"@,
            Doc::Str(n.text),
        ),
    )
}

/// Entries as a JSON array.
pub open spec fn notes_doc(s: Seq<Note>) -> Doc {
    Doc::Array(s.map_values(|n: Note| note_doc(n)))
}

/// Entries as a JSON array.
pub fn entries_json(entries: &Vec<Entry>) -> (r: Json)
    ensures
        r@ == notes_doc(notes(entries@)),
{
    let ghost all = notes(entries@).map_values(|n: Note| note_doc(n));
    let mut out: Vec<Json> = Vec::new();
    let mut i: usize = 0;
    assert(docs(out@) =~= all.take(0));
    while i < entries.len()
        invariant
            i <= entries.len(),
            all == notes(entries@).map_values(|n: Note| note_doc(n)),
            docs(out@) == all.take(i as int),
        decreases entries.len() - i,
    {
        broadcast use lemma_docs_push;

        let e = &entries[i];
        let mut row: Vec<(String, Json)> = Vec::new();
        put(&mut row, "created_on", Json::str(e.created_on.as_str()));
        put(&mut row, "author", Json::str(e.author.as_str()));
        put_text(&mut row, "element", &e.element);
        put_text(&mut row, "label", &e.label);
        put(&mut row, "text", Json::str(e.text.as_str()));
        out.push(Json::Object(row));
        assert(all[i as int] == note_doc(entries@[i as int]@));
        assert(all.take(i + 1) =~= all.take(i as int).push(all[i as int]));
        i = i + 1;
    }
    assert(all.take(i as int) =~= all);
    Json::Array(out)
}

/// A text without one carriage return at its end.
pub open spec fn without_cr(s: Seq<char>) -> Seq<char> {
    if s.len() > 0 && s.last() == '\r' {
        s.drop_last()
    } else {
        s
    }
}

/// The lines of a text. A line ends in a line feed, which a carriage return may
/// precede; one more carriage return at the end of a line is dropped; what
/// follows the last line feed is a line only where it is not empty.
pub open spec fn lines_of(s: Seq<char>) -> Seq<Seq<char>> {
    let parts = pieces(s, '\n');
    let ended = parts.drop_last().map_values(|p: Seq<char>| without_cr(without_cr(p)));
    if parts.last().len() == 0 {
        ended
    } else {
        ended.push(without_cr(parts.last()))
    }
}

/// Drops one carriage return at the end of a text.
fn drop_cr(s: &str) -> (r: String)
    ensures
        r@ == without_cr(s@),
{
    let v = chars_of(s);
    if v.len() > 0 && v[v.len() - 1] == '\r' {
        assert(v@.subrange(0, v@.len() - 1) =~= v@.drop_last());
        slice(&v, 0, v.len() - 1)
    } else {
        s.to_owned()
    }
}

/// Splits a text into its lines.
pub fn lines(s: &str) -> (r: Vec<String>)
    ensures
        texts(r@) == lines_of(s@),
{
    let parts = split(s, '\n');
    let ghost all = texts(parts@);
    let ghost ended = all.drop_last().map_values(|p: Seq<char>| without_cr(without_cr(p)));
    proof {
        crate::text::lemma_pieces(s@, '\n');
        assert(all.len() == parts@.len());
    }
    let mut out: Vec<String> = Vec::new();
    let mut i: usize = 0;
    assert(texts(out@) =~= ended.take(0));
    while i < parts.len() - 1
        invariant
            parts.len() > 0,
            i <= parts.len() - 1,
            all == texts(parts@),
            ended == all.drop_last().map_values(|p: Seq<char>| without_cr(without_cr(p))),
            texts(out@) == ended.take(i as int),
        decreases parts.len() - i,
    {
        let ghost prior = texts(out@);
        let line = drop_cr(drop_cr(parts[i].as_str()).as_str());
        out.push(line);
        assert(texts(out@) =~= prior.push(line@));
        assert(all[i as int] == parts@[i as int]@);
        assert(ended[i as int] == line@);
        assert(ended.take(i + 1) =~= ended.take(i as int).push(ended[i as int]));
        i = i + 1;
    }
    assert(ended.take(i as int) =~= ended);
    let last = parts[i].as_str();
    assert(all.last() == last@);
    if !last.is_empty() {
        let ghost prior = texts(out@);
        let line = drop_cr(last);
        out.push(line);
        assert(texts(out@) =~= prior.push(line@));
    }
    out
}

/// Whether a character is an ASCII digit.
pub open spec fn is_digit(c: char) -> bool {
    '0' <= c && c <= '9'
}

/// The moment, the author and the label of an entry's first line: `<moment> -
/// <author> (<label>)`. The moment has any format; it begins with a digit and
/// holds a colon.
pub open spec fn header(line: Seq<char>) -> Option<(Seq<char>, Seq<char>, Seq<char>)> {
    let l = trimmed_end(line);
    if l.len() == 0 || l.last() != ')' {
        None
    } else {
        match sides(l.drop_last(), " - "@) {
            None => None,
            Some((moment, rest)) => if moment.len() > 0 && is_digit(moment[0]) && has(
                moment,
                ":"@,
            ) {
                match last_sides(rest, " ("@) {
                    None => None,
                    Some((author, label)) => if author.len() == 0 || label.len() == 0 {
                        None
                    } else {
                        Some((moment, author, label))
                    },
                }
            } else {
                None
            },
        }
    }
}

/// Takes the first line of an entry apart.
pub fn parse_header(line: &str) -> (r: Option<(String, String, String)>)
    ensures
        match r {
            Some((t, a, l)) => header(line@) == Some((t@, a@, l@)),
            None => header(line@) is None,
        },
{
    let line = trim_end(line);
    let v = chars_of(line.as_str());
    if v.len() == 0 || v[v.len() - 1] != ')' {
        return None;
    }
    let rest = slice(&v, 0, v.len() - 1);
    assert(rest@ =~= line@.drop_last());
    proof {
        reveal_strlit(" - ");
    }
    let (moment, rest) = match split_at_first(rest.as_str(), " - ") {
        Some(p) => p,
        None => {
            return None;
        },
    };
    let m = chars_of(moment.as_str());
    if m.len() == 0 || !('0' <= m[0] && m[0] <= '9') || !contains(moment.as_str(), ":") {
        return None;
    }
    match split_at_last(rest.as_str(), " (") {
        None => None,
        Some((author, label)) => {
            if author.as_str().is_empty() || label.as_str().is_empty() {
                return None;
            }
            Some((moment, author, label))
        },
    }
}

/// The column that a label stands for, as far as it can be told.
pub open spec fn element_of(label: Seq<char>) -> Option<Seq<char>> {
    let l = lowered(label);
    if has(l, "work note"@) {
        Some("work_notes"@)
    } else if has(l, "comment"@) {
        Some("comments"@)
    } else {
        None
    }
}

/// The column that a label stands for.
pub fn element_for_label(label: &str) -> (r: Option<String>)
    ensures
        text_option(r) == element_of(label@),
{
    let l = to_lowercase(label);
    if contains(l.as_str(), "work note") {
        Some("work_notes".to_owned())
    } else if contains(l.as_str(), "comment") {
        Some("comments".to_owned())
    } else {
        None
    }
}

/// A list of lines without the blank ones at its end.
pub open spec fn without_blank_end(ls: Seq<Seq<char>>) -> Seq<Seq<char>>
    decreases ls.len(),
{
    if ls.len() > 0 && trimmed(ls.last()).len() == 0 {
        without_blank_end(ls.drop_last())
    } else {
        ls
    }
}

/// An entry whose lines are still being read.
pub ghost struct Opened {
    pub created_on: Seq<char>,
    pub author: Seq<char>,
    pub label: Seq<char>,
    pub lines: Seq<Seq<char>>,
}

/// The entry that has been read.
pub open spec fn finished(o: Opened) -> Note {
    Note {
        created_on: o.created_on,
        author: o.author,
        element: element_of(o.label),
        label: Some(o.label),
        text: joined(without_blank_end(o.lines), "\n"@),
    }
}

/// The entry that has been read: its lines, without the blank ones at the end.
pub fn finish_entry(created_on: String, author: String, label: String, text: Vec<String>) -> (e: Entry)
    ensures
        e@ == finished(
            Opened {
                created_on: created_on@,
                author: author@,
                label: label@,
                lines: texts(text@),
            },
        ),
{
    let mut text = text;
    let ghost all = texts(text@);
    while text.len() > 0 && trim(text[text.len() - 1].as_str()).as_str().is_empty()
        invariant
            without_blank_end(all) == without_blank_end(texts(text@)),
        decreases text.len(),
    {
        let ghost prior = texts(text@);
        assert(prior.last() == text@[text@.len() - 1]@);
        text.pop();
        assert(texts(text@) =~= prior.drop_last());
    }
    let ghost rest = texts(text@);
    assert(rest.len() > 0 ==> rest.last() == text@[text@.len() - 1]@);
    let element = element_for_label(label.as_str());
    Entry { created_on, author, element, label: Some(label), text: join(&text, "\n") }
}

/// The failure of a stream that is no journal.
pub open spec fn unrecognized(line: Seq<char>) -> Fault {
    Fault::Api {
        status: 200,
        message: "unrecognized journal stream format; re-run with --raw to inspect it"@,
        detail: Some("first unparsed line: "@ + line),
        transaction_id: None,
        sn_error: None,
    }
}

/// What the lines of a stream give: the entries that are complete and the one
/// that is being read. A line that is neither blank nor in an entry is a
/// failure.
pub open spec fn scanned(ls: Seq<Seq<char>>) -> Result<(Seq<Note>, Option<Opened>), Fault>
    decreases ls.len(),
{
    if ls.len() == 0 {
        Ok((Seq::empty(), None))
    } else {
        match scanned(ls.drop_last()) {
            Err(f) => Err(f),
            Ok((done, open)) => {
                let line = ls.last();
                match header(line) {
                    Some((created_on, author, label)) => Ok(
                        (
                            with_open(done, open),
                            Some(Opened { created_on, author, label, lines: Seq::empty() }),
                        ),
                    ),
                    None => match open {
                        Some(o) => Ok((done, Some(Opened { lines: o.lines.push(line), ..o }))),
                        None => if trimmed(line).len() == 0 {
                            Ok((done, None))
                        } else {
                            Err(unrecognized(line))
                        },
                    },
                }
            },
        }
    }
}

/// The complete entries and the one that is being read.
pub open spec fn with_open(done: Seq<Note>, open: Option<Opened>) -> Seq<Note> {
    match open {
        Some(o) => done.push(finished(o)),
        None => done,
    }
}

/// The entries of a stream, in its order.
pub open spec fn stream_notes(stream: Seq<char>) -> Result<Seq<Note>, Fault> {
    match scanned(lines_of(stream)) {
        Err(f) => Err(f),
        Ok((done, open)) => Ok(with_open(done, open)),
    }
}

/// The first line that does not fit decides.
proof fn lemma_scan_stops(ls: Seq<Seq<char>>, i: int)
    requires
        0 <= i <= ls.len(),
        scanned(ls.take(i)) is Err,
    ensures
        scanned(ls) == scanned(ls.take(i)),
    decreases ls.len() - i,
{
    if i == ls.len() {
        assert(ls.take(i) =~= ls);
    } else {
        assert(ls.take(i + 1).drop_last() =~= ls.take(i));
        lemma_scan_stops(ls, i + 1);
    }
}

/// What is being read of an entry.
struct Open {
    created_on: String,
    author: String,
    label: String,
    lines: Vec<String>,
}

impl Open {
    spec fn view(&self) -> Opened {
        Opened {
            created_on: self.created_on@,
            author: self.author@,
            label: self.label@,
            lines: texts(self.lines@),
        }
    }
}

spec fn open_option(o: Option<Open>) -> Option<Opened> {
    match o {
        Some(o) => Some(o@),
        None => None,
    }
}

/// Puts away the entry that is being read.
fn put_away(entries: &mut Vec<Entry>, open: Option<Open>)
    ensures
        notes(final(entries)@) == with_open(notes(old(entries)@), open_option(open)),
{
    if let Some(o) = open {
        let ghost prior = notes(entries@);
        let e = finish_entry(o.created_on, o.author, o.label, o.lines);
        let ghost n = e@;
        entries.push(e);
        assert(notes(entries@) =~= prior.push(n));
    }
}

/// Parses a stream into its entries, in its order.
pub fn parse_stream(stream: &str) -> (r: Result<Vec<Entry>, Error>)
    ensures
        match r {
            Ok(v) => stream_notes(stream@) == Ok::<Seq<Note>, Fault>(notes(v@)),
            Err(e) => stream_notes(stream@) == Err::<Seq<Note>, Fault>(e@),
        },
{
    let list = lines(stream);
    let ghost all = texts(list@);
    let mut entries: Vec<Entry> = Vec::new();
    let mut open: Option<Open> = None;
    let mut i: usize = 0;
    assert(notes(entries@) =~= Seq::empty());
    while i < list.len()
        invariant
            i <= list.len(),
            all == texts(list@),
            all == lines_of(stream@),
            scanned(all.take(i as int)) == Ok::<(Seq<Note>, Option<Opened>), Fault>(
                (notes(entries@), open_option(open)),
            ),
        decreases list.len() - i,
    {
        assert(all.take(i + 1).drop_last() =~= all.take(i as int));
        let line = list[i].as_str();
        assert(all.take(i + 1).last() == line@);
        match parse_header(line) {
            Some((created_on, author, label)) => {
                put_away(&mut entries, open);
                let none: Vec<String> = Vec::new();
                assert(texts(none@) =~= Seq::<Seq<char>>::empty());
                open = Some(Open { created_on, author, label, lines: none });
            },
            None => match open {
                Some(o) => {
                    let mut o = o;
                    let ghost prior = texts(o.lines@);
                    o.lines.push(line.to_owned());
                    assert(texts(o.lines@) =~= prior.push(line@));
                    open = Some(o);
                },
                None => {
                    if !trim(line).as_str().is_empty() {
                        proof {
                            lemma_scan_stops(all, i + 1);
                        }
                        return Err(
                            Error::Api {
                                status: 200,
                                message: "unrecognized journal stream format; re-run with --raw to inspect it".to_owned(),
                                detail: Some("first unparsed line: ".to_owned().concat(line)),
                                transaction_id: None,
                                sn_error: None,
                            },
                        );
                    }
                    open = None;
                },
            },
        }
        i = i + 1;
    }
    assert(all.take(i as int) =~= all);
    put_away(&mut entries, open);
    Ok(entries)
}

/// A moment of the form `YYYY-MM-DD ...`, whose order as text is its order in
/// time.
pub open spec fn is_iso(moment: Seq<char>) -> bool {
    let b = vstd::utf8::encode_utf8(moment);
    b.len() > 10 && b[4] == 45 && b[7] == 45
}

/// Whether a moment has the form `YYYY-MM-DD ...`.
fn iso(moment: &str) -> (r: bool)
    ensures
        r == is_iso(moment@),
{
    let b = moment.as_bytes();
    b.len() > 10 && b[4] == 45 && b[7] == 45
}

/// A list of entries, newest first, with one put in its place behind those that
/// are as new.
pub open spec fn slotted(s: Seq<Note>, n: Note) -> Seq<Note>
    decreases s.len(),
{
    if s.len() == 0 {
        seq![n]
    } else if before(s.last().created_on, n.created_on) {
        slotted(s.drop_last(), n).push(s.last())
    } else {
        s.push(n)
    }
}

/// Entries in the order of their moments, newest first; entries of the same
/// moment keep their order.
pub open spec fn by_newest(s: Seq<Note>) -> Seq<Note>
    decreases s.len(),
{
    if s.len() == 0 {
        s
    } else {
        slotted(by_newest(s.drop_last()), s.last())
    }
}

/// Entries newest first, where all moments can be compared; else as they are.
pub open spec fn newest_first(s: Seq<Note>) -> Seq<Note> {
    if forall|i: int| 0 <= i < s.len() ==> is_iso(#[trigger] s[i].created_on) {
        by_newest(s)
    } else {
        s
    }
}

/// No entry is newer than one before it.
pub open spec fn is_newest_first(s: Seq<Note>) -> bool {
    forall|i: int, j: int|
        0 <= i < j < s.len() ==> !before(
            (#[trigger] s[i]).created_on,
            (#[trigger] s[j]).created_on,
        )
}

proof fn lemma_slotted(s: Seq<Note>, n: Note)
    requires
        is_newest_first(s),
    ensures
        is_newest_first(slotted(s, n)),
        slotted(s, n).to_multiset() == s.to_multiset().insert(n),
        forall|k: int|
            0 <= k < slotted(s, n).len() ==> (#[trigger] slotted(s, n)[k]) == n || s.contains(
                slotted(s, n)[k],
            ),
    decreases s.len(),
{
    broadcast use vstd::seq_lib::group_to_multiset_ensures;

    if s.len() == 0 {
        assert(seq![n] =~= s.push(n));
    } else if before(s.last().created_on, n.created_on) {
        let t = s.drop_last();
        assert forall|i: int, j: int| 0 <= i < j < t.len() implies !before(
            (#[trigger] t[i]).created_on,
            (#[trigger] t[j]).created_on,
        ) by {
            assert(t[i] == s[i] && t[j] == s[j]);
        }
        lemma_slotted(t, n);
        let p = slotted(t, n);
        let all = p.push(s.last());
        assert forall|i: int, j: int| 0 <= i < j < all.len() implies !before(
            (#[trigger] all[i]).created_on,
            (#[trigger] all[j]).created_on,
        ) by {
            if j == p.len() {
                if p[i] == n {
                    if before(n.created_on, s.last().created_on) {
                        crate::order::lemma_before_transitive(
                            n.created_on,
                            s.last().created_on,
                            n.created_on,
                        );
                        crate::order::lemma_before_irreflexive(n.created_on);
                    }
                } else {
                    let k = choose|k: int| 0 <= k < t.len() && t[k] == p[i];
                    assert(s[k] == p[i]);
                    assert(!before(s[k].created_on, s[s.len() - 1].created_on));
                }
            } else {
                assert(all[i] == p[i] && all[j] == p[j]);
            }
        }
        assert forall|k: int| 0 <= k < all.len() implies (#[trigger] all[k]) == n || s.contains(
            all[k],
        ) by {
            if k < p.len() {
                if p[k] != n {
                    let q = choose|q: int| 0 <= q < t.len() && t[q] == p[k];
                    assert(s[q] == p[k]);
                }
            } else {
                assert(all[k] == s[s.len() - 1]);
            }
        }
        assert(s =~= t.push(s.last()));
        assert(all.to_multiset() =~= s.to_multiset().insert(n));
    } else {
        let all = s.push(n);
        assert forall|i: int, j: int| 0 <= i < j < all.len() implies !before(
            (#[trigger] all[i]).created_on,
            (#[trigger] all[j]).created_on,
        ) by {
            if j == s.len() {
                let l = s[s.len() - 1];
                assert(!before(l.created_on, n.created_on));
                if i < s.len() - 1 {
                    assert(!before(s[i].created_on, l.created_on));
                    if before(s[i].created_on, n.created_on) {
                        crate::order::lemma_before_total(n.created_on, l.created_on);
                        if before(n.created_on, l.created_on) {
                            crate::order::lemma_before_transitive(
                                s[i].created_on,
                                n.created_on,
                                l.created_on,
                            );
                        }
                    }
                }
            } else {
                assert(all[i] == s[i] && all[j] == s[j]);
            }
        }
        assert forall|k: int| 0 <= k < all.len() implies (#[trigger] all[k]) == n || s.contains(
            all[k],
        ) by {
            if k < s.len() {
                assert(all[k] == s[k]);
            }
        }
    }
}

/// Sorting loses and adds nothing, and gives the newest entry first wherever the
/// moments can be compared.
pub proof fn sorting_keeps_every_entry(s: Seq<Note>)
    ensures
        by_newest(s).to_multiset() == s.to_multiset(),
        is_newest_first(by_newest(s)),
        newest_first(s).to_multiset() == s.to_multiset(),
    decreases s.len(),
{
    broadcast use vstd::seq_lib::group_to_multiset_ensures;

    if s.len() > 0 {
        sorting_keeps_every_entry(s.drop_last());
        lemma_slotted(by_newest(s.drop_last()), s.last());
        assert(s =~= s.drop_last().push(s.last()));
    }
}

/// Puts an entry in its place.
fn slot(v: &mut Vec<Entry>, e: Entry)
    ensures
        notes(final(v)@) == slotted(notes(old(v)@), e@),
{
    let ghost all = notes(v@);
    let ghost n = e@;
    let mut i: usize = v.len();
    assert(all.take(i as int) =~= all);
    assert(slotted(all, n) =~= slotted(all.take(i as int), n) + all.skip(i as int));
    while i > 0 && is_before(v[i - 1].created_on.as_str(), e.created_on.as_str())
        invariant
            i <= v.len(),
            all == notes(v@),
            n == e@,
            v@ == old(v)@,
            slotted(all, n) == slotted(all.take(i as int), n) + all.skip(i as int),
        decreases i,
    {
        let ghost t = all.take(i as int);
        assert(t.last() == all[i - 1]);
        assert(all[i - 1] == v@[i - 1]@);
        assert(t.drop_last() =~= all.take(i - 1));
        assert(slotted(t.drop_last(), n).push(t.last()) + all.skip(i as int) =~= slotted(
            all.take(i - 1),
            n,
        ) + all.skip(i - 1));
        i = i - 1;
    }
    proof {
        let t = all.take(i as int);
        if i > 0 {
            assert(t.last() == all[i - 1]);
            assert(all[i - 1] == v@[i - 1]@);
        }
        assert(slotted(t, n) =~= t.push(n));
    }
    v.insert(i, e);
    assert(notes(v@) =~= all.take(i as int).push(n) + all.skip(i as int));
}

/// Sorts entries, newest first, where all moments can be compared.
pub fn sort_newest_first(entries: &mut Vec<Entry>)
    ensures
        notes(final(entries)@) == newest_first(notes(old(entries)@)),
{
    let ghost all = notes(entries@);
    let mut i: usize = 0;
    while i < entries.len()
        invariant
            i <= entries.len(),
            *entries == *old(entries),
            all == notes(entries@),
            forall|j: int| 0 <= j < i ==> is_iso(#[trigger] all[j].created_on),
        decreases entries.len() - i,
    {
        assert(all[i as int].created_on == entries@[i as int].created_on@);
        if !iso(entries[i].created_on.as_str()) {
            return;
        }
        i = i + 1;
    }
    let mut out: Vec<Entry> = Vec::new();
    assert(notes(out@) =~= by_newest(all.take(0)));
    assert(entries@ =~= old(entries)@.skip(0));
    while entries.len() > 0
        invariant
            entries.len() <= all.len(),
            all == notes(old(entries)@),
            entries@ == old(entries)@.skip(all.len() - entries.len()),
            notes(out@) == by_newest(all.take(all.len() - entries.len())),
        decreases entries.len(),
    {
        let ghost i = all.len() - entries.len();
        let e = entries.remove(0);
        assert(e == old(entries)@[i]);
        assert(all[i] == e@);
        assert(all.take(i + 1).drop_last() =~= all.take(i));
        assert(all.take(i + 1).last() == e@);
        assert(entries@ =~= old(entries)@.skip(i + 1));
        slot(&mut out, e);
    }
    assert(all.take(all.len() as int) =~= all);
    *entries = out;
}

/// A name that can stand in a query: small letters, digits and underscores, a
/// letter first.
pub open spec fn is_identifier(name: Seq<char>) -> bool {
    &&& name.len() > 0
    &&& 'a' <= name[0] && name[0] <= 'z'
    &&& forall|i: int|
        0 <= i < name.len() ==> ('a' <= #[trigger] name[i] && name[i] <= 'z') || is_digit(name[i])
            || name[i] == '_'
}

/// The failure of a name that cannot stand in a query.
pub open spec fn bad_identifier(name: Seq<char>, what: Seq<char>) -> Fault {
    Fault::Usage(
        "invalid "@ + what + " name '"@ + name
            + "': expected lowercase letters, digits and underscores"@,
    )
}

/// Refuses a name that cannot stand in a query.
pub fn validate_identifier(name: &str, what: &str) -> (r: Result<(), Error>)
    ensures
        r is Ok <==> is_identifier(name@),
        r matches Err(e) ==> e@ == bad_identifier(name@, what@),
{
    let v = chars_of(name);
    let mut ok = v.len() > 0 && 'a' <= v[0] && v[0] <= 'z';
    let mut i: usize = 0;
    while ok && i < v.len()
        invariant
            i <= v.len(),
            v@ == name@,
            ok ==> v@.len() > 0 && 'a' <= v@[0] && v@[0] <= 'z',
            ok ==> forall|j: int|
                0 <= j < i ==> ('a' <= #[trigger] v@[j] && v@[j] <= 'z') || is_digit(v@[j]) || v@[j]
                    == '_',
            !ok ==> !is_identifier(name@),
        decreases v.len() - i,
    {
        let c = v[i];
        if !(('a' <= c && c <= 'z') || ('0' <= c && c <= '9') || c == '_') {
            assert(v@[i as int] == c);
            ok = false;
        }
        i = i + 1;
    }
    if ok {
        Ok(())
    } else {
        Err(
            Error::Usage(
                "invalid ".to_owned().concat(what).concat(" name '").concat(name).concat(
                    "': expected lowercase letters, digits and underscores",
                ),
            ),
        )
    }
}

/// A character that a record identifier may hold.
pub open spec fn is_id_char(c: char) -> bool {
    ('a' <= c && c <= 'z') || ('A' <= c && c <= 'Z') || is_digit(c) || c == '_' || c == '-' || c
        == '.'
}

/// A record identifier that can stand in a query: one to sixty-four letters,
/// digits, underscores, hyphens and dots.
pub open spec fn is_record_id(s: Seq<char>) -> bool {
    0 < s.len() <= 64 && forall|i: int| 0 <= i < s.len() ==> is_id_char(#[trigger] s[i])
}

/// The failure of an identifier that cannot stand in a query.
pub open spec fn bad_sys_id(s: Seq<char>) -> Fault {
    Fault::Usage("invalid sys_id '"@ + s + "'"@)
}

/// Refuses an identifier that cannot stand in a query.
pub fn validate_sys_id(sys_id: &str) -> (r: Result<(), Error>)
    ensures
        r is Ok <==> is_record_id(sys_id@),
        r matches Err(e) ==> e@ == bad_sys_id(sys_id@),
{
    let v = chars_of(sys_id);
    let mut ok = v.len() > 0 && v.len() <= 64;
    let mut i: usize = 0;
    while ok && i < v.len()
        invariant
            i <= v.len(),
            v@ == sys_id@,
            ok ==> 0 < v@.len() <= 64,
            ok ==> forall|j: int| 0 <= j < i ==> is_id_char(#[trigger] v@[j]),
            !ok ==> !is_record_id(sys_id@),
        decreases v.len() - i,
    {
        let c = v[i];
        if !(('a' <= c && c <= 'z') || ('A' <= c && c <= 'Z') || ('0' <= c && c <= '9') || c == '_'
            || c == '-' || c == '.') {
            assert(!is_id_char(v@[i as int]));
            ok = false;
        }
        i = i + 1;
    }
    if ok {
        Ok(())
    } else {
        Err(Error::Usage("invalid sys_id '".to_owned().concat(sys_id).concat("'")))
    }
}

/// What may stand in a query cannot change it: a name or an identifier that was
/// not refused holds none of the characters that separate its terms.
pub proof fn nothing_valid_splits_a_query(s: Seq<char>, i: int)
    requires
        is_identifier(s) || is_record_id(s),
        0 <= i < s.len(),
    ensures
        s[i] != '^' && s[i] != '=' && s[i] != ':' && s[i] != ',' && s[i] != '/' && s[i] != ' ',
{
}

/// The error says that a field of that name is not defined.
pub open spec fn names_undefined(e: Doc, name: Seq<char>) -> bool {
    e.field_text("message"@) matches Some(m) && has(m, "FieldUndefined"@) && has(
        m,
        "Field '"@ + name + "'"@,
    )
}

/// One of the errors says that a field of that name is not defined.
pub open spec fn undefined(errors: Seq<Doc>, name: Seq<char>) -> bool {
    exists|i: int| 0 <= i < errors.len() && names_undefined(#[trigger] errors[i], name)
}

/// Whether one of the errors says that a field of that name is not defined.
pub fn undefined_field(errors: &Vec<Json>, name: &str) -> (r: bool)
    ensures
        r == undefined(docs(errors@), name@),
{
    let needle = "Field '".to_owned().concat(name).concat("'");
    let ghost all = docs(errors@);
    proof {
        lemma_docs(errors@);
    }
    let mut i: usize = 0;
    while i < errors.len()
        invariant
            i <= errors.len(),
            needle@ == "Field '"@ + name@ + "'"@,
            all == docs(errors@),
            all.len() == errors@.len(),
            forall|k: int| 0 <= k < errors@.len() ==> #[trigger] all[k] == errors@[k]@,
            forall|k: int| 0 <= k < i ==> !names_undefined(#[trigger] all[k], name@),
        decreases errors.len() - i,
    {
        assert(all[i as int] == errors@[i as int]@);
        if let Some(m) = errors[i].get_str("message") {
            if contains(m.as_str(), "FieldUndefined") && contains(m.as_str(), needle.as_str()) {
                return true;
            }
        }
        i = i + 1;
    }
    false
}

/// A member of an entry in JSON is the part of the entry that it is named after; what
/// is not known has no member.
pub proof fn an_entry_is_shown_part_by_part(n: Note)
    ensures
        note_doc(n).field("created_on"@) == Some(Doc::Str(n.created_on)),
        note_doc(n).field("author"@) == Some(Doc::Str(n.author)),
        note_doc(n).field("text"@) == Some(Doc::Str(n.text)),
        note_doc(n).field_text("element"@) == n.element,
        note_doc(n).field_text("label"@) == n.label,
        n.element is None ==> note_doc(n).field("element"@) is None,
        n.label is None ==> note_doc(n).field("label"@) is None,
{
    reveal_strlit("created_on");
    reveal_strlit("author");
    reveal_strlit("text");
    reveal_strlit("element");
    reveal_strlit("label");
    assert("created_on"@.len() == 10 && "author"@.len() == 6 && "text"@.len() == 4
        && "element"@.len() == 7 && "label"@.len() == 5);
}

/// A label that speaks of work notes stands for that column, one that speaks of
/// comments and not of work notes for the other, and any other label for none.
pub proof fn a_label_stands_for_its_column(label: Seq<char>)
    ensures
        element_of(label) == Some("work_notes"@) <==> has(lowered(label), "work note"@),
        element_of(label) == Some("comments"@) <==> has(lowered(label), "comment"@) && !crate::text::has(
            lowered(label),
            "work note"@,
        ),
        element_of(label) is None <==> !crate::text::has(lowered(label), "comment"@) && !crate::text::has(
            lowered(label),
            "work note"@,
        ),
{
    reveal_strlit("work_notes");
    reveal_strlit("comments");
    assert("work_notes"@.len() == 10 && "comments"@.len() == 8);
}

/// The first line of an entry reads back: the moment stands before the first dash,
/// the author behind it, and the label in the last brackets.
pub proof fn a_header_reads_back(moment: Seq<char>, author: Seq<char>, label: Seq<char>)
    requires
        moment.len() > 0 && '0' <= moment[0] && moment[0] <= '9' && moment.last() != '-',
        has(moment, ":"@) && !crate::text::has(moment, " - "@),
        author.len() > 0,
        label.len() > 0 && !crate::text::has(label, " ("@),
    ensures
        header(moment + " - "@ + author + " ("@ + label + ")"@) == Some((moment, author, label)),
{
    reveal_strlit(" - ");
    reveal_strlit(" (");
    reveal_strlit(")");
    let line = moment + " - "@ + author + " ("@ + label + ")"@;
    assert(trimmed_end(line) == line);
    let l = line.drop_last();
    let rest = author + " ("@ + label;
    assert(l =~= moment + " - "@ + rest);
    let n = moment.len() as int;
    assert(l.subrange(n, n + 3) =~= " - "@);
    assert forall|k: int| 0 <= k < n implies !#[trigger] stands(l, " - "@, k) by {
        let cut = l.subrange(k, k + 3);
        if stands(l, " - "@, k) {
            if k + 3 <= n {
                assert(moment.subrange(k, k + 3) =~= cut);
            } else {
                assert(cut[0] == ' ' && cut[1] == '-' && cut[2] == ' ');
                assert(cut[0] == l[k] && cut[1] == l[k + 1] && cut[2] == l[k + 2]);
                if k + 2 == n {
                    assert(l[k + 1] == moment[n - 1]);
                } else {
                    assert(l[k + 1] == " - "@[0]);
                }
            }
        }
    }
    lemma_next_place(l, " - "@, 0, n);
    assert(l.take(n) =~= moment);
    assert(l.skip(n + 3) =~= rest);
    let a = author.len() as int;
    assert(rest.subrange(a, a + 2) =~= " ("@);
    assert forall|k: int| a < k < rest.len() implies !#[trigger] stands(rest, " ("@, k) by {
        if stands(rest, " ("@, k) {
            let cut = rest.subrange(k, k + 2);
            assert(cut[0] == rest[k] && cut[0] == ' ');
            if k == a + 1 {
                assert(rest[k] == " ("@[1]);
            } else {
                let j = k - a - 2;
                assert(label.subrange(j, j + 2) =~= cut);
            }
        }
    }
    lemma_last_place(rest, " ("@, rest.len() as int, a);
    assert(rest.take(a) =~= author);
    assert(rest.skip(a + 2) =~= label);
}

/// The lines behind the first line of an entry are its text, up to the next first
/// line; blank ones at its end are left out.
pub proof fn lines_belong_to_the_entry_above(first: Seq<char>, body: Seq<Seq<char>>)
    requires
        header(first) is Some,
        forall|i: int| 0 <= i < body.len() ==> header(#[trigger] body[i]) is None,
    ensures
        ({
            let (moment, author, label) = header(first)->0;
            scanned(seq![first] + body) == Ok::<(Seq<Note>, Option<Opened>), Fault>(
                (
                    Seq::empty(),
                    Some(Opened { created_on: moment, author, label, lines: body }),
                ),
            )
        }),
    decreases body.len(),
{
    let all = seq![first] + body;
    if body.len() == 0 {
        reveal_with_fuel(scanned, 2);
        assert(all.drop_last() =~= Seq::empty());
        assert(all.last() == first);
        assert(body =~= Seq::empty());
    } else {
        let less = body.drop_last();
        assert forall|i: int| 0 <= i < less.len() implies header(#[trigger] less[i]) is None by {
            assert(less[i] == body[i]);
        }
        lines_belong_to_the_entry_above(first, less);
        assert(all.drop_last() =~= seq![first] + less);
        assert(all.last() == body[body.len() - 1]);
        assert(less.push(body.last()) =~= body);
    }
}

/// What is read of an entry keeps the moment and the author of its first line, and
/// its text is its lines.
pub proof fn an_entry_keeps_its_parts(o: Opened)
    ensures
        finished(o).created_on == o.created_on,
        finished(o).author == o.author,
        finished(o).label == Some(o.label),
        o.lines.len() > 0 && trimmed(o.lines.last()).len() > 0 ==> finished(o).text == joined(
            o.lines,
            "\n"@,
        ),
        o.lines.len() == 0 ==> finished(o).text.len() == 0,
{
}

/// The lines of a text without carriage returns make it up again, but for a line feed
/// at its end; no line holds a line feed.
pub proof fn lines_make_up_the_text(s: Seq<char>)
    requires
        !s.contains('\r'),
    ensures
        joined(lines_of(s), seq!['\n']) == (if s.len() > 0 && s.last() == '\n' {
            s.drop_last()
        } else {
            s
        }),
        forall|i: int| 0 <= i < lines_of(s).len() ==> !(#[trigger] lines_of(s)[i]).contains('\n'),
{
    crate::text::pieces_make_up_the_text(s, '\n');
    crate::text::lemma_pieces(s, '\n');
    let parts = pieces(s, '\n');
    lemma_pieces_without(s, '\n', '\r');
    let ended = parts.drop_last().map_values(|p: Seq<char>| without_cr(without_cr(p)));
    assert forall|i: int| 0 <= i < parts.len() implies without_cr(#[trigger] parts[i])
        == parts[i] by {
        if parts[i].len() > 0 {
            assert(parts[i].contains(parts[i].last()));
        }
    }
    assert forall|i: int| 0 <= i < ended.len() implies #[trigger] ended[i] == parts[i] by {
        assert(without_cr(parts[i]) == parts[i]);
    }
    assert(ended =~= parts.drop_last());
    assert(without_cr(parts[parts.len() - 1]) == parts.last());
    let sep = seq!['\n'];
    if parts.last().len() == 0 {
        if parts.len() == 1 {
            assert(parts[0] =~= Seq::empty());
            assert(s =~= Seq::empty());
        } else {
            assert(joined(parts, sep) == joined(parts.drop_last(), sep) + sep + parts.last());
            assert(parts.last() =~= Seq::empty());
            assert(s.drop_last() =~= joined(parts.drop_last(), sep));
            assert(s.last() == '\n');
        }
    } else {
        assert(parts.drop_last().push(parts.last()) =~= parts);
        assert(lines_of(s) =~= parts);
        if s.len() > 0 && s.last() == '\n' {
            lemma_last_piece(s, '\n');
        }
    }
}

proof fn lemma_last_piece(s: Seq<char>, c: char)
    requires
        s.len() > 0,
        s.last() == c,
    ensures
        pieces(s, c).last().len() == 0,
{
}

proof fn lemma_pieces_without(s: Seq<char>, c: char, x: char)
    requires
        !s.contains(x),
    ensures
        forall|i: int| 0 <= i < pieces(s, c).len() ==> !(#[trigger] pieces(s, c)[i]).contains(x),
    decreases s.len(),
{
    if s.len() > 0 {
        let less = s.drop_last();
        assert(!less.contains(x)) by {
            if less.contains(x) {
                let i = less.index_of(x);
                assert(s[i] == x);
            }
        }
        assert(s.contains(s.last()));
        lemma_pieces_without(less, c, x);
        crate::text::lemma_pieces(less, c);
        let p = pieces(less, c);
        let q = pieces(s, c);
        assert forall|i: int| 0 <= i < q.len() implies !(#[trigger] q[i]).contains(x) by {
            if s.last() == c {
                if i < p.len() {
                    assert(q[i] == p[i]);
                }
            } else if i < p.len() - 1 {
                assert(q[i] == p[i]);
            } else {
                assert(q[i] == p.last().push(s.last()));
                assert(!p[p.len() - 1].contains(x));
                if q[i].contains(x) {
                    let k = q[i].index_of(x);
                    if k < p.last().len() {
                        assert(p.last()[k] == x);
                    }
                }
            }
        }
    }
}

/// A carriage return at the end of a line is no part of it.
pub proof fn a_carriage_return_ends_a_line(s: Seq<char>)
    ensures
        without_cr(s.push('\r')) == s,
        s.len() == 0 || s.last() != '\r' ==> without_cr(s) == s,
{
    assert(s.push('\r').drop_last() =~= s);
}

/// Moments are compared where they begin with a year, a month and a day; one that does
/// not leaves the entries as they are.
pub proof fn entries_are_sorted_where_moments_compare(s: Seq<Note>)
    ensures
        (forall|i: int|
            0 <= i < s.len() ==> {
                let b = vstd::utf8::encode_utf8(#[trigger] s[i].created_on);
                b.len() > 10 && b[4] == 45 && b[7] == 45
            }) ==> newest_first(s) == by_newest(s),
        (exists|i: int|
            0 <= i < s.len() && {
                let b = vstd::utf8::encode_utf8(#[trigger] s[i].created_on);
                !(b.len() > 10 && b[4] == 45 && b[7] == 45)
            }) ==> newest_first(s) == s,
{
    if forall|i: int|
        0 <= i < s.len() ==> {
            let b = vstd::utf8::encode_utf8(#[trigger] s[i].created_on);
            b.len() > 10 && b[4] == 45 && b[7] == 45
        } {
        assert forall|i: int| 0 <= i < s.len() implies is_iso(#[trigger] s[i].created_on) by {
            let b = vstd::utf8::encode_utf8(s[i].created_on);
        }
    }
    if exists|i: int|
        0 <= i < s.len() && {
            let b = vstd::utf8::encode_utf8(#[trigger] s[i].created_on);
            !(b.len() > 10 && b[4] == 45 && b[7] == 45)
        } {
        let i = choose|i: int|
            0 <= i < s.len() && {
                let b = vstd::utf8::encode_utf8(#[trigger] s[i].created_on);
                !(b.len() > 10 && b[4] == 45 && b[7] == 45)
            };
        assert(!is_iso(s[i].created_on));
    }
}

/// An error calls a field undefined where its message says so and names the field.
pub proof fn an_undefined_field_is_named(e: Doc, name: Seq<char>, m: Seq<char>)
    requires
        e.field("message"@) == Some(Doc::Str(m)),
    ensures
        names_undefined(e, name) <==> crate::text::has(m, "FieldUndefined"@) && crate::text::has(
            m,
            "Field '"@ + name + "'"@,
        ),
{
}

} // verus!
