//! Reading a list page by page.
//!
//! [`Paginator`] decides what to do next; the caller fetches the pages and hands
//! them back.

use std::collections::VecDeque;

use vstd::prelude::*;

use crate::client::{http_fault, success};
use crate::error::{text_option, Error, Fault};
use crate::json::{docs, lemma_docs, lemma_docs_push, parse, read, Doc, Json};
use crate::order::texts;
use crate::request::pairs;
use crate::text::{
    contains, halves, has, pieces, split, split_once, strip_end, strip_start, stripped_end,
    stripped_start, trim, trimmed,
};

verus! {

/// The target of one link of a `Link` header, where it is the next page.
pub open spec fn next_target(part: Seq<char>) -> Option<Seq<char>> {
    match halves(trimmed(part), ';') {
        Some((url, rel)) => if has(trimmed(rel), "rel=\"next\""@) {
            Some(stripped_end(stripped_start(trimmed(url), '<'), '>'))
        } else {
            None
        },
        None => None,
    }
}

/// The target of the first link that is the next page.
pub open spec fn first_target(parts: Seq<Seq<char>>) -> Option<Seq<char>>
    decreases parts.len(),
{
    if parts.len() == 0 {
        None
    } else {
        match next_target(parts[0]) {
            Some(u) => Some(u),
            None => first_target(parts.drop_first()),
        }
    }
}

/// The next page that a `Link` header names.
pub open spec fn next_link(header: Seq<char>) -> Option<Seq<char>> {
    first_target(pieces(header, ','))
}

/// Finds the next page in a `Link` header.
pub fn parse_next_link(header: &str) -> (r: Option<String>)
    ensures
        text_option(r) == next_link(header@),
{
    let parts = split(header, ',');
    let ghost all = texts(parts@);
    let mut i: usize = 0;
    assert(all.skip(0) =~= all);
    while i < parts.len()
        invariant
            i <= parts.len(),
            all == texts(parts@),
            all == pieces(header@, ','),
            first_target(all) == first_target(all.skip(i as int)),
        decreases parts.len() - i,
    {
        assert(all.skip(i as int).drop_first() =~= all.skip(i + 1));
        assert(all.skip(i as int)[0] == parts@[i as int]@);
        let part = trim(parts[i].as_str());
        if let Some((url, rel)) = split_once(part.as_str(), ';') {
            let rel = trim(rel.as_str());
            if contains(rel.as_str(), "rel=\"next\"") {
                let u = strip_start(trim(url.as_str()).as_str(), '<');
                return Some(strip_end(u.as_str(), '>'));
            }
        }
        i = i + 1;
    }
    None
}

/// What to do next on a list.
#[derive(Debug)]
pub enum PageStep {
    /// The list is at its end.
    Done,
    /// The next record.
    Emit(Json),
    /// Fetch this page and hand it to [`Paginator::receive`].
    Fetch { url: String, query: Vec<(String, String)> },
    /// The list broke off.
    Fail(Error),
}

/// A page as it came: status, transaction, `Link` header and body; or why there
/// is none.
#[derive(Debug)]
pub enum Page {
    Arrived { status: u16, tx: Option<String>, link: Option<String>, text: String },
    Lost(Error),
}

/// A list that is read page by page. A limit of zero is no limit.
pub struct Paginator {
    next_url: Option<String>,
    next_query: Vec<(String, String)>,
    buffer: VecDeque<Json>,
    emitted: u32,
    cap: Option<u32>,
    finished: bool,
}

/// Where a list stands.
pub ghost struct Position {
    pub next_url: Option<Seq<char>>,
    pub next_query: Seq<(Seq<char>, Seq<char>)>,
    pub buffer: Seq<Doc>,
    pub emitted: u32,
    pub cap: Option<u32>,
    pub finished: bool,
}

/// A step as a view.
pub ghost enum Turn {
    Done,
    Emit(Doc),
    Fetch { url: Seq<char>, query: Seq<(Seq<char>, Seq<char>)> },
    Fail(Fault),
}

impl PageStep {
    pub open spec fn view(&self) -> Turn {
        match self {
            PageStep::Done => Turn::Done,
            PageStep::Emit(j) => Turn::Emit(j@),
            PageStep::Fetch { url, query } => Turn::Fetch { url: url@, query: pairs(query@) },
            PageStep::Fail(e) => Turn::Fail(e@),
        }
    }
}

impl Position {
    /// The limit is reached.
    pub open spec fn full(self) -> bool {
        self.cap matches Some(c) && c != 0 && self.emitted >= c
    }

    /// The list never gave more records than its limit.
    pub open spec fn within_cap(self) -> bool {
        self.cap matches Some(c) ==> c == 0 || self.emitted <= c
    }

    /// Hands out the first record of the buffer.
    pub open spec fn pop(self) -> (Position, Turn) {
        if self.buffer.len() == 0 {
            (self, Turn::Done)
        } else {
            (
                Position {
                    buffer: self.buffer.drop_first(),
                    emitted: (self.emitted + 1) as u32,
                    ..self
                },
                Turn::Emit(self.buffer[0]),
            )
        }
    }

    /// The step that follows: stop at the limit, hand out what is buffered,
    /// fetch the next page, or stop.
    pub open spec fn advance(self) -> (Position, Turn) {
        if self.full() {
            (self, Turn::Done)
        } else if self.buffer.len() > 0 || self.finished {
            self.pop()
        } else {
            match self.next_url {
                None => (Position { finished: true, ..self }, Turn::Done),
                Some(url) => (
                    Position { next_url: None, ..self },
                    Turn::Fetch { url, query: self.next_query },
                ),
            }
        }
    }

    /// A page arrived: its records are buffered, the query is dropped since the
    /// next link carries it, and the list ends where there is no next link. A page
    /// without records that names a next one is passed over. An error ends the
    /// list.
    pub open spec fn receive(
        self,
        status: u16,
        tx: Option<Seq<char>>,
        link: Option<Seq<char>>,
        text: Seq<char>,
        content: Result<Doc, Seq<char>>,
    ) -> (Position, Turn) {
        if !success(status) {
            (
                Position { finished: true, ..self },
                Turn::Fail(
                    http_fault(
                        status,
                        tx,
                        match content {
                            Ok(d) => Some(d),
                            Err(_) => None,
                        },
                        text,
                    ),
                ),
            )
        } else {
            match content {
                Err(e) => (
                    Position { finished: true, ..self },
                    Turn::Fail(Fault::Transport("parse response: "@ + e)),
                ),
                Ok(d) => {
                    let records = match d.field("result"@) {
                        Some(Doc::Array(items)) => items,
                        _ => Seq::empty(),
                    };
                    let next = match link {
                        Some(h) => next_link(h),
                        None => None,
                    };
                    Position {
                        next_url: next,
                        next_query: Seq::empty(),
                        buffer: self.buffer + records,
                        finished: self.finished || next is None,
                        ..self
                    }.advance()
                },
            }
        }
    }
}

/// Where a list stands after a number of steps that need no page, and the records
/// that they gave.
pub open spec fn handed_out(p: Position, n: nat) -> (Position, Seq<Doc>)
    decreases n,
{
    if n == 0 {
        (p, Seq::empty())
    } else {
        let (q, given) = handed_out(p, (n - 1) as nat);
        match q.advance() {
            (r, Turn::Emit(d)) => (r, given.push(d)),
            (r, _) => (r, given),
        }
    }
}

/// The records of a page are handed out one by one in the order in which they came,
/// none is left out and none comes twice, and no page is fetched meanwhile.
pub proof fn records_come_in_their_order(p: Position, n: nat)
    requires
        n <= p.buffer.len(),
        p.emitted + n <= u32::MAX,
        p.cap matches Some(c) ==> c == 0 || p.emitted + n <= c,
    ensures
        handed_out(p, n).1 == p.buffer.take(n as int),
        handed_out(p, n).0 == (Position {
            buffer: p.buffer.skip(n as int),
            emitted: (p.emitted + n) as u32,
            ..p
        }),
    decreases n,
{
    if n == 0 {
        assert(p.buffer.skip(0) =~= p.buffer);
    } else {
        let m = (n - 1) as nat;
        records_come_in_their_order(p, m);
        let q = handed_out(p, m).0;
        assert(q.buffer.len() > 0);
        assert(q.buffer[0] == p.buffer[m as int]);
        assert(q.buffer.drop_first() =~= p.buffer.skip(n as int));
        assert(p.buffer.take(m as int).push(p.buffer[m as int]) =~= p.buffer.take(n as int));
    }
}

/// A page that arrived in order: its `Link` header, and the document it is.
pub ghost struct Sheet {
    pub link: Option<Seq<char>>,
    pub page: Doc,
}

impl Sheet {
    /// The records of the page.
    pub open spec fn records(self) -> Seq<Doc> {
        match self.page.field("result"@) {
            Some(Doc::Array(items)) => items,
            _ => Seq::empty(),
        }
    }

    /// The page that follows.
    pub open spec fn next(self) -> Option<Seq<char>> {
        match self.link {
            Some(h) => next_link(h),
            None => None,
        }
    }
}

/// The records of pages, one page after the other.
pub open spec fn all_records(sheets: Seq<Sheet>) -> Seq<Doc>
    decreases sheets.len(),
{
    if sheets.len() == 0 {
        Seq::empty()
    } else {
        sheets[0].records() + all_records(sheets.drop_first())
    }
}

/// Whether pages make up a list: each names the one that follows, and the last one
/// names none.
pub open spec fn chained(sheets: Seq<Sheet>) -> bool
    decreases sheets.len(),
{
    &&& sheets.len() > 0
    &&& if sheets.len() == 1 {
        sheets[0].next() is None
    } else {
        sheets[0].next() is Some && chained(sheets.drop_first())
    }
}

/// The records that a list gives from a step on, with these pages to come.
pub open spec fn gathered(at: (Position, Turn), sheets: Seq<Sheet>) -> Seq<Doc>
    decreases sheets.len(), at.0.buffer.len(), (if at.1 is Emit {
            1nat
        } else {
            0nat
        }),
{
    match at.1 {
        Turn::Emit(d) => seq![d] + gathered(at.0.advance(), sheets),
        Turn::Fetch { .. } => if sheets.len() > 0 {
            gathered(
                at.0.receive(200, None, sheets[0].link, Seq::empty(), Ok(sheets[0].page)),
                sheets.drop_first(),
            )
        } else {
            Seq::empty()
        },
        _ => Seq::empty(),
    }
}

/// The first records of a list, as many as the limit leaves.
pub open spec fn capped(records: Seq<Doc>, cap: Option<u32>, emitted: u32) -> Seq<Doc> {
    match cap {
        Some(c) => if c != 0 && emitted + records.len() > c {
            if emitted >= c {
                Seq::empty()
            } else {
                records.take(c - emitted)
            }
        } else {
            records
        },
        None => records,
    }
}

proof fn lemma_gathered(p: Position, sheets: Seq<Sheet>)
    requires
        p.finished == (p.next_url is None),
        p.next_url is Some ==> chained(sheets),
        p.next_url is None ==> sheets.len() == 0,
        p.emitted + p.buffer.len() + all_records(sheets).len() <= u32::MAX,
    ensures
        gathered(p.advance(), sheets) == capped(p.buffer + all_records(sheets), p.cap, p.emitted),
    decreases sheets.len(), p.buffer.len(),
{
    let all = p.buffer + all_records(sheets);
    if p.full() {
        assert(capped(all, p.cap, p.emitted) =~= Seq::empty());
    } else if p.buffer.len() > 0 {
        let q = p.pop().0;
        lemma_gathered(q, sheets);
        assert(all.drop_first() =~= q.buffer + all_records(sheets));
        assert(capped(all, p.cap, p.emitted) =~= seq![p.buffer[0]] + capped(
            all.drop_first(),
            q.cap,
            q.emitted,
        ));
    } else if p.finished {
        assert(all =~= Seq::empty());
    } else {
        let rest = sheets.drop_first();
        let records = sheets[0].records();
        let r = Position {
            next_url: sheets[0].next(),
            next_query: Seq::empty(),
            buffer: p.buffer + records,
            finished: sheets[0].next() is None,
            ..p
        };
        lemma_gathered(r, rest);
        assert(all =~= r.buffer + all_records(rest));
    }
}

/// A list gives the records of all its pages, in their order, none left out and none
/// twice, up to its limit. A limit of zero is none.
pub proof fn a_list_gives_every_record(
    url: Seq<char>,
    query: Seq<(Seq<char>, Seq<char>)>,
    cap: Option<u32>,
    sheets: Seq<Sheet>,
)
    requires
        chained(sheets),
        all_records(sheets).len() <= u32::MAX,
    ensures
        gathered(
            (Position {
                next_url: Some(url),
                next_query: query,
                buffer: Seq::empty(),
                emitted: 0,
                cap,
                finished: false,
            }).advance(),
            sheets,
        ) == (match cap {
            Some(c) => if c != 0 && all_records(sheets).len() > c {
                all_records(sheets).take(c as int)
            } else {
                all_records(sheets)
            },
            None => all_records(sheets),
        }),
{
    let p = Position {
        next_url: Some(url),
        next_query: query,
        buffer: Seq::empty(),
        emitted: 0,
        cap,
        finished: false,
    };
    lemma_gathered(p, sheets);
    assert(p.buffer + all_records(sheets) =~= all_records(sheets));
}

/// A page that brings a failure ends the list: what was buffered before is still
/// handed out, and no further page is fetched.
pub proof fn a_failure_ends_the_list(
    p: Position,
    status: u16,
    tx: Option<Seq<char>>,
    link: Option<Seq<char>>,
    text: Seq<char>,
    content: Result<Doc, Seq<char>>,
)
    ensures
        p.receive(status, tx, link, text, content).1 is Fail ==> {
            let after = p.receive(status, tx, link, text, content).0;
            &&& after.finished && after.buffer == p.buffer
            &&& !(after.advance().1 is Fetch)
            &&& p.buffer.len() == 0 ==> after.advance().1 is Done
        },
{
}

/// A list asks for at most one page at a time, and it asks for the page that the
/// last one named, at once where the last one held no record: where none was named
/// it is at its end.
pub proof fn a_list_follows_its_links(
    p: Position,
    status: u16,
    tx: Option<Seq<char>>,
    link: Seq<char>,
    text: Seq<char>,
    page: Doc,
)
    requires
        success(status),
        p.buffer.len() == 0,
        !p.finished && !p.full(),
    ensures
        next_link(link) matches Some(url) ==> {
            let (q, turn) = p.receive(status, tx, Some(link), text, Ok(page));
            if (Sheet { link: Some(link), page }).records().len() == 0 {
                turn == (Turn::Fetch { url, query: Seq::empty() })
            } else {
                turn is Emit && q.next_url == Some(url) && q.next_query.len() == 0
            }
        },
        next_link(link) is None ==> p.receive(status, tx, Some(link), text, Ok(page)).0.finished,
        p.receive(status, tx, None, text, Ok(page)).0.finished,
{
}

/// Taking the first value takes the first document.
proof fn lemma_docs_drop_first(items: Seq<Json>)
    requires
        items.len() > 0,
    ensures
        docs(items.subrange(1, items.len() as int)) == docs(items).drop_first(),
{
    broadcast use lemma_docs;

    let rest = items.subrange(1, items.len() as int);
    assert(docs(rest).len() == rest.len() && docs(items).len() == items.len());
    assert(docs(rest) =~= docs(items).drop_first());
}

impl Paginator {
    /// Where the list stands.
    pub closed spec fn view(&self) -> Position {
        Position {
            next_url: text_option(self.next_url),
            next_query: pairs(self.next_query@),
            buffer: docs(self.buffer@),
            emitted: self.emitted,
            cap: self.cap,
            finished: self.finished,
        }
    }

    /// A list at its beginning.
    pub fn new(base_url: &str, path: &str, query: Vec<(String, String)>, cap: Option<u32>) -> (r:
        Self)
        ensures
            r@ == (Position {
                next_url: Some(base_url@ + path@),
                next_query: pairs(query@),
                buffer: Seq::empty(),
                emitted: 0,
                cap,
                finished: false,
            }),
            r@.within_cap(),
    {
        Paginator {
            next_url: Some(base_url.to_owned().concat(path)),
            next_query: query,
            buffer: VecDeque::new(),
            emitted: 0,
            cap,
            finished: false,
        }
    }

    /// Hands out the first record of the buffer.
    fn pop(&mut self) -> (r: PageStep)
        requires
            old(self)@.emitted < u32::MAX,
        ensures
            (final(self)@, r@) == old(self)@.pop(),
    {
        let ghost prior = self.buffer@;
        match self.buffer.pop_front() {
            Some(j) => {
                proof {
                    lemma_docs_drop_first(prior);
                    lemma_docs(prior);
                }
                self.emitted = self.emitted + 1;
                PageStep::Emit(j)
            },
            None => {
                proof {
                    lemma_docs(prior);
                }
                PageStep::Done
            },
        }
    }

    /// The step that follows.
    pub fn next(&mut self) -> (r: PageStep)
        requires
            old(self)@.emitted < u32::MAX,
        ensures
            (final(self)@, r@) == old(self)@.advance(),
            old(self)@.within_cap() ==> final(self)@.within_cap(),
    {
        proof {
            lemma_docs(self.buffer@);
        }
        if let Some(cap) = self.cap {
            if cap != 0 && self.emitted >= cap {
                return PageStep::Done;
            }
        }
        if self.buffer.len() > 0 || self.finished {
            return self.pop();
        }
        match self.next_url.take() {
            None => {
                self.finished = true;
                PageStep::Done
            },
            Some(url) => {
                let query = dup_pairs(&self.next_query);
                PageStep::Fetch { url, query }
            },
        }
    }

    /// Takes in a page that arrived, given what its body reads as.
    pub fn receive(
        &mut self,
        status: u16,
        tx: Option<String>,
        link: Option<String>,
        text: &str,
        body: Result<Json, String>,
    ) -> (r: PageStep)
        requires
            100 <= status <= 999,
            old(self)@.emitted < u32::MAX,
        ensures
            (final(self)@, r@) == old(self)@.receive(
                status,
                text_option(tx),
                text_option(link),
                text@,
                crate::client::content(body),
            ),
            old(self)@.within_cap() ==> final(self)@.within_cap(),
    {
        if !(200 <= status && status < 300) {
            self.finished = true;
            return match body {
                Ok(j) => PageStep::Fail(crate::client::http_error(status, tx, Some(&j), text)),
                Err(_) => PageStep::Fail(crate::client::http_error(status, tx, None, text)),
            };
        }
        let j = match body {
            Ok(j) => j,
            Err(e) => {
                self.finished = true;
                return PageStep::Fail(
                    Error::Transport("parse response: ".to_owned().concat(e.as_str())),
                );
            },
        };
        let ghost start = docs(self.buffer@);
        if let Some(Json::Array(records)) = j.get("result") {
            let mut i: usize = 0;
            let ghost before = *self;
            assert(start + docs(records@.take(0)) =~= start);
            while i < records.len()
                invariant
                    i <= records.len(),
                    docs(self.buffer@) == start + docs(records@.take(i as int)),
                    self.next_url == before.next_url,
                    self.next_query == before.next_query,
                    self.emitted == before.emitted,
                    self.cap == before.cap,
                    self.finished == before.finished,
                decreases records.len() - i,
            {
                broadcast use lemma_docs_push;

                assert(records@.take(i + 1) =~= records@.take(i as int).push(records@[i as int]));
                self.buffer.push_back(records[i].dup());
                assert(start + docs(records@.take(i as int)).push(records@[i as int]@) =~= (start
                    + docs(records@.take(i as int))).push(records@[i as int]@));
                i = i + 1;
            }
            assert(records@.take(i as int) =~= records@);
        } else {
            assert(start + Seq::<Doc>::empty() =~= start);
        }
        self.next_query = crate::request::no_query();
        self.next_url =
        match link {
            Some(h) => parse_next_link(h.as_str()),
            None => None,
        };
        if self.next_url.is_none() {
            self.finished = true;
        }
        self.next()
    }

    /// Takes in a page: reads its body, or ends the list where the page was
    /// lost.
    pub fn take_in(&mut self, page: Page) -> (r: PageStep)
        requires
            page matches Page::Arrived { status, .. } ==> 100 <= status <= 999,
            old(self)@.emitted < u32::MAX,
        ensures
            page matches Page::Arrived { status, tx, link, text } ==> (final(self)@, r@)
                == old(self)@.receive(
                status,
                text_option(tx),
                text_option(link),
                text@,
                read(text@),
            ),
            page matches Page::Lost(e) ==> final(self)@ == (Position {
                finished: true,
                ..old(self)@
            }) && r@ == Turn::Fail(e@),
    {
        match page {
            Page::Arrived { status, tx, link, text } => {
                let body = parse(text.as_str());
                assert(crate::client::content(body) == read(text@));
                self.receive(status, tx, link, text.as_str(), body)
            },
            Page::Lost(e) => {
                self.finished = true;
                PageStep::Fail(e)
            },
        }
    }
}

/// A copy of a list of pairs.
pub fn dup_pairs(v: &Vec<(String, String)>) -> (r: Vec<(String, String)>)
    ensures
        pairs(r@) == pairs(v@),
{
    let mut out: Vec<(String, String)> = Vec::new();
    let mut i: usize = 0;
    while i < v.len()
        invariant
            i <= v.len(),
            pairs(out@) == pairs(v@).take(i as int),
        decreases v.len() - i,
    {
        let ghost prior = pairs(out@);
        out.push((v[i].0.clone(), v[i].1.clone()));
        assert(pairs(out@) =~= prior.push((v@[i as int].0@, v@[i as int].1@)));
        assert(pairs(v@).take(i + 1) =~= prior.push(pairs(v@)[i as int]));
        i = i + 1;
    }
    assert(pairs(v@).take(i as int) =~= pairs(v@));
    out
}

/// A link is the next page where it says so, and its target is what stands between its
/// angle brackets.
pub proof fn a_link_is_followed_where_it_is_the_next(url: Seq<char>, rel: Seq<char>)
    requires
        !url.contains(';'),
        trimmed(seq!['<'] + url + seq!['>'] + seq![';'] + rel) == seq!['<'] + url + seq!['>']
            + seq![';'] + rel,
        trimmed(seq!['<'] + url + seq!['>']) == seq!['<'] + url + seq!['>'],
        url.len() > 0 && url[0] != '<' && url.last() != '>',
    ensures
        crate::text::has(trimmed(rel), "rel=\"next\""@) ==> next_target(
            seq!['<'] + url + seq!['>'] + seq![';'] + rel,
        ) == Some(url),
        !crate::text::has(trimmed(rel), "rel=\"next\""@) ==> next_target(
            seq!['<'] + url + seq!['>'] + seq![';'] + rel,
        ) is None,
{
    let a = seq!['<'] + url + seq!['>'];
    assert(!a.contains(';')) by {
        if a.contains(';') {
            let i = a.index_of(';');
            if 0 < i && i <= url.len() {
                assert(url[i - 1] == ';');
            }
        }
    }
    crate::text::what_is_put_together_is_parted_again(a, ';', rel);
    let b = url + seq!['>'];
    assert(a.drop_first() =~= b);
    reveal_with_fuel(stripped_start, 2);
    reveal_with_fuel(stripped_end, 2);
    assert(b[0] == url[0]);
    assert(stripped_start(a, '<') == b);
    assert(b.drop_last() =~= url);
    assert(stripped_end(b, '>') == url);
}

/// The next page is that of the first link that names one.
pub proof fn the_first_next_link_counts(parts: Seq<Seq<char>>, i: int)
    requires
        0 <= i < parts.len(),
        next_target(parts[i]) is Some,
        forall|j: int| 0 <= j < i ==> next_target(#[trigger] parts[j]) is None,
    ensures
        first_target(parts) == next_target(parts[i]),
    decreases i,
{
    if i > 0 {
        let rest = parts.drop_first();
        assert(next_target(parts[0]) is None);
        assert forall|j: int| 0 <= j < i - 1 implies next_target(#[trigger] rest[j]) is None by {
            assert(rest[j] == parts[j + 1]);
        }
        the_first_next_link_counts(rest, i - 1);
    }
}

/// A list that has no next page has none to follow.
pub proof fn without_a_next_link_there_is_no_page(parts: Seq<Seq<char>>)
    requires
        forall|j: int| 0 <= j < parts.len() ==> next_target(#[trigger] parts[j]) is None,
    ensures
        first_target(parts) is None,
    decreases parts.len(),
{
    if parts.len() > 0 {
        let rest = parts.drop_first();
        assert forall|j: int| 0 <= j < rest.len() implies next_target(#[trigger] rest[j])
            is None by {
            assert(rest[j] == parts[j + 1]);
        }
        assert(next_target(parts[0]) is None);
        without_a_next_link_there_is_no_page(rest);
    }
}

} // verus!
