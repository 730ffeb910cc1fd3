//! What goes out of the program.
//!
//! A finished value goes out whole, and a stream line by line. [`Sending`] asks the
//! caller to write a text and then to flush it: a text that is not flushed is not
//! done. To send a line before the next value is asked for is up to the caller.

use vstd::prelude::*;

use crate::error::{Error, Fault};
use crate::flags::{map_stdout_err, stdout_fault, ResolvedFormat, SinkFault};
use crate::json::{
    docs, escaped, escaped_char, hex_digit, keys, lemma_docs, lemma_docs_push,
    lemma_members_finite, member, members, quote, quoted, rendered, rendered_items,
    rendered_members, Doc, Json,
};
use crate::order::{in_order, listing, texts};

verus! {

/// A document as indented JSON: every item and every member on a line of its own,
/// two blanks further in than what holds it.
pub open spec fn indented(d: Doc, margin: Seq<char>) -> Seq<char>
    decreases d, 0nat,
{
    match d {
        Doc::Array(items) => if items.len() == 0 {
            "[]"@
        } else {
            "["@ + indented_items(items, margin + "  "@) + "\n"@ + margin + "]"@
        },
        Doc::Object(m) => if in_order(m.dom()).len() == 0 {
            "{}"@
        } else {
            "{"@ + indented_members(m, in_order(m.dom()), margin + "  "@) + "\n"@ + margin + "}"@
        },
        other => rendered(other),
    }
}

/// What stands before an item: a comma behind the one before it, a new line and the
/// margin.
pub open spec fn lead(first: bool, margin: Seq<char>) -> Seq<char> {
    if first {
        "\n"@ + margin
    } else {
        ",\n"@ + margin
    }
}

/// The items of an array, each on its line.
pub open spec fn indented_items(items: Seq<Doc>, margin: Seq<char>) -> Seq<char>
    decreases items, 0nat,
{
    if items.len() == 0 {
        Seq::empty()
    } else {
        indented_items(items.drop_last(), margin) + lead(items.len() == 1, margin) + indented(
            items.last(),
            margin,
        )
    }
}

/// The members of an object under the given names, each on its line.
pub open spec fn indented_members(
    m: Map<Seq<char>, Doc>,
    ks: Seq<Seq<char>>,
    margin: Seq<char>,
) -> Seq<char>
    decreases m, ks.len(),
{
    if ks.len() == 0 {
        Seq::empty()
    } else {
        let k = ks.last();
        let value = if m.dom().finite() && m.contains_key(k) {
            indented(m[k], margin)
        } else {
            Seq::empty()
        };
        indented_members(m, ks.drop_last(), margin) + lead(ks.len() == 1, margin) + quoted(k)
            + ": "@ + value
    }
}

/// What stands before an item.
fn lead_in(first: bool, margin: &str) -> (r: String)
    ensures
        r@ == lead(first, margin@),
{
    if first {
        "\n".to_owned().concat(margin)
    } else {
        ",\n".to_owned().concat(margin)
    }
}

/// Indented JSON text for a document.
fn indent(j: &Json, margin: &str) -> (r: String)
    ensures
        r@ == indented(j@, margin@),
    decreases j,
{
    match j {
        Json::Array(items) => {
            proof {
                lemma_docs(items@);
            }
            if items.len() == 0 {
                return "[]".to_owned();
            }
            let inner = margin.to_owned().concat("  ");
            let mut body = String::new();
            let mut i: usize = 0;
            while i < items.len()
                invariant
                    i <= items.len(),
                    inner@ == margin@ + "  "@,
                    body@ == indented_items(docs(items@.take(i as int)), inner@),
                    decreases_to!(j => items@),
                decreases items.len() - i,
            {
                broadcast use lemma_docs_push, lemma_docs;

                assert(items@.take(i + 1) =~= items@.take(i as int).push(items@[i as int]));
                assert(decreases_to!(items@ => items@[i as int]));
                let ghost prior = docs(items@.take(i as int));
                assert(prior.push(items@[i as int]@).drop_last() =~= prior);
                let item = indent(&items[i], inner.as_str());
                body = body.concat(lead_in(i == 0, inner.as_str()).as_str()).concat(
                    item.as_str(),
                );
                i = i + 1;
            }
            assert(items@.take(i as int) =~= items@);
            "[".to_owned().concat(body.as_str()).concat("\n").concat(margin).concat("]")
        },
        Json::Object(entries) => {
            let names = keys(entries);
            let ghost m = members(entries@);
            proof {
                lemma_members_finite(entries@);
            }
            let ghost ks = texts(names@);
            assert(ks.len() == names@.len());
            if names.len() == 0 {
                return "{}".to_owned();
            }
            let inner = margin.to_owned().concat("  ");
            let mut body = String::new();
            let mut i: usize = 0;
            while i < names.len()
                invariant
                    i <= names.len(),
                    inner@ == margin@ + "  "@,
                    m == members(entries@),
                    ks == texts(names@),
                    listing(ks, m.dom()),
                    m.dom().finite(),
                    body@ == indented_members(m, ks.take(i as int), inner@),
                    decreases_to!(j => entries@),
                decreases names.len() - i,
            {
                assert(ks.take(i + 1).drop_last() =~= ks.take(i as int));
                let name = &names[i];
                assert(ks[i as int] == name@);
                assert(ks.contains(name@));
                body = body.concat(lead_in(i == 0, inner.as_str()).as_str()).concat(
                    quote(name.as_str()).as_str(),
                ).concat(": ");
                if let Some(value) = member(entries, name.as_str()) {
                    proof {
                        let at = choose|at: int|
                            0 <= at < entries.len() && #[trigger] entries@[at].1 == *value;
                        assert(decreases_to!(entries@ => entries@[at]));
                    }
                    body = body.concat(indent(value, inner.as_str()).as_str());
                }
                i = i + 1;
            }
            assert(ks.take(i as int) =~= ks);
            "{".to_owned().concat(body.as_str()).concat("\n").concat(margin).concat("}")
        },
        other => other.render(),
    }
}

/// The text of a value in a layout, with the end of its last line.
pub open spec fn emitted(d: Doc, fmt: ResolvedFormat) -> Seq<char> {
    match fmt {
        ResolvedFormat::Pretty => indented(d, ""@) + "\n"@,
        ResolvedFormat::Compact => rendered(d) + "\n"@,
    }
}

/// The text that shows a value.
pub fn emit_value(value: &Json, fmt: ResolvedFormat) -> (r: String)
    ensures
        r@ == emitted(value@, fmt),
{
    match fmt {
        ResolvedFormat::Pretty => indent(value, "").concat("\n"),
        ResolvedFormat::Compact => value.render().concat("\n"),
    }
}

/// The line that reports a failure: the envelope of the failure, compact.
pub fn emit_error(err: &Error) -> (r: String)
    ensures
        r@ == emitted(
            Doc::Object(Map::empty().insert("error"@, Doc::Object(err@.report()))),
            ResolvedFormat::Compact,
        ),
{
    emit_value(&err.to_stderr_json(), ResolvedFormat::Compact)
}

/// A text without line breaks.
pub open spec fn one_line(s: Seq<char>) -> bool {
    forall|i: int| 0 <= i < s.len() ==> #[trigger] s[i] != '\n' && s[i] != '\r'
}

/// A document whose numbers are written without line breaks.
pub open spec fn plain_numbers(d: Doc) -> bool
    decreases d,
{
    match d {
        Doc::Number(n) => one_line(n),
        Doc::Array(items) => forall|i: int|
            0 <= i < items.len() ==> plain_numbers(#[trigger] items[i]),
        Doc::Object(m) => m.dom().finite() ==> forall|k: Seq<char>|
            m.contains_key(k) ==> plain_numbers(#[trigger] m[k]),
        _ => true,
    }
}

/// What stands for a character holds no line break.
proof fn lemma_escaped_char(c: char)
    ensures
        one_line(escaped_char(c)),
{
    let n = c as int;
    if n < 32 {
        assert(hex_digit(n / 16) as int >= '0' as int);
        assert(hex_digit(n % 16) as int >= '0' as int);
    }
}

/// The escapes of a text hold no line break.
proof fn lemma_escaped(s: Seq<char>)
    ensures
        one_line(escaped(s)),
    decreases s.len(),
{
    if s.len() > 0 {
        lemma_escaped(s.drop_last());
        lemma_escaped_char(s.last());
    }
}

/// The compact JSON of a document holds no line break.
proof fn lemma_rendered(d: Doc)
    requires
        plain_numbers(d),
    ensures
        one_line(rendered(d)),
    decreases d, 0nat,
{
    reveal_strlit("null");
    reveal_strlit("true");
    reveal_strlit("false");
    reveal_strlit("[");
    reveal_strlit("]");
    reveal_strlit("{");
    reveal_strlit("}");
    match d {
        Doc::Str(s) => {
            lemma_escaped(s);
        },
        Doc::Array(items) => {
            lemma_rendered_items(items);
        },
        Doc::Object(m) => {
            lemma_rendered_members(m, in_order(m.dom()));
        },
        _ => {},
    }
}

/// The compact JSON of the items of an array holds no line break.
proof fn lemma_rendered_items(items: Seq<Doc>)
    requires
        forall|i: int| 0 <= i < items.len() ==> plain_numbers(#[trigger] items[i]),
    ensures
        one_line(rendered_items(items)),
    decreases items, 0nat,
{
    reveal_strlit(",");
    if items.len() > 0 {
        assert(items.last() == items[items.len() - 1]);
        lemma_rendered(items.last());
        if items.len() > 1 {
            assert forall|i: int| 0 <= i < items.drop_last().len() implies plain_numbers(
                #[trigger] items.drop_last()[i],
            ) by {
                assert(items.drop_last()[i] == items[i]);
            }
            lemma_rendered_items(items.drop_last());
        }
    }
}

/// The compact JSON of the members of an object holds no line break.
proof fn lemma_rendered_members(m: Map<Seq<char>, Doc>, ks: Seq<Seq<char>>)
    requires
        m.dom().finite() ==> forall|k: Seq<char>|
            m.contains_key(k) ==> plain_numbers(#[trigger] m[k]),
    ensures
        one_line(rendered_members(m, ks)),
    decreases m, ks.len(),
{
    reveal_strlit(",");
    reveal_strlit(":");
    if ks.len() > 0 {
        let k = ks.last();
        lemma_escaped(k);
        if m.dom().finite() && m.contains_key(k) {
            lemma_rendered(m[k]);
        }
        if ks.len() > 1 {
            lemma_rendered_members(m, ks.drop_last());
        }
    }
}

/// A record of a stream takes one line: the only line break is the one at its end.
pub proof fn a_record_takes_one_line(d: Doc)
    requires
        plain_numbers(d),
    ensures
        emitted(d, ResolvedFormat::Compact).len() > 0,
        emitted(d, ResolvedFormat::Compact).last() == '\n',
        one_line(emitted(d, ResolvedFormat::Compact).drop_last()),
{
    reveal_strlit("\n");
    lemma_rendered(d);
    assert(emitted(d, ResolvedFormat::Compact).drop_last() =~= rendered(d));
}

/// The line of a record in a stream.
pub fn write_jsonl_line(v: &Json) -> (r: String)
    ensures
        r@ == emitted(v@, ResolvedFormat::Compact),
{
    emit_value(v, ResolvedFormat::Compact)
}

/// Where the sending of a text stands.
#[derive(Clone, Copy, Debug, PartialEq, Eq, Structural)]
pub enum SendStage {
    Writing,
    Flushing,
    Over,
}

/// A text on its way out.
#[derive(Debug)]
pub struct Sending {
    pub stage: SendStage,
}

/// What the sending of a text asks for.
#[derive(Debug)]
pub enum SendStep {
    /// Write this, in one go.
    Write(String),
    /// Flush what was written.
    Flush,
    /// The text is out.
    Done,
    /// It did not get out.
    Fail(Error),
}

/// What the sending of a text asks for, as a view.
pub ghost enum Sent {
    Write(Seq<char>),
    Flush,
    Done,
    Fail(Fault),
}

impl SendStep {
    pub open spec fn view(&self) -> Sent {
        match self {
            SendStep::Write(s) => Sent::Write(s@),
            SendStep::Flush => Sent::Flush,
            SendStep::Done => Sent::Done,
            SendStep::Fail(e) => Sent::Fail(e@),
        }
    }
}

/// What follows a report on what was asked for. No failure is passed over, neither of
/// the write nor of the flush.
pub open spec fn sent(stage: SendStage, refusal: Option<SinkFault>) -> (SendStage, Sent) {
    match (stage, refusal) {
        (SendStage::Over, _) => (SendStage::Over, Sent::Done),
        (_, Some(f)) => (SendStage::Over, Sent::Fail(stdout_fault(f.broken_pipe, f.message@))),
        (SendStage::Writing, None) => (SendStage::Flushing, Sent::Flush),
        (SendStage::Flushing, None) => (SendStage::Over, Sent::Done),
    }
}

impl Sending {
    /// Begins to send a text.
    pub fn new(text: String) -> (r: (Self, SendStep))
        ensures
            r.0.stage == SendStage::Writing,
            r.1@ == Sent::Write(text@),
    {
        (Sending { stage: SendStage::Writing }, SendStep::Write(text))
    }

    /// Takes in what became of the write or the flush.
    pub fn receive(&mut self, refusal: Option<SinkFault>) -> (r: SendStep)
        ensures
            (final(self).stage, r@) == sent(old(self).stage, refusal),
    {
        let stage = self.stage;
        if stage == SendStage::Over {
            return SendStep::Done;
        }
        self.stage = SendStage::Over;
        match refusal {
            Some(f) => SendStep::Fail(map_stdout_err(f)),
            None => if stage == SendStage::Writing {
                self.stage = SendStage::Flushing;
                SendStep::Flush
            } else {
                SendStep::Done
            },
        }
    }
}

/// A text is out once it was written and flushed, and a failure of either is the
/// failure of the whole.
pub proof fn a_text_is_out_once_it_is_flushed(
    write: Option<SinkFault>,
    flush: Option<SinkFault>,
)
    ensures
        write is None ==> sent(SendStage::Writing, write) == (SendStage::Flushing, Sent::Flush),
        write matches Some(f) ==> sent(SendStage::Writing, write).1 == Sent::Fail(
            stdout_fault(f.broken_pipe, f.message@),
        ),
        write is None ==> (sent(sent(SendStage::Writing, write).0, flush).1 is Done <==> flush
            is None),
        write is None && flush is Some ==> sent(sent(SendStage::Writing, write).0, flush).1
            == Sent::Fail(stdout_fault(flush->0.broken_pipe, flush->0.message@)),
{
}

/// Each item of an array stands on a line of its own, two blanks further in, with a
/// comma behind each but the last.
pub proof fn an_item_stands_on_its_own_line(items: Seq<Doc>, d: Doc, margin: Seq<char>)
    ensures
        indented(Doc::Array(seq![d]), margin) == "[\n"@ + margin + "  "@ + indented(
            d,
            margin + "  "@,
        ) + "\n"@ + margin + "]"@,
        items.len() > 0 ==> indented_items(items.push(d), margin) == indented_items(items, margin)
            + ",\n"@ + margin + indented(d, margin),
        indented(Doc::Array(Seq::empty()), margin) == "[]"@,
{
    reveal_strlit("[");
    reveal_strlit("\n");
    reveal_strlit("[\n");
    assert("[\n"@ =~= "["@ + "\n"@);
    let one = seq![d];
    let inner = margin + "  "@;
    assert(one.drop_last() =~= Seq::empty());
    assert(indented_items(one.drop_last(), inner) =~= Seq::empty());
    assert(indented_items(one, inner) =~= "\n"@ + inner + indented(d, inner));
    assert(indented(Doc::Array(one), margin) =~= "[\n"@ + margin + "  "@ + indented(d, inner)
        + "\n"@ + margin + "]"@);
    let all = items.push(d);
    assert(all.drop_last() =~= items);
    if items.len() > 0 {
        assert(indented_items(all, margin) =~= indented_items(items, margin) + ",\n"@ + margin
            + indented(d, margin));
    }
}

/// Each member of an object stands on a line of its own under its quoted name.
pub proof fn a_member_stands_on_its_own_line(
    m: Map<Seq<char>, Doc>,
    ks: Seq<Seq<char>>,
    k: Seq<char>,
    margin: Seq<char>,
)
    requires
        m.dom().finite(),
        m.contains_key(k),
    ensures
        indented_members(m, ks.push(k), margin) == indented_members(m, ks, margin) + (if ks.len()
            == 0 {
            "\n"@
        } else {
            ",\n"@
        }) + margin + quoted(k) + ": "@ + indented(m[k], margin),
        indented(Doc::Object(m), margin) == "{"@ + indented_members(
            m,
            in_order(m.dom()),
            margin + "  "@,
        ) + "\n"@ + margin + "}"@,
        indented(Doc::Object(Map::empty()), margin) == "{}"@,
{
    let all = ks.push(k);
    assert(all.drop_last() =~= ks);
    let lead_in = if ks.len() == 0 {
        "\n"@
    } else {
        ",\n"@
    };
    assert(indented_members(m, all, margin) =~= indented_members(m, ks, margin) + lead_in + margin
        + quoted(k) + ": "@ + indented(m[k], margin));
    crate::order::lemma_in_order(m.dom());
    assert(in_order(m.dom()).contains(k));
    let none = Map::<Seq<char>, Doc>::empty();
    crate::order::lemma_in_order(none.dom());
    if in_order(none.dom()).len() > 0 {
        assert(in_order(none.dom()).contains(in_order(none.dom())[0]));
    }
}

/// Both layouts end in one line break; values without items or members are the same in
/// both.
pub proof fn both_layouts_end_in_a_line_break(d: Doc)
    ensures
        emitted(d, ResolvedFormat::Compact) == rendered(d) + "\n"@,
        emitted(d, ResolvedFormat::Pretty).len() > 0 && emitted(d, ResolvedFormat::Pretty).last()
            == '\n',
        !(d is Array) && !(d is Object) ==> emitted(d, ResolvedFormat::Pretty) == emitted(
            d,
            ResolvedFormat::Compact,
        ),
{
    reveal_strlit("\n");
}

} // verus!
