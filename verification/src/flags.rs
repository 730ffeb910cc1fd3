//! Flags that several commands share, and what the commands make of them.

use vstd::prelude::*;

use crate::error::{usage, Error, Fault};
use crate::json::{Doc, Json};
use crate::text::{ascii_lowered, chars_of, same, slice, trim, trimmed};

verus! {

/// Flags of every command.
#[derive(Debug)]
pub struct GlobalFlags {
    pub profile: Option<String>,
    pub output: OutputMode,
    pub pretty: bool,
    pub compact: bool,
    pub timeout: Option<u64>,
    pub verbose: u8,
    pub proxy: Option<String>,
    pub no_proxy: bool,
    pub proxy_ca_cert: Option<String>,
    pub insecure: bool,
    pub ca_cert: Option<String>,
}

/// How a result is shown: its content, the whole envelope, or as columns.
#[derive(Debug, Clone, Copy, PartialEq, Eq, Structural)]
pub enum OutputMode {
    Default,
    Raw,
    Table,
}

/// The layout of JSON output.
#[derive(Debug, Clone, Copy, PartialEq, Eq, Structural)]
pub enum Format {
    /// Pretty on a terminal, compact in a pipe.
    Auto,
    Pretty,
    Compact,
}

/// A settled layout.
#[derive(Debug, Clone, Copy, PartialEq, Eq, Structural)]
pub enum ResolvedFormat {
    Pretty,
    Compact,
}

impl Format {
    /// Settles the layout for an output that is a terminal or not.
    pub fn resolve(self, stdout_is_terminal: bool) -> (r: ResolvedFormat)
        ensures
            r == (match self {
                Format::Pretty => ResolvedFormat::Pretty,
                Format::Compact => ResolvedFormat::Compact,
                Format::Auto => if stdout_is_terminal {
                    ResolvedFormat::Pretty
                } else {
                    ResolvedFormat::Compact
                },
            }),
    {
        match self {
            Format::Pretty => ResolvedFormat::Pretty,
            Format::Compact => ResolvedFormat::Compact,
            Format::Auto => if stdout_is_terminal {
                ResolvedFormat::Pretty
            } else {
                ResolvedFormat::Compact
            },
        }
    }
}

/// The layout that the flags ask for: `--pretty`, else `--compact`, else by the
/// terminal.
pub fn format_from_flags(g: &GlobalFlags, stdout_is_terminal: bool) -> (r: ResolvedFormat)
    ensures
        r == (if g.pretty || (!g.compact && stdout_is_terminal) {
            ResolvedFormat::Pretty
        } else {
            ResolvedFormat::Compact
        }),
{
    if g.pretty {
        Format::Pretty.resolve(stdout_is_terminal)
    } else if g.compact {
        Format::Compact.resolve(stdout_is_terminal)
    } else {
        Format::Auto.resolve(stdout_is_terminal)
    }
}

/// A failure to write to the output: whether the reader went away, and the
/// message.
#[derive(Debug)]
pub struct SinkFault {
    pub broken_pipe: bool,
    pub message: String,
}

/// The failure of a command whose output could not be written.
pub open spec fn stdout_fault(broken_pipe: bool, message: Seq<char>) -> Fault {
    if broken_pipe {
        Fault::BrokenPipe
    } else {
        Fault::Transport("stdout: "@ + message)
    }
}

/// A closed pipe ends a command in silence; any other failure to write is one
/// of transport.
pub fn map_stdout_err(e: SinkFault) -> (r: Error)
    ensures
        r@ == stdout_fault(e.broken_pipe, e.message@),
{
    if e.broken_pipe {
        Error::BrokenPipe
    } else {
        Error::Transport("stdout: ".to_owned().concat(e.message.as_str()))
    }
}

/// Whether values are shown as stored, as displayed, or both.
#[derive(Debug, Clone, Copy, PartialEq, Eq, Structural)]
pub enum DisplayValueArg {
    True,
    False,
    All,
}

impl DisplayValueArg {
    /// The value of the parameter.
    pub open spec fn text(self) -> Seq<char> {
        match self {
            DisplayValueArg::True => "true"@,
            DisplayValueArg::False => "false"@,
            DisplayValueArg::All => "all"@,
        }
    }

    /// The value of the parameter.
    pub fn as_str(self) -> (r: &'static str)
        ensures
            r@ == self.text(),
    {
        match self {
            DisplayValueArg::True => "true",
            DisplayValueArg::False => "false",
            DisplayValueArg::All => "all",
        }
    }
}

/// The text of an optional choice of values.
pub open spec fn display_option(v: Option<DisplayValueArg>) -> Option<Seq<char>> {
    match v {
        Some(v) => Some(v.text()),
        None => None,
    }
}

/// The `--display-value` flag.
#[derive(Debug)]
pub struct DisplayValueOpt {
    pub display_value: Option<DisplayValueArg>,
}

/// The `--data` and `--field` flags of a command that sends a body.
#[derive(Debug)]
pub struct BodyArgs {
    pub data: Option<String>,
    pub field: Vec<String>,
}

/// Where a body comes from.
#[derive(Debug)]
pub enum BodyInput {
    Absent,
    Data(String),
    Fields(Vec<String>),
}

/// What a command sends where no body is given.
#[derive(Debug, Clone, Copy, PartialEq, Eq, Structural)]
pub enum EmptyBody {
    Object,
    Reject,
}

/// The source of a body: `--data` where it is given, else the fields, else
/// none.
pub fn input_from(data: Option<String>, field: Vec<String>) -> (r: BodyInput)
    ensures
        data matches Some(d) ==> r == BodyInput::Data(d),
        data is None && field.len() > 0 ==> r == BodyInput::Fields(field),
        data is None && field.len() == 0 ==> r is Absent,
{
    match data {
        Some(d) => BodyInput::Data(d),
        None => if field.len() > 0 {
            BodyInput::Fields(field)
        } else {
            BodyInput::Absent
        },
    }
}

impl BodyArgs {
    /// The source of the body.
    pub fn into_input(self) -> (r: BodyInput)
        ensures
            self.data matches Some(d) ==> r == BodyInput::Data(d),
            self.data is None && self.field.len() > 0 ==> r == BodyInput::Fields(self.field),
            self.data is None && self.field.len() == 0 ==> r is Absent,
    {
        input_from(self.data, self.field)
    }
}

/// The `--wait` flags of an operation that runs in the background.
#[derive(Debug)]
pub struct WaitArgs {
    pub wait: bool,
    pub wait_timeout: Option<u64>,
}

/// The `--setlimit` flag of a list, with its default.
#[derive(Debug)]
pub struct SetLimit<const DEFAULT: u32> {
    pub setlimit: u32,
}

/// The flags of a list that is paged by hand.
#[derive(Debug)]
pub struct Paging<const DEFAULT: u32> {
    pub limit: SetLimit<DEFAULT>,
    pub offset: Option<u32>,
}

impl<const DEFAULT: u32> Paging<DEFAULT> {
    /// The most records that a page holds.
    pub fn setlimit(&self) -> (r: u32)
        ensures
            r == self.limit.setlimit,
    {
        self.limit.setlimit
    }
}

/// A flag as an optional value: absent where it is not set.
pub fn bool_opt(b: bool) -> (r: Option<bool>)
    ensures
        r == (if b {
            Some(true)
        } else {
            None
        }),
{
    if b {
        Some(true)
    } else {
        None
    }
}

/// The content of an answer: its `result` member, or all of it where there is
/// none. In raw mode the whole answer.
pub open spec fn unwrapped(v: Doc, mode: OutputMode) -> Doc {
    if mode is Raw {
        v
    } else {
        match v.field("result"@) {
            Some(r) => r,
            None => v,
        }
    }
}

/// Takes the content out of the envelope, unless the raw answer is asked for.
pub fn unwrap_or_raw(v: Json, mode: OutputMode) -> (r: Json)
    ensures
        r@ == unwrapped(v@, mode),
{
    match mode {
        OutputMode::Raw => v,
        OutputMode::Default | OutputMode::Table => {
            if let Some(r) = v.get("result") {
                return r.dup();
            }
            v
        },
    }
}

/// A member of a document.
pub fn take_field(v: Json, key: &str) -> (r: Option<Json>)
    ensures
        crate::json::doc_option(r) == v@.field(key@),
{
    match v.get(key) {
        Some(j) => Some(j.dup()),
        None => None,
    }
}

/// What `char::to_uppercase` makes of a character.
pub uninterp spec fn capital(c: char) -> Seq<char>;

/// `char::to_uppercase`, collected: the Unicode uppercase of one character, a
/// function of the character alone.
#[verifier::external_body]
fn capital_of(c: char) -> (r: String)
    ensures
        r@ == capital(c),
{
    c.to_uppercase().collect()
}

/// What happens before something is destroyed.
#[derive(Debug)]
pub enum Confirmation {
    /// Go ahead.
    Granted,
    /// Ask this question and hand the answer to [`confirmed`].
    Ask(String),
    /// Do not.
    Refused(Error),
}

/// A verb at the beginning of a sentence.
pub open spec fn sentence_case(verb: Seq<char>) -> Seq<char> {
    if verb.len() == 0 {
        verb
    } else {
        capital(verb[0]) + verb.drop_first()
    }
}

/// Decides whether something may be destroyed: with `--yes` it may; without a
/// terminal to ask at it may not; else the question is put.
pub fn confirm_destructive(yes: bool, verb: &str, what: &str, stdin_is_terminal: bool) -> (r:
    Confirmation)
    ensures
        r is Granted <==> yes,
        !yes && !stdin_is_terminal ==> (r matches Confirmation::Refused(e) && e@ == Fault::Usage(
            verb@ + " "@ + what@ + " requires --yes when stdin is not a terminal"@,
        )),
        !yes && stdin_is_terminal ==> (r matches Confirmation::Ask(q) && q@ == sentence_case(verb@)
            + " "@ + what@ + "? [y/N]: "@),
{
    if yes {
        return Confirmation::Granted;
    }
    if !stdin_is_terminal {
        return Confirmation::Refused(
            Error::Usage(
                verb.to_owned().concat(" ").concat(what).concat(
                    " requires --yes when stdin is not a terminal",
                ),
            ),
        );
    }
    let v = chars_of(verb);
    let start = if v.len() == 0 {
        String::new()
    } else {
        let rest = slice(&v, 1, v.len());
        assert(v@.subrange(1, v@.len() as int) =~= v@.drop_first());
        capital_of(v[0]).concat(rest.as_str())
    };
    assert(verb@.len() == 0 ==> verb@ =~= Seq::<char>::empty());
    Confirmation::Ask(start.concat(" ").concat(what).concat("? [y/N]: "))
}

/// The answers that mean yes.
pub open spec fn affirmative(s: Seq<char>) -> bool {
    s == "y"@ || s == "Y"@ || s == "yes"@ || s == "YES"@
}

/// Takes the answer to the question: anything but a yes is an abort.
pub fn confirmed(line: &str) -> (r: Result<(), Error>)
    ensures
        r is Ok <==> affirmative(trimmed(line@)),
        r matches Err(e) ==> e@ == Fault::Usage("aborted"@),
{
    let s = trim(line);
    if same(s.as_str(), "y") || same(s.as_str(), "Y") || same(s.as_str(), "yes") || same(
        s.as_str(),
        "YES",
    ) {
        Ok(())
    } else {
        Err(usage("aborted"))
    }
}

/// Decides whether something may be deleted.
pub fn confirm_delete(yes: bool, what: &str, stdin_is_terminal: bool) -> (r: Confirmation)
    ensures
        r is Granted <==> yes,
        !yes && !stdin_is_terminal ==> (r matches Confirmation::Refused(e) && e@ == Fault::Usage(
            "delete"@ + " "@ + what@ + " requires --yes when stdin is not a terminal"@,
        )),
        !yes && stdin_is_terminal ==> (r matches Confirmation::Ask(q) && q@ == sentence_case(
            "delete"@,
        ) + " "@ + what@ + "? [y/N]: "@),
{
    confirm_destructive(yes, "delete", what, stdin_is_terminal)
}

/// What is shown of an answer is the content of its envelope; the raw answer is shown
/// whole, and so is one without an envelope.
pub proof fn an_envelope_is_opened_unless_raw(v: Doc, content: Doc)
    ensures
        unwrapped(v, OutputMode::Raw) == v,
        v.field("result"@) == Some(content) ==> unwrapped(v, OutputMode::Default) == content
            && unwrapped(v, OutputMode::Table) == content,
        v.field("result"@) is None ==> unwrapped(v, OutputMode::Default) == v && unwrapped(
            v,
            OutputMode::Table,
        ) == v,
{
}

/// A closed pipe is no failure of the command, and every other failure to write is one
/// that tells its reason.
pub proof fn only_a_closed_pipe_is_silent(broken_pipe: bool, message: Seq<char>)
    ensures
        stdout_fault(broken_pipe, message) == Fault::BrokenPipe <==> broken_pipe,
        !broken_pipe ==> (stdout_fault(broken_pipe, message) matches Fault::Transport(m)
            && message.is_suffix_of(m)),
{
    if !broken_pipe {
        let m = "stdout: "@ + message;
        assert(m.subrange(m.len() - message.len(), m.len() as int) =~= message);
    }
}

/// The choices of values are told apart by their parameter, and none is left out of
/// it.
pub proof fn a_choice_of_values_is_named(v: DisplayValueArg)
    ensures
        display_option(Some(v)) == Some("true"@) <==> v == DisplayValueArg::True,
        display_option(Some(v)) == Some("false"@) <==> v == DisplayValueArg::False,
        display_option(Some(v)) == Some("all"@) <==> v == DisplayValueArg::All,
        display_option(None) is None,
{
    reveal_strlit("true");
    reveal_strlit("false");
    reveal_strlit("all");
    assert("true"@.len() == 4 && "false"@.len() == 5 && "all"@.len() == 3);
}

/// Only a yes is a yes: the letter or the word, small or in capitals.
pub proof fn only_a_yes_confirms(s: Seq<char>)
    ensures
        affirmative(s) ==> ascii_lowered(s) == "y"@ || ascii_lowered(s) == "yes"@,
        s == "y"@ || s == "yes"@ || s == "Y"@ || s == "YES"@ ==> affirmative(s),
        s.len() == 0 ==> !affirmative(s),
{
    reveal_strlit("y");
    reveal_strlit("Y");
    reveal_strlit("yes");
    reveal_strlit("YES");
    assert(ascii_lowered("y"@) =~= "y"@);
    assert(ascii_lowered("Y"@) =~= "y"@);
    assert(ascii_lowered("yes"@) =~= "yes"@);
    assert(ascii_lowered("YES"@) =~= "yes"@);
}

/// A sentence begins with the capital of its first character, and goes on as it was.
pub proof fn a_sentence_begins_with_a_capital(c: char, rest: Seq<char>)
    ensures
        sentence_case(seq![c] + rest) == capital(c) + rest,
        sentence_case(Seq::empty()).len() == 0,
{
    assert((seq![c] + rest).drop_first() =~= rest);
}

} // verus!
