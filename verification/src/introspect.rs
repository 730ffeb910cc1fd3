//! The command tree as a document, and the commands of a group.
//!
//! The tree is described by plain values: the caller walks its command parser and
//! fills them in.

use vstd::prelude::*;

use crate::error::text_option;
use crate::json::{docs, lemma_docs_push, put, Doc, Json};
use crate::order::{sort_texts, sorted, texts};
use crate::text::same;

verus! {

/// What an argument does with the words of the command line.
#[derive(Debug, Clone, Copy, PartialEq, Eq, Structural)]
pub enum ArgKind {
    /// It takes a value.
    One,
    /// It takes a value, and may be repeated.
    Many,
    /// It stands alone.
    Flag,
    /// It stands alone, and is counted.
    Count,
    /// It shows the help or the version and ends the program.
    Builtin,
}

/// An argument of a command.
#[derive(Debug)]
pub struct ArgInfo {
    pub id: String,
    pub long: Option<String>,
    pub short: Option<String>,
    pub aliases: Vec<String>,
    pub help: Option<String>,
    pub help_heading: Option<String>,
    pub required: bool,
    pub hidden: bool,
    pub positional: bool,
    pub kind: ArgKind,
    pub value_names: Vec<String>,
    pub default_values: Vec<String>,
    pub possible_values: Vec<String>,
    pub conflicts: Vec<String>,
}

/// A command, its arguments and the commands under it.
#[derive(Debug)]
pub struct CommandInfo {
    pub name: String,
    pub about: Option<String>,
    pub hidden: bool,
    pub args: Vec<ArgInfo>,
    pub subcommands: Vec<CommandInfo>,
}

/// The document of an optional text.
pub open spec fn text_doc(t: Option<Seq<char>>) -> Doc {
    match t {
        Some(s) => Doc::Str(s),
        None => Doc::Null,
    }
}

/// A text as a document.
pub open spec fn str_doc() -> spec_fn(Seq<char>) -> Doc {
    |t: Seq<char>| Doc::Str(t)
}

/// The document of a list of texts.
pub open spec fn list_doc(ts: Seq<Seq<char>>) -> Doc {
    Doc::Array(ts.map_values(str_doc()))
}

/// Whether an argument takes a value.
pub open spec fn takes_value(k: ArgKind) -> bool {
    k is One || k is Many
}

/// What is said of an argument. Its conflicts are listed in order, and a flag has
/// no values to choose from.
pub open spec fn arg_doc(a: ArgInfo) -> Doc {
    Doc::Object(
        Map::empty().insert("name"@, Doc::Str(a.id@)).insert(
            "long"@,
            text_doc(text_option(a.long)),
        ).insert("short"@, text_doc(text_option(a.short))).insert(
            "aliases"@,
            list_doc(texts(a.aliases@)),
        ).insert("help"@, text_doc(text_option(a.help))).insert(
            "help_heading"@,
            text_doc(text_option(a.help_heading)),
        ).insert("required"@, Doc::Bool(a.required)).insert(
            "takes_value"@,
            Doc::Bool(takes_value(a.kind)),
        ).insert(
            "value_name"@,
            if a.value_names@.len() > 0 {
                Doc::Str(a.value_names@[0]@)
            } else {
                Doc::Null
            },
        ).insert("positional"@, Doc::Bool(a.positional)).insert(
            "repeatable"@,
            Doc::Bool(a.kind is Many || a.kind is Count),
        ).insert("default_values"@, list_doc(texts(a.default_values@))).insert(
            "possible_values"@,
            if takes_value(a.kind) {
                list_doc(texts(a.possible_values@))
            } else {
                list_doc(Seq::empty())
            },
        ).insert("conflicts_with"@, list_doc(sorted(texts(a.conflicts@)))),
    )
}

/// The document of a list of texts.
fn list_json(ts: &Vec<String>) -> (r: Json)
    ensures
        r@ == list_doc(texts(ts@)),
{
    let mut out: Vec<Json> = Vec::new();
    let ghost all = texts(ts@);
    let mut i: usize = 0;
    assert(docs(out@) =~= all.take(0).map_values(str_doc()));
    while i < ts.len()
        invariant
            i <= ts.len(),
            all == texts(ts@),
            docs(out@) == all.take(i as int).map_values(str_doc()),
        decreases ts.len() - i,
    {
        broadcast use lemma_docs_push;

        assert(all[i as int] == ts@[i as int]@);
        assert(all.take(i + 1).map_values(str_doc()) =~= all.take(i as int).map_values(
            str_doc(),
        ).push(Doc::Str(all[i as int])));
        out.push(Json::str(ts[i].as_str()));
        i = i + 1;
    }
    assert(all.take(i as int) =~= all);
    Json::Array(out)
}

/// Whether an argument is one that ends the program before any command runs. It
/// goes by what the argument does and not by its name.
pub fn is_builtin(a: &ArgInfo) -> (r: bool)
    ensures
        r == (a.kind is Builtin),
{
    matches!(a.kind, ArgKind::Builtin)
}

/// Describes an argument.
pub fn describe_arg(a: &ArgInfo) -> (r: Json)
    ensures
        r@ == arg_doc(*a),
{
    let takes = matches!(a.kind, ArgKind::One) || matches!(a.kind, ArgKind::Many);
    let repeatable = matches!(a.kind, ArgKind::Many) || matches!(a.kind, ArgKind::Count);
    let mut m: Vec<(String, Json)> = Vec::new();
    put(&mut m, "name", Json::str(a.id.as_str()));
    put(&mut m, "long", Json::str_or_null(&a.long));
    put(&mut m, "short", Json::str_or_null(&a.short));
    put(&mut m, "aliases", list_json(&a.aliases));
    put(&mut m, "help", Json::str_or_null(&a.help));
    put(&mut m, "help_heading", Json::str_or_null(&a.help_heading));
    put(&mut m, "required", Json::Bool(a.required));
    put(&mut m, "takes_value", Json::Bool(takes));
    let value_name = if a.value_names.len() > 0 {
        Json::str(a.value_names[0].as_str())
    } else {
        Json::Null
    };
    put(&mut m, "value_name", value_name);
    put(&mut m, "positional", Json::Bool(a.positional));
    put(&mut m, "repeatable", Json::Bool(repeatable));
    put(&mut m, "default_values", list_json(&a.default_values));
    let none: Vec<String> = Vec::new();
    assert(texts(none@) =~= Seq::empty());
    let possible = if takes {
        list_json(&a.possible_values)
    } else {
        list_json(&none)
    };
    put(&mut m, "possible_values", possible);
    put(&mut m, "conflicts_with", list_json(&sort_texts(&a.conflicts)));
    Json::Object(m)
}

/// The arguments that are described: those that are shown and run a command.
pub open spec fn arg_docs(args: Seq<ArgInfo>) -> Seq<Doc>
    decreases args.len(),
{
    if args.len() == 0 {
        Seq::empty()
    } else {
        let a = args.last();
        if !a.hidden && !(a.kind is Builtin) {
            arg_docs(args.drop_last()).push(arg_doc(a))
        } else {
            arg_docs(args.drop_last())
        }
    }
}

/// Whether a command is described: it is shown, and it is not the help.
pub open spec fn listed(c: CommandInfo) -> bool {
    c.name@ != "help"@ && !c.hidden
}

/// What is said of a command under a name.
pub open spec fn command_doc(c: CommandInfo, name: Seq<char>) -> Doc
    decreases c,
{
    Doc::Object(
        Map::empty().insert("name"@, Doc::Str(name)).insert(
            "about"@,
            text_doc(text_option(c.about)),
        ).insert("args"@, Doc::Array(arg_docs(c.args@))).insert(
            "subcommands"@,
            Doc::Array(command_docs(c.subcommands@)),
        ),
    )
}

/// What is said of the commands of a list that are described.
pub open spec fn command_docs(cs: Seq<CommandInfo>) -> Seq<Doc>
    decreases cs,
{
    if cs.len() == 0 {
        Seq::empty()
    } else if listed(cs.last()) {
        command_docs(cs.drop_last()).push(command_doc(cs.last(), cs.last().name@))
    } else {
        command_docs(cs.drop_last())
    }
}

/// Describes the arguments of a command.
fn describe_args(args: &Vec<ArgInfo>) -> (r: Vec<Json>)
    ensures
        docs(r@) == arg_docs(args@),
{
    let mut out: Vec<Json> = Vec::new();
    let mut i: usize = 0;
    while i < args.len()
        invariant
            i <= args.len(),
            docs(out@) == arg_docs(args@.take(i as int)),
        decreases args.len() - i,
    {
        broadcast use lemma_docs_push;

        assert(args@.take(i + 1).drop_last() =~= args@.take(i as int));
        if !args[i].hidden && !is_builtin(&args[i]) {
            out.push(describe_arg(&args[i]));
        }
        i = i + 1;
    }
    assert(args@.take(i as int) =~= args@);
    out
}

/// Describes a command and all that stands under it.
pub fn describe_command(c: &CommandInfo, name: &str) -> (r: Json)
    ensures
        r@ == command_doc(*c, name@),
    decreases c,
{
    let mut subs: Vec<Json> = Vec::new();
    let mut i: usize = 0;
    while i < c.subcommands.len()
        invariant
            i <= c.subcommands.len(),
            docs(subs@) == command_docs(c.subcommands@.take(i as int)),
        decreases c.subcommands.len() - i,
    {
        broadcast use lemma_docs_push;

        let ghost all = c.subcommands@;
        assert(all.take(i + 1).drop_last() =~= all.take(i as int));
        assert(decreases_to!(c => c.subcommands));
        assert(decreases_to!(c.subcommands => c.subcommands@));
        assert(decreases_to!(all => all[i as int]));
        let sub = &c.subcommands[i];
        if !same(sub.name.as_str(), "help") && !sub.hidden {
            subs.push(describe_command(sub, sub.name.as_str()));
        }
        i = i + 1;
    }
    assert(c.subcommands@.take(i as int) =~= c.subcommands@);
    let mut m: Vec<(String, Json)> = Vec::new();
    put(&mut m, "name", Json::str(name));
    put(&mut m, "about", Json::str_or_null(&c.about));
    put(&mut m, "args", Json::Array(describe_args(&c.args)));
    put(&mut m, "subcommands", Json::Array(subs));
    Json::Object(m)
}

/// A described command is called what it was described as.
proof fn lemma_command_name(c: CommandInfo, name: Seq<char>)
    ensures
        command_doc(c, name).field_text("name"@) == Some(name),
{
    reveal_strlit("name");
    reveal_strlit("about");
    reveal_strlit("args");
    reveal_strlit("subcommands");
    assert("name"@[0] != "args"@[0]);
}

/// The help mirrors the whole tree and describes nothing that can be called, so no
/// list of commands has it, and none lists a command that is not shown.
pub proof fn only_shown_commands_are_listed(cs: Seq<CommandInfo>)
    ensures
        forall|i: int|
            0 <= i < command_docs(cs).len() ==> (#[trigger] command_docs(cs)[i]).field_text("name"@)
                != Some("help"@) && exists|j: int|
                0 <= j < cs.len() && listed(#[trigger] cs[j]) && command_docs(cs)[i] == command_doc(
                    cs[j],
                    cs[j].name@,
                ),
    decreases cs.len(),
{
    if cs.len() > 0 {
        let rest = cs.drop_last();
        only_shown_commands_are_listed(rest);
        lemma_command_name(cs.last(), cs.last().name@);
        assert forall|i: int| 0 <= i < command_docs(cs).len() implies (
        #[trigger] command_docs(cs)[i]).field_text("name"@) != Some("help"@) && exists|j: int|
            0 <= j < cs.len() && listed(#[trigger] cs[j]) && command_docs(cs)[i] == command_doc(
                cs[j],
                cs[j].name@,
            ) by {
            if i < command_docs(rest).len() {
                assert(command_docs(cs)[i] == command_docs(rest)[i]);
                let j = choose|j: int|
                    0 <= j < rest.len() && listed(#[trigger] rest[j]) && command_docs(rest)[i]
                        == command_doc(rest[j], rest[j].name@);
                assert(cs[j] == rest[j]);
            } else {
                assert(cs[cs.len() - 1] == cs.last());
            }
        }
    }
}

/// The whole tree, with the version of the program at its root.
pub open spec fn tree_doc(root: CommandInfo, version: Seq<char>) -> Doc {
    match command_doc(root, "sn"@) {
        Doc::Object(m) => Doc::Object(m.insert("version"@, Doc::Str(version))),
        other => other,
    }
}

/// Describes the whole tree.
pub fn run(root: &CommandInfo, version: &str) -> (r: Json)
    ensures
        r@ == tree_doc(*root, version@),
{
    match describe_command(root, "sn") {
        Json::Object(mut m) => {
            put(&mut m, "version", Json::str(version));
            Json::Object(m)
        },
        other => other,
    }
}

/// The first command of a name under another, each command before those under it.
pub open spec fn found(c: CommandInfo, name: Seq<char>) -> Option<CommandInfo>
    decreases c,
{
    found_among(c.subcommands@, name)
}

/// The first command of a name among some and all that stand under them.
pub open spec fn found_among(cs: Seq<CommandInfo>, name: Seq<char>) -> Option<CommandInfo>
    decreases cs,
{
    if cs.len() == 0 {
        None
    } else {
        match found_among(cs.drop_last(), name) {
            Some(c) => Some(c),
            None => if cs.last().name@ == name {
                Some(cs.last())
            } else {
                found(cs.last(), name)
            },
        }
    }
}

/// Finds a command by its name.
pub fn find_command<'a>(c: &'a CommandInfo, name: &str) -> (r: Option<&'a CommandInfo>)
    ensures
        match r {
            Some(f) => found(*c, name@) == Some(*f),
            None => found(*c, name@) is None,
        },
    decreases c,
{
    let mut i: usize = 0;
    while i < c.subcommands.len()
        invariant
            i <= c.subcommands.len(),
            found_among(c.subcommands@.take(i as int), name@) is None,
        decreases c.subcommands.len() - i,
    {
        let ghost all = c.subcommands@;
        assert(all.take(i + 1).drop_last() =~= all.take(i as int));
        assert(decreases_to!(c => c.subcommands));
        assert(decreases_to!(c.subcommands => c.subcommands@));
        assert(decreases_to!(all => all[i as int]));
        let sub = &c.subcommands[i];
        if same(sub.name.as_str(), name) {
            proof {
                lemma_found_stays(all, i + 1, name@);
            }
            return Some(sub);
        }
        let deeper = find_command(sub, name);
        if deeper.is_some() {
            proof {
                lemma_found_stays(all, i + 1, name@);
            }
            return deeper;
        }
        i = i + 1;
    }
    assert(c.subcommands@.take(i as int) =~= c.subcommands@);
    None
}

/// What is found among the first commands stays found among all.
proof fn lemma_found_stays(cs: Seq<CommandInfo>, n: int, name: Seq<char>)
    requires
        0 <= n <= cs.len(),
        found_among(cs.take(n), name) is Some,
    ensures
        found_among(cs, name) == found_among(cs.take(n), name),
    decreases cs.len(),
{
    if n == cs.len() {
        assert(cs.take(n) =~= cs);
    } else {
        assert(cs.drop_last().take(n) =~= cs.take(n));
        lemma_found_stays(cs.drop_last(), n, name);
    }
}

/// The names of the commands of a list but for the help.
pub open spec fn verb_names(cs: Seq<CommandInfo>) -> Seq<Seq<char>>
    decreases cs.len(),
{
    if cs.len() == 0 {
        Seq::empty()
    } else if cs.last().name@ != "help"@ {
        verb_names(cs.drop_last()).push(cs.last().name@)
    } else {
        verb_names(cs.drop_last())
    }
}

/// The commands of a group, for a message that would otherwise name none of them.
/// There are none where the group is unknown or has no commands.
pub fn valid_subcommands(root: &CommandInfo, group: &str) -> (r: Option<Vec<String>>)
    ensures
        match r {
            Some(names) => found(*root, group@) is Some && texts(names@) == verb_names(
                found(*root, group@)->0.subcommands@,
            ) && names@.len() > 0,
            None => found(*root, group@) is None || verb_names(
                found(*root, group@)->0.subcommands@,
            ).len() == 0,
        },
{
    let node = match find_command(root, group) {
        Some(c) => c,
        None => {
            return None;
        },
    };
    let mut names: Vec<String> = Vec::new();
    let mut i: usize = 0;
    assert(texts(names@) =~= verb_names(node.subcommands@.take(0)));
    while i < node.subcommands.len()
        invariant
            i <= node.subcommands.len(),
            texts(names@) == verb_names(node.subcommands@.take(i as int)),
        decreases node.subcommands.len() - i,
    {
        assert(node.subcommands@.take(i + 1).drop_last() =~= node.subcommands@.take(i as int));
        let name = &node.subcommands[i].name;
        if !same(name.as_str(), "help") {
            let ghost prior = texts(names@);
            names.push(name.clone());
            assert(texts(names@) =~= prior.push(name@));
        }
        i = i + 1;
    }
    assert(node.subcommands@.take(i as int) =~= node.subcommands@);
    assert(texts(names@).len() == names@.len());
    if names.len() > 0 {
        Some(names)
    } else {
        None
    }
}

/// An argument is described part by part.
#[verifier::rlimit(40)]
pub proof fn an_argument_is_described_part_by_part(a: ArgInfo)
    ensures
        ({
            let d = arg_doc(a);
            &&& d.field("name"@) == Some(Doc::Str(a.id@))
            &&& a.long matches Some(s) ==> d.field("long"@) == Some(Doc::Str(s@))
            &&& a.short matches Some(s) ==> d.field("short"@) == Some(Doc::Str(s@))
            &&& a.help matches Some(s) ==> d.field("help"@) == Some(Doc::Str(s@))
            &&& a.help_heading matches Some(s) ==> d.field("help_heading"@) == Some(Doc::Str(s@))
            &&& a.long is None ==> d.field("long"@) == Some(Doc::Null)
            &&& a.short is None ==> d.field("short"@) == Some(Doc::Null)
            &&& d.field("aliases"@) == Some(list_doc(texts(a.aliases@)))
            &&& d.field("required"@) == Some(Doc::Bool(a.required))
            &&& d.field("takes_value"@) == Some(Doc::Bool(a.kind is One || a.kind is Many))
            &&& d.field("repeatable"@) == Some(Doc::Bool(a.kind is Many || a.kind is Count))
            &&& d.field("positional"@) == Some(Doc::Bool(a.positional))
            &&& a.value_names@.len() > 0 ==> d.field("value_name"@) == Some(
                Doc::Str(a.value_names@[0]@),
            )
            &&& d.field("default_values"@) == Some(list_doc(texts(a.default_values@)))
            &&& a.kind is One || a.kind is Many ==> d.field("possible_values"@) == Some(
                list_doc(texts(a.possible_values@)),
            )
            &&& !(a.kind is One || a.kind is Many) ==> d.field("possible_values"@) == Some(
                list_doc(Seq::empty()),
            )
            &&& d.field("conflicts_with"@) == Some(list_doc(sorted(texts(a.conflicts@))))
        }),
{
    reveal_strlit("name");
    reveal_strlit("long");
    reveal_strlit("short");
    reveal_strlit("aliases");
    reveal_strlit("help");
    reveal_strlit("help_heading");
    reveal_strlit("required");
    reveal_strlit("takes_value");
    reveal_strlit("value_name");
    reveal_strlit("positional");
    reveal_strlit("repeatable");
    reveal_strlit("default_values");
    reveal_strlit("possible_values");
    reveal_strlit("conflicts_with");
    assert("name"@.len() == 4 && "long"@.len() == 4 && "short"@.len() == 5 && "aliases"@.len() == 7 && "help"@.len() == 4 && "help_heading"@.len() == 12 && "required"@.len() == 8 && "takes_value"@.len() == 11 && "value_name"@.len() == 10 && "positional"@.len() == 10 && "repeatable"@.len() == 10 && "default_values"@.len() == 14 && "possible_values"@.len() == 15 && "conflicts_with"@.len() == 14);
    assert("name"@[0] != "long"@[0]);
    assert("name"@[0] != "help"@[0]);
    assert("long"@[0] != "help"@[0]);
    assert("value_name"@[0] != "positional"@[0]);
    assert("value_name"@[0] != "repeatable"@[0]);
    assert("positional"@[0] != "repeatable"@[0]);
    assert("default_values"@[0] != "conflicts_with"@[0]);
}

/// A list of texts is described by a text for each of them.
pub proof fn a_list_is_described_text_by_text(ts: Seq<Seq<char>>)
    ensures
        list_doc(ts) matches Doc::Array(ds) && ds.len() == ts.len() && forall|i: int|
            0 <= i < ts.len() ==> #[trigger] ds[i] == Doc::Str(ts[i]),
{
}

/// The arguments that are described are those that are shown and are no built-in ones:
/// all of them.
pub proof fn every_shown_argument_is_described(args: Seq<ArgInfo>, i: int)
    requires
        0 <= i < args.len(),
    ensures
        !args[i].hidden && !(args[i].kind is Builtin) ==> arg_docs(args).contains(arg_doc(args[i])),
        forall|k: int|
            0 <= k < arg_docs(args).len() ==> exists|j: int|
                0 <= j < args.len() && !(#[trigger] args[j]).hidden && !(args[j].kind is Builtin)
                    && #[trigger] arg_docs(args)[k] == arg_doc(args[j]),
    decreases args.len(),
{
    let less = args.drop_last();
    let a = arg_docs(less);
    let all = arg_docs(args);
    if i < less.len() {
        every_shown_argument_is_described(less, i);
        assert(less[i] == args[i]);
        if a.contains(arg_doc(args[i])) {
            let k = a.index_of(arg_doc(args[i]));
            assert(all[k] == arg_doc(args[i]));
        }
    } else {
        if less.len() > 0 {
            every_shown_argument_is_described(less, 0);
        }
        if !args[i].hidden && !(args[i].kind is Builtin) {
            assert(all[a.len() as int] == arg_doc(args[i]));
        }
    }
    assert forall|k: int| 0 <= k < all.len() implies exists|j: int|
        0 <= j < args.len() && !(#[trigger] args[j]).hidden && !(args[j].kind is Builtin)
            && #[trigger] all[k] == arg_doc(args[j]) by {
        if k < a.len() {
            assert(all[k] == a[k]);
            let j = choose|j: int|
                0 <= j < less.len() && !(#[trigger] less[j]).hidden && !(less[j].kind is Builtin)
                    && a[k] == arg_doc(less[j]);
            assert(args[j] == less[j]);
        } else {
            assert(args[args.len() - 1] == args.last());
        }
    }
}

/// A command is described part by part, and the root of the tree names the program and
/// its version.
pub proof fn a_command_is_described_part_by_part(
    c: CommandInfo,
    name: Seq<char>,
    version: Seq<char>,
)
    ensures
        ({
            let d = command_doc(c, name);
            &&& d.field("name"@) == Some(Doc::Str(name))
            &&& c.about matches Some(s) ==> d.field("about"@) == Some(Doc::Str(s@))
            &&& c.about is None ==> d.field("about"@) == Some(Doc::Null)
            &&& d.field("args"@) == Some(Doc::Array(arg_docs(c.args@)))
            &&& d.field("subcommands"@) == Some(Doc::Array(command_docs(c.subcommands@)))
        }),
        tree_doc(c, version).field("version"@) == Some(Doc::Str(version)),
        tree_doc(c, version).field("name"@) == Some(Doc::Str("sn"@)),
        tree_doc(c, version).field("subcommands"@) == Some(
            Doc::Array(command_docs(c.subcommands@)),
        ),
{
    reveal_strlit("name");
    reveal_strlit("about");
    reveal_strlit("args");
    reveal_strlit("subcommands");
    reveal_strlit("version");
    assert("name"@.len() == 4 && "about"@.len() == 5 && "args"@.len() == 4 && "subcommands"@.len() == 11 && "version"@.len() == 7);
    assert("name"@[0] != "args"@[0]);
}

/// Every command that is shown and is not the help is described.
pub proof fn every_shown_command_is_described(cs: Seq<CommandInfo>, i: int)
    requires
        0 <= i < cs.len(),
        !cs[i].hidden && cs[i].name@ != "help"@,
    ensures
        command_docs(cs).contains(command_doc(cs[i], cs[i].name@)),
    decreases cs.len(),
{
    let less = cs.drop_last();
    let a = command_docs(less);
    let all = command_docs(cs);
    if i < less.len() {
        every_shown_command_is_described(less, i);
        assert(less[i] == cs[i]);
        let k = a.index_of(command_doc(cs[i], cs[i].name@));
        assert(all[k] == command_doc(cs[i], cs[i].name@));
    } else {
        assert(all[a.len() as int] == command_doc(cs[i], cs[i].name@));
    }
}

/// A command that is found has the name that was looked for, and one that stands among
/// the commands is found.
pub proof fn a_command_is_found_by_its_name(cs: Seq<CommandInfo>, name: Seq<char>)
    ensures
        found_among(cs, name) matches Some(c) ==> c.name@ == name,
        (exists|i: int| 0 <= i < cs.len() && (#[trigger] cs[i]).name@ == name) ==> found_among(
            cs,
            name,
        ) is Some,
        forall|i: int|
            0 <= i < cs.len() && found(#[trigger] cs[i], name) is Some ==> found_among(cs, name)
                is Some,
    decreases cs,
{
    if cs.len() > 0 {
        let less = cs.drop_last();
        let c = cs.last();
        a_command_is_found_by_its_name(less, name);
        a_command_is_found_by_its_name(c.subcommands@, name);
        if exists|i: int| 0 <= i < cs.len() && (#[trigger] cs[i]).name@ == name {
            let i = choose|i: int| 0 <= i < cs.len() && (#[trigger] cs[i]).name@ == name;
            if i < less.len() {
                assert(less[i] == cs[i]);
            }
        }
        assert forall|i: int|
            0 <= i < cs.len() && found(#[trigger] cs[i], name) is Some implies found_among(
            cs,
            name,
        ) is Some by {
            if i < less.len() {
                assert(less[i] == cs[i]);
            }
        }
    }
}

/// The verbs are the names of the commands but for the help.
pub proof fn the_verbs_are_the_names(cs: Seq<CommandInfo>, t: Seq<char>)
    ensures
        verb_names(cs).contains(t) <==> t != "help"@ && exists|i: int|
            0 <= i < cs.len() && (#[trigger] cs[i]).name@ == t,
    decreases cs.len(),
{
    if cs.len() > 0 {
        let less = cs.drop_last();
        the_verbs_are_the_names(less, t);
        let a = verb_names(less);
        let all = verb_names(cs);
        if all.contains(t) {
            let k = all.index_of(t);
            if k < a.len() {
                assert(a[k] == t);
                let i = choose|i: int| 0 <= i < less.len() && (#[trigger] less[i]).name@ == t;
                assert(cs[i] == less[i]);
            } else {
                assert(cs[cs.len() - 1].name@ == t);
            }
        }
        if t != "help"@ && exists|i: int| 0 <= i < cs.len() && (#[trigger] cs[i]).name@ == t {
            let i = choose|i: int| 0 <= i < cs.len() && (#[trigger] cs[i]).name@ == t;
            if i < less.len() {
                assert(less[i] == cs[i]);
                let k = a.index_of(t);
                assert(all[k] == t);
            } else {
                assert(all[a.len() as int] == t);
            }
        }
    }
}

} // verus!
