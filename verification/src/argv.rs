//! The command line: verbs that may be left out, and usage lines.

use vstd::prelude::*;

use crate::order::texts;
use crate::text::{chars_of, find, lemma_first, same, split_whitespace, words};

verus! {

/// The text of a word of the command line, where it is one.
pub open spec fn word_option(w: Option<String>) -> Option<Seq<char>> {
    match w {
        Some(w) => Some(w@),
        None => None,
    }
}

/// The words of a command line. A word that is no text stands for none.
pub open spec fn argument_words(v: Seq<Option<String>>) -> Seq<Option<Seq<char>>> {
    v.map_values(|w: Option<String>| word_option(w))
}

/// The groups whose verb may be left out.
pub open spec fn implies_verb(group: Seq<char>) -> bool {
    group == "table"@ || group == "cmdb"@
}

/// Whether a group stands at a place, with a word right behind it.
pub open spec fn stands_at(
    argv: Seq<Option<Seq<char>>>,
    group: Seq<char>,
    token: Seq<char>,
    i: int,
) -> bool {
    0 <= i && i + 1 < argv.len() && argv[i] == Some(group) && argv[i + 1] == Some(token)
}

/// The first place from `i` on where a group stands with a word right behind it.
pub open spec fn group_place(
    argv: Seq<Option<Seq<char>>>,
    group: Seq<char>,
    token: Seq<char>,
    i: int,
) -> Option<int>
    decreases argv.len() - i,
{
    if i < 0 || i + 1 >= argv.len() {
        None
    } else if stands_at(argv, group, token, i) {
        Some(i)
    } else {
        group_place(argv, group, token, i + 1)
    }
}

/// The place where a verb goes, and the verbs to try there one after the other.
/// A word with a colon is a reference to one record.
pub open spec fn implied(
    argv: Seq<Option<Seq<char>>>,
    group: Seq<char>,
    token: Seq<char>,
    misspelt: bool,
) -> Option<(int, Seq<Seq<char>>)> {
    if misspelt || !implies_verb(group) {
        None
    } else {
        match group_place(argv, group, token, 0) {
            None => None,
            Some(i) => Some(
                (
                    i + 1,
                    if token.contains(':') {
                        seq!["get"@]
                    } else {
                        seq!["list"@, "get"@]
                    },
                ),
            ),
        }
    }
}

/// Whether a word is the given text.
fn is_word(w: &Option<String>, s: &str) -> (r: bool)
    ensures
        r == (word_option(*w) == Some(s@)),
{
    match w {
        Some(t) => same(t.as_str(), s),
        None => false,
    }
}

/// Where a read verb that was left out goes, and which verbs to try: where the
/// word behind a group is no verb of it, nor a misspelt one.
pub fn implied_verb_argv(
    argv: &Vec<Option<String>>,
    group: &str,
    token: &str,
    misspelt: bool,
) -> (r: Option<(usize, Vec<String>)>)
    ensures
        match implied(argument_words(argv@), group@, token@, misspelt) {
            None => r is None,
            Some((at, verbs)) => r matches Some((n, v)) && n == at && texts(v@) == verbs,
        },
{
    if misspelt || !(same(group, "table") || same(group, "cmdb")) {
        return None;
    }
    let ghost all = argument_words(argv@);
    let v = chars_of(token);
    proof {
        lemma_first(token@, ':');
    }
    let is_reference = find(&v, ':').is_some();
    let mut i: usize = 0;
    while i < argv.len() && argv.len() - i > 1
        invariant
            i <= argv.len(),
            all == argument_words(argv@),
            all.len() == argv@.len(),
            implies_verb(group@),
            !misspelt,
            is_reference == token@.contains(':'),
            group_place(all, group@, token@, 0) == group_place(all, group@, token@, i as int),
        decreases argv.len() - i,
    {
        assert(all[i as int] == word_option(argv@[i as int]));
        assert(all[i + 1] == word_option(argv@[i + 1]));
        if is_word(&argv[i], group) && is_word(&argv[i + 1], token) {
            let mut verbs: Vec<String> = Vec::new();
            if !is_reference {
                verbs.push("list".to_owned());
            }
            verbs.push("get".to_owned());
            assert(is_reference ==> texts(verbs@) =~= seq!["get"@]);
            assert(!is_reference ==> texts(verbs@) =~= seq!["list"@, "get"@]);
            return Some((i + 1, verbs));
        }
        i = i + 1;
    }
    None
}

/// A verb is put in only right behind a group that may go without one.
pub proof fn a_verb_is_put_behind_its_group(
    argv: Seq<Option<Seq<char>>>,
    group: Seq<char>,
    token: Seq<char>,
    misspelt: bool,
)
    ensures
        implied(argv, group, token, misspelt) matches Some((at, verbs)) ==> implies_verb(group)
            && stands_at(argv, group, token, at - 1),
{
    lemma_group_place(argv, group, token, 0);
}

proof fn lemma_group_place(
    argv: Seq<Option<Seq<char>>>,
    group: Seq<char>,
    token: Seq<char>,
    i: int,
)
    ensures
        group_place(argv, group, token, i) matches Some(k) ==> stands_at(argv, group, token, k),
    decreases argv.len() - i,
{
    if 0 <= i && i + 1 < argv.len() {
        lemma_group_place(argv, group, token, i + 1);
    }
}

/// The group of a usage line: the word before a `<COMMAND>` that ends it.
pub open spec fn group_of(usage: Seq<char>) -> Option<Seq<char>> {
    let w = words(usage);
    if w.len() >= 2 && w.last() == "<COMMAND>"@ {
        Some(w[w.len() - 2])
    } else {
        None
    }
}

/// The group of a usage line.
pub fn usage_group(usage: &str) -> (r: Option<String>)
    ensures
        crate::error::text_option(r) == group_of(usage@),
{
    let mut w = split_whitespace(usage);
    let ghost all = texts(w@);
    let n = w.len();
    assert(all.len() == n);
    if n < 2 {
        return None;
    }
    assert(all[n - 1] == w@[n - 1]@);
    assert(all[n - 2] == w@[n - 2]@);
    if !same(w[n - 1].as_str(), "<COMMAND>") {
        return None;
    }
    Some(w.remove(n - 2))
}

/// A positional of a command.
#[derive(Debug)]
pub struct Positional {
    pub name: String,
    pub required: bool,
    pub repeatable: bool,
}

/// A positional of a command, as a view.
pub ghost struct Place {
    pub name: Seq<char>,
    pub required: bool,
    pub repeatable: bool,
}

impl Positional {
    pub open spec fn view(&self) -> Place {
        Place { name: self.name@, required: self.required, repeatable: self.repeatable }
    }
}

/// How a positional is written.
pub open spec fn place_text(p: Place) -> Seq<char> {
    let named = if p.required {
        " <"@ + p.name + ">"@
    } else {
        " ["@ + p.name + "]"@
    };
    if p.repeatable {
        named + "..."@
    } else {
        named
    }
}

/// The positionals of a list.
pub open spec fn places(v: Seq<Positional>) -> Seq<Place> {
    v.map_values(|p: Positional| p@)
}

/// A path with positionals behind it.
pub open spec fn with_places(path: Seq<char>, ps: Seq<Place>) -> Seq<char>
    decreases ps.len(),
{
    if ps.len() == 0 {
        path
    } else {
        with_places(path, ps.drop_last()) + place_text(ps.last())
    }
}

/// The usage line of a command: its positionals, and the options last.
pub fn usage_line(path: &str, positionals: &Vec<Positional>) -> (r: String)
    ensures
        r@ == with_places(path@, places(positionals@)) + " [OPTIONS]"@,
{
    let ghost all = places(positionals@);
    let mut usage = path.to_owned();
    let mut i: usize = 0;
    assert(all.take(0) =~= Seq::empty());
    while i < positionals.len()
        invariant
            i <= positionals.len(),
            all == places(positionals@),
            usage@ == with_places(path@, all.take(i as int)),
        decreases positionals.len() - i,
    {
        let p = &positionals[i];
        assert(all.take(i + 1).drop_last() =~= all.take(i as int));
        assert(all.take(i + 1).last() == p@);
        let ghost prior = usage@;
        let named = if p.required {
            " <".to_owned().concat(p.name.as_str()).concat(">")
        } else {
            " [".to_owned().concat(p.name.as_str()).concat("]")
        };
        let named = if p.repeatable {
            named.concat("...")
        } else {
            named
        };
        usage = usage.concat(named.as_str());
        i = i + 1;
    }
    assert(all.take(i as int) =~= all);
    usage.concat(" [OPTIONS]")
}

/// The usage line of a group of commands, one of which may be left out where the
/// group is a command itself.
pub fn group_usage_line(path: &str, required: bool) -> (r: String)
    ensures
        r@ == path@ + (if required {
            " <COMMAND>"@
        } else {
            " [COMMAND]"@
        }),
{
    if required {
        path.to_owned().concat(" <COMMAND>")
    } else {
        path.to_owned().concat(" [COMMAND]")
    }
}

proof fn lemma_first_group(argv: Seq<Option<Seq<char>>>, group: Seq<char>, token: Seq<char>, i: int)
    requires
        0 <= i,
    ensures
        group_place(argv, group, token, i) matches Some(k) ==> i <= k && stands_at(
            argv,
            group,
            token,
            k,
        ) && forall|j: int| i <= j < k ==> !#[trigger] stands_at(argv, group, token, j),
        group_place(argv, group, token, i) is None ==> forall|j: int|
            i <= j ==> !#[trigger] stands_at(argv, group, token, j),
    decreases argv.len() - i,
{
    if i + 1 < argv.len() && !stands_at(argv, group, token, i) {
        lemma_first_group(argv, group, token, i + 1);
    }
}

/// A verb is left out only of the groups that imply one; it goes behind the first place
/// where the group stands before the word, and a reference to one record is read, not
/// listed.
pub proof fn a_verb_is_implied_where_its_group_stands(
    argv: Seq<Option<Seq<char>>>,
    group: Seq<char>,
    token: Seq<char>,
    misspelt: bool,
    i: int,
)
    ensures
        implied(argv, group, token, misspelt) is Some ==> !misspelt && (group == "table"@ || group
            == "cmdb"@),
        !misspelt && (group == "table"@ || group == "cmdb"@) && stands_at(argv, group, token, i)
            ==> (implied(argv, group, token, misspelt) matches Some((at, verbs)) && at <= i + 1),
        implied(argv, group, token, misspelt) matches Some((at, verbs)) ==> (if token.contains(
            ':',
        ) {
            verbs == seq!["get"@]
        } else {
            verbs == seq!["list"@, "get"@]
        }),
{
    lemma_first_group(argv, group, token, 0);
}

/// A positional that is required stands in angle brackets, another in square ones, and
/// dots follow one that can be repeated.
pub proof fn a_positional_is_written_by_its_kind(p: Place)
    ensures
        p.required && !p.repeatable ==> place_text(p) == " <"@ + p.name + ">"@,
        !p.required && !p.repeatable ==> place_text(p) == " ["@ + p.name + "]"@,
        p.repeatable ==> place_text(p) == place_text((Place { repeatable: false, ..p })) + "..."@,
{
}

/// Positionals follow the path in their order.
pub proof fn positionals_follow_the_path(path: Seq<char>, ps: Seq<Place>, p: Place)
    ensures
        with_places(path, Seq::empty()) == path,
        with_places(path, ps.push(p)) == with_places(path, ps) + place_text(p),
{
    assert(ps.push(p).drop_last() =~= ps);
}

/// The group of a usage line is the word before the placeholder that ends it.
pub proof fn a_usage_line_names_its_group(usage: Seq<char>)
    ensures
        group_of(usage) matches Some(g) ==> words(usage).len() >= 2 && words(usage).last()
            == "<COMMAND>"@ && g == words(usage)[words(usage).len() - 2],
        words(usage).len() >= 2 && words(usage).last() == "<COMMAND>"@ ==> group_of(usage) is Some,
{
}

} // verus!
