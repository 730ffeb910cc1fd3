//! Field paths compiled into one GraphQL read.
//!
//! In a path `a.b.c` every segment but the last has to be a reference, so the
//! nesting of the document is decided by position alone. The answer is flattened
//! back to the dotted names that were asked for.

use vstd::prelude::*;

use crate::error::{text_option, Error, Fault};
use crate::flags::{DisplayValueArg, DisplayValueOpt, OutputMode, Paging};
use crate::graphql::{errors_fault, errors_of, errors_to_api_error, execute, graphql_call, graphql_errors};
use crate::journal::{undefined, undefined_field};
use crate::json::{
    docs, field_in, get_in, items_in, items_of_option, lemma_docs, lemma_docs_push, members,
    natural_in, natural_of_option, put, Doc, Json,
};
use crate::order::texts;
use crate::request::{Call, Method, Request};
use crate::streams::rows_of;
use crate::text::{
    chars_of, contains, decimal, digits, has, pieces, pieces_make_up_the_text, same, split, trim,
    trimmed,
};

verus! {

/// The flags of the command.
#[derive(Debug)]
pub struct GrArgs {
    pub table: String,
    pub fields: Option<String>,
    pub query: Option<String>,
    pub count: bool,
    pub paging: Paging<100>,
    pub display_value: DisplayValueOpt,
}

/// One field path: the dotted name, and its segments.
#[derive(Debug)]
pub struct FieldPath {
    pub key: String,
    pub segments: Vec<String>,
}

impl FieldPath {
    /// The segments are those of the name.
    pub open spec fn inv(self) -> bool {
        texts(self.segments@) == pieces(self.key@, '.')
    }
}

/// The names of a list of paths.
pub open spec fn path_keys(v: Seq<FieldPath>) -> Seq<Seq<char>> {
    v.map_values(|p: FieldPath| p.key@)
}

/// The segments of each of a list of names.
pub open spec fn routes(keys: Seq<Seq<char>>) -> Seq<Seq<Seq<char>>> {
    keys.map_values(|k: Seq<char>| pieces(k, '.'))
}

/// Every path of a list is sound.
pub open spec fn sound(v: Seq<FieldPath>) -> bool {
    forall|i: int| 0 <= i < v.len() ==> (#[trigger] v[i]).inv()
}

/// A letter or an underscore.
pub open spec fn starts_name(c: char) -> bool {
    ('a' <= c && c <= 'z') || ('A' <= c && c <= 'Z') || c == '_'
}

/// A letter, a digit or an underscore.
pub open spec fn in_name(c: char) -> bool {
    starts_name(c) || ('0' <= c && c <= '9')
}

/// A name that can stand in a document.
pub open spec fn is_ident(s: Seq<char>) -> bool {
    s.len() > 0 && starts_name(s[0]) && forall|i: int| 0 <= i < s.len() ==> in_name(#[trigger] s[i])
}

/// The failure of a name that cannot stand in a document.
pub open spec fn bad_ident(s: Seq<char>, what: Seq<char>) -> Fault {
    Fault::Usage(
        "invalid "@ + what + ": '"@ + s + "' (expected letters, digits and underscores)"@,
    )
}

/// Refuses a name that cannot stand in a document.
pub fn validate_ident(s: &str, what: &str) -> (r: Result<(), Error>)
    ensures
        r is Ok <==> is_ident(s@),
        r matches Err(e) ==> e@ == bad_ident(s@, what@),
{
    let v = chars_of(s);
    let mut ok = v.len() > 0;
    if v.len() > 0 {
        let c = v[0];
        ok = ('a' <= c && c <= 'z') || ('A' <= c && c <= 'Z') || c == '_';
    }
    let mut i: usize = 0;
    while ok && i < v.len()
        invariant
            i <= v.len(),
            v@ == s@,
            ok ==> v@.len() > 0 && starts_name(v@[0]),
            ok ==> forall|k: int| 0 <= k < i ==> in_name(#[trigger] v@[k]),
            !ok ==> !is_ident(s@),
        decreases v.len() - i,
    {
        let c = v[i];
        assert(c == v@[i as int]);
        ok = ('a' <= c && c <= 'z') || ('A' <= c && c <= 'Z') || c == '_' || ('0' <= c && c <= '9');
        i = i + 1;
    }
    if ok {
        Ok(())
    } else {
        Err(
            Error::Usage(
                "invalid ".to_owned().concat(what).concat(": '").concat(s).concat(
                    "' (expected letters, digits and underscores)",
                ),
            ),
        )
    }
}

/// The first of the segments that is no name.
pub open spec fn first_bad(segments: Seq<Seq<char>>) -> Option<Seq<char>>
    decreases segments.len(),
{
    if segments.len() == 0 {
        None
    } else if !is_ident(segments[0]) {
        Some(segments[0])
    } else {
        first_bad(segments.drop_first())
    }
}

/// The names that a list of entries asks for: trimmed, valid, and each once, in
/// the order in which they first stand.
pub open spec fn entry_keys(entries: Seq<Seq<char>>) -> Result<Seq<Seq<char>>, Fault>
    decreases entries.len(),
{
    if entries.len() == 0 {
        Ok(Seq::empty())
    } else {
        match entry_keys(entries.drop_last()) {
            Err(f) => Err(f),
            Ok(keys) => {
                let key = trimmed(entries.last());
                if key.len() == 0 {
                    Err(Fault::Usage("--fields has an empty entry"@))
                } else {
                    match first_bad(pieces(key, '.')) {
                        Some(seg) => Err(
                            bad_ident(seg, "field segment in '"@ + key + "'"@),
                        ),
                        None => if keys.contains(key) {
                            Ok(keys)
                        } else {
                            Ok(keys.push(key))
                        },
                    }
                }
            },
        }
    }
}

proof fn lemma_entries_stop(entries: Seq<Seq<char>>, i: int)
    requires
        0 <= i <= entries.len(),
        entry_keys(entries.take(i)) is Err,
    ensures
        entry_keys(entries) == entry_keys(entries.take(i)),
    decreases entries.len() - i,
{
    if i == entries.len() {
        assert(entries.take(i) =~= entries);
    } else {
        assert(entries.take(i + 1).drop_last() =~= entries.take(i));
        lemma_entries_stop(entries, i + 1);
    }
}

proof fn lemma_first_bad(segments: Seq<Seq<char>>)
    ensures
        first_bad(segments) is None ==> forall|i: int|
            0 <= i < segments.len() ==> is_ident(#[trigger] segments[i]),
    decreases segments.len(),
{
    if segments.len() > 0 {
        let rest = segments.drop_first();
        lemma_first_bad(rest);
        if first_bad(segments) is None {
            assert forall|i: int| 0 <= i < segments.len() implies is_ident(
                #[trigger] segments[i],
            ) by {
                if i > 0 {
                    assert(rest[i - 1] == segments[i]);
                }
            }
        }
    }
}

/// What is asked for is asked for once, and every segment of it is a name: nothing
/// else of the flags reaches the document.
pub proof fn only_names_reach_the_document(entries: Seq<Seq<char>>)
    ensures
        entry_keys(entries) matches Ok(keys) ==> keys.no_duplicates() && forall|i: int, j: int|
            0 <= i < keys.len() && 0 <= j < pieces(keys[i], '.').len() ==> is_ident(
                #[trigger] pieces(keys[i], '.')[j],
            ),
    decreases entries.len(),
{
    if entries.len() > 0 {
        only_names_reach_the_document(entries.drop_last());
        let key = trimmed(entries.last());
        lemma_first_bad(pieces(key, '.'));
    }
}

/// Refuses a path with a segment that is no name.
fn validate_segments(segments: &Vec<String>, key: &str) -> (r: Result<(), Error>)
    ensures
        match first_bad(texts(segments@)) {
            Some(seg) => r matches Err(e) && e@ == bad_ident(
                seg,
                "field segment in '"@ + key@ + "'"@,
            ),
            None => r is Ok,
        },
{
    let ghost all = texts(segments@);
    let what = "field segment in '".to_owned().concat(key).concat("'");
    let mut i: usize = 0;
    assert(all.skip(0) =~= all);
    while i < segments.len()
        invariant
            i <= segments.len(),
            all == texts(segments@),
            what@ == "field segment in '"@ + key@ + "'"@,
            first_bad(all) == first_bad(all.skip(i as int)),
        decreases segments.len() - i,
    {
        assert(all.skip(i as int)[0] == segments@[i as int]@);
        assert(all.skip(i as int).drop_first() =~= all.skip(i + 1));
        if let Err(e) = validate_ident(segments[i].as_str(), what.as_str()) {
            return Err(e);
        }
        i = i + 1;
    }
    Ok(())
}

/// Whether a name is among the paths.
fn has_key(paths: &Vec<FieldPath>, key: &str) -> (r: bool)
    ensures
        r == path_keys(paths@).contains(key@),
{
    let mut i: usize = 0;
    while i < paths.len()
        invariant
            i <= paths.len(),
            forall|k: int| 0 <= k < i ==> path_keys(paths@)[k] != key@,
        decreases paths.len() - i,
    {
        assert(path_keys(paths@)[i as int] == paths@[i as int].key@);
        if same(paths[i].key.as_str(), key) {
            return true;
        }
        i = i + 1;
    }
    false
}

/// Reads the list of field paths.
pub fn parse_fields(spec_text: &str) -> (r: Result<Vec<FieldPath>, Error>)
    ensures
        match entry_keys(pieces(spec_text@, ',')) {
            Ok(keys) => r matches Ok(v) && path_keys(v@) == keys && sound(v@),
            Err(f) => r matches Err(e) && e@ == f,
        },
{
    let entries = split(spec_text, ',');
    let ghost all = texts(entries@);
    let mut paths: Vec<FieldPath> = Vec::new();
    let mut i: usize = 0;
    assert(all.take(0) =~= Seq::empty());
    assert(path_keys(paths@) =~= Seq::empty());
    while i < entries.len()
        invariant
            i <= entries.len(),
            all == texts(entries@),
            all == pieces(spec_text@, ','),
            sound(paths@),
            entry_keys(all.take(i as int)) == Ok::<Seq<Seq<char>>, Fault>(path_keys(paths@)),
        decreases entries.len() - i,
    {
        assert(all.take(i + 1).drop_last() =~= all.take(i as int));
        assert(all.take(i + 1).last() == entries@[i as int]@);
        let key = trim(entries[i].as_str());
        if key.as_str().is_empty() {
            proof {
                lemma_entries_stop(all, i + 1);
            }
            return Err(Error::Usage("--fields has an empty entry".to_owned()));
        }
        let segments = split(key.as_str(), '.');
        if let Err(e) = validate_segments(&segments, key.as_str()) {
            proof {
                lemma_entries_stop(all, i + 1);
            }
            return Err(e);
        }
        if !has_key(&paths, key.as_str()) {
            let ghost prior = path_keys(paths@);
            let p = FieldPath { key, segments };
            paths.push(p);
            assert(path_keys(paths@) =~= prior.push(p.key@));
        }
        i = i + 1;
    }
    assert(all.take(i as int) =~= all);
    Ok(paths)
}

/// A node of the selection: a field, whether it is asked for itself, and what is
/// asked for behind it.
#[derive(Debug)]
pub struct Node {
    pub name: String,
    pub requested: bool,
    pub children: Vec<Node>,
}

/// A node of the selection, as a view.
pub ghost struct Tree {
    pub name: Seq<char>,
    pub requested: bool,
    pub children: Seq<Tree>,
}

/// The nodes of a list.
pub open spec fn trees(nodes: Seq<Node>) -> Seq<Tree>
    decreases nodes,
{
    if nodes.len() == 0 {
        Seq::empty()
    } else {
        trees(nodes.drop_last()).push(nodes.last().view())
    }
}

impl Node {
    pub open spec fn view(&self) -> Tree
        decreases self,
    {
        Tree { name: self.name@, requested: self.requested, children: trees(self.children@) }
    }
}

proof fn lemma_trees(nodes: Seq<Node>)
    ensures
        trees(nodes).len() == nodes.len(),
        forall|i: int| 0 <= i < nodes.len() ==> #[trigger] trees(nodes)[i] == nodes[i]@,
    decreases nodes.len(),
{
    if nodes.len() > 0 {
        lemma_trees(nodes.drop_last());
    }
}

/// The place of a name among the nodes, or their number.
pub open spec fn place(nodes: Seq<Tree>, name: Seq<char>) -> int
    decreases nodes.len(),
{
    if nodes.len() == 0 {
        0
    } else if nodes[0].name == name {
        0
    } else {
        1 + place(nodes.drop_first(), name)
    }
}

proof fn lemma_place(nodes: Seq<Tree>, name: Seq<char>)
    ensures
        0 <= place(nodes, name) <= nodes.len(),
        place(nodes, name) < nodes.len() ==> nodes[place(nodes, name)].name == name,
        forall|i: int| 0 <= i < place(nodes, name) ==> (#[trigger] nodes[i]).name != name,
    decreases nodes.len(),
{
    if nodes.len() > 0 && nodes[0].name != name {
        let rest = nodes.drop_first();
        lemma_place(rest, name);
        assert forall|i: int| 0 <= i < place(nodes, name) implies (#[trigger] nodes[i]).name
            != name by {
            if i > 0 {
                assert(rest[i - 1] == nodes[i]);
            }
        }
    }
}

proof fn lemma_place_is(nodes: Seq<Tree>, name: Seq<char>, i: int)
    requires
        0 <= i <= nodes.len(),
        forall|k: int| 0 <= k < i ==> (#[trigger] nodes[k]).name != name,
        i < nodes.len() ==> nodes[i].name == name,
    ensures
        place(nodes, name) == i,
{
    lemma_place(nodes, name);
}

/// The nodes, with one for a name.
pub open spec fn opened(nodes: Seq<Tree>, name: Seq<char>) -> Seq<Tree> {
    if place(nodes, name) < nodes.len() {
        nodes
    } else {
        nodes.push(Tree { name, requested: false, children: Seq::empty() })
    }
}

/// The nodes with a path added.
pub open spec fn grown(nodes: Seq<Tree>, segments: Seq<Seq<char>>) -> Seq<Tree>
    decreases segments.len(),
{
    if segments.len() == 0 {
        nodes
    } else {
        let i = place(nodes, segments[0]);
        let base = opened(nodes, segments[0]);
        if segments.len() == 1 {
            base.update(i, Tree { requested: true, ..base[i] })
        } else {
            base.update(
                i,
                Tree {
                    children: grown(base[i].children, segments.drop_first()),
                    ..base[i]
                },
            )
        }
    }
}

/// The nodes that select a list of paths.
pub open spec fn selection_tree(paths: Seq<Seq<Seq<char>>>) -> Seq<Tree>
    decreases paths.len(),
{
    if paths.len() == 0 {
        Seq::empty()
    } else {
        grown(selection_tree(paths.drop_last()), paths.last())
    }
}

/// Whether the nodes select a path.
pub open spec fn selects(nodes: Seq<Tree>, path: Seq<Seq<char>>) -> bool
    decreases path.len(),
{
    if path.len() == 0 {
        false
    } else {
        let i = place(nodes, path[0]);
        i < nodes.len() && (if path.len() == 1 {
            nodes[i].requested
        } else {
            selects(nodes[i].children, path.drop_first())
        })
    }
}

proof fn lemma_nothing_selected(path: Seq<Seq<char>>)
    ensures
        !selects(Seq::empty(), path),
{
}

/// Adding a path selects it, and nothing else.
proof fn lemma_grown(nodes: Seq<Tree>, segments: Seq<Seq<char>>, path: Seq<Seq<char>>)
    requires
        segments.len() > 0,
        path.len() > 0,
    ensures
        selects(grown(nodes, segments), path) <==> (selects(nodes, path) || path == segments),
    decreases segments.len(),
{
    let name = segments[0];
    let i = place(nodes, name);
    lemma_place(nodes, name);
    let base = opened(nodes, name);
    let after = grown(nodes, segments);
    assert(base[i].name == name);
    assert(after.len() == base.len());
    assert forall|k: int| 0 <= k < after.len() implies (#[trigger] after[k]).name
        == base[k].name by {}
    assert(path == segments <==> path =~= segments);
    if path[0] == name {
        lemma_place_is(after, name, i);
        if segments.len() > 1 && path.len() > 1 {
            lemma_grown(base[i].children, segments.drop_first(), path.drop_first());
            assert(path.drop_first() =~= segments.drop_first() <==> path =~= segments) by {
                if path.drop_first() =~= segments.drop_first() {
                    assert forall|k: int| 0 <= k < path.len() implies path[k] == segments[k] by {
                        if k > 0 {
                            assert(path.drop_first()[k - 1] == segments.drop_first()[k - 1]);
                        }
                    }
                }
            }
            if i == nodes.len() {
                lemma_nothing_selected(path.drop_first());
            }
        }
        if segments.len() == 1 && path.len() > 1 && i == nodes.len() {
            lemma_nothing_selected(path.drop_first());
        }
        if segments.len() == 1 && path.len() == 1 {
            assert(path =~= segments);
        }
    } else {
        let j = place(nodes, path[0]);
        lemma_place(nodes, path[0]);
        if j < nodes.len() {
            lemma_place_is(after, path[0], j);
        } else {
            lemma_place_is(after, path[0], after.len() as int);
        }
    }
}

/// The selection asks for exactly the paths that were given.
pub proof fn exactly_the_paths_are_selected(paths: Seq<Seq<Seq<char>>>, path: Seq<Seq<char>>)
    requires
        path.len() > 0,
        forall|i: int| 0 <= i < paths.len() ==> (#[trigger] paths[i]).len() > 0,
    ensures
        selects(selection_tree(paths), path) <==> paths.contains(path),
    decreases paths.len(),
{
    if paths.len() == 0 {
        lemma_nothing_selected(path);
    } else {
        let rest = paths.drop_last();
        assert forall|i: int| 0 <= i < rest.len() implies (#[trigger] rest[i]).len() > 0 by {
            assert(paths[i].len() > 0);
        }
        exactly_the_paths_are_selected(rest, path);
        assert(paths[paths.len() - 1].len() > 0);
        lemma_grown(selection_tree(rest), paths.last(), path);
        if paths.contains(path) {
            let k = choose|k: int| 0 <= k < paths.len() && paths[k] == path;
            if k < rest.len() {
                assert(rest[k] == path);
            }
        }
        if rest.contains(path) {
            let k = choose|k: int| 0 <= k < rest.len() && rest[k] == path;
            assert(paths[k] == path);
        }
        if path == paths.last() {
            assert(paths[paths.len() - 1] == path);
        }
    }
}

/// Adds a path to the nodes.
fn insert(nodes: &mut Vec<Node>, segments: &Vec<String>, from: usize)
    requires
        from < segments.len(),
    ensures
        trees(final(nodes)@) == grown(trees(old(nodes)@), texts(segments@).skip(from as int)),
    decreases segments.len() - from,
{
    let ghost before = trees(nodes@);
    let ghost rest = texts(segments@).skip(from as int);
    let name = segments[from].as_str();
    assert(rest[0] == name@);
    let mut i: usize = 0;
    proof {
        lemma_trees(nodes@);
    }
    while i < nodes.len() && !same(nodes[i].name.as_str(), name)
        invariant
            i <= nodes.len(),
            nodes@ == old(nodes)@,
            before == trees(nodes@),
            before.len() == nodes@.len(),
            forall|k: int| 0 <= k < nodes@.len() ==> #[trigger] before[k] == nodes@[k]@,
            forall|k: int| 0 <= k < i ==> (#[trigger] before[k]).name != name@,
        decreases nodes.len() - i,
    {
        assert(before[i as int] == nodes@[i as int]@);
        i = i + 1;
    }
    proof {
        if i < nodes@.len() {
            assert(before[i as int] == nodes@[i as int]@);
        }
        lemma_place_is(before, name@, i as int);
    }
    let ghost base = opened(before, name@);
    let mut node = if i < nodes.len() {
        nodes.remove(i)
    } else {
        let children: Vec<Node> = Vec::new();
        Node { name: name.to_owned(), requested: false, children }
    };
    let ghost gone = nodes@;
    assert(node@ == base[i as int]) by {
        reveal_with_fuel(trees, 2);
    }
    if from + 1 == segments.len() {
        node.requested = true;
    } else {
        insert(&mut node.children, segments, from + 1);
        assert(texts(segments@).skip(from + 1) =~= rest.drop_first());
    }
    nodes.insert(i, node);
    proof {
        lemma_trees(nodes@);
        let after = grown(before, rest);
        assert(after.len() == nodes@.len());
        assert forall|k: int| 0 <= k < after.len() implies #[trigger] after[k] == trees(
            nodes@,
        )[k] by {
            if k != i {
                assert(nodes@[k] == old(nodes)@[k]);
                assert(before[k] == old(nodes)@[k]@);
            }
        }
        assert(trees(nodes@) =~= after);
    }
}

/// Merges paths into one selection.
pub fn build_tree(paths: &Vec<FieldPath>) -> (r: Vec<Node>)
    requires
        sound(paths@),
    ensures
        trees(r@) == selection_tree(routes(path_keys(paths@))),
{
    let ghost all = routes(path_keys(paths@));
    let mut roots: Vec<Node> = Vec::new();
    let mut i: usize = 0;
    assert(all.take(0) =~= Seq::empty());
    while i < paths.len()
        invariant
            i <= paths.len(),
            sound(paths@),
            all == routes(path_keys(paths@)),
            trees(roots@) == selection_tree(all.take(i as int)),
        decreases paths.len() - i,
    {
        assert(all.take(i + 1).drop_last() =~= all.take(i as int));
        assert(path_keys(paths@)[i as int] == paths@[i as int].key@);
        assert(all.take(i + 1).last() == pieces(paths@[i as int].key@, '.'));
        assert(paths@[i as int].inv());
        proof {
            crate::text::lemma_pieces(paths@[i as int].key@, '.');
            assert(texts(paths@[i as int].segments@).skip(0) =~= texts(paths@[i as int].segments@));
            assert(texts(paths@[i as int].segments@).len() == paths@[i as int].segments@.len());
        }
        insert(&mut roots, &paths[i].segments, 0);
        i = i + 1;
    }
    assert(all.take(i as int) =~= all);
    roots
}

/// What is asked for of a field.
pub open spec fn leaf(mode: DisplayValueArg) -> Seq<char> {
    match mode {
        DisplayValueArg::True => "displayValue"@,
        DisplayValueArg::False => "value"@,
        DisplayValueArg::All => "value displayValue"@,
    }
}

/// What is asked for of a field.
pub fn leaf_selection(mode: DisplayValueArg) -> (r: &'static str)
    ensures
        r@ == leaf(mode),
{
    match mode {
        DisplayValueArg::True => "displayValue",
        DisplayValueArg::False => "value",
        DisplayValueArg::All => "value displayValue",
    }
}

/// A selection set. A field that something is asked for behind nests through
/// `_reference`.
pub open spec fn selection(nodes: Seq<Tree>, leaf: Seq<char>) -> Seq<char>
    decreases nodes,
{
    if nodes.len() == 0 {
        Seq::empty()
    } else {
        let n = nodes.last();
        let s = selection(nodes.drop_last(), leaf) + n.name + " { "@;
        let s = if n.requested || n.children.len() == 0 {
            s + leaf + " "@
        } else {
            s
        };
        let s = if n.children.len() > 0 {
            s + "_reference { "@ + selection(n.children, leaf) + "} "@
        } else {
            s
        };
        s + "} "@
    }
}

/// Writes out a selection set.
pub fn render_selection(nodes: &Vec<Node>, leaf: &str) -> (r: String)
    ensures
        r@ == selection(trees(nodes@), leaf@),
    decreases nodes,
{
    let ghost all = trees(nodes@);
    let mut s = String::new();
    let mut i: usize = 0;
    proof {
        lemma_trees(nodes@);
        assert(all.take(0) =~= Seq::empty());
    }
    while i < nodes.len()
        invariant
            i <= nodes.len(),
            all == trees(nodes@),
            all.len() == nodes@.len(),
            forall|k: int| 0 <= k < nodes@.len() ==> #[trigger] all[k] == nodes@[k]@,
            s@ == selection(all.take(i as int), leaf@),
        decreases nodes.len() - i,
    {
        let n = &nodes[i];
        assert(all[i as int] == n@);
        assert(all.take(i + 1).drop_last() =~= all.take(i as int));
        assert(all.take(i + 1).last() == n@);
        proof {
            lemma_trees(n.children@);
        }
        s = s.concat(n.name.as_str()).concat(" { ");
        if n.requested || n.children.len() == 0 {
            s = s.concat(leaf).concat(" ");
        }
        if n.children.len() > 0 {
            assert(decreases_to!(nodes => nodes@));
            assert(decreases_to!(nodes@ => nodes@[i as int]));
            assert(decreases_to!(nodes@[i as int] => nodes@[i as int].children));
            let inner = render_selection(&n.children, leaf);
            s = s.concat("_reference { ").concat(inner.as_str()).concat("} ");
        }
        s = s.concat("} ");
        i = i + 1;
    }
    assert(all.take(i as int) =~= all);
    s
}

/// The whole document. The condition travels as a variable, and only where there
/// is one.
pub open spec fn document(
    table: Seq<char>,
    selection: Seq<char>,
    has_query: bool,
    limit: u32,
    offset: u32,
) -> Seq<char> {
    let start = if has_query {
        "query ($qc: String!) { GlideRecord_Query { "@ + table + "(queryConditions: $qc, "@
    } else {
        "{ GlideRecord_Query { "@ + table + "("@
    };
    start + "pagination: { limit: "@ + digits(limit as nat) + ", offset: "@ + digits(offset as nat)
        + " }) { "@ + selection + " } } }"@
}

/// Writes out the whole document.
pub fn build_document(table: &str, selection: &str, has_query: bool, limit: u32, offset: u32) -> (r:
    String)
    ensures
        r@ == document(table@, selection@, has_query, limit, offset),
{
    let start = if has_query {
        "query ($qc: String!) { GlideRecord_Query { ".to_owned().concat(table).concat(
            "(queryConditions: $qc, ",
        )
    } else {
        "{ GlideRecord_Query { ".to_owned().concat(table).concat("(")
    };
    start.concat("pagination: { limit: ").concat(decimal(limit as u64).as_str()).concat(
        ", offset: ",
    ).concat(decimal(offset as u64).as_str()).concat(" }) { ").concat(selection).concat(" } } }")
}

/// A member, where it is there and not null.
pub open spec fn present(d: Doc, key: Seq<char>) -> Option<Doc> {
    match d.field(key) {
        Some(Doc::Null) => None,
        o => o,
    }
}

/// A member, null where it is not there.
pub open spec fn or_null(d: Doc, key: Seq<char>) -> Doc {
    match d.field(key) {
        Some(v) => v,
        None => Doc::Null,
    }
}

/// What is shown of a field.
pub open spec fn shown(v: Doc, mode: DisplayValueArg) -> Doc {
    match mode {
        DisplayValueArg::True => or_null(v, "displayValue"@),
        DisplayValueArg::False => or_null(v, "value"@),
        DisplayValueArg::All => Doc::Object(
            Map::empty().insert("display_value"@, or_null(v, "displayValue"@)).insert(
                "value"@,
                or_null(v, "value"@),
            ),
        ),
    }
}

/// What stands at the end of a path: null where the path breaks off.
pub open spec fn walked(record: Doc, segments: Seq<Seq<char>>, mode: DisplayValueArg) -> Doc
    decreases segments.len(),
{
    if segments.len() == 0 {
        Doc::Null
    } else {
        match present(record, segments[0]) {
            None => Doc::Null,
            Some(v) => if segments.len() == 1 {
                shown(v, mode)
            } else {
                match present(v, "_reference"@) {
                    None => Doc::Null,
                    Some(r) => walked(r, segments.drop_first(), mode),
                }
            },
        }
    }
}

/// A record under the dotted names that were asked for.
pub open spec fn flattened(record: Doc, keys: Seq<Seq<char>>, mode: DisplayValueArg) -> Map<
    Seq<char>,
    Doc,
>
    decreases keys.len(),
{
    if keys.len() == 0 {
        Map::empty()
    } else {
        flattened(record, keys.drop_last(), mode).insert(
            keys.last(),
            walked(record, pieces(keys.last(), '.'), mode),
        )
    }
}

/// A member, where it is there and not null.
fn get_present<'a>(j: &'a Json, key: &str) -> (r: Option<&'a Json>)
    ensures
        crate::json::doc_option_ref(r) == present(j@, key@),
{
    match j.get(key) {
        Some(Json::Null) => None,
        o => o,
    }
}

/// A copy of a member, null where it is not there.
fn take(v: &Json, key: &str) -> (r: Json)
    ensures
        r@ == or_null(v@, key@),
{
    match v.get(key) {
        Some(j) => j.dup(),
        None => Json::Null,
    }
}

/// What is shown of a field.
pub fn leaf_value(v: &Json, mode: DisplayValueArg) -> (r: Json)
    ensures
        r@ == shown(v@, mode),
{
    match mode {
        DisplayValueArg::True => take(v, "displayValue"),
        DisplayValueArg::False => take(v, "value"),
        DisplayValueArg::All => {
            let mut m: Vec<(String, Json)> = Vec::new();
            put(&mut m, "display_value", take(v, "displayValue"));
            put(&mut m, "value", take(v, "value"));
            Json::Object(m)
        },
    }
}

/// Walks a path through a record.
pub fn extract(record: &Json, segments: &Vec<String>, mode: DisplayValueArg) -> (r: Json)
    ensures
        r@ == walked(record@, texts(segments@), mode),
{
    let ghost all = texts(segments@);
    let mut cur = record;
    let mut i: usize = 0;
    assert(all.skip(0) =~= all);
    while i < segments.len()
        invariant
            i <= segments.len(),
            all == texts(segments@),
            walked(record@, all, mode) == walked(cur@, all.skip(i as int), mode),
        decreases segments.len() - i,
    {
        let ghost rest = all.skip(i as int);
        assert(rest[0] == segments@[i as int]@);
        assert(rest.drop_first() =~= all.skip(i + 1));
        let v = match get_present(cur, segments[i].as_str()) {
            Some(v) => v,
            None => {
                return Json::Null;
            },
        };
        if i + 1 == segments.len() {
            return leaf_value(v, mode);
        }
        match get_present(v, "_reference") {
            Some(r) => {
                cur = r;
            },
            None => {
                return Json::Null;
            },
        }
        i = i + 1;
    }
    Json::Null
}

/// Flattens a record to the dotted names that were asked for.
pub fn flatten(record: &Json, paths: &Vec<FieldPath>, mode: DisplayValueArg) -> (r: Json)
    requires
        sound(paths@),
    ensures
        r@ == Doc::Object(flattened(record@, path_keys(paths@), mode)),
{
    let ghost all = path_keys(paths@);
    let mut out: Vec<(String, Json)> = Vec::new();
    let mut i: usize = 0;
    assert(all.take(0) =~= Seq::empty());
    while i < paths.len()
        invariant
            i <= paths.len(),
            sound(paths@),
            all == path_keys(paths@),
            members(out@) == flattened(record@, all.take(i as int), mode),
        decreases paths.len() - i,
    {
        assert(all.take(i + 1).drop_last() =~= all.take(i as int));
        assert(all.take(i + 1).last() == paths@[i as int].key@);
        assert(paths@[i as int].inv());
        let v = extract(record, &paths[i].segments, mode);
        put(&mut out, paths[i].key.as_str(), v);
        i = i + 1;
    }
    assert(all.take(i as int) =~= all);
    Json::Object(out)
}

/// Every name that was asked for stands in the flattened record, and no other.
pub proof fn a_flat_record_has_the_names_asked_for(
    record: Doc,
    keys: Seq<Seq<char>>,
    mode: DisplayValueArg,
    k: Seq<char>,
)
    ensures
        flattened(record, keys, mode).contains_key(k) <==> keys.contains(k),
        keys.contains(k) ==> flattened(record, keys, mode)[k] == walked(
            record,
            pieces(k, '.'),
            mode,
        ),
    decreases keys.len(),
{
    if keys.len() > 0 {
        let rest = keys.drop_last();
        a_flat_record_has_the_names_asked_for(record, rest, mode, k);
        if keys.contains(k) {
            let i = choose|i: int| 0 <= i < keys.len() && keys[i] == k;
            if i < rest.len() {
                assert(rest[i] == k);
            }
        }
        if rest.contains(k) {
            let i = choose|i: int| 0 <= i < rest.len() && rest[i] == k;
            assert(keys[i] == k);
        }
        if k == keys.last() {
            assert(keys[keys.len() - 1] == k);
        }
    }
}

/// Whether an error is about the table itself.
pub open spec fn about_table(e: Doc, table: Seq<char>) -> bool {
    e.field_text("message"@) matches Some(m) && has(m, "@[GlideRecord_Query/"@ + table + "])"@)
}

/// The failure that the errors of an answer mean.
pub open spec fn mapped(errors: Seq<Doc>, table: Seq<char>) -> Fault {
    if (exists|i: int| 0 <= i < errors.len() && about_table(#[trigger] errors[i], table))
        || undefined(errors, table) {
        Fault::Api {
            status: 200,
            message: "table '"@ + table + "' is not queryable via GraphQL"@,
            detail: if errors.len() > 0 {
                errors[0].field_text("message"@)
            } else {
                None
            },
            transaction_id: None,
            sn_error: Some(Doc::Array(errors)),
        }
    } else if undefined(errors, "_reference"@) {
        Fault::Api {
            status: 200,
            message: "a --fields path dot-walks through a non-reference field"@,
            detail: Some(
                "only reference fields can be dot-walked; the validation error in sn_error names the field's actual type"@,
            ),
            transaction_id: None,
            sn_error: Some(Doc::Array(errors)),
        }
    } else {
        errors_fault(errors)
    }
}

/// Maps the errors of an answer to a failure, naming those that a field path or a
/// table name can cause.
pub fn map_errors(errors: Vec<Json>, table: &str) -> (e: Error)
    ensures
        e@ == mapped(docs(errors@), table@),
{
    let needle = "@[GlideRecord_Query/".to_owned().concat(table).concat("])");
    let ghost all = docs(errors@);
    proof {
        lemma_docs(errors@);
    }
    let mut at_table = false;
    let mut i: usize = 0;
    while i < errors.len() && !at_table
        invariant
            i <= errors.len(),
            all == docs(errors@),
            all.len() == errors@.len(),
            needle@ == "@[GlideRecord_Query/"@ + table@ + "])"@,
            forall|k: int| 0 <= k < errors@.len() ==> #[trigger] all[k] == errors@[k]@,
            at_table ==> exists|k: int|
                0 <= k < all.len() && about_table(#[trigger] all[k], table@),
            !at_table ==> forall|k: int| 0 <= k < i ==> !about_table(#[trigger] all[k], table@),
        decreases errors.len() - i + if at_table {
            0int
        } else {
            1
        },
    {
        assert(all[i as int] == errors@[i as int]@);
        if let Some(m) = errors[i].get_str("message") {
            if contains(m.as_str(), needle.as_str()) {
                assert(about_table(all[i as int], table@));
                at_table = true;
            }
        }
        i = i + 1;
    }
    if at_table || undefined_field(&errors, table) {
        let detail = if errors.len() > 0 {
            match errors[0].get_str("message") {
                Some(m) => Some(m.clone()),
                None => None,
            }
        } else {
            None
        };
        return Error::Api {
            status: 200,
            message: "table '".to_owned().concat(table).concat(
                "' is not queryable via GraphQL",
            ),
            detail,
            transaction_id: None,
            sn_error: Some(Json::Array(errors)),
        };
    }
    if undefined_field(&errors, "_reference") {
        return Error::Api {
            status: 200,
            message: "a --fields path dot-walks through a non-reference field".to_owned(),
            detail: Some(
                "only reference fields can be dot-walked; the validation error in sn_error names the field's actual type".to_owned(),
            ),
            transaction_id: None,
            sn_error: Some(Json::Array(errors)),
        };
    }
    errors_to_api_error(errors)
}

/// The names that the flags ask for.
pub open spec fn asked(fields: Option<Seq<char>>) -> Result<Seq<Seq<char>>, Fault> {
    match fields {
        Some(f) => entry_keys(pieces(f, ',')),
        None => Ok(Seq::empty()),
    }
}

/// The values to show: the displayed ones unless others were asked for.
pub open spec fn mode_of(v: Option<DisplayValueArg>) -> DisplayValueArg {
    match v {
        Some(m) => m,
        None => DisplayValueArg::True,
    }
}

impl GrArgs {
    /// The request that the flags come to. A count asks for one row, since it is
    /// the count of all matches whatever the page.
    pub open spec fn call(self, keys: Seq<Seq<char>>) -> Call {
        let inner = if self.count {
            "_rowCount"@
        } else {
            "_results { "@ + selection(
                selection_tree(routes(keys)),
                leaf(mode_of(self.display_value.display_value)),
            ) + "}"@
        };
        let limit = if self.count {
            1
        } else {
            self.paging.limit.setlimit
        };
        let offset = if self.count {
            0
        } else {
            match self.paging.offset {
                Some(n) => n,
                None => 0,
            }
        };
        graphql_call(
            document(self.table@, inner, self.query is Some, limit, offset),
            match self.query {
                Some(q) => Some(Doc::Object(Map::empty().insert("qc"@, Doc::Str(q@)))),
                None => None,
            },
            None,
        )
    }
}

/// Plans the read: the paths, and the request.
pub fn plan(args: &GrArgs) -> (r: Result<(Vec<FieldPath>, Request), Error>)
    ensures
        !is_ident(args.table@) ==> (r matches Err(e) && e@ == bad_ident(
            args.table@,
            "table name"@,
        )),
        is_ident(args.table@) ==> match asked(text_option(args.fields)) {
            Err(f) => r matches Err(e) && e@ == f,
            Ok(keys) => r matches Ok((v, q)) && path_keys(v@) == keys && sound(v@) && q@
                == args.call(keys),
        },
{
    if let Err(e) = validate_ident(args.table.as_str(), "table name") {
        return Err(e);
    }
    let paths = match &args.fields {
        Some(f) => match parse_fields(f.as_str()) {
            Ok(v) => v,
            Err(e) => {
                return Err(e);
            },
        },
        None => {
            let none: Vec<FieldPath> = Vec::new();
            assert(path_keys(none@) =~= Seq::empty());
            none
        },
    };
    let mode = match args.display_value.display_value {
        Some(m) => m,
        None => DisplayValueArg::True,
    };
    let inner = if args.count {
        "_rowCount".to_owned()
    } else {
        "_results { ".to_owned().concat(
            render_selection(&build_tree(&paths), leaf_selection(mode)).as_str(),
        ).concat("}")
    };
    let limit: u32 = if args.count {
        1
    } else {
        args.paging.limit.setlimit
    };
    let offset: u32 = if args.count {
        0
    } else {
        match args.paging.offset {
            Some(n) => n,
            None => 0,
        }
    };
    let doc = build_document(
        args.table.as_str(),
        inner.as_str(),
        args.query.is_some(),
        limit,
        offset,
    );
    let vars = match &args.query {
        Some(q) => {
            let mut m: Vec<(String, Json)> = Vec::new();
            put(&mut m, "qc", Json::str(q.as_str()));
            Some(Json::Object(m))
        },
        None => None,
    };
    let request = execute(doc.as_str(), vars, &None);
    Ok((paths, request))
}

/// The records of an answer, flattened.
pub open spec fn flat_records(records: Seq<Doc>, keys: Seq<Seq<char>>, mode: DisplayValueArg) -> Seq<
    Doc,
> {
    records.map_values(|r: Doc| Doc::Object(flattened(r, keys, mode)))
}

/// What an answer comes to.
pub open spec fn answered(
    resp: Doc,
    table: Seq<char>,
    count: bool,
    keys: Seq<Seq<char>>,
    mode: DisplayValueArg,
    output: OutputMode,
) -> Result<Doc, Fault> {
    let errors = errors_of(resp);
    let container = rows_of(resp, table);
    if errors.len() > 0 {
        Err(mapped(errors, table))
    } else if output == OutputMode::Raw {
        Ok(resp)
    } else if container is None || container == Some(Doc::Null) {
        Err(
            Fault::Instance {
                message: "GraphQL response carried no result for table '"@ + table + "'"@,
                detail: Some("the query succeeded but the reply does not answer it"@),
            },
        )
    } else if count {
        match natural_in(field_in(container, "_rowCount"@)) {
            Some(n) => Ok(Doc::Object(Map::empty().insert("count"@, Doc::Number(digits(n))))),
            None => Err(
                Fault::Instance {
                    message: "GraphQL response carried no _rowCount for table '"@ + table + "'"@,
                    detail: None,
                },
            ),
        }
    } else {
        Ok(Doc::Array(flat_records(items_in(field_in(container, "_results"@)), keys, mode)))
    }
}

/// Reads an answer.
pub fn run(args: &GrArgs, paths: &Vec<FieldPath>, resp: Json, output: OutputMode) -> (r: Result<
    Json,
    Error,
>)
    requires
        sound(paths@),
    ensures
        match answered(
            resp@,
            args.table@,
            args.count,
            path_keys(paths@),
            mode_of(args.display_value.display_value),
            output,
        ) {
            Ok(d) => r matches Ok(j) && j@ == d,
            Err(f) => r matches Err(e) && e@ == f,
        },
{
    let errors = graphql_errors(&resp);
    proof {
        lemma_docs(errors@);
    }
    if errors.len() > 0 {
        return Err(map_errors(errors, args.table.as_str()));
    }
    if let OutputMode::Raw = output {
        return Ok(resp);
    }
    let mode = match args.display_value.display_value {
        Some(m) => m,
        None => DisplayValueArg::True,
    };
    let container = get_in(get_in(resp.get("data"), "GlideRecord_Query"), args.table.as_str());
    let absent = match container {
        None => true,
        Some(Json::Null) => true,
        _ => false,
    };
    if absent {
        return Err(
            Error::Instance {
                message: "GraphQL response carried no result for table '".to_owned().concat(
                    args.table.as_str(),
                ).concat("'"),
                detail: Some("the query succeeded but the reply does not answer it".to_owned()),
            },
        );
    }
    if args.count {
        return match natural_of_option(get_in(container, "_rowCount")) {
            Some(n) => {
                let mut m: Vec<(String, Json)> = Vec::new();
                put(&mut m, "count", Json::number(n));
                Ok(Json::Object(m))
            },
            None => Err(
                Error::Instance {
                    message: "GraphQL response carried no _rowCount for table '".to_owned().concat(
                        args.table.as_str(),
                    ).concat("'"),
                    detail: None,
                },
            ),
        };
    }
    let records = items_of_option(get_in(container, "_results"));
    let ghost keys = path_keys(paths@);
    let ghost all = flat_records(docs(records@), keys, mode);
    proof {
        lemma_docs(records@);
    }
    let mut out: Vec<Json> = Vec::new();
    let mut i: usize = 0;
    assert(docs(out@) =~= all.take(0));
    while i < records.len()
        invariant
            i <= records.len(),
            sound(paths@),
            keys == path_keys(paths@),
            all == flat_records(docs(records@), keys, mode),
            all.len() == records@.len(),
            forall|k: int| 0 <= k < records@.len() ==> #[trigger] docs(records@)[k] == records@[k]@,
            docs(out@) == all.take(i as int),
        decreases records.len() - i,
    {
        broadcast use lemma_docs_push;

        let flat = flatten(&records[i], paths, mode);
        assert(docs(records@)[i as int] == records@[i as int]@);
        assert(all[i as int] == flat@);
        out.push(flat);
        assert(all.take(i + 1) =~= all.take(i as int).push(all[i as int]));
        i = i + 1;
    }
    assert(all.take(i as int) =~= all);
    Ok(Json::Array(out))
}

/// What is shown of a field is what was asked for of it: its value where values were
/// asked for, its displayed value where those were, and both, each under its own
/// name, where both were.
pub proof fn what_is_shown_was_asked_for(v: Doc)
    ensures
        v.field("value"@) matches Some(x) ==> shown(v, DisplayValueArg::False) == x,
        v.field("displayValue"@) matches Some(x) ==> shown(v, DisplayValueArg::True) == x,
        v.field("value"@) matches Some(x) ==> shown(v, DisplayValueArg::All).field("value"@)
            == Some(x),
        v.field("displayValue"@) matches Some(x) ==> shown(v, DisplayValueArg::All).field(
            "display_value"@,
        ) == Some(x),
        leaf(DisplayValueArg::False) == "value"@,
        leaf(DisplayValueArg::True) == "displayValue"@,
        pieces(leaf(DisplayValueArg::All), ' ') == seq!["value"@, "displayValue"@],
{
    reveal_strlit("value");
    reveal_strlit("display_value");
    reveal_strlit("displayValue");
    reveal_strlit("value displayValue");
    assert("value"@.len() == 5 && "display_value"@.len() == 13);
    let all = leaf(DisplayValueArg::All);
    assert(all =~= "value"@ + seq![' '] + "displayValue"@);
    lemma_two_pieces("value"@, "displayValue"@, ' ');
}

/// Two texts without a character, with it between them, are its pieces.
proof fn lemma_two_pieces(a: Seq<char>, b: Seq<char>, c: char)
    requires
        !a.contains(c),
        forall|i: int| 0 <= i < b.len() ==> b[i] != c,
    ensures
        pieces(a + seq![c] + b, c) == seq![a, b],
    decreases b.len(),
{
    let s = a + seq![c] + b;
    if b.len() == 0 {
        assert(s.drop_last() =~= a);
        assert(s.last() == c);
        assert(b =~= Seq::empty());
        pieces_make_up_the_text(a, c);
        assert(pieces(s, c) =~= seq![a, b]);
    } else {
        let less = b.drop_last();
        lemma_two_pieces(a, less, c);
        assert(s.drop_last() =~= a + seq![c] + less);
        assert(s.last() == b.last());
        assert(less.push(b.last()) =~= b);
        assert(pieces(s, c) =~= seq![a, b]);
    }
}

/// A path is walked member by member, through the reference at each of its steps; it
/// ends in what is shown of its last member.
pub proof fn a_path_is_walked_through_its_references(
    record: Doc,
    path: Seq<Seq<char>>,
    mode: DisplayValueArg,
    v: Doc,
)
    requires
        path.len() > 0,
        record.field(path[0]) == Some(v),
        v != Doc::Null,
    ensures
        path.len() == 1 ==> walked(record, path, mode) == shown(v, mode),
        path.len() > 1 && v.field("_reference"@) is Some && v.field("_reference"@) != Some(
            Doc::Null,
        ) ==> walked(record, path, mode) == walked(
            v.field("_reference"@)->0,
            path.drop_first(),
            mode,
        ),
        path.len() > 1 && v.field("_reference"@) is None ==> walked(record, path, mode)
            == Doc::Null,
{
}

/// The records of an answer are shown one for one, and each name that was asked for
/// stands in each of them: a plain name with what is shown of the field, a name of two
/// parts with what is shown of the field behind the reference.
pub proof fn every_record_is_shown_under_the_names(
    resp: Doc,
    table: Seq<char>,
    keys: Seq<Seq<char>>,
    mode: DisplayValueArg,
    output: OutputMode,
    rows: Seq<Doc>,
    i: int,
    a: Seq<char>,
    b: Seq<char>,
)
    requires
        errors_of(resp).len() == 0,
        output != OutputMode::Raw,
        field_in(
            field_in(field_in(resp.field("data"@), "GlideRecord_Query"@), table),
            "_results"@,
        ) == Some(Doc::Array(rows)),
        0 <= i < rows.len(),
        !a.contains('.') && !b.contains('.'),
    ensures
        answered(resp, table, false, keys, mode, output) matches Ok(Doc::Array(out)) && {
            &&& out.len() == rows.len()
            &&& keys.contains(a) ==> {
                &&& rows[i].field(a) matches Some(v) ==> (v != Doc::Null ==> out[i].field(a)
                    == Some(shown(v, mode)))
                &&& rows[i].field(a) is None ==> out[i].field(a) == Some(Doc::Null)
            }
            &&& keys.contains(a + seq!['.'] + b) ==> (field_in(
                rows[i].field(a),
                "_reference"@,
            ) matches Some(r) ==> (r.field(b) matches Some(v) ==> (v != Doc::Null ==> out[i].field(
                a + seq!['.'] + b,
            ) == Some(shown(v, mode)))))
        },
{
    let container = rows_of(resp, table)->0;
    assert(container != Doc::Null);
    let dotted = a + seq!['.'] + b;
    a_flat_record_has_the_names_asked_for(rows[i], keys, mode, a);
    a_flat_record_has_the_names_asked_for(rows[i], keys, mode, dotted);
    pieces_make_up_the_text(a, '.');
    lemma_two_pieces(a, b, '.');
    let path = seq![a, b];
    assert(path.drop_first() =~= seq![b]);
    reveal_with_fuel(walked, 3);
}

/// A count is the number of rows that the answer names.
pub proof fn a_count_is_the_number_of_rows(
    resp: Doc,
    table: Seq<char>,
    keys: Seq<Seq<char>>,
    mode: DisplayValueArg,
    output: OutputMode,
    n: nat,
)
    requires
        errors_of(resp).len() == 0,
        output != OutputMode::Raw,
        natural_in(
            field_in(
                field_in(field_in(resp.field("data"@), "GlideRecord_Query"@), table),
                "_rowCount"@,
            ),
        ) == Some(n),
    ensures
        answered(resp, table, true, keys, mode, output) matches Ok(d) && d.field("count"@) == Some(
            Doc::Number(digits(n)),
        ),
{
}

/// The document asks for the page that was asked for: as many rows as the limit, from
/// the offset on.
pub proof fn a_document_asks_for_its_page(
    table: Seq<char>,
    selection: Seq<char>,
    has_query: bool,
    limit: u32,
    offset: u32,
)
    ensures
        has(
            document(table, selection, has_query, limit, offset),
            "limit: "@ + digits(limit as nat) + ", offset: "@ + digits(offset as nat),
        ),
        has(document(table, selection, has_query, limit, offset), selection),
        has(document(table, selection, has_query, limit, offset), table),
{
    reveal_strlit("pagination: { limit: ");
    reveal_strlit("limit: ");
    reveal_strlit("query ($qc: String!) { GlideRecord_Query { ");
    reveal_strlit("{ GlideRecord_Query { ");
    let d = document(table, selection, has_query, limit, offset);
    let lead = if has_query {
        "query ($qc: String!) { GlideRecord_Query { "@
    } else {
        "{ GlideRecord_Query { "@
    };
    let tail = if has_query {
        "(queryConditions: $qc, "@
    } else {
        "("@
    };
    let at = lead.len() as int;
    assert(d.subrange(at, at + table.len()) =~= table);
    let page = "limit: "@ + digits(limit as nat) + ", offset: "@ + digits(offset as nat);
    let start = lead + table + tail;
    let from = start.len() as int + 14;
    assert(d.subrange(from, from + page.len()) =~= page);
    let behind = start + "pagination: { limit: "@ + digits(limit as nat) + ", offset: "@ + digits(
        offset as nat,
    ) + " }) { "@;
    let b = behind.len() as int;
    assert(d.subrange(b, b + selection.len()) =~= selection);
}

/// A request asks for the page, the condition and the values that the flags say; a
/// count asks for the number of rows alone.
pub proof fn a_request_asks_for_what_the_flags_say(args: GrArgs, keys: Seq<Seq<char>>)
    ensures
        ({
            let c = args.call(keys);
            &&& c.method == Method::Post && c.path == "/api/now/graphql"@
            &&& args.query matches Some(q) ==> (c.body matches Some(b) && field_in(
                b.field("variables"@),
                "qc"@,
            ) == Some(Doc::Str(q@)))
            &&& args.query is None ==> (c.body matches Some(b) && b.field("variables"@) is None)
            &&& args.count ==> (c.body matches Some(b) && b.field("query"@) == Some(
                Doc::Str(document(args.table@, "_rowCount"@, args.query is Some, 1, 0)),
            ))
            &&& !args.count ==> (c.body matches Some(b) && b.field("query"@) == Some(
                Doc::Str(
                    document(
                        args.table@,
                        "_results { "@ + selection(
                            selection_tree(routes(keys)),
                            leaf(mode_of(args.display_value.display_value)),
                        ) + "}"@,
                        args.query is Some,
                        args.paging.limit.setlimit,
                        match args.paging.offset {
                            Some(n) => n,
                            None => 0,
                        },
                    ),
                ),
            ))
        }),
        mode_of(None) == DisplayValueArg::True,
        mode_of(args.display_value.display_value) == (match args.display_value.display_value {
            Some(m) => m,
            None => DisplayValueArg::True,
        }),
{
    reveal_strlit("query");
    reveal_strlit("variables");
    reveal_strlit("operationName");
    assert("query"@.len() == 5 && "variables"@.len() == 9 && "operationName"@.len() == 13);
}

/// A field that was asked for selects its values; one that something is asked for
/// behind leads on through its reference.
pub proof fn a_field_leads_on_through_its_reference(
    nodes: Seq<Tree>,
    name: Seq<char>,
    children: Seq<Tree>,
    leaf: Seq<char>,
)
    ensures
        selection(
            nodes.push((Tree { name, requested: true, children: Seq::empty() })),
            leaf,
        ) == selection(nodes, leaf) + (name + " { "@ + leaf + " "@ + "} "@),
        children.len() > 0 ==> selection(nodes.push((Tree { name, requested: false, children })), leaf)
            == selection(nodes, leaf) + (name + " { "@ + "_reference { "@ + selection(children, leaf)
            + "} "@ + "} "@),
        children.len() > 0 ==> selection(nodes.push((Tree { name, requested: true, children })), leaf)
            == selection(nodes, leaf) + (name + " { "@ + leaf + " "@ + "_reference { "@ + selection(
            children,
            leaf,
        ) + "} "@ + "} "@),
        selection(Seq::empty(), leaf).len() == 0,
{
    let a = Tree { name, requested: true, children: Seq::empty() };
    let b = Tree { name, requested: false, children };
    let c = Tree { name, requested: true, children };
    assert(nodes.push(a).drop_last() =~= nodes);
    assert(nodes.push(b).drop_last() =~= nodes);
    assert(nodes.push(c).drop_last() =~= nodes);
    let s = selection(nodes, leaf);
    assert(selection(nodes.push(a), leaf) =~= s + (name + " { "@ + leaf + " "@ + "} "@));
    if children.len() > 0 {
        assert(selection(nodes.push(b), leaf) =~= s + (name + " { "@ + "_reference { "@
            + selection(children, leaf) + "} "@ + "} "@));
        assert(selection(nodes.push(c), leaf) =~= s + (name + " { "@ + leaf + " "@
            + "_reference { "@ + selection(children, leaf) + "} "@ + "} "@));
    }
}

/// The names that are asked for are the entries without the blanks around them, all of
/// them.
pub proof fn every_entry_is_a_name(entries: Seq<Seq<char>>, k: Seq<char>)
    ensures
        entry_keys(entries) matches Ok(keys) ==> (keys.contains(k) <==> exists|i: int|
            0 <= i < entries.len() && trimmed(#[trigger] entries[i]) == k),
        (exists|i: int| 0 <= i < entries.len() && trimmed(#[trigger] entries[i]).len() == 0)
            ==> entry_keys(entries) is Err,
    decreases entries.len(),
{
    if entries.len() > 0 {
        let less = entries.drop_last();
        every_entry_is_a_name(less, k);
        let key = trimmed(entries.last());
        if exists|i: int| 0 <= i < entries.len() && trimmed(#[trigger] entries[i]).len() == 0 {
            let i = choose|i: int|
                0 <= i < entries.len() && trimmed(#[trigger] entries[i]).len() == 0;
            if i < less.len() {
                assert(less[i] == entries[i]);
            }
        }
        if let Ok(all) = entry_keys(entries) {
            let keys = entry_keys(less)->Ok_0;
            if all.contains(k) {
                let i = all.index_of(k);
                if i < keys.len() {
                    assert(keys[i] == k);
                    let j = choose|j: int|
                        0 <= j < less.len() && trimmed(#[trigger] less[j]) == k;
                    assert(entries[j] == less[j]);
                } else {
                    assert(trimmed(entries[entries.len() - 1]) == k);
                }
            }
            if exists|i: int| 0 <= i < entries.len() && trimmed(#[trigger] entries[i]) == k {
                let i = choose|i: int|
                    0 <= i < entries.len() && trimmed(#[trigger] entries[i]) == k;
                if i < less.len() {
                    assert(less[i] == entries[i]);
                    let j = keys.index_of(k);
                    assert(all[j] == k);
                } else if !keys.contains(k) {
                    assert(all[keys.len() as int] == k);
                }
            }
        }
    }
}

/// What the errors of an answer mean: a table that is not there, a walk through what is
/// no reference, or what they say themselves.
pub proof fn errors_are_told_by_what_they_name(errors: Seq<Doc>, table: Seq<char>)
    ensures
        undefined(errors, table) ==> mapped(errors, table).message() == "table '"@ + table
            + "' is not queryable via GraphQL"@,
        !undefined(errors, table) && !undefined(errors, "_reference"@) && (forall|i: int|
            0 <= i < errors.len() ==> !about_table(#[trigger] errors[i], table)) ==> mapped(
            errors,
            table,
        ) == errors_fault(errors),
        !undefined(errors, table) && undefined(errors, "_reference"@) && (forall|i: int|
            0 <= i < errors.len() ==> !about_table(#[trigger] errors[i], table)) ==> mapped(
            errors,
            table,
        ).message() == "a --fields path dot-walks through a non-reference field"@,
        mapped(errors, table).sn_error() == Some(Doc::Array(errors)),
{
}

/// A name holds letters, digits and underscores alone, and begins with no digit.
pub proof fn a_name_holds_no_sign(s: Seq<char>, i: int)
    requires
        is_ident(s),
        0 <= i < s.len(),
    ensures
        48 <= s[i] as u32 <= 57 || 65 <= s[i] as u32 <= 90 || 97 <= s[i] as u32 <= 122 || s[i]
            == '_',
        !(48 <= s[0] as u32 <= 57),
{
    assert(in_name(s[i]));
}

} // verus!
