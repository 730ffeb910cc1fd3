//! How far two spellings are apart, and which names come close to one.

use vstd::prelude::*;

use crate::order::{before, is_before, texts};
use crate::text::{
    chars_of, contains, has, lowered, split_whitespace, to_lowercase, words,
};

verus! {

pub open spec fn least(a: nat, b: nat) -> nat {
    if a <= b {
        a
    } else {
        b
    }
}

/// The edit distance between the first `i` characters of `a` and the first `j`
/// of `b`: insertions, deletions, replacements and swaps of neighbours, where
/// nothing is edited twice.
pub open spec fn distance(a: Seq<char>, b: Seq<char>, i: nat, j: nat) -> nat
    decreases i + j,
{
    if i == 0 {
        j
    } else if j == 0 {
        i
    } else {
        let cost: nat = if a[i - 1] == b[j - 1] {
            0
        } else {
            1
        };
        let best = least(
            least(
                distance(a, b, (i - 1) as nat, j) + 1,
                distance(a, b, i, (j - 1) as nat) + 1,
            ),
            distance(a, b, (i - 1) as nat, (j - 1) as nat) + cost,
        );
        if i > 1 && j > 1 && a[i - 1] == b[j - 2] && a[i - 2] == b[j - 1] {
            least(best, distance(a, b, (i - 2) as nat, (j - 2) as nat) + 1)
        } else {
            best
        }
    }
}

/// The edit distance between two texts.
pub open spec fn edits(a: Seq<char>, b: Seq<char>) -> nat {
    distance(a, b, a.len(), b.len())
}

/// No distance is larger than the longer text.
proof fn lemma_distance_bound(a: Seq<char>, b: Seq<char>, i: nat, j: nat)
    ensures
        distance(a, b, i, j) <= i || distance(a, b, i, j) <= j,
    decreases i + j,
{
    if i > 0 && j > 0 {
        lemma_distance_bound(a, b, (i - 1) as nat, (j - 1) as nat);
    }
}

/// No distance is smaller than the difference of the lengths.
proof fn lemma_distance_least(a: Seq<char>, b: Seq<char>, i: nat, j: nat)
    ensures
        i <= distance(a, b, i, j) + j,
        j <= distance(a, b, i, j) + i,
    decreases i + j,
{
    if i > 0 && j > 0 {
        lemma_distance_least(a, b, (i - 1) as nat, j);
        lemma_distance_least(a, b, i, (j - 1) as nat);
        lemma_distance_least(a, b, (i - 1) as nat, (j - 1) as nat);
        if i > 1 && j > 1 {
            lemma_distance_least(a, b, (i - 2) as nat, (j - 2) as nat);
        }
    }
}

/// The distance is at most the length of the longer text, and at least the
/// difference of the two lengths.
pub proof fn edits_are_bounded_by_the_lengths(a: Seq<char>, b: Seq<char>)
    ensures
        edits(a, b) <= a.len() || edits(a, b) <= b.len(),
        a.len() <= edits(a, b) + b.len(),
        b.len() <= edits(a, b) + a.len(),
{
    lemma_distance_bound(a, b, a.len(), b.len());
    lemma_distance_least(a, b, a.len(), b.len());
}

/// A text is at no distance from itself.
pub proof fn no_edits_to_the_same_text(a: Seq<char>)
    ensures
        edits(a, a) == 0,
{
    lemma_distance_same(a, a.len());
}

proof fn lemma_distance_same(a: Seq<char>, i: nat)
    ensures
        distance(a, a, i, i) == 0,
    decreases i,
{
    if i > 0 {
        lemma_distance_same(a, (i - 1) as nat);
    }
}

/// Two texts at no distance are the same.
pub proof fn no_edits_means_the_same_text(a: Seq<char>, b: Seq<char>)
    requires
        edits(a, b) == 0,
    ensures
        a == b,
{
    lemma_distance_zero(a, b, a.len(), b.len());
    assert(a =~= b);
}

proof fn lemma_distance_zero(a: Seq<char>, b: Seq<char>, i: nat, j: nat)
    requires
        distance(a, b, i, j) == 0,
        i <= a.len(),
        j <= b.len(),
    ensures
        i == j,
        forall|k: int| 0 <= k < i ==> a[k] == b[k],
    decreases i + j,
{
    if i > 0 && j > 0 {
        lemma_distance_zero(a, b, (i - 1) as nat, (j - 1) as nat);
    }
}

/// The distance is the same in both directions.
pub proof fn edits_are_symmetric(a: Seq<char>, b: Seq<char>)
    ensures
        edits(a, b) == edits(b, a),
{
    lemma_distance_symmetric(a, b, a.len(), b.len());
}

proof fn lemma_distance_symmetric(a: Seq<char>, b: Seq<char>, i: nat, j: nat)
    ensures
        distance(a, b, i, j) == distance(b, a, j, i),
    decreases i + j,
{
    if i > 0 && j > 0 {
        lemma_distance_symmetric(a, b, (i - 1) as nat, j);
        lemma_distance_symmetric(a, b, i, (j - 1) as nat);
        lemma_distance_symmetric(a, b, (i - 1) as nat, (j - 1) as nat);
        if i > 1 && j > 1 {
            lemma_distance_symmetric(a, b, (i - 2) as nat, (j - 2) as nat);
        }
    }
}

/// Row `i` of the table of distances, without its first column: the distances to
/// the first one, two, three... characters of `b`.
spec fn is_row(row: Seq<u128>, a: Seq<char>, b: Seq<char>, i: nat, upto: int) -> bool {
    forall|k: int| 0 <= k < upto ==> #[trigger] row[k] == distance(a, b, i, (k + 1) as nat)
}

/// The edit distance between two texts.
pub fn edit_distance(a: &str, b: &str) -> (r: usize)
    ensures
        r == edits(a@, b@),
{
    let x = chars_of(a);
    let y = chars_of(b);
    let m: usize = y.len();
    // The rows for none, and (once there is one) for one character less.
    let mut row: Vec<u128> = Vec::new();
    let mut j: usize = 0;
    while j < m
        invariant
            j <= m,
            m == y.len(),
            row.len() == j,
            is_row(row@, x@, y@, 0, j as int),
        decreases m - j,
    {
        row.push(j as u128 + 1);
        j = j + 1;
    }
    let mut above: Vec<u128> = Vec::new();
    let mut i: usize = 0;
    while i < x.len()
        invariant
            i <= x.len(),
            m == y.len(),
            row.len() == m,
            is_row(row@, x@, y@, i as nat, m as int),
            i > 0 ==> above.len() == m && is_row(above@, x@, y@, (i - 1) as nat, m as int),
        decreases x.len() - i,
    {
        let mut next: Vec<u128> = Vec::new();
        let mut j: usize = 0;
        while j < m
            invariant
                i < x.len(),
                j <= m,
                m == y.len(),
                row.len() == m,
                next.len() == j,
                is_row(row@, x@, y@, i as nat, m as int),
                is_row(next@, x@, y@, (i + 1) as nat, j as int),
                i > 0 ==> above.len() == m && is_row(above@, x@, y@, (i - 1) as nat, m as int),
            decreases m - j,
        {
            let cost: u128 = if x[i] != y[j] {
                1
            } else {
                0
            };
            proof {
                lemma_distance_bound(x@, y@, i as nat, (j + 1) as nat);
                lemma_distance_bound(x@, y@, (i + 1) as nat, j as nat);
                lemma_distance_bound(x@, y@, i as nat, j as nat);
                if i > 0 && j > 0 {
                    lemma_distance_bound(x@, y@, (i - 1) as nat, (j - 1) as nat);
                }
            }
            assert(row@[j as int] == distance(x@, y@, i as nat, (j + 1) as nat));
            let up = row[j];
            let left: u128 = if j == 0 {
                i as u128 + 1
            } else {
                assert(next@[j - 1] == distance(x@, y@, (i + 1) as nat, j as nat));
                next[j - 1]
            };
            let diagonal: u128 = if j == 0 {
                i as u128
            } else {
                assert(row@[j - 1] == distance(x@, y@, i as nat, j as nat));
                row[j - 1]
            };
            let mut best = up + 1;
            if left + 1 < best {
                best = left + 1;
            }
            if diagonal + cost < best {
                best = diagonal + cost;
            }
            if i > 0 && j > 0 && x[i] == y[j - 1] && x[i - 1] == y[j] {
                let corner: u128 = if j == 1 {
                    i as u128 - 1
                } else {
                    assert(above@[j - 2] == distance(x@, y@, (i - 1) as nat, (j - 1) as nat));
                    above[j - 2]
                };
                if corner + 1 < best {
                    best = corner + 1;
                }
            }
            assert(best == distance(x@, y@, (i + 1) as nat, (j + 1) as nat));
            next.push(best);
            j = j + 1;
        }
        above = row;
        row = next;
        i = i + 1;
    }
    proof {
        lemma_distance_bound(x@, y@, x@.len(), y@.len());
    }
    if m == 0 {
        x.len()
    } else {
        assert(row@[m - 1] == distance(x@, y@, x@.len(), m as nat));
        row[m - 1] as usize
    }
}

/// How many edits are forgiven: one, and one more for every four characters, at
/// most three.
pub open spec fn budget(needle: Seq<char>) -> nat {
    least(1 + needle.len() / 4, 3)
}

/// The least distance from a text to one of the given words.
pub open spec fn nearest(needle: Seq<char>, candidates: Seq<Seq<char>>) -> nat
    decreases candidates.len(),
{
    if candidates.len() <= 1 {
        edits(needle, candidates[0])
    } else {
        least(nearest(needle, candidates.drop_last()), edits(needle, candidates.last()))
    }
}

/// How good a guess a name is: none at all, or its distance. A name that holds
/// what was typed, or is held by it, is as good as exact; else the whole name
/// and each of its words is compared.
pub open spec fn score(needle: Seq<char>, name: Seq<char>) -> Option<nat> {
    let lc = lowered(name);
    if has(lc, needle) || has(needle, lc) {
        Some(0)
    } else {
        let d = nearest(needle, words(lc).push(lc));
        if d <= budget(needle) {
            Some(d)
        } else {
            None
        }
    }
}

/// A guess ranks before another: it is nearer, or as near and earlier in the
/// order of texts.
pub open spec fn ranks_before(x: (nat, Seq<char>), y: (nat, Seq<char>)) -> bool {
    x.0 < y.0 || (x.0 == y.0 && before(x.1, y.1))
}

/// A list of guesses with one put in its place.
pub open spec fn placed(s: Seq<(nat, Seq<char>)>, x: (nat, Seq<char>)) -> Seq<(nat, Seq<char>)>
    decreases s.len(),
{
    if s.len() == 0 {
        seq![x]
    } else if ranks_before(x, s.last()) {
        placed(s.drop_last(), x).push(s.last())
    } else {
        s.push(x)
    }
}

/// The names that are guesses, in the order of their rank.
pub open spec fn ranked(needle: Seq<char>, names: Seq<Seq<char>>) -> Seq<(nat, Seq<char>)>
    decreases names.len(),
{
    if names.len() == 0 {
        Seq::empty()
    } else {
        match score(needle, names.last()) {
            Some(d) => placed(ranked(needle, names.drop_last()), (d, names.last())),
            None => ranked(needle, names.drop_last()),
        }
    }
}

/// The best guesses at a name: at most three.
pub open spec fn guesses(needle: Seq<char>, names: Seq<Seq<char>>) -> Seq<Seq<char>> {
    let n = lowered(needle);
    if n.len() == 0 {
        Seq::empty()
    } else {
        let r = ranked(n, names);
        r.take(
            if r.len() < 3 {
                r.len() as int
            } else {
                3
            },
        ).map_values(|g: (nat, Seq<char>)| g.1)
    }
}

/// Nobody ranks before an earlier one.
pub open spec fn in_rank_order(s: Seq<(nat, Seq<char>)>) -> bool {
    forall|i: int, j: int|
        0 <= i < j < s.len() ==> !ranks_before(#[trigger] s[j], #[trigger] s[i])
}

proof fn lemma_rank_transitive(x: (nat, Seq<char>), y: (nat, Seq<char>), z: (nat, Seq<char>))
    requires
        !ranks_before(y, x),
        !ranks_before(z, y),
    ensures
        !ranks_before(z, x),
{
    if x.0 == y.0 && y.0 == z.0 {
        crate::order::lemma_before_total(x.1, y.1);
        crate::order::lemma_before_total(y.1, z.1);
        if before(x.1, y.1) && before(y.1, z.1) {
            crate::order::lemma_before_transitive(x.1, y.1, z.1);
        }
        if before(z.1, x.1) {
            if before(x.1, z.1) {
                crate::order::lemma_before_transitive(x.1, z.1, x.1);
            }
            crate::order::lemma_before_irreflexive(x.1);
            if before(x.1, y.1) && y.1 == z.1 {
                crate::order::lemma_before_transitive(x.1, z.1, x.1);
            }
        }
    }
}

proof fn lemma_placed(s: Seq<(nat, Seq<char>)>, x: (nat, Seq<char>))
    requires
        in_rank_order(s),
    ensures
        in_rank_order(placed(s, x)),
        placed(s, x).len() == s.len() + 1,
        forall|k: int|
            0 <= k <= s.len() ==> #[trigger] placed(s, x)[k] == x || s.contains(placed(s, x)[k]),
    decreases s.len(),
{
    if s.len() > 0 {
        if ranks_before(x, s.last()) {
            let t = s.drop_last();
            assert forall|i: int, j: int| 0 <= i < j < t.len() implies !ranks_before(
                #[trigger] t[j],
                #[trigger] t[i],
            ) by {
                assert(t[i] == s[i] && t[j] == s[j]);
            }
            lemma_placed(t, x);
            let p = placed(t, x);
            let all = p.push(s.last());
            assert forall|i: int, j: int| 0 <= i < j < all.len() implies !ranks_before(
                #[trigger] all[j],
                #[trigger] all[i],
            ) by {
                if j == p.len() {
                    if p[i] == x {
                        crate::order::lemma_before_irreflexive(x.1);
                        if x.0 == s.last().0 && before(s.last().1, x.1) {
                            crate::order::lemma_before_transitive(x.1, s.last().1, x.1);
                        }
                    } else {
                        assert(t.contains(p[i]));
                        let k = choose|k: int| 0 <= k < t.len() && t[k] == p[i];
                        assert(s[k] == p[i]);
                        assert(!ranks_before(s[s.len() - 1], s[k]));
                    }
                } else {
                    assert(all[i] == p[i] && all[j] == p[j]);
                }
            }
            assert forall|k: int| 0 <= k <= s.len() implies #[trigger] placed(s, x)[k] == x
                || s.contains(placed(s, x)[k]) by {
                if k < p.len() {
                    if p[k] != x {
                        let q = choose|q: int| 0 <= q < t.len() && t[q] == p[k];
                        assert(s[q] == p[k]);
                    }
                } else {
                    assert(placed(s, x)[k] == s[s.len() - 1]);
                }
            }
        } else {
            let all = s.push(x);
            assert forall|i: int, j: int| 0 <= i < j < all.len() implies !ranks_before(
                #[trigger] all[j],
                #[trigger] all[i],
            ) by {
                if j == s.len() {
                    if i < s.len() - 1 {
                        assert(!ranks_before(s[s.len() - 1], s[i]));
                        lemma_rank_transitive(s[i], s[s.len() - 1], x);
                    }
                } else {
                    assert(all[i] == s[i] && all[j] == s[j]);
                }
            }
            assert forall|k: int| 0 <= k <= s.len() implies #[trigger] placed(s, x)[k] == x
                || s.contains(placed(s, x)[k]) by {
                if k < s.len() {
                    assert(placed(s, x)[k] == s[k]);
                }
            }
        }
    }
}

/// The guesses are in the order of their rank, nearest first.
pub proof fn guesses_are_ranked(needle: Seq<char>, names: Seq<Seq<char>>)
    ensures
        in_rank_order(ranked(needle, names)),
        guesses(needle, names).len() <= 3,
    decreases names.len(),
{
    if names.len() > 0 {
        guesses_are_ranked(needle, names.drop_last());
        if let Some(d) = score(needle, names.last()) {
            lemma_placed(ranked(needle, names.drop_last()), (d, names.last()));
        }
    }
}

/// The names that are guesses, with their scores, in the order in which they were
/// given.
pub open spec fn eligible(needle: Seq<char>, names: Seq<Seq<char>>) -> Seq<(nat, Seq<char>)>
    decreases names.len(),
{
    if names.len() == 0 {
        Seq::empty()
    } else {
        match score(needle, names.last()) {
            Some(d) => eligible(needle, names.drop_last()).push((d, names.last())),
            None => eligible(needle, names.drop_last()),
        }
    }
}

proof fn lemma_placed_contents(s: Seq<(nat, Seq<char>)>, x: (nat, Seq<char>))
    ensures
        placed(s, x).to_multiset() =~= s.to_multiset().insert(x),
    decreases s.len(),
{
    broadcast use vstd::seq_lib::group_to_multiset_ensures;

    if s.len() == 0 {
        assert(placed(s, x) =~= s.push(x));
    } else if ranks_before(x, s.last()) {
        lemma_placed_contents(s.drop_last(), x);
        assert(s =~= s.drop_last().push(s.last()));
    }
}

/// Ranking loses no name and doubles none: it holds the names that are guesses, each
/// as often as it was given.
pub proof fn ranking_keeps_every_guess(needle: Seq<char>, names: Seq<Seq<char>>)
    ensures
        ranked(needle, names).to_multiset() == eligible(needle, names).to_multiset(),
    decreases names.len(),
{
    broadcast use vstd::seq_lib::group_to_multiset_ensures;

    if names.len() > 0 {
        ranking_keeps_every_guess(needle, names.drop_last());
        if let Some(d) = score(needle, names.last()) {
            lemma_placed_contents(ranked(needle, names.drop_last()), (d, names.last()));
        }
    }
}

/// What a list of scored names holds.
spec fn scored(v: Seq<(usize, String)>) -> Seq<(nat, Seq<char>)> {
    v.map_values(|e: (usize, String)| (e.0 as nat, e.1@))
}

/// Puts a guess in its place.
fn place(v: &mut Vec<(usize, String)>, d: usize, name: &str)
    ensures
        scored(final(v)@) == placed(scored(old(v)@), (d as nat, name@)),
{
    let ghost all = scored(v@);
    let ghost x = (d as nat, name@);
    let mut i: usize = v.len();
    assert(all.take(i as int) =~= all);
    assert(all.skip(i as int) =~= Seq::empty());
    assert(placed(all, x) =~= placed(all.take(i as int), x) + all.skip(i as int));
    while i > 0 && (d < v[i - 1].0 || (d == v[i - 1].0 && is_before(name, v[i - 1].1.as_str())))
        invariant
            i <= v.len(),
            all == scored(v@),
            x == (d as nat, name@),
            v@ == old(v)@,
            placed(all, x) == placed(all.take(i as int), x) + all.skip(i as int),
        decreases i,
    {
        let ghost t = all.take(i as int);
        assert(t.last() == all[i - 1]);
        assert(all[i - 1] == (v@[i - 1].0 as nat, v@[i - 1].1@));
        assert(t.drop_last() =~= all.take(i - 1));
        assert(placed(t.drop_last(), x).push(t.last()) + all.skip(i as int) =~= placed(
            all.take(i - 1),
            x,
        ) + all.skip(i - 1));
        i = i - 1;
    }
    proof {
        let t = all.take(i as int);
        if i > 0 {
            assert(t.last() == all[i - 1]);
            assert(all[i - 1] == (v@[i - 1].0 as nat, v@[i - 1].1@));
        }
        assert(placed(t, x) =~= t.push(x));
    }
    v.insert(i, (d, name.to_owned()));
    assert(scored(v@) =~= all.take(i as int).push(x) + all.skip(i as int));
}

/// The least distance from a text to a name or one of its words.
fn nearest_word(needle: &str, lc: &str) -> (r: usize)
    ensures
        r == nearest(needle@, words(lc@).push(lc@)),
{
    let mut list = split_whitespace(lc);
    let ghost prior = texts(list@);
    list.push(lc.to_owned());
    let ghost all = texts(list@);
    assert(all =~= words(lc@).push(lc@));
    assert(all[0] == list@[0]@);
    let mut best = edit_distance(needle, list[0].as_str());
    let mut i: usize = 1;
    assert(all.take(1)[0] == all[0]);
    while i < list.len()
        invariant
            1 <= i <= list.len(),
            all == texts(list@),
            best == nearest(needle@, all.take(i as int)),
        decreases list.len() - i,
    {
        assert(all.take(i + 1).drop_last() =~= all.take(i as int));
        assert(all.take(i + 1).last() == list@[i as int]@);
        let d = edit_distance(needle, list[i].as_str());
        if d < best {
            best = d;
        }
        i = i + 1;
    }
    assert(all.take(i as int) =~= all);
    best
}

/// Finds up to three plausible spellings among the candidates.
pub fn near_matches(needle: &str, candidates: &Vec<String>) -> (r: Vec<String>)
    ensures
        texts(r@) == guesses(needle@, texts(candidates@)),
{
    let n = to_lowercase(needle);
    let mut out: Vec<String> = Vec::new();
    if n.as_str().is_empty() {
        assert(texts(out@) =~= Seq::<Seq<char>>::empty());
        return out;
    }
    let letters = chars_of(n.as_str());
    let quarter: usize = letters.len() / 4;
    let budget: usize = if quarter >= 2 {
        3
    } else {
        1 + quarter
    };
    let ghost names = texts(candidates@);
    let mut found: Vec<(usize, String)> = Vec::new();
    let mut i: usize = 0;
    assert(scored(found@) =~= Seq::empty());
    while i < candidates.len()
        invariant
            i <= candidates.len(),
            names == texts(candidates@),
            budget == self::budget(n@),
            scored(found@) == ranked(n@, names.take(i as int)),
        decreases candidates.len() - i,
    {
        assert(names.take(i + 1).drop_last() =~= names.take(i as int));
        assert(names.take(i + 1).last() == candidates@[i as int]@);
        let name = candidates[i].as_str();
        let lc = to_lowercase(name);
        if contains(lc.as_str(), n.as_str()) || contains(n.as_str(), lc.as_str()) {
            place(&mut found, 0, name);
        } else {
            let d = nearest_word(n.as_str(), lc.as_str());
            if d <= budget {
                place(&mut found, d, name);
            }
        }
        i = i + 1;
    }
    assert(names.take(i as int) =~= names);
    let ghost best = ranked(n@, names);
    let mut i: usize = 0;
    assert(texts(out@) =~= best.take(0).map_values(|g: (nat, Seq<char>)| g.1));
    while i < found.len() && i < 3
        invariant
            i <= found.len(),
            i <= 3,
            best == scored(found@),
            texts(out@) == best.take(i as int).map_values(|g: (nat, Seq<char>)| g.1),
        decreases found.len() - i,
    {
        let ghost prior = texts(out@);
        out.push(found[i].1.clone());
        assert(texts(out@) =~= prior.push(found@[i as int].1@));
        assert(best[i as int].1 == found@[i as int].1@);
        assert(best.take(i + 1).map_values(|g: (nat, Seq<char>)| g.1) =~= prior.push(
            best[i as int].1,
        ));
        i = i + 1;
    }
    out
}

proof fn lemma_same_ends(a: Seq<char>, b: Seq<char>, i: nat, j: nat, n: nat)
    requires
        i + n <= a.len(),
        j + n <= b.len(),
        forall|k: int| 0 <= k < n ==> #[trigger] a[i + k] == b[j + k],
    ensures
        distance(a, b, i + n, j + n) <= distance(a, b, i, j),
    decreases n,
{
    if n > 0 {
        lemma_same_ends(a, b, i, j, (n - 1) as nat);
        assert(a[i + (n - 1)] == b[j + (n - 1)]);
        assert(i + n - 1 == i + (n - 1) as nat);
        assert(distance(a, b, i + n, j + n) <= distance(
            a,
            b,
            (i + n - 1) as nat,
            (j + n - 1) as nat,
        ));
    }
}

proof fn lemma_no_edits_so_far(a: Seq<char>, b: Seq<char>, n: nat)
    requires
        n <= a.len(),
        n <= b.len(),
        forall|k: int| 0 <= k < n ==> a[k] == b[k],
    ensures
        distance(a, b, n, n) == 0,
{
    lemma_same_ends(a, b, 0, 0, n);
}

/// Two neighbours that changed places, a character too many and a wrong character are
/// one edit each.
pub proof fn a_slip_is_one_edit(p: Seq<char>, x: char, y: char, s: Seq<char>)
    ensures
        edits(p + seq![x, y] + s, p + seq![y, x] + s) <= 1,
        edits(p + seq![x] + s, p + s) <= 1,
        edits(p + s, p + seq![x] + s) <= 1,
        edits(p + seq![x] + s, p + seq![y] + s) <= 1,
{
    let n = p.len();
    let m = s.len();
    {
        let a = p + seq![x, y] + s;
        let b = p + seq![y, x] + s;
        lemma_no_edits_so_far(a, b, n);
        assert(a[n as int] == x && a[n as int + 1] == y && b[n as int] == y && b[n as int + 1] == x);
        assert(distance(a, b, (n + 2) as nat, (n + 2) as nat) <= 1);
        lemma_same_ends(a, b, (n + 2) as nat, (n + 2) as nat, m);
    }
    {
        let a = p + seq![x] + s;
        let b = p + s;
        lemma_no_edits_so_far(a, b, n);
        assert(distance(a, b, (n + 1) as nat, n) <= 1);
        lemma_same_ends(a, b, (n + 1) as nat, n, m);
        edits_are_symmetric(a, b);
    }
    {
        let a = p + seq![x] + s;
        let b = p + seq![y] + s;
        lemma_no_edits_so_far(a, b, n);
        assert(distance(a, b, (n + 1) as nat, (n + 1) as nat) <= 1);
        lemma_same_ends(a, b, (n + 1) as nat, (n + 1) as nat, m);
    }
}

/// A longer text is forgiven more: one edit, two from four characters on, three from
/// eight on.
pub proof fn longer_texts_are_forgiven_more(needle: Seq<char>)
    ensures
        needle.len() < 4 ==> budget(needle) == 1,
        4 <= needle.len() < 8 ==> budget(needle) == 2,
        needle.len() >= 8 ==> budget(needle) == 3,
{
}

/// The nearest word is one of those given, and none is nearer.
pub proof fn no_word_is_nearer_than_the_nearest(needle: Seq<char>, candidates: Seq<Seq<char>>)
    requires
        candidates.len() > 0,
    ensures
        forall|i: int|
            0 <= i < candidates.len() ==> nearest(needle, candidates) <= edits(
                needle,
                #[trigger] candidates[i],
            ),
        exists|i: int|
            0 <= i < candidates.len() && nearest(needle, candidates) == edits(
                needle,
                #[trigger] candidates[i],
            ),
    decreases candidates.len(),
{
    if candidates.len() > 1 {
        let less = candidates.drop_last();
        no_word_is_nearer_than_the_nearest(needle, less);
        assert forall|i: int| 0 <= i < candidates.len() implies nearest(needle, candidates)
            <= edits(needle, #[trigger] candidates[i]) by {
            if i < less.len() {
                assert(less[i] == candidates[i]);
            }
        }
        let i = choose|i: int|
            0 <= i < less.len() && nearest(needle, less) == edits(needle, #[trigger] less[i]);
        assert(candidates[i] == less[i]);
        assert(candidates[candidates.len() - 1] == candidates.last());
    } else {
        assert(candidates[0] == candidates[0]);
    }
}

/// A name is a guess where it holds what was typed, is held by it, or it or one of its
/// words is near enough; it scores by its distance.
pub proof fn a_near_name_is_a_guess(needle: Seq<char>, name: Seq<char>, i: int)
    ensures
        crate::text::has(lowered(name), needle) || crate::text::has(needle, lowered(name))
            ==> score(needle, name) == Some(0nat),
        edits(needle, lowered(name)) <= budget(needle) ==> (score(needle, name) matches Some(d) && d
            <= edits(needle, lowered(name))),
        0 <= i < words(lowered(name)).len() && edits(needle, words(lowered(name))[i]) <= budget(
            needle,
        ) ==> (score(needle, name) matches Some(d) && d <= edits(
            needle,
            words(lowered(name))[i],
        )),
        score(needle, name) matches Some(d) ==> d <= budget(needle),
{
    let lc = lowered(name);
    let c = words(lc).push(lc);
    no_word_is_nearer_than_the_nearest(needle, c);
    assert(c[c.len() - 1] == lc);
    if 0 <= i < words(lc).len() {
        assert(c[i] == words(lc)[i]);
    }
}

/// The guesses are the first three in rank, or all where there are fewer.
pub proof fn the_best_three_are_offered(needle: Seq<char>, names: Seq<Seq<char>>, i: int)
    requires
        lowered(needle).len() > 0,
    ensures
        ranked(lowered(needle), names).len() >= 3 ==> guesses(needle, names).len() == 3,
        ranked(lowered(needle), names).len() < 3 ==> guesses(needle, names).len() == ranked(
            lowered(needle),
            names,
        ).len(),
        0 <= i < guesses(needle, names).len() ==> guesses(needle, names)[i] == ranked(
            lowered(needle),
            names,
        )[i].1,
{
}

/// A nearer guess comes first, and of two that are as near the one that comes first in
/// the order of texts.
pub proof fn a_nearer_guess_ranks_first(d: nat, e: nat, a: Seq<char>, b: Seq<char>)
    ensures
        d < e ==> ranks_before((d, a), (e, b)) && !ranks_before((e, b), (d, a)),
        d == e ==> (ranks_before((d, a), (e, b)) <==> before(a, b)),
{
}

} // verus!
