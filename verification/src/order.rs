//! The order of texts, and lists of texts in that order.

use vstd::prelude::*;

use crate::text::chars_of;

verus! {

/// `a` stands before `b`: the order of their characters, first difference
/// first, a prefix before what it begins.
pub open spec fn before(a: Seq<char>, b: Seq<char>) -> bool
    decreases a.len(),
{
    if b.len() == 0 {
        false
    } else if a.len() == 0 {
        true
    } else if a[0] != b[0] {
        a[0] < b[0]
    } else {
        before(a.drop_first(), b.drop_first())
    }
}

/// No text stands before itself.
pub proof fn lemma_before_irreflexive(a: Seq<char>)
    ensures
        !before(a, a),
    decreases a.len(),
{
    if a.len() > 0 {
        lemma_before_irreflexive(a.drop_first());
    }
}

/// The order is transitive.
pub proof fn lemma_before_transitive(a: Seq<char>, b: Seq<char>, c: Seq<char>)
    requires
        before(a, b),
        before(b, c),
    ensures
        before(a, c),
    decreases a.len(),
{
    if a.len() > 0 && b.len() > 0 && c.len() > 0 && a[0] == b[0] && b[0] == c[0] {
        lemma_before_transitive(a.drop_first(), b.drop_first(), c.drop_first());
    }
}

/// Of two different texts one stands before the other.
pub proof fn lemma_before_total(a: Seq<char>, b: Seq<char>)
    ensures
        before(a, b) || before(b, a) || a == b,
    decreases a.len(),
{
    if a.len() > 0 && b.len() > 0 && a[0] == b[0] {
        lemma_before_total(a.drop_first(), b.drop_first());
        if a.drop_first() == b.drop_first() {
            assert(a =~= seq![a[0]] + a.drop_first());
            assert(b =~= seq![b[0]] + b.drop_first());
        }
    } else if a.len() == 0 && b.len() == 0 {
        assert(a =~= b);
    }
}

/// Whether one text stands before another.
pub fn is_before(a: &str, b: &str) -> (r: bool)
    ensures
        r == before(a@, b@),
{
    let x = chars_of(a);
    let y = chars_of(b);
    let mut i: usize = 0;
    assert(x@.skip(0) =~= x@);
    assert(y@.skip(0) =~= y@);
    while i < x.len() && i < y.len()
        invariant
            i <= x.len(),
            i <= y.len(),
            x@ == a@,
            y@ == b@,
            before(x@, y@) == before(x@.skip(i as int), y@.skip(i as int)),
        decreases x.len() - i,
    {
        if x[i] != y[i] {
            return x[i] < y[i];
        }
        assert(x@.skip(i as int).drop_first() =~= x@.skip(i + 1));
        assert(y@.skip(i as int).drop_first() =~= y@.skip(i + 1));
        i = i + 1;
    }
    i < y.len()
}

/// The texts that a list of strings holds.
pub open spec fn texts(v: Seq<String>) -> Seq<Seq<char>> {
    v.map_values(|s: String| s@)
}

/// Each text stands before all that follow it.
pub open spec fn ascending(ks: Seq<Seq<char>>) -> bool {
    forall|i: int, j: int| 0 <= i < j < ks.len() ==> before(#[trigger] ks[i], #[trigger] ks[j])
}

/// `ks` lists the texts of `dom`, each once, in order.
pub open spec fn listing(ks: Seq<Seq<char>>, dom: Set<Seq<char>>) -> bool {
    &&& ascending(ks)
    &&& forall|k: Seq<char>| dom.contains(k) <==> #[trigger] ks.contains(k)
}

/// The texts of a set in order.
pub open spec fn in_order(dom: Set<Seq<char>>) -> Seq<Seq<char>> {
    choose|ks: Seq<Seq<char>>| listing(ks, dom)
}

/// A set of texts has one listing.
pub proof fn lemma_listing_unique(a: Seq<Seq<char>>, b: Seq<Seq<char>>, dom: Set<Seq<char>>)
    requires
        listing(a, dom),
        listing(b, dom),
    ensures
        a == b,
    decreases a.len(),
{
    if a.len() == 0 {
        if b.len() > 0 {
            assert(b.contains(b[0]));
            assert(dom.contains(b[0]));
            assert(a.contains(b[0]));
        }
        assert(a =~= b);
    } else {
        assert(a.contains(a[0]));
        assert(dom.contains(a[0]));
        assert(b.contains(a[0]));
        let j = choose|j: int| 0 <= j < b.len() && b[j] == a[0];
        assert(b.contains(b[0]));
        assert(dom.contains(b[0]));
        assert(a.contains(b[0]));
        let i = choose|i: int| 0 <= i < a.len() && a[i] == b[0];
        if j > 0 {
            assert(before(b[0], b[j]));
            if i > 0 {
                assert(before(a[0], a[i]));
                lemma_before_transitive(a[0], b[0], a[0]);
            }
            lemma_before_irreflexive(a[0]);
        }
        assert(a[0] == b[0]);
        let rest = dom.remove(a[0]);
        let ta = a.drop_first();
        let tb = b.drop_first();
        assert(listing(ta, rest)) by {
            lemma_rest_listing(a, dom);
        }
        assert(listing(tb, rest)) by {
            lemma_rest_listing(b, dom);
        }
        lemma_listing_unique(ta, tb, rest);
        assert(a =~= seq![a[0]] + ta);
        assert(b =~= seq![b[0]] + tb);
    }
}

proof fn lemma_rest_listing(a: Seq<Seq<char>>, dom: Set<Seq<char>>)
    requires
        listing(a, dom),
        a.len() > 0,
    ensures
        listing(a.drop_first(), dom.remove(a[0])),
{
    let t = a.drop_first();
    assert forall|i: int, j: int| 0 <= i < j < t.len() implies before(
        #[trigger] t[i],
        #[trigger] t[j],
    ) by {
        assert(t[i] == a[i + 1] && t[j] == a[j + 1]);
    }
    assert forall|k: Seq<char>| dom.remove(a[0]).contains(k) <==> #[trigger] t.contains(k) by {
        if dom.remove(a[0]).contains(k) {
            assert(a.contains(k));
            let i = choose|i: int| 0 <= i < a.len() && a[i] == k;
            assert(t[i - 1] == k);
        }
        if t.contains(k) {
            let i = choose|i: int| 0 <= i < t.len() && t[i] == k;
            assert(a[i + 1] == k);
            assert(a.contains(k));
            assert(before(a[0], a[i + 1]));
            lemma_before_irreflexive(a[0]);
        }
    }
}

/// Adds a text to an ascending list at its place, unless it is there.
pub fn insert_in_order(ks: &mut Vec<String>, k: &str)
    requires
        ascending(texts(old(ks)@)),
    ensures
        ascending(texts(final(ks)@)),
        forall|t: Seq<char>| #[trigger]
            texts(final(ks)@).contains(t) <==> (t == k@ || texts(old(ks)@).contains(t)),
{
    let ghost prior = texts(ks@);
    let mut i: usize = 0;
    while i < ks.len() && is_before(ks[i].as_str(), k)
        invariant
            i <= ks.len(),
            prior == texts(ks@),
            ascending(prior),
            forall|j: int| 0 <= j < i ==> before(#[trigger] prior[j], k@),
        decreases ks.len() - i,
    {
        assert(prior[i as int] == ks[i as int]@);
        i = i + 1;
    }
    if i < ks.len() && crate::text::same(ks[i].as_str(), k) {
        proof {
            assert(prior[i as int] == k@);
            assert(prior.contains(k@));
        }
        return;
    }
    ks.insert(i, k.to_owned());
    proof {
        let after = texts(ks@);
        assert(after =~= prior.insert(i as int, k@));
        if i < prior.len() {
            lemma_before_total(prior[i as int], k@);
        }
        assert forall|x: int, y: int| 0 <= x < y < after.len() implies before(
            #[trigger] after[x],
            #[trigger] after[y],
        ) by {
            if x == i {
                if y - 1 > i {
                    assert(before(prior[i as int], prior[y - 1]));
                    lemma_before_transitive(k@, prior[i as int], prior[y - 1]);
                }
            } else if y == i {
                assert(before(prior[x], k@));
            } else {
                let px = if x < i { x } else { x - 1 };
                let py = if y < i { y } else { y - 1 };
                assert(before(prior[px], prior[py]));
            }
        }
        assert forall|t: Seq<char>| #[trigger]
            after.contains(t) <==> (t == k@ || prior.contains(t)) by {
            if prior.contains(t) {
                let j = choose|j: int| 0 <= j < prior.len() && prior[j] == t;
                assert(after[if j < i { j } else { j + 1 }] == t);
            }
            if t == k@ {
                assert(after[i as int] == t);
            }
            if after.contains(t) {
                let j = choose|j: int| 0 <= j < after.len() && after[j] == t;
                if j < i {
                    assert(prior[j] == t);
                } else if j > i {
                    assert(prior[j - 1] == t);
                }
            }
        }
    }
}

/// A list with a text put in its place: behind every one that is not greater.
pub open spec fn slotted(ks: Seq<Seq<char>>, k: Seq<char>) -> Seq<Seq<char>>
    decreases ks.len(),
{
    if ks.len() == 0 {
        seq![k]
    } else if before(k, ks.last()) {
        slotted(ks.drop_last(), k).push(ks.last())
    } else {
        ks.push(k)
    }
}

proof fn lemma_slotted(ks: Seq<Seq<char>>, k: Seq<char>)
    requires
        ascending(ks),
        !ks.contains(k),
    ensures
        ascending(slotted(ks, k)),
        forall|x: Seq<char>| #[trigger] slotted(ks, k).contains(x) <==> ks.contains(x) || x == k,
    decreases ks.len(),
{
    let out = slotted(ks, k);
    if ks.len() == 0 {
        assert(out[0] == k);
        assert forall|x: Seq<char>| #[trigger] out.contains(x) <==> ks.contains(x) || x == k by {}
    } else if before(k, ks.last()) {
        let rest = ks.drop_last();
        let last = ks.last();
        assert forall|x: Seq<char>| rest.contains(x) implies ks.contains(x) && x != last by {
            let i = choose|i: int| 0 <= i < rest.len() && rest[i] == x;
            assert(ks[i] == x);
            assert(before(ks[i], ks[ks.len() - 1]));
            lemma_before_irreflexive(last);
        }
        assert forall|i: int, j: int| 0 <= i < j < rest.len() implies before(
            #[trigger] rest[i],
            #[trigger] rest[j],
        ) by {
            assert(before(ks[i], ks[j]));
        }
        lemma_slotted(rest, k);
        let p = slotted(rest, k);
        assert forall|i: int, j: int| 0 <= i < j < out.len() implies before(
            #[trigger] out[i],
            #[trigger] out[j],
        ) by {
            if j == p.len() {
                assert(p.contains(p[i]));
                if p[i] != k {
                    assert(rest.contains(p[i]));
                    let n = choose|n: int| 0 <= n < rest.len() && rest[n] == p[i];
                    assert(before(ks[n], ks[ks.len() - 1]));
                }
            } else {
                assert(out[i] == p[i] && out[j] == p[j]);
            }
        }
        assert forall|x: Seq<char>| #[trigger] out.contains(x) <==> ks.contains(x) || x == k by {
            if out.contains(x) {
                let n = choose|n: int| 0 <= n < out.len() && out[n] == x;
                if n < p.len() {
                    assert(p.contains(p[n]));
                } else {
                    assert(ks[ks.len() - 1] == x);
                }
            }
            if ks.contains(x) || x == k {
                if x == last {
                    assert(out[p.len() as int] == x);
                } else {
                    if ks.contains(x) {
                        let n = choose|n: int| 0 <= n < ks.len() && ks[n] == x;
                        assert(rest[n] == x);
                    }
                    assert(p.contains(x));
                    let n = choose|n: int| 0 <= n < p.len() && p[n] == x;
                    assert(out[n] == x);
                }
            }
        }
    } else {
        lemma_before_total(k, ks.last());
        assert(ks[ks.len() - 1] == ks.last());
        assert(k != ks.last());
        assert forall|i: int, j: int| 0 <= i < j < out.len() implies before(
            #[trigger] out[i],
            #[trigger] out[j],
        ) by {
            if j == ks.len() {
                if i < ks.len() - 1 {
                    assert(before(ks[i], ks[ks.len() - 1]));
                    lemma_before_transitive(ks[i], ks.last(), k);
                }
            } else {
                assert(before(ks[i], ks[j]));
            }
        }
        assert forall|x: Seq<char>| #[trigger] out.contains(x) <==> ks.contains(x) || x == k by {
            if out.contains(x) {
                let n = choose|n: int| 0 <= n < out.len() && out[n] == x;
                if n < ks.len() {
                    assert(ks[n] == x);
                }
            }
            if ks.contains(x) {
                let n = choose|n: int| 0 <= n < ks.len() && ks[n] == x;
                assert(out[n] == x);
            }
            if x == k {
                assert(out[ks.len() as int] == x);
            }
        }
    }
}

/// Every finite set of texts has a listing, and it is the one that
/// [`in_order`] gives.
pub proof fn lemma_in_order(dom: Set<Seq<char>>)
    requires
        dom.finite(),
    ensures
        listing(in_order(dom), dom),
    decreases dom.len(),
{
    if dom.len() == 0 {
        let none = Seq::<Seq<char>>::empty();
        assert forall|k: Seq<char>| dom.contains(k) <==> #[trigger] none.contains(k) by {
            if dom.contains(k) {
                assert(dom =~= Set::empty());
            }
        }
        assert(listing(none, dom));
    } else {
        let x = dom.choose();
        assert(dom.contains(x));
        let rest = dom.remove(x);
        lemma_in_order(rest);
        let ks = in_order(rest);
        assert(!ks.contains(x));
        lemma_slotted(ks, x);
        let all = slotted(ks, x);
        assert forall|k: Seq<char>| dom.contains(k) <==> #[trigger] all.contains(k) by {
            assert(rest.contains(k) <==> ks.contains(k));
        }
        assert(listing(all, dom));
    }
}

/// Texts in order; a text that stands twice is listed twice.
pub open spec fn sorted(ks: Seq<Seq<char>>) -> Seq<Seq<char>>
    decreases ks.len(),
{
    if ks.len() == 0 {
        ks
    } else {
        slotted(sorted(ks.drop_last()), ks.last())
    }
}

/// No text is smaller than one before it.
pub open spec fn is_sorted(ks: Seq<Seq<char>>) -> bool {
    forall|i: int, j: int| 0 <= i < j < ks.len() ==> !before(#[trigger] ks[j], #[trigger] ks[i])
}

proof fn lemma_slotted_sorted(s: Seq<Seq<char>>, k: Seq<char>)
    requires
        is_sorted(s),
    ensures
        is_sorted(slotted(s, k)),
        slotted(s, k).to_multiset() == s.to_multiset().insert(k),
        forall|i: int|
            0 <= i < slotted(s, k).len() ==> (#[trigger] slotted(s, k)[i]) == k || s.contains(
                slotted(s, k)[i],
            ),
    decreases s.len(),
{
    broadcast use vstd::seq_lib::group_to_multiset_ensures;

    if s.len() == 0 {
        assert(seq![k] =~= s.push(k));
    } else if before(k, s.last()) {
        let t = s.drop_last();
        assert forall|i: int, j: int| 0 <= i < j < t.len() implies !before(
            #[trigger] t[j],
            #[trigger] t[i],
        ) by {
            assert(t[i] == s[i] && t[j] == s[j]);
        }
        lemma_slotted_sorted(t, k);
        let p = slotted(t, k);
        let all = p.push(s.last());
        assert forall|i: int, j: int| 0 <= i < j < all.len() implies !before(
            #[trigger] all[j],
            #[trigger] all[i],
        ) by {
            if j == p.len() {
                if p[i] == k {
                    if before(s.last(), k) {
                        lemma_before_transitive(k, s.last(), k);
                        lemma_before_irreflexive(k);
                    }
                } else {
                    let q = choose|q: int| 0 <= q < t.len() && t[q] == p[i];
                    assert(s[q] == p[i]);
                    assert(!before(s[s.len() - 1], s[q]));
                }
            } else {
                assert(all[i] == p[i] && all[j] == p[j]);
            }
        }
        assert forall|i: int| 0 <= i < all.len() implies (#[trigger] all[i]) == k || s.contains(
            all[i],
        ) by {
            if i < p.len() {
                if p[i] != k {
                    let q = choose|q: int| 0 <= q < t.len() && t[q] == p[i];
                    assert(s[q] == p[i]);
                }
            } else {
                assert(all[i] == s[s.len() - 1]);
            }
        }
        assert(s =~= t.push(s.last()));
        assert(all.to_multiset() =~= s.to_multiset().insert(k));
    } else {
        let all = s.push(k);
        assert forall|i: int, j: int| 0 <= i < j < all.len() implies !before(
            #[trigger] all[j],
            #[trigger] all[i],
        ) by {
            if j == s.len() {
                let l = s[s.len() - 1];
                assert(!before(k, l));
                if i < s.len() - 1 {
                    assert(!before(l, s[i]));
                    if before(k, s[i]) {
                        lemma_before_total(l, k);
                        if before(l, k) {
                            lemma_before_transitive(l, k, s[i]);
                        }
                    }
                }
            } else {
                assert(all[i] == s[i] && all[j] == s[j]);
            }
        }
        assert forall|i: int| 0 <= i < all.len() implies (#[trigger] all[i]) == k || s.contains(
            all[i],
        ) by {
            if i < s.len() {
                assert(all[i] == s[i]);
            }
        }
    }
}

/// Sorting texts loses and adds none, and gives them in order.
pub proof fn sorting_keeps_every_text(ks: Seq<Seq<char>>)
    ensures
        is_sorted(sorted(ks)),
        sorted(ks).to_multiset() == ks.to_multiset(),
    decreases ks.len(),
{
    broadcast use vstd::seq_lib::group_to_multiset_ensures;

    if ks.len() > 0 {
        sorting_keeps_every_text(ks.drop_last());
        lemma_slotted_sorted(sorted(ks.drop_last()), ks.last());
        assert(ks =~= ks.drop_last().push(ks.last()));
    }
}

/// Puts a text in its place.
fn slot(v: &mut Vec<String>, e: String)
    ensures
        texts(final(v)@) == slotted(texts(old(v)@), e@),
{
    let ghost all = texts(v@);
    let ghost n = e@;
    let mut i: usize = v.len();
    assert(all.take(i as int) =~= all);
    assert(slotted(all, n) =~= slotted(all.take(i as int), n) + all.skip(i as int));
    while i > 0 && is_before(e.as_str(), v[i - 1].as_str())
        invariant
            i <= v.len(),
            all == texts(v@),
            n == e@,
            v@ == old(v)@,
            slotted(all, n) == slotted(all.take(i as int), n) + all.skip(i as int),
        decreases i,
    {
        let ghost t = all.take(i as int);
        assert(t.last() == all[i - 1]);
        assert(all[i - 1] == v@[i - 1]@);
        assert(t.drop_last() =~= all.take(i - 1));
        assert(slotted(t.drop_last(), n).push(t.last()) + all.skip(i as int) =~= slotted(
            all.take(i - 1),
            n,
        ) + all.skip(i - 1));
        i = i - 1;
    }
    proof {
        let t = all.take(i as int);
        if i > 0 {
            assert(t.last() == all[i - 1]);
            assert(all[i - 1] == v@[i - 1]@);
        }
        assert(slotted(t, n) =~= t.push(n));
    }
    v.insert(i, e);
    assert(texts(v@) =~= all.take(i as int).push(n) + all.skip(i as int));
}

/// The texts of a list in order.
pub fn sort_texts(v: &Vec<String>) -> (r: Vec<String>)
    ensures
        texts(r@) == sorted(texts(v@)),
{
    let mut out: Vec<String> = Vec::new();
    let ghost all = texts(v@);
    let mut i: usize = 0;
    assert(texts(out@) =~= sorted(all.take(0)));
    while i < v.len()
        invariant
            i <= v.len(),
            all == texts(v@),
            texts(out@) == sorted(all.take(i as int)),
        decreases v.len() - i,
    {
        assert(all.take(i + 1).drop_last() =~= all.take(i as int));
        assert(all[i as int] == v@[i as int]@);
        slot(&mut out, v[i].clone());
        i = i + 1;
    }
    assert(all.take(i as int) =~= all);
    out
}

} // verus!
