//! A table of values under names.

use vstd::prelude::*;

use crate::order::{ascending, in_order, insert_in_order, lemma_listing_unique, listing, texts};
use crate::text::same;

verus! {

/// A list of named values. Where a name stands twice the later value counts.
#[derive(Debug)]
pub struct Named<V> {
    pub entries: Vec<(String, V)>,
}

/// The map that a list of named values stands for.
pub open spec fn table<V>(entries: Seq<(String, V)>) -> Map<Seq<char>, V>
    decreases entries.len(),
{
    if entries.len() == 0 {
        Map::empty()
    } else {
        table(entries.drop_last()).insert(entries.last().0@, entries.last().1)
    }
}

/// Appending a value sets it.
proof fn lemma_table_push<V>(entries: Seq<(String, V)>, e: (String, V))
    ensures
        table(entries.push(e)) == table(entries).insert(e.0@, e.1),
{
    assert(entries.push(e).drop_last() =~= entries);
}

/// A name is in the table exactly where it stands in the list.
proof fn lemma_table_dom<V>(entries: Seq<(String, V)>, k: Seq<char>)
    ensures
        table(entries).contains_key(k) <==> exists|i: int|
            0 <= i < entries.len() && (#[trigger] entries[i]).0@ == k,
    decreases entries.len(),
{
    if entries.len() > 0 {
        let rest = entries.drop_last();
        lemma_table_dom(rest, k);
        if table(entries).contains_key(k) {
            if entries.last().0@ == k {
                assert(entries[entries.len() - 1].0@ == k);
            } else {
                let i = choose|i: int| 0 <= i < rest.len() && (#[trigger] rest[i]).0@ == k;
                assert(entries[i].0@ == k);
            }
        }
        if exists|i: int| 0 <= i < entries.len() && (#[trigger] entries[i]).0@ == k {
            let i = choose|i: int| 0 <= i < entries.len() && (#[trigger] entries[i]).0@ == k;
            if i < rest.len() {
                assert(rest[i].0@ == k);
            }
        }
    }
}

impl<V> Named<V> {
    /// The values under their names.
    pub open spec fn view(&self) -> Map<Seq<char>, V> {
        table(self.entries@)
    }

    /// A table without values.
    pub fn new() -> (r: Self)
        ensures
            r@ == Map::<Seq<char>, V>::empty(),
    {
        Named { entries: Vec::new() }
    }

    /// The value under a name.
    pub fn get(&self, key: &str) -> (r: Option<&V>)
        ensures
            match r {
                Some(v) => self@.contains_key(key@) && self@[key@] == *v,
                None => !self@.contains_key(key@),
            },
    {
        let mut i: usize = self.entries.len();
        assert(self.entries@.take(i as int) =~= self.entries@);
        while i > 0
            invariant
                i <= self.entries.len(),
                self@.contains_key(key@) == table(self.entries@.take(i as int)).contains_key(key@),
                self@.contains_key(key@) ==> self@[key@] == table(
                    self.entries@.take(i as int),
                )[key@],
            decreases i,
        {
            assert(self.entries@.take(i as int).drop_last() =~= self.entries@.take(i - 1));
            i = i - 1;
            if same(self.entries[i].0.as_str(), key) {
                return Some(&self.entries[i].1);
            }
        }
        None
    }

    /// Whether a name has a value.
    pub fn has(&self, key: &str) -> (r: bool)
        ensures
            r == self@.contains_key(key@),
    {
        self.get(key).is_some()
    }

    /// Takes the value under a name out of the table.
    pub fn remove(&mut self, key: &str) -> (r: Option<V>)
        ensures
            final(self)@ == old(self)@.remove(key@),
            match r {
                Some(v) => old(self)@.contains_key(key@) && old(self)@[key@] == v,
                None => !old(self)@.contains_key(key@),
            },
    {
        let ghost all = self.entries@;
        let mut kept: Vec<(String, V)> = Vec::new();
        let mut found: Option<V> = None;
        assert(all.skip(0) =~= all);
        assert(table(all.take(0)).remove(key@) =~= Map::<Seq<char>, V>::empty());
        while self.entries.len() > 0
            invariant
                self.entries.len() <= all.len(),
                self.entries@ == all.skip(all.len() - self.entries.len()),
                table(kept@) == table(all.take(all.len() - self.entries.len())).remove(key@),
                match found {
                    Some(v) => table(
                        all.take(all.len() - self.entries.len()),
                    ).contains_key(key@) && table(
                        all.take(all.len() - self.entries.len()),
                    )[key@] == v,
                    None => !table(
                        all.take(all.len() - self.entries.len()),
                    ).contains_key(key@),
                },
            decreases self.entries.len(),
        {
            let ghost i = all.len() - self.entries.len();
            let ghost prior = table(all.take(i));
            let first = self.entries.remove(0);
            assert(first == all[i]);
            assert(self.entries@ =~= all.skip(i + 1));
            assert(all.take(i + 1) =~= all.take(i).push(first));
            proof {
                lemma_table_push(all.take(i), first);
            }
            if same(first.0.as_str(), key) {
                assert(prior.insert(key@, first.1).remove(key@) =~= prior.remove(key@));
                found = Some(first.1);
            } else {
                proof {
                    lemma_table_push(kept@, first);
                }
                assert(prior.remove(key@).insert(first.0@, first.1) =~= prior.insert(
                    first.0@,
                    first.1,
                ).remove(key@));
                kept.push(first);
            }
        }
        assert(all.take(all.len() as int) =~= all);
        self.entries = kept;
        found
    }

    /// Sets the value under a name and gives back the one it replaces.
    pub fn insert(&mut self, key: &str, value: V) -> (r: Option<V>)
        ensures
            final(self)@ == old(self)@.insert(key@, value),
            match r {
                Some(v) => old(self)@.contains_key(key@) && old(self)@[key@] == v,
                None => !old(self)@.contains_key(key@),
            },
    {
        let ghost prior = self@;
        let out = self.remove(key);
        let k = key.to_owned();
        proof {
            lemma_table_push(self.entries@, (k, value));
            assert(prior.remove(key@).insert(key@, value) =~= prior.insert(key@, value));
        }
        self.entries.push((k, value));
        out
    }

    /// The names in order.
    pub fn names(&self) -> (r: Vec<String>)
        ensures
            texts(r@) == in_order(self@.dom()),
            listing(texts(r@), self@.dom()),
    {
        let mut out: Vec<String> = Vec::new();
        let mut i: usize = 0;
        while i < self.entries.len()
            invariant
                i <= self.entries.len(),
                ascending(texts(out@)),
                forall|k: Seq<char>| #[trigger]
                    texts(out@).contains(k) <==> exists|j: int|
                        0 <= j < i && (#[trigger] self.entries@[j]).0@ == k,
            decreases self.entries.len() - i,
        {
            let ghost prior = texts(out@);
            insert_in_order(&mut out, self.entries[i].0.as_str());
            proof {
                assert forall|k: Seq<char>| #[trigger] texts(out@).contains(k) <==> exists|j: int|
                    0 <= j < i + 1 && (#[trigger] self.entries@[j]).0@ == k by {
                    if texts(out@).contains(k) {
                        if k == self.entries@[i as int].0@ {
                            assert(self.entries@[i as int].0@ == k);
                        } else {
                            assert(prior.contains(k));
                        }
                    }
                    if exists|j: int| 0 <= j < i + 1 && (#[trigger] self.entries@[j]).0@ == k {
                        let j = choose|j: int|
                            0 <= j < i + 1 && (#[trigger] self.entries@[j]).0@ == k;
                        if j < i {
                            assert(prior.contains(k));
                        }
                    }
                }
            }
            i = i + 1;
        }
        proof {
            let dom = self@.dom();
            assert forall|k: Seq<char>| dom.contains(k) <==> #[trigger] texts(out@).contains(
                k,
            ) by {
                lemma_table_dom(self.entries@, k);
            }
            lemma_listing_unique(texts(out@), in_order(dom), dom);
        }
        out
    }
}

/// The value under a name is the last that was given to it, and the names are those
/// that occur.
pub proof fn the_last_value_of_a_name_counts<V>(
    entries: Seq<(String, V)>,
    name: String,
    value: V,
    other: Seq<char>,
)
    ensures
        table(entries.push((name, value))).contains_key(name@),
        table(entries.push((name, value)))[name@] == value,
        other != name@ ==> (table(entries.push((name, value))).contains_key(other) <==> table(
            entries,
        ).contains_key(other)),
        other != name@ && table(entries).contains_key(other) ==> table(
            entries.push((name, value)),
        )[other] == table(entries)[other],
        !table(Seq::<(String, V)>::empty()).contains_key(other),
{
    assert(entries.push((name, value)).drop_last() =~= entries);
}

} // verus!
