//! Maps and sets keyed by strings, which can be walked entry by entry.

use crate::text::str_eq;
use vstd::prelude::*;

verus! {

/// A map from strings to values. No key occurs twice.
pub struct Table<V> {
    entries: Vec<(String, V)>,
}

/// Whether `k` is the key of entry `i`.
pub open spec fn key_at<V>(entries: Seq<(String, V)>, k: Seq<char>, i: int) -> bool {
    0 <= i < entries.len() && entries[i].0@ == k
}

/// The map that a list of entries stands for.
pub open spec fn map_of<V>(entries: Seq<(String, V)>) -> Map<Seq<char>, V> {
    Map::new(
        |k: Seq<char>| exists|i: int| key_at(entries, k, i),
        |k: Seq<char>| entries[choose|i: int| key_at(entries, k, i)].1,
    )
}

/// Whether no key occurs twice.
pub open spec fn distinct<V>(entries: Seq<(String, V)>) -> bool {
    forall|i: int, j: int|
        0 <= i < j < entries.len() ==> (#[trigger] entries[i]).0@ != (#[trigger] entries[j]).0@
}

/// The map holds each entry.
pub proof fn lemma_at<V>(entries: Seq<(String, V)>, i: int)
    requires
        distinct(entries),
        0 <= i < entries.len(),
    ensures
        map_of(entries).contains_key(entries[i].0@),
        map_of(entries)[entries[i].0@] == entries[i].1,
{
    let k = entries[i].0@;
    assert(key_at(entries, k, i));
    let j = choose|j: int| key_at(entries, k, j);
    assert(key_at(entries, k, j));
    if i < j {
        assert(entries[i].0@ != entries[j].0@);
    } else if j < i {
        assert(entries[j].0@ != entries[i].0@);
    }
}

impl<V> View for Table<V> {
    type V = Map<Seq<char>, V>;

    closed spec fn view(&self) -> Map<Seq<char>, V> {
        map_of(self.entries@)
    }
}

impl<V> Table<V> {
    /// Whether no key occurs twice.
    pub closed spec fn wf(&self) -> bool {
        distinct(self.entries@)
    }

    /// The keys, in the order in which the table is walked.
    pub closed spec fn keys(&self) -> Seq<Seq<char>> {
        self.entries@.map_values(|e: (String, V)| e.0@)
    }

    /// The entries, in the order in which the table is walked.
    pub closed spec fn listed(&self) -> Seq<(String, V)> {
        self.entries@
    }

    /// The list of the entries names no key twice and stands for the map.
    pub proof fn lemma_listed(&self)
        requires
            self.wf(),
        ensures
            distinct(self.listed()),
            map_of(self.listed()) == self@,
    {
    }

    /// The walk meets each key of the map once.
    pub proof fn lemma_keys(&self)
        requires
            self.wf(),
        ensures
            self.keys().no_duplicates(),
            forall|k: Seq<char>| self.keys().contains(k) <==> #[trigger] self@.contains_key(k),
    {
        assert forall|k: Seq<char>| self.keys().contains(k) == #[trigger] self@.contains_key(
            k,
        ) by {
            if self.keys().contains(k) {
                let i = choose|i: int| 0 <= i < self.keys().len() && self.keys()[i] == k;
                assert(key_at(self.entries@, k, i));
            }
            if self@.contains_key(k) {
                let i = choose|i: int| key_at(self.entries@, k, i);
                assert(self.keys()[i] == k);
            }
        }
    }

    /// The walk meets the entries of the list, one by one.
    pub proof fn lemma_walk(&self)
        requires
            self.wf(),
        ensures
            self.keys().len() == self.listed().len(),
            forall|i: int|
                0 <= i < self.listed().len() ==> self.keys()[i] == (#[trigger] self.listed()[i]).0@
                    && self@[self.keys()[i]] == self.listed()[i].1,
    {
        assert forall|i: int| 0 <= i < self.listed().len() implies self.keys()[i] == (
        #[trigger] self.listed()[i]).0@ && self@[self.keys()[i]] == self.listed()[i].1 by {
            lemma_at(self.entries@, i);
        }
    }

    /// The map is finite, and the walk is as long as the map is large.
    pub proof fn lemma_len(&self)
        requires
            self.wf(),
        ensures
            self@.dom().finite(),
            self@.dom().len() == self.keys().len(),
    {
        self.lemma_keys();
        self.keys().unique_seq_to_set();
        assert(self.keys().to_set() =~= self@.dom());
    }

    /// The empty map.
    pub fn new() -> (r: Self)
        ensures
            r.wf(),
            r@ == Map::<Seq<char>, V>::empty(),
            r.keys().len() == 0,
    {
        let r = Table { entries: Vec::new() };
        assert(r@ =~= Map::<Seq<char>, V>::empty());
        r
    }

    fn position(&self, key: &str) -> (r: Option<usize>)
        ensures
            match r {
                Some(i) => key_at(self.entries@, key@, i as int),
                None => forall|i: int| !key_at(self.entries@, key@, i),
            },
    {
        for i in 0..self.entries.len()
            invariant
                forall|j: int| 0 <= j < i ==> !key_at(self.entries@, key@, j),
        {
            if str_eq(self.entries[i].0.as_str(), key) {
                return Some(i);
            }
        }
        None
    }

    /// How many keys the map has.
    pub fn len(&self) -> (r: usize)
        ensures
            r == self.keys().len(),
    {
        self.entries.len()
    }

    /// The key and the value at position `i` of the walk.
    pub fn entry(&self, i: usize) -> (r: (&String, &V))
        requires
            self.wf(),
            i < self.keys().len(),
        ensures
            r.0@ == self.keys()[i as int],
            self@.contains_key(r.0@),
            *r.1 == self@[r.0@],
    {
        proof {
            lemma_at(self.entries@, i as int);
        }
        let e = &self.entries[i];
        (&e.0, &e.1)
    }

    /// Whether the map has `key`.
    pub fn contains_key(&self, key: &str) -> (r: bool)
        requires
            self.wf(),
        ensures
            r == self@.contains_key(key@),
    {
        self.position(key).is_some()
    }

    /// The value at `key`.
    pub fn get(&self, key: &str) -> (r: Option<&V>)
        requires
            self.wf(),
        ensures
            match r {
                Some(v) => self@.contains_key(key@) && *v == self@[key@],
                None => !self@.contains_key(key@),
            },
    {
        match self.position(key) {
            Some(i) => {
                proof {
                    lemma_at(self.entries@, i as int);
                }
                Some(&self.entries[i].1)
            },
            None => None,
        }
    }

    /// The map with `value` at `key`.
    pub fn insert(&mut self, key: String, value: V)
        requires
            old(self).wf(),
        ensures
            final(self).wf(),
            final(self)@ == old(self)@.insert(key@, value),
    {
        let ghost before = self.entries@;
        match self.position(key.as_str()) {
            Some(i) => {
                self.entries.set(i, (key, value));
                proof {
                    lemma_set(before, i as int, self.entries@[i as int]);
                }
            },
            None => {
                self.entries.push((key, value));
                proof {
                    lemma_push(before, self.entries@.last());
                    assert(self.entries@ =~= before.push(self.entries@.last()));
                }
            },
        }
    }

    /// Takes everything out of the map.
    pub fn take_entries(&mut self) -> (r: Vec<(String, V)>)
        requires
            old(self).wf(),
        ensures
            final(self).wf(),
            final(self)@ == Map::<Seq<char>, V>::empty(),
            r@ == old(self).listed(),
            distinct(r@),
            map_of(r@) == old(self)@,
    {
        let mut out: Vec<(String, V)> = Vec::new();
        std::mem::swap(&mut out, &mut self.entries);
        assert(self@ =~= Map::<Seq<char>, V>::empty());
        out
    }

    /// Takes `key` out of the map and hands over its value.
    pub fn remove(&mut self, key: &str) -> (r: Option<V>)
        requires
            old(self).wf(),
        ensures
            final(self).wf(),
            final(self)@ == old(self)@.remove(key@),
            match r {
                Some(v) => old(self)@.contains_key(key@) && v == old(self)@[key@],
                None => !old(self)@.contains_key(key@),
            },
    {
        let ghost before = self.entries@;
        match self.position(key) {
            Some(i) => {
                proof {
                    lemma_at(before, i as int);
                    lemma_remove(before, i as int);
                }
                let e = self.entries.remove(i);
                Some(e.1)
            },
            None => {
                assert(self@ =~= old(self)@.remove(key@));
                None
            },
        }
    }
}

proof fn lemma_set<V>(entries: Seq<(String, V)>, i: int, e: (String, V))
    requires
        distinct(entries),
        0 <= i < entries.len(),
        e.0@ == entries[i].0@,
    ensures
        distinct(entries.update(i, e)),
        map_of(entries.update(i, e)) == map_of(entries).insert(e.0@, e.1),
{
    let after = entries.update(i, e);
    assert(distinct(after));
    assert forall|k: Seq<char>|
        map_of(after).contains_key(k) == #[trigger] map_of(entries).insert(e.0@, e.1).contains_key(
            k,
        ) by {
        if map_of(after).contains_key(k) {
            let j = choose|j: int| key_at(after, k, j);
            assert(key_at(entries, k, j));
        }
        if map_of(entries).contains_key(k) {
            let j = choose|j: int| key_at(entries, k, j);
            assert(key_at(after, k, j));
        }
        assert(key_at(after, e.0@, i));
    }
    assert forall|k: Seq<char>| map_of(after).contains_key(k) implies #[trigger] map_of(after)[k]
        == map_of(entries).insert(e.0@, e.1)[k] by {
        let j = choose|j: int| key_at(after, k, j);
        assert(key_at(after, k, j));
        lemma_at(after, j);
        lemma_at(entries, j);
        if j != i {
            assert(after[j].0@ != after[i].0@);
        }
    }
    assert(map_of(after) =~= map_of(entries).insert(e.0@, e.1));
}

/// An entry more puts its value into the map.
pub proof fn lemma_push<V>(entries: Seq<(String, V)>, e: (String, V))
    requires
        distinct(entries),
        forall|i: int| !key_at(entries, e.0@, i),
    ensures
        distinct(entries.push(e)),
        map_of(entries.push(e)) == map_of(entries).insert(e.0@, e.1),
{
    let after = entries.push(e);
    let n = entries.len() as int;
    assert forall|i: int, j: int| 0 <= i < j < after.len() implies (#[trigger] after[i]).0@ != (
    #[trigger] after[j]).0@ by {
        if j == n {
            assert(!key_at(entries, e.0@, i));
        } else {
            assert(entries[i].0@ != entries[j].0@);
        }
    }
    assert forall|k: Seq<char>|
        map_of(after).contains_key(k) == #[trigger] map_of(entries).insert(e.0@, e.1).contains_key(
            k,
        ) by {
        if map_of(after).contains_key(k) {
            let j = choose|j: int| key_at(after, k, j);
            assert(j < n ==> key_at(entries, k, j));
        }
        if map_of(entries).contains_key(k) {
            let j = choose|j: int| key_at(entries, k, j);
            assert(key_at(after, k, j));
        }
        assert(key_at(after, e.0@, n));
    }
    assert forall|k: Seq<char>| map_of(after).contains_key(k) implies #[trigger] map_of(after)[k]
        == map_of(entries).insert(e.0@, e.1)[k] by {
        let j = choose|j: int| key_at(after, k, j);
        assert(key_at(after, k, j));
        lemma_at(after, j);
        if j < n {
            lemma_at(entries, j);
            assert(!key_at(entries, e.0@, j));
        }
    }
    assert(map_of(after) =~= map_of(entries).insert(e.0@, e.1));
}

proof fn lemma_remove<V>(entries: Seq<(String, V)>, i: int)
    requires
        distinct(entries),
        0 <= i < entries.len(),
    ensures
        distinct(entries.remove(i)),
        map_of(entries.remove(i)) == map_of(entries).remove(entries[i].0@),
{
    let after = entries.remove(i);
    let gone = entries[i].0@;
    assert forall|a: int, b: int| 0 <= a < b < after.len() implies (#[trigger] after[a]).0@ != (
    #[trigger] after[b]).0@ by {
        let a1 = if a < i { a } else { a + 1 };
        let b1 = if b < i { b } else { b + 1 };
        assert(after[a] == entries[a1]);
        assert(after[b] == entries[b1]);
    }
    assert forall|k: Seq<char>|
        map_of(after).contains_key(k) == #[trigger] map_of(entries).remove(gone).contains_key(
            k,
        ) by {
        if map_of(after).contains_key(k) {
            let j = choose|j: int| key_at(after, k, j);
            let j1 = if j < i { j } else { j + 1 };
            assert(after[j] == entries[j1]);
            assert(key_at(entries, k, j1));
            if j1 < i {
                assert(entries[j1].0@ != entries[i].0@);
            } else {
                assert(entries[i].0@ != entries[j1].0@);
            }
        }
        if map_of(entries).contains_key(k) && k != gone {
            let j = choose|j: int| key_at(entries, k, j);
            let j1 = if j < i { j } else { j - 1 };
            assert(after[j1] == entries[j]);
            assert(key_at(after, k, j1));
        }
    }
    assert forall|k: Seq<char>| map_of(after).contains_key(k) implies #[trigger] map_of(after)[k]
        == map_of(entries).remove(gone)[k] by {
        let j = choose|j: int| key_at(after, k, j);
        assert(key_at(after, k, j));
        let j1 = if j < i { j } else { j + 1 };
        assert(after[j] == entries[j1]);
        lemma_at(after, j);
        lemma_at(entries, j1);
    }
    assert(map_of(after) =~= map_of(entries).remove(gone));
}

}
