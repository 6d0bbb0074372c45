//! A small map keyed by text, kept as a list in which no key occurs twice.

use vstd::prelude::*;
use vstd::string::*;
use crate::text::str_eq;

verus! {

/// A map from text to `V`. Lookups walk the list, which suits a directory of
/// a few hundred entries; in return every entry can be enumerated in the
/// order in which its key first arrived.
pub struct StringMap<V> {
    entries: Vec<(String, V)>,
}

/// Some position at which `key` stands in `entries`.
pub open spec fn position_of<V>(entries: Seq<(String, V)>, key: Seq<char>) -> int {
    choose|i: int| 0 <= i < entries.len() && (#[trigger] entries[i]).0@ == key
}

pub open spec fn has_key<V>(entries: Seq<(String, V)>, key: Seq<char>) -> bool {
    exists|i: int| 0 <= i < entries.len() && (#[trigger] entries[i]).0@ == key
}

pub open spec fn distinct_keys<V>(entries: Seq<(String, V)>) -> bool {
    forall|i: int, j: int|
        0 <= i < entries.len() && 0 <= j < entries.len() && (#[trigger] entries[i]).0@ == (
        #[trigger] entries[j]).0@ ==> i == j
}

/// The map that a list of entries with distinct keys stands for.
pub open spec fn map_of<V>(entries: Seq<(String, V)>) -> Map<Seq<char>, V> {
    Map::new(
        |key: Seq<char>| has_key(entries, key),
        |key: Seq<char>| entries[position_of(entries, key)].1,
    )
}

impl<V> View for StringMap<V> {
    type V = Map<Seq<char>, V>;

    closed spec fn view(&self) -> Map<Seq<char>, V> {
        map_of(self.entries@)
    }
}

impl<V> StringMap<V> {
    #[verifier::type_invariant]
    spec fn well_formed(&self) -> bool {
        distinct_keys(self.entries@)
    }

    /// The entries, in the order in which their keys first arrived.
    pub closed spec fn listing(&self) -> Seq<(String, V)> {
        self.entries@
    }

    pub fn new() -> (r: Self)
        ensures
            r@ == Map::<Seq<char>, V>::empty(),
            r.listing().len() == 0,
    {
        let r = StringMap { entries: Vec::new() };
        assert(r@ =~= Map::<Seq<char>, V>::empty());
        r
    }

    /// The number of keys.
    pub fn len(&self) -> (r: usize)
        ensures
            r == self.listing().len(),
            self@.dom().finite(),
            r == self@.dom().len(),
    {
        proof {
            use_type_invariant(self);
            lemma_map_size(self.entries@);
        }
        self.entries.len()
    }

    pub fn is_empty(&self) -> (r: bool)
        ensures
            r == (self@ == Map::<Seq<char>, V>::empty()),
    {
        let r = self.entries.len() == 0;
        proof {
            if r {
                assert(self@ =~= Map::<Seq<char>, V>::empty());
            } else {
                assert(has_key(self.entries@, self.entries@[0].0@));
                assert(self@.dom().contains(self.entries@[0].0@));
            }
        }
        r
    }

    /// All entries, for a caller that walks the map.
    pub fn entries(&self) -> (r: &Vec<(String, V)>)
        ensures
            r@ == self.listing(),
            distinct_keys(r@),
            self@ == map_of(r@),
    {
        proof {
            use_type_invariant(self);
        }
        &self.entries
    }

    fn find(&self, key: &str) -> (r: Option<usize>)
        ensures
            r is Some <==> has_key(self.entries@, key@),
            r matches Some(i) ==> i < self.entries@.len() && self.entries@[i as int].0@ == key@,
    {
        let mut i: usize = 0;
        while i < self.entries.len()
            invariant
                i <= self.entries@.len(),
                forall|k: int| 0 <= k < i ==> (#[trigger] self.entries@[k]).0@ != key@,
            decreases self.entries@.len() - i,
        {
            if str_eq(self.entries[i].0.as_str(), key) {
                return Some(i);
            }
            i = i + 1;
        }
        None
    }

    pub fn contains_key(&self, key: &str) -> (r: bool)
        ensures
            r == self@.dom().contains(key@),
    {
        self.find(key).is_some()
    }

    pub fn get(&self, key: &str) -> (r: Option<&V>)
        ensures
            r is Some <==> self@.dom().contains(key@),
            r matches Some(v) ==> *v == self@[key@],
    {
        proof {
            use_type_invariant(self);
        }
        match self.find(key) {
            Some(i) => Some(&self.entries[i].1),
            None => None,
        }
    }

    /// Sets the value under `key`, whether or not the key was there.
    pub fn insert(&mut self, key: String, value: V)
        ensures
            final(self)@ == old(self)@.insert(key@, value),
    {
        proof {
            use_type_invariant(&*self);
        }
        let ghost before = self.entries@;
        let found = self.find(key.as_str());
        let mut entries: Vec<(String, V)> = Vec::new();
        core::mem::swap(&mut self.entries, &mut entries);
        match found {
            Some(i) => {
                entries.set(i, (key, value));
                self.entries = entries;
                assert(distinct_keys(self.entries@)) by {
                    assert forall|a: int, b: int|
                        0 <= a < self.entries@.len() && 0 <= b < self.entries@.len() && (
                        #[trigger] self.entries@[a]).0@ == (#[trigger] self.entries@[b]).0@
                        implies a == b by {
                        assert(before[a].0@ == before[b].0@);
                    }
                }
                assert(map_of(self.entries@) =~= map_of(before).insert(key@, value)) by {
                    lemma_map_after_set(before, i as int, key, value);
                }
            },
            None => {
                entries.push((key, value));
                self.entries = entries;
                assert(distinct_keys(self.entries@)) by {
                    assert forall|a: int, b: int|
                        0 <= a < self.entries@.len() && 0 <= b < self.entries@.len() && (
                        #[trigger] self.entries@[a]).0@ == (#[trigger] self.entries@[b]).0@
                        implies a == b by {
                        if a < before.len() {
                            assert(before[a].0@ == self.entries@[a].0@);
                        }
                        if b < before.len() {
                            assert(before[b].0@ == self.entries@[b].0@);
                        }
                    }
                }
                assert(map_of(self.entries@) =~= map_of(before).insert(key@, value)) by {
                    lemma_map_after_push(before, key, value);
                }
            },
        }
    }

    /// Takes the entry under `key` out of the map, if there is one.
    pub fn remove(&mut self, key: &str) -> (r: Option<V>)
        ensures
            final(self)@ == old(self)@.remove(key@),
            r is Some <==> old(self)@.dom().contains(key@),
            r matches Some(v) ==> v == old(self)@[key@],
    {
        proof {
            use_type_invariant(&*self);
        }
        let ghost before = self.entries@;
        match self.find(key) {
            Some(i) => {
                let mut entries: Vec<(String, V)> = Vec::new();
                core::mem::swap(&mut self.entries, &mut entries);
                let taken = entries.remove(i);
                self.entries = entries;
                proof {
                    lemma_map_at(before, i as int);
                    lemma_map_after_remove(before, i as int);
                }
                Some(taken.1)
            },
            None => {
                assert(map_of(before) =~= map_of(before).remove(key@));
                None
            },
        }
    }
}

/// In a list with distinct keys, the entry at `i` is what the map holds under
/// its key.
pub proof fn lemma_map_at<V>(entries: Seq<(String, V)>, i: int)
    requires
        distinct_keys(entries),
        0 <= i < entries.len(),
    ensures
        map_of(entries).dom().contains(entries[i].0@),
        map_of(entries)[entries[i].0@] == entries[i].1,
{
    assert(has_key(entries, entries[i].0@));
}

proof fn lemma_map_after_set<V>(before: Seq<(String, V)>, i: int, key: String, value: V)
    requires
        distinct_keys(before),
        0 <= i < before.len(),
        before[i].0@ == key@,
    ensures
        map_of(before.update(i, (key, value))) =~= map_of(before).insert(key@, value),
{
    let after = before.update(i, (key, value));
    assert(distinct_keys(after)) by {
        assert forall|a: int, b: int|
            0 <= a < after.len() && 0 <= b < after.len() && (#[trigger] after[a]).0@ == (
            #[trigger] after[b]).0@ implies a == b by {
            assert(before[a].0@ == before[b].0@);
        }
    }
    assert forall|k: Seq<char>| has_key(after, k) == (has_key(before, k) || k == key@) by {
        if has_key(after, k) {
            let j = position_of(after, k);
            assert(before[j].0@ == k);
        }
        if has_key(before, k) {
            let j = position_of(before, k);
            assert(after[j].0@ == k);
        }
        if k == key@ {
            assert(after[i].0@ == k);
        }
    }
    assert forall|k: Seq<char>| has_key(after, k) implies map_of(after)[k] == map_of(
        before,
    ).insert(key@, value)[k] by {
        let j = position_of(after, k);
        lemma_map_at(after, j);
        if k != key@ {
            assert(j != i);
            lemma_map_at(before, j);
        }
    }
}

proof fn lemma_map_after_push<V>(before: Seq<(String, V)>, key: String, value: V)
    requires
        distinct_keys(before),
        !has_key(before, key@),
    ensures
        map_of(before.push((key, value))) =~= map_of(before).insert(key@, value),
{
    let after = before.push((key, value));
    assert(distinct_keys(after)) by {
        assert forall|a: int, b: int|
            0 <= a < after.len() && 0 <= b < after.len() && (#[trigger] after[a]).0@ == (
            #[trigger] after[b]).0@ implies a == b by {
            if a < before.len() {
                assert(before[a].0@ == after[a].0@);
            }
            if b < before.len() {
                assert(before[b].0@ == after[b].0@);
            }
        }
    }
    assert forall|k: Seq<char>| has_key(after, k) == (has_key(before, k) || k == key@) by {
        if has_key(after, k) {
            let j = position_of(after, k);
            if j < before.len() {
                assert(before[j].0@ == k);
            }
        }
        if has_key(before, k) {
            let j = position_of(before, k);
            assert(after[j].0@ == k);
        }
        if k == key@ {
            assert(after[before.len() as int].0@ == k);
        }
    }
    assert forall|k: Seq<char>| has_key(after, k) implies map_of(after)[k] == map_of(
        before,
    ).insert(key@, value)[k] by {
        let j = position_of(after, k);
        lemma_map_at(after, j);
        if k != key@ {
            assert(j < before.len());
            lemma_map_at(before, j);
        }
    }
}

proof fn lemma_map_after_remove<V>(before: Seq<(String, V)>, i: int)
    requires
        distinct_keys(before),
        0 <= i < before.len(),
    ensures
        distinct_keys(before.remove(i)),
        map_of(before.remove(i)) =~= map_of(before).remove(before[i].0@),
{
    let after = before.remove(i);
    let key = before[i].0@;
    assert forall|a: int| 0 <= a < after.len() implies #[trigger] after[a] == before[if a < i {
        a
    } else {
        a + 1
    }] by {}
    assert(distinct_keys(after)) by {
        assert forall|a: int, b: int|
            0 <= a < after.len() && 0 <= b < after.len() && (#[trigger] after[a]).0@ == (
            #[trigger] after[b]).0@ implies a == b by {
            let a2 = if a < i { a } else { a + 1 };
            let b2 = if b < i { b } else { b + 1 };
            assert(before[a2].0@ == before[b2].0@);
        }
    }
    assert forall|k: Seq<char>| has_key(after, k) == (has_key(before, k) && k != key) by {
        if has_key(after, k) {
            let j = position_of(after, k);
            let j2 = if j < i { j } else { j + 1 };
            assert(before[j2].0@ == k);
        }
        if has_key(before, k) && k != key {
            let j = position_of(before, k);
            let j2 = if j < i { j } else { j - 1 };
            assert(after[j2].0@ == k);
        }
    }
    assert forall|k: Seq<char>| has_key(after, k) implies map_of(after)[k] == map_of(before)[k] by {
        let j = position_of(after, k);
        let j2 = if j < i { j } else { j + 1 };
        lemma_map_at(after, j);
        lemma_map_at(before, j2);
    }
}

/// A list with distinct keys stands for a map with as many keys as the list
/// has entries.
pub proof fn lemma_map_size<V>(entries: Seq<(String, V)>)
    requires
        distinct_keys(entries),
    ensures
        map_of(entries).dom().finite(),
        map_of(entries).dom().len() == entries.len(),
    decreases entries.len(),
{
    if entries.len() == 0 {
        assert(map_of(entries).dom() =~= Set::<Seq<char>>::empty());
    } else {
        let prefix = entries.drop_last();
        let last = entries.last();
        assert(distinct_keys(prefix)) by {
            assert forall|a: int, b: int|
                0 <= a < prefix.len() && 0 <= b < prefix.len() && (#[trigger] prefix[a]).0@ == (
                #[trigger] prefix[b]).0@ implies a == b by {
                assert(entries[a].0@ == entries[b].0@);
            }
        }
        assert(!has_key(prefix, last.0@)) by {
            if has_key(prefix, last.0@) {
                let j = position_of(prefix, last.0@);
                assert(entries[j].0@ == entries[entries.len() - 1].0@);
            }
        }
        lemma_map_size(prefix);
        assert(prefix.push(last) =~= entries);
        lemma_map_after_push(prefix, last.0, last.1);
        assert(map_of(entries).dom() =~= map_of(prefix).dom().insert(last.0@));
    }
}

} // verus!
