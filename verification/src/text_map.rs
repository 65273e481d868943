//! An insertion-ordered map keyed by text.
//!
//! The map is a list of entries in which no key occurs twice. An entry keeps
//! the place it was first given for as long as its key stays in the map, so
//! walking the map is deterministic.

use vstd::prelude::*;
use crate::text::str_eq;

verus! {

/// No two entries share a key.
pub open spec fn distinct_keys<V>(entries: Seq<(Seq<char>, V)>) -> bool {
    forall|i: int, j: int|
        0 <= i < j < entries.len() ==> (#[trigger] entries[i]).0 != (#[trigger] entries[j]).0
}

/// Some entry has the key `key`.
pub open spec fn has_key<V>(entries: Seq<(Seq<char>, V)>, key: Seq<char>) -> bool {
    exists|i: int| 0 <= i < entries.len() && (#[trigger] entries[i]).0 == key
}

/// The place of an entry with the key `key`; meaningful only where one exists.
pub open spec fn position_of<V>(entries: Seq<(Seq<char>, V)>, key: Seq<char>) -> int {
    choose|i: int| 0 <= i < entries.len() && (#[trigger] entries[i]).0 == key
}

/// The value stored under `key`; meaningful only where the key is present.
pub open spec fn value_of<V>(entries: Seq<(Seq<char>, V)>, key: Seq<char>) -> V {
    entries[position_of(entries, key)].1
}

/// The entries after storing `value` under `key`: a present key keeps its
/// place and gets the new value, an absent one is added at the end.
pub open spec fn put<V>(entries: Seq<(Seq<char>, V)>, key: Seq<char>, value: V) -> Seq<
    (Seq<char>, V),
> {
    if has_key(entries, key) {
        entries.update(position_of(entries, key), (key, value))
    } else {
        entries.push((key, value))
    }
}

/// The entries after dropping `key`; the others keep their order.
pub open spec fn without<V>(entries: Seq<(Seq<char>, V)>, key: Seq<char>) -> Seq<(Seq<char>, V)> {
    if has_key(entries, key) {
        entries.remove(position_of(entries, key))
    } else {
        entries
    }
}

/// With distinct keys, the place of a key is the only index that holds it.
pub proof fn lemma_position_unique<V>(entries: Seq<(Seq<char>, V)>, i: int)
    requires
        distinct_keys(entries),
        0 <= i < entries.len(),
    ensures
        has_key(entries, entries[i].0),
        position_of(entries, entries[i].0) == i,
{
    let key = entries[i].0;
    let p = position_of(entries, key);
    assert(0 <= p < entries.len() && entries[p].0 == key);
    if p < i {
        assert(entries[p].0 != entries[i].0);
    } else if i < p {
        assert(entries[i].0 != entries[p].0);
    }
}

/// Storing under a key keeps the keys distinct.
pub proof fn lemma_put_distinct<V>(entries: Seq<(Seq<char>, V)>, key: Seq<char>, value: V)
    requires
        distinct_keys(entries),
    ensures
        distinct_keys(put(entries, key, value)),
        has_key(put(entries, key, value), key),
        value_of(put(entries, key, value), key) == value,
{
    let after = put(entries, key, value);
    if has_key(entries, key) {
        let p = position_of(entries, key);
        assert forall|i: int, j: int| 0 <= i < j < after.len() implies (#[trigger] after[i]).0
            != (#[trigger] after[j]).0 by {
            assert(after[i].0 == entries[i].0);
            assert(after[j].0 == entries[j].0);
        }
        assert(after[p].0 == key);
        lemma_position_unique(after, p);
    } else {
        let n = entries.len() as int;
        assert forall|i: int, j: int| 0 <= i < j < after.len() implies (#[trigger] after[i]).0
            != (#[trigger] after[j]).0 by {
            assert(after[i] == entries[i]);
            if j < n {
                assert(after[j] == entries[j]);
            }
        }
        assert(after[n].0 == key);
        lemma_position_unique(after, n);
    }
}

/// Dropping a key keeps the keys distinct and leaves the key absent.
pub proof fn lemma_without_distinct<V>(entries: Seq<(Seq<char>, V)>, key: Seq<char>)
    requires
        distinct_keys(entries),
    ensures
        distinct_keys(without(entries, key)),
        !has_key(without(entries, key), key),
{
    let after = without(entries, key);
    if has_key(entries, key) {
        let p = position_of(entries, key);
        assert forall|i: int, j: int| 0 <= i < j < after.len() implies (#[trigger] after[i]).0
            != (#[trigger] after[j]).0 by {
            let a = if i < p { i } else { i + 1 };
            let b = if j < p { j } else { j + 1 };
            assert(after[i] == entries[a]);
            assert(after[j] == entries[b]);
        }
        assert forall|i: int| 0 <= i < after.len() implies (#[trigger] after[i]).0 != key by {
            let a = if i < p { i } else { i + 1 };
            assert(after[i] == entries[a]);
            if a < p {
                assert(entries[a].0 != entries[p].0);
            } else {
                assert(entries[p].0 != entries[a].0);
            }
        }
    }
}

/// A map from text keys to values that remembers the order of insertion.
pub struct TextMap<V> {
    entries: Vec<(String, V)>,
}

/// The entries as the contracts see them: each key by its characters.
spec fn model_of<V>(stored: Seq<(String, V)>) -> Seq<(Seq<char>, V)> {
    Seq::new(stored.len(), |i: int| (stored[i].0@, stored[i].1))
}

impl<V> View for TextMap<V> {
    type V = Seq<(Seq<char>, V)>;

    closed spec fn view(&self) -> Seq<(Seq<char>, V)> {
        model_of(self.entries@)
    }
}

impl<V> TextMap<V> {
    #[verifier::type_invariant]
    closed spec fn well_formed(&self) -> bool {
        distinct_keys(self@)
    }

    /// An empty map.
    pub fn new() -> (map: Self)
        ensures
            map@ == Seq::<(Seq<char>, V)>::empty(),
    {
        let map = TextMap { entries: Vec::new() };
        assert(map@ =~= Seq::<(Seq<char>, V)>::empty());
        map
    }

    /// The number of entries.
    pub fn len(&self) -> (n: usize)
        ensures
            n == self@.len(),
            distinct_keys(self@),
    {
        proof {
            use_type_invariant(self);
        }
        self.entries.len()
    }

    /// The place of `key` among the entries, if it is present.
    pub fn find(&self, key: &str) -> (place: Option<usize>)
        ensures
            distinct_keys(self@),
            place is Some <==> has_key(self@, key@),
            place matches Some(i) ==> i < self@.len() && self@[i as int].0 == key@ && i
                == position_of(self@, key@),
    {
        proof {
            use_type_invariant(self);
        }
        let mut i: usize = 0;
        while i < self.entries.len()
            invariant
                i <= self.entries@.len(),
                self@.len() == self.entries@.len(),
                distinct_keys(self@),
                forall|j: int| 0 <= j < i ==> (#[trigger] self@[j]).0 != key@,
            decreases self.entries@.len() - i,
        {
            if str_eq(self.entries[i].0.as_str(), key) {
                proof {
                    assert(self@[i as int].0 == key@);
                    lemma_position_unique(self@, i as int);
                }
                return Some(i);
            }
            i += 1;
        }
        None
    }

    /// Whether `key` is present.
    pub fn contains_key(&self, key: &str) -> (present: bool)
        ensures
            present == has_key(self@, key@),
            distinct_keys(self@),
    {
        self.find(key).is_some()
    }

    /// The value stored under `key`, if it is present.
    pub fn get(&self, key: &str) -> (value: Option<&V>)
        ensures
            value is Some <==> has_key(self@, key@),
            value matches Some(v) ==> *v == value_of(self@, key@),
            distinct_keys(self@),
    {
        match self.find(key) {
            Some(i) => Some(&self.entries[i].1),
            None => None,
        }
    }

    /// The key of the entry at place `i`.
    pub fn key_at(&self, i: usize) -> (key: &str)
        requires
            i < self@.len(),
        ensures
            key@ == self@[i as int].0,
    {
        self.entries[i].0.as_str()
    }

    /// The value of the entry at place `i`.
    pub fn value_at(&self, i: usize) -> (value: &V)
        requires
            i < self@.len(),
        ensures
            *value == self@[i as int].1,
    {
        &self.entries[i].1
    }

    /// Stores `value` under `key` and returns the value that was there before.
    pub fn insert(&mut self, key: String, value: V) -> (previous: Option<V>)
        ensures
            final(self)@ == put(old(self)@, key@, value),
            distinct_keys(old(self)@),
            distinct_keys(final(self)@),
            previous == if has_key(old(self)@, key@) {
                Some(value_of(old(self)@, key@))
            } else {
                None::<V>
            },
    {
        proof {
            use_type_invariant(&*self);
            lemma_put_distinct(self@, key@, value);
        }
        let ghost before = self@;
        match self.find(key.as_str()) {
            Some(i) => {
                let mut entries: Vec<(String, V)> = Vec::new();
                std::mem::swap(&mut self.entries, &mut entries);
                entries.push((key, value));
                let replaced = entries.swap_remove(i);
                assert(model_of(entries@) =~= put(before, key@, value));
                std::mem::swap(&mut self.entries, &mut entries);
                Some(replaced.1)
            },
            None => {
                let mut entries: Vec<(String, V)> = Vec::new();
                std::mem::swap(&mut self.entries, &mut entries);
                entries.push((key, value));
                assert(model_of(entries@) =~= put(before, key@, value));
                std::mem::swap(&mut self.entries, &mut entries);
                None
            },
        }
    }

    /// Replaces the value at place `i` and returns the one that was there.
    pub fn set_value_at(&mut self, i: usize, value: V) -> (previous: V)
        requires
            i < old(self)@.len(),
        ensures
            final(self)@ == old(self)@.update(i as int, (old(self)@[i as int].0, value)),
            distinct_keys(old(self)@),
            distinct_keys(final(self)@),
            previous == old(self)@[i as int].1,
    {
        proof {
            use_type_invariant(&*self);
        }
        let ghost before = self@;
        let mut entries: Vec<(String, V)> = Vec::new();
        std::mem::swap(&mut self.entries, &mut entries);
        let taken = entries.swap_remove(i);
        entries.push((taken.0, value));
        let n = entries.len();
        if i + 1 < n {
            let last = entries.swap_remove(i);
            entries.push(last);
        }
        proof {
            let after = before.update(i as int, (before[i as int].0, value));
            assert(model_of(entries@) =~= after);
            assert forall|a: int, b: int| 0 <= a < b < after.len() implies (#[trigger] after[a]).0
                != (#[trigger] after[b]).0 by {
                assert(after[a].0 == before[a].0);
                assert(after[b].0 == before[b].0);
            }
        }
        std::mem::swap(&mut self.entries, &mut entries);
        taken.1
    }

    /// Drops `key` and returns the value that was stored under it.
    pub fn remove(&mut self, key: &str) -> (previous: Option<V>)
        ensures
            final(self)@ == without(old(self)@, key@),
            distinct_keys(old(self)@),
            distinct_keys(final(self)@),
            previous == if has_key(old(self)@, key@) {
                Some(value_of(old(self)@, key@))
            } else {
                None::<V>
            },
    {
        proof {
            use_type_invariant(&*self);
            lemma_without_distinct(self@, key@);
        }
        let ghost before = self@;
        match self.find(key) {
            Some(i) => {
                let mut entries: Vec<(String, V)> = Vec::new();
                std::mem::swap(&mut self.entries, &mut entries);
                let taken = entries.remove(i);
                assert(model_of(entries@) =~= without(before, key@));
                std::mem::swap(&mut self.entries, &mut entries);
                Some(taken.1)
            },
            None => None,
        }
    }
}

} // verus!
