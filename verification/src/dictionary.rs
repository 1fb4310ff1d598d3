//! A finite map keyed by text, kept as a list of entries with distinct keys.
//!
//! The entries keep the order in which their keys were first inserted, so a
//! dictionary can be walked by position; its view is the mathematical map.

use vstd::prelude::*;
use crate::text::text_eq;

verus! {

/// Whether no key occurs twice among `entries`.
pub open spec fn distinct_keys<V>(entries: Seq<(Seq<char>, V)>) -> bool {
    forall|i: int, j: int|
        0 <= i < j < entries.len() ==> (#[trigger] entries[i]).0 != (#[trigger] entries[j]).0
}

/// Whether `key` is the key of some entry.
pub open spec fn has_key<V>(entries: Seq<(Seq<char>, V)>, key: Seq<char>) -> bool {
    exists|i: int| 0 <= i < entries.len() && (#[trigger] entries[i]).0 == key
}

/// The position of an entry whose key is `key`.
pub open spec fn position_of<V>(entries: Seq<(Seq<char>, V)>, key: Seq<char>) -> int {
    choose|i: int| 0 <= i < entries.len() && (#[trigger] entries[i]).0 == key
}

/// The map that `entries` stands for.
pub open spec fn as_map<V>(entries: Seq<(Seq<char>, V)>) -> Map<Seq<char>, V> {
    Map::new(
        |k: Seq<char>| has_key(entries, k),
        |k: Seq<char>| entries[position_of(entries, k)].1,
    )
}

/// With distinct keys, the map holds each entry under its key.
pub proof fn lemma_entry_in_map<V>(entries: Seq<(Seq<char>, V)>, i: int)
    requires
        distinct_keys(entries),
        0 <= i < entries.len(),
    ensures
        as_map(entries).contains_key(entries[i].0),
        as_map(entries)[entries[i].0] == entries[i].1,
{
    let key = entries[i].0;
    assert(has_key(entries, key));
    let p = position_of(entries, key);
    assert(0 <= p < entries.len() && entries[p].0 == key);
    if p < i {
        assert(entries[p].0 != entries[i].0);
    } else if i < p {
        assert(entries[i].0 != entries[p].0);
    }
}

/// Appending an entry under a fresh key inserts it into the map.
pub proof fn lemma_push_inserts<V>(entries: Seq<(Seq<char>, V)>, key: Seq<char>, value: V)
    requires
        distinct_keys(entries),
        !has_key(entries, key),
    ensures
        distinct_keys(entries.push((key, value))),
        as_map(entries.push((key, value))) == as_map(entries).insert(key, value),
{
    let grown = entries.push((key, value));
    assert forall|i: int, j: int| 0 <= i < j < grown.len() implies (#[trigger] grown[i]).0 != (
    #[trigger] grown[j]).0 by {
        if j < entries.len() {
            assert(entries[i].0 != entries[j].0);
        } else {
            assert(entries[i].0 != key);
        }
    }
    assert forall|k: Seq<char>| #[trigger]
        as_map(grown).contains_key(k) == as_map(entries).insert(key, value).contains_key(k) by {
        if has_key(grown, k) {
            let p = position_of(grown, k);
            if p < entries.len() {
                assert(entries[p].0 == k);
            }
        }
        if has_key(entries, k) {
            let p = position_of(entries, k);
            assert(grown[p].0 == k);
        }
        if k == key {
            assert(grown[entries.len() as int].0 == k);
        }
    }
    assert forall|k: Seq<char>| #[trigger] as_map(grown).contains_key(k) implies as_map(grown)[k]
        == as_map(entries).insert(key, value)[k] by {
        let p = position_of(grown, k);
        lemma_entry_in_map(grown, p);
        if p < entries.len() {
            assert(entries[p].0 == k);
            lemma_entry_in_map(entries, p);
        }
    }
    assert(as_map(grown) =~= as_map(entries).insert(key, value));
}

/// Replacing the value of the entry at `i` replaces it in the map.
pub proof fn lemma_update_inserts<V>(entries: Seq<(Seq<char>, V)>, i: int, value: V)
    requires
        distinct_keys(entries),
        0 <= i < entries.len(),
    ensures
        distinct_keys(entries.update(i, (entries[i].0, value))),
        as_map(entries.update(i, (entries[i].0, value))) == as_map(entries).insert(
            entries[i].0,
            value,
        ),
{
    let key = entries[i].0;
    let changed = entries.update(i, (key, value));
    assert forall|a: int, b: int| 0 <= a < b < changed.len() implies (#[trigger] changed[a]).0 != (
    #[trigger] changed[b]).0 by {
        assert(entries[a].0 != entries[b].0);
    }
    assert forall|k: Seq<char>| #[trigger]
        as_map(changed).contains_key(k) == as_map(entries).insert(key, value).contains_key(k) by {
        if has_key(changed, k) {
            let p = position_of(changed, k);
            assert(entries[p].0 == k);
        }
        if has_key(entries, k) {
            let p = position_of(entries, k);
            assert(changed[p].0 == k);
        }
        if k == key {
            assert(changed[i].0 == k);
        }
    }
    assert forall|k: Seq<char>| #[trigger] as_map(changed).contains_key(k) implies as_map(
        changed,
    )[k] == as_map(entries).insert(key, value)[k] by {
        let p = position_of(changed, k);
        lemma_entry_in_map(changed, p);
        if p != i {
            assert(entries[p].0 == k);
            lemma_entry_in_map(entries, p);
        }
    }
    assert(as_map(changed) =~= as_map(entries).insert(key, value));
}

/// The entries with each key as its character sequence.
spec fn keyed<V>(entries: Seq<(String, V)>) -> Seq<(Seq<char>, V)> {
    entries.map_values(|e: (String, V)| (e.0@, e.1))
}

/// A map from text keys to values of type `V`.
#[derive(Debug, PartialEq, Eq)]
pub struct Dictionary<V> {
    entries: Vec<(String, V)>,
}

impl<V> View for Dictionary<V> {
    type V = Map<Seq<char>, V>;

    open spec fn view(&self) -> Map<Seq<char>, V> {
        as_map(self.pairs())
    }
}

impl<V> Dictionary<V> {
    /// The entries in the order of first insertion, each key as its
    /// character sequence.
    pub closed spec fn pairs(&self) -> Seq<(Seq<char>, V)> {
        keyed(self.entries@)
    }

    #[verifier::type_invariant]
    spec fn well_formed(&self) -> bool {
        distinct_keys(self.pairs())
    }

    /// The empty dictionary.
    pub fn new() -> (d: Self)
        ensures
            d.pairs() == Seq::<(Seq<char>, V)>::empty(),
            d@ == Map::<Seq<char>, V>::empty(),
    {
        let entries: Vec<(String, V)> = Vec::new();
        assert(keyed(entries@) =~= Seq::<(Seq<char>, V)>::empty());
        assert(as_map(keyed(entries@)) =~= Map::<Seq<char>, V>::empty());
        Dictionary { entries }
    }

    /// The number of entries.
    pub fn len(&self) -> (n: usize)
        ensures
            n == self.pairs().len(),
            distinct_keys(self.pairs()),
    {
        proof {
            use_type_invariant(self);
        }
        self.entries.len()
    }

    /// Whether there is no entry.
    pub fn is_empty(&self) -> (empty: bool)
        ensures
            empty == (self.pairs().len() == 0),
            empty == (self@ == Map::<Seq<char>, V>::empty()),
    {
        proof {
            use_type_invariant(self);
            if self.pairs().len() > 0 {
                lemma_entry_in_map(self.pairs(), 0);
            } else {
                assert(self@ =~= Map::<Seq<char>, V>::empty());
            }
        }
        self.entries.len() == 0
    }

    /// The position of the entry under `key`, if there is one.
    pub fn find(&self, key: &str) -> (found: Option<usize>)
        ensures
            distinct_keys(self.pairs()),
            match found {
                Some(i) => i < self.pairs().len() && self.pairs()[i as int].0 == key@,
                None => !has_key(self.pairs(), key@),
            },
    {
        proof {
            use_type_invariant(self);
        }
        let mut i: usize = 0;
        while i < self.entries.len()
            invariant
                0 <= i <= self.entries.len(),
                self.entries@.len() == self.pairs().len(),
                distinct_keys(self.pairs()),
                forall|j: int| 0 <= j < i ==> (#[trigger] self.pairs()[j]).0 != key@,
            decreases self.entries.len() - i,
        {
            if text_eq(self.entries[i].0.as_str(), key) {
                assert(self.pairs()[i as int].0 == key@);
                return Some(i);
            }
            i += 1;
        }
        None
    }

    /// The value under `key`, if there is one.
    pub fn get(&self, key: &str) -> (found: Option<&V>)
        ensures
            match found {
                Some(v) => self@.contains_key(key@) && self@[key@] == *v,
                None => !self@.contains_key(key@),
            },
    {
        match self.find(key) {
            Some(i) => {
                proof {
                    lemma_entry_in_map(self.pairs(), i as int);
                }
                Some(&self.entries[i].1)
            },
            None => None,
        }
    }

    /// Whether there is an entry under `key`.
    pub fn contains_key(&self, key: &str) -> (present: bool)
        ensures
            present == self@.contains_key(key@),
    {
        self.find(key).is_some()
    }

    /// The key of the entry at position `i`.
    pub fn key_at(&self, i: usize) -> (key: &str)
        requires
            i < self.pairs().len(),
        ensures
            key@ == self.pairs()[i as int].0,
    {
        self.entries[i].0.as_str()
    }

    /// The value of the entry at position `i`.
    pub fn value_at(&self, i: usize) -> (value: &V)
        requires
            i < self.pairs().len(),
        ensures
            *value == self.pairs()[i as int].1,
            distinct_keys(self.pairs()),
            self@.contains_key(self.pairs()[i as int].0),
            self@[self.pairs()[i as int].0] == *value,
    {
        proof {
            use_type_invariant(self);
            lemma_entry_in_map(self.pairs(), i as int);
        }
        &self.entries[i].1
    }

    /// The dictionary with `value` under `key`: in place of the value that
    /// was there, or as a new last entry.
    pub fn with(self, key: String, value: V) -> (d: Self)
        ensures
            d@ == self@.insert(key@, value),
            d.pairs() == (if has_key(self.pairs(), key@) {
                self.pairs().update(position_of(self.pairs(), key@), (key@, value))
            } else {
                self.pairs().push((key@, value))
            }),
    {
        let ghost before = self.pairs();
        let found = self.find(key.as_str());
        let mut entries = self.entries;
        match found {
            Some(i) => {
                proof {
                    lemma_update_inserts(before, i as int, value);
                    let p = position_of(before, key@);
                    assert(0 <= p < before.len() && before[p].0 == key@);
                    if p < i {
                        assert(before[p].0 != before[i as int].0);
                    } else if i < p {
                        assert(before[i as int].0 != before[p].0);
                    }
                }
                entries.set(i, (key, value));
                assert(keyed(entries@) =~= before.update(i as int, (key@, value)));
                Dictionary { entries }
            },
            None => {
                proof {
                    lemma_push_inserts(before, key@, value);
                }
                entries.push((key, value));
                assert(keyed(entries@) =~= before.push((key@, value)));
                Dictionary { entries }
            },
        }
    }
}

} // verus!
