//! A finite map keyed by account identifier.
//!
//! The map is kept as a vector of `(key, value)` entries in which no key
//! occurs twice. Its view is the mathematical map from the view of each key
//! to the value stored with it; every operation is specified over that view.

use near_sdk::AccountId;
use vstd::prelude::*;

verus! {

/// `key` is the key of some entry of `entries`.
pub open spec fn has_key<V>(entries: Seq<(AccountId, V)>, key: Seq<char>) -> bool {
    exists|i: int| 0 <= i < entries.len() && (#[trigger] entries[i]).0@ == key
}

/// The position of an entry of `entries` with key `key`, where there is one.
pub open spec fn index_of<V>(entries: Seq<(AccountId, V)>, key: Seq<char>) -> int {
    choose|i: int| 0 <= i < entries.len() && (#[trigger] entries[i]).0@ == key
}

/// No key occurs in two entries.
pub open spec fn unique_keys<V>(entries: Seq<(AccountId, V)>) -> bool {
    forall|i: int, j: int|
        0 <= i < j < entries.len() ==> (#[trigger] entries[i]).0@ != (#[trigger] entries[j]).0@
}

/// The map from each key of `entries` to the value stored with it.
pub open spec fn to_map<V>(entries: Seq<(AccountId, V)>) -> Map<Seq<char>, V> {
    Map::new(|key: Seq<char>| has_key(entries, key), |key: Seq<char>| entries[index_of(entries, key)].1)
}

/// Each entry of a list with unique keys is found in the map under its key.
pub proof fn lemma_entry_in_map<V>(entries: Seq<(AccountId, V)>, i: int)
    requires
        unique_keys(entries),
        0 <= i < entries.len(),
    ensures
        has_key(entries, entries[i].0@),
        index_of(entries, entries[i].0@) == i,
        to_map(entries).contains_key(entries[i].0@),
        to_map(entries)[entries[i].0@] == entries[i].1,
{
    let key = entries[i].0@;
    let j = index_of(entries, key);
    assert(0 <= j < entries.len() && entries[j].0@ == key);
}

/// The empty list stands for the empty map.
proof fn lemma_empty<V>()
    ensures
        unique_keys(Seq::<(AccountId, V)>::empty()),
        to_map(Seq::<(AccountId, V)>::empty()) == Map::<Seq<char>, V>::empty(),
{
    assert(to_map(Seq::<(AccountId, V)>::empty()) =~= Map::<Seq<char>, V>::empty());
}

/// Pushing an entry with a new key inserts it into the map.
proof fn lemma_push<V>(entries: Seq<(AccountId, V)>, entry: (AccountId, V))
    requires
        unique_keys(entries),
        !has_key(entries, entry.0@),
    ensures
        unique_keys(entries.push(entry)),
        to_map(entries.push(entry)) == to_map(entries).insert(entry.0@, entry.1),
{
    let after = entries.push(entry);
    assert forall|i: int, j: int| 0 <= i < j < after.len() implies (#[trigger] after[i]).0@ != (
    #[trigger] after[j]).0@ by {
        if j == entries.len() {
            assert(entries[i].0@ != entry.0@);
        } else {
            assert(entries[i].0@ != entries[j].0@);
        }
    }
    assert forall|key: Seq<char>| #[trigger]
        to_map(after).contains_key(key) == to_map(entries).insert(entry.0@, entry.1).contains_key(
            key,
        ) by {
        if has_key(entries, key) {
            let i = index_of(entries, key);
            assert(after[i].0@ == key);
        }
        if key == entry.0@ {
            assert(after[entries.len() as int].0@ == key);
        }
        if has_key(after, key) {
            let i = index_of(after, key);
            if i < entries.len() {
                assert(entries[i].0@ == key);
            }
        }
    }
    assert forall|key: Seq<char>| #[trigger] to_map(after).contains_key(key) implies to_map(
        after,
    )[key] == to_map(entries).insert(entry.0@, entry.1)[key] by {
        let i = index_of(after, key);
        lemma_entry_in_map(after, i);
        if i < entries.len() {
            lemma_entry_in_map(entries, i);
        }
    }
    assert(to_map(after) =~= to_map(entries).insert(entry.0@, entry.1));
}

/// Replacing the value of an entry replaces it in the map.
proof fn lemma_update<V>(entries: Seq<(AccountId, V)>, i: int, entry: (AccountId, V))
    requires
        unique_keys(entries),
        0 <= i < entries.len(),
        entry.0@ == entries[i].0@,
    ensures
        unique_keys(entries.update(i, entry)),
        to_map(entries.update(i, entry)) == to_map(entries).insert(entry.0@, entry.1),
{
    let after = entries.update(i, entry);
    assert forall|a: int, b: int| 0 <= a < b < after.len() implies (#[trigger] after[a]).0@ != (
    #[trigger] after[b]).0@ by {
        assert(entries[a].0@ != entries[b].0@);
    }
    assert forall|key: Seq<char>| #[trigger]
        to_map(after).contains_key(key) == to_map(entries).insert(entry.0@, entry.1).contains_key(
            key,
        ) by {
        if has_key(entries, key) {
            let j = index_of(entries, key);
            assert(after[j].0@ == key);
        }
        if key == entry.0@ {
            assert(after[i].0@ == key);
        }
        if has_key(after, key) {
            let j = index_of(after, key);
            assert(entries[j].0@ == key);
        }
    }
    assert forall|key: Seq<char>| #[trigger] to_map(after).contains_key(key) implies to_map(
        after,
    )[key] == to_map(entries).insert(entry.0@, entry.1)[key] by {
        let j = index_of(after, key);
        lemma_entry_in_map(after, j);
        lemma_entry_in_map(entries, j);
    }
    assert(to_map(after) =~= to_map(entries).insert(entry.0@, entry.1));
}

/// Removing an entry removes its key from the map.
proof fn lemma_remove<V>(entries: Seq<(AccountId, V)>, i: int)
    requires
        unique_keys(entries),
        0 <= i < entries.len(),
    ensures
        unique_keys(entries.remove(i)),
        to_map(entries.remove(i)) == to_map(entries).remove(entries[i].0@),
{
    let after = entries.remove(i);
    let gone = entries[i].0@;
    assert forall|a: int, b: int| 0 <= a < b < after.len() implies (#[trigger] after[a]).0@ != (
    #[trigger] after[b]).0@ by {
        let a0 = if a < i { a } else { a + 1 };
        let b0 = if b < i { b } else { b + 1 };
        assert(after[a] == entries[a0]);
        assert(after[b] == entries[b0]);
        assert(entries[a0].0@ != entries[b0].0@);
    }
    assert forall|key: Seq<char>| #[trigger]
        to_map(after).contains_key(key) == to_map(entries).remove(gone).contains_key(key) by {
        if has_key(entries, key) && key != gone {
            let j = index_of(entries, key);
            let j1 = if j < i { j } else { j - 1 };
            assert(after[j1] == entries[j]);
            assert(after[j1].0@ == key);
        }
        if has_key(after, key) {
            let j = index_of(after, key);
            let j0 = if j < i { j } else { j + 1 };
            assert(after[j] == entries[j0]);
            assert(entries[j0].0@ == key);
            if key == gone {
                if j0 < i {
                    assert(entries[j0].0@ != entries[i].0@);
                } else {
                    assert(entries[i].0@ != entries[j0].0@);
                }
            }
        }
    }
    assert forall|key: Seq<char>| #[trigger] to_map(after).contains_key(key) implies to_map(
        after,
    )[key] == to_map(entries).remove(gone)[key] by {
        let j = index_of(after, key);
        let j0 = if j < i { j } else { j + 1 };
        assert(after[j] == entries[j0]);
        lemma_entry_in_map(after, j);
        lemma_entry_in_map(entries, j0);
    }
    assert(to_map(after) =~= to_map(entries).remove(gone));
}

/// A list with unique keys stands for a finite map with as many keys as the
/// list has entries.
pub proof fn lemma_len<V>(entries: Seq<(AccountId, V)>)
    requires
        unique_keys(entries),
    ensures
        to_map(entries).dom().finite(),
        to_map(entries).dom().len() == entries.len(),
    decreases entries.len(),
{
    if entries.len() == 0 {
        assert(entries =~= Seq::<(AccountId, V)>::empty());
        lemma_empty::<V>();
    } else {
        let front = entries.drop_last();
        let last = entries.last();
        assert forall|i: int, j: int| 0 <= i < j < front.len() implies (#[trigger] front[i]).0@ != (
        #[trigger] front[j]).0@ by {
            assert(entries[i].0@ != entries[j].0@);
        }
        if has_key(front, last.0@) {
            let i = index_of(front, last.0@);
            assert(entries[i].0@ != entries[entries.len() - 1].0@);
        }
        lemma_len(front);
        lemma_push(front, last);
        assert(front.push(last) =~= entries);
        assert(!to_map(front).dom().contains(last.0@));
    }
}

/// A finite map from account identifiers to values of type `V`.
pub struct AccountMap<V> {
    entries: Vec<(AccountId, V)>,
}

impl<V> View for AccountMap<V> {
    type V = Map<Seq<char>, V>;

    closed spec fn view(&self) -> Map<Seq<char>, V> {
        to_map(self.entries@)
    }
}

impl<V> AccountMap<V> {
    #[verifier::type_invariant]
    spec fn no_key_twice(self) -> bool {
        unique_keys(self.entries@)
    }

    /// Position of the entry with key `key`, if there is one.
    fn find(&self, key: &AccountId) -> (found: Option<usize>)
        ensures
            match found {
                Some(i) => i < self.entries@.len() && self.entries@[i as int].0@ == key@,
                None => !has_key(self.entries@, key@),
            },
    {
        let mut i: usize = 0;
        while i < self.entries.len()
            invariant
                i <= self.entries@.len(),
                forall|j: int| 0 <= j < i ==> (#[trigger] self.entries@[j]).0@ != key@,
            decreases self.entries@.len() - i,
        {
            if self.entries[i].0 == *key {
                return Some(i);
            }
            i += 1;
        }
        None
    }

    /// The empty map.
    pub fn new() -> (map: Self)
        ensures
            map@ == Map::<Seq<char>, V>::empty(),
    {
        let map = AccountMap { entries: Vec::new() };
        proof {
            lemma_empty::<V>();
            assert(map.entries@ =~= Seq::<(AccountId, V)>::empty());
        }
        map
    }

    /// Number of keys in the map.
    pub fn len(&self) -> (count: usize)
        ensures
            self@.dom().finite(),
            count == self@.dom().len(),
    {
        proof {
            use_type_invariant(self);
            lemma_len(self.entries@);
        }
        self.entries.len()
    }

    /// Whether the map holds `key`.
    pub fn contains_key(&self, key: &AccountId) -> (present: bool)
        ensures
            present == self@.contains_key(key@),
    {
        self.find(key).is_some()
    }

    /// The value stored under `key`, if the map holds it.
    pub fn get(&self, key: &AccountId) -> (value: Option<&V>)
        ensures
            match value {
                Some(v) => self@.contains_key(key@) && *v == self@[key@],
                None => !self@.contains_key(key@),
            },
    {
        proof {
            use_type_invariant(self);
        }
        match self.find(key) {
            Some(i) => {
                proof {
                    lemma_entry_in_map(self.entries@, i as int);
                }
                Some(&self.entries[i].1)
            },
            None => None,
        }
    }

    /// Stores `value` under `key`, in place of the value that was there, if any.
    pub fn insert(&mut self, key: AccountId, value: V)
        ensures
            final(self)@ == old(self)@.insert(key@, value),
    {
        proof {
            use_type_invariant(&*self);
        }
        let found = self.find(&key);
        let mut entries: Vec<(AccountId, V)> = Vec::new();
        proof {
            lemma_empty::<V>();
            assert(entries@ =~= Seq::<(AccountId, V)>::empty());
        }
        std::mem::swap(&mut entries, &mut self.entries);
        match found {
            Some(i) => {
                proof {
                    lemma_update(entries@, i as int, (key, value));
                }
                entries.set(i, (key, value));
            },
            None => {
                proof {
                    lemma_push(entries@, (key, value));
                }
                entries.push((key, value));
            },
        }
        self.entries = entries;
    }

    /// The entries of the map, in no particular order: no key occurs twice
    /// among them, and together they are the map.
    pub fn into_entries(self) -> (entries: Vec<(AccountId, V)>)
        ensures
            unique_keys(entries@),
            to_map(entries@) == self@,
    {
        proof {
            use_type_invariant(&self);
        }
        self.entries
    }

    /// Takes `key` out of the map and returns the value that was stored under it, if any.
    pub fn remove(&mut self, key: &AccountId) -> (removed: Option<V>)
        ensures
            final(self)@ == old(self)@.remove(key@),
            removed == if old(self)@.contains_key(key@) {
                Some(old(self)@[key@])
            } else {
                None
            },
    {
        proof {
            use_type_invariant(&*self);
        }
        match self.find(key) {
            Some(i) => {
                let mut entries: Vec<(AccountId, V)> = Vec::new();
                proof {
                    lemma_empty::<V>();
                    assert(entries@ =~= Seq::<(AccountId, V)>::empty());
                }
                std::mem::swap(&mut entries, &mut self.entries);
                proof {
                    lemma_entry_in_map(entries@, i as int);
                    lemma_remove(entries@, i as int);
                }
                let entry = entries.remove(i);
                self.entries = entries;
                Some(entry.1)
            },
            None => {
                assert(old(self)@.remove(key@) =~= old(self)@);
                None
            },
        }
    }
}

impl<V: Clone> Clone for AccountMap<V> {
    /// A map with the same keys, each with a clone of its value.
    fn clone(&self) -> (copy: Self)
        ensures
            copy@.dom() == self@.dom(),
            forall|key: Seq<char>| #[trigger]
                copy@.contains_key(key) ==> cloned::<V>(self@[key], copy@[key]),
    {
        proof {
            use_type_invariant(self);
        }
        let mut entries: Vec<(AccountId, V)> = Vec::new();
        let mut i: usize = 0;
        while i < self.entries.len()
            invariant
                i <= self.entries@.len(),
                entries@.len() == i,
                forall|j: int| 0 <= j < i ==> (#[trigger] entries@[j]).0@ == self.entries@[j].0@,
                forall|j: int|
                    0 <= j < i ==> cloned::<V>(self.entries@[j].1, (#[trigger] entries@[j]).1),
            decreases self.entries@.len() - i,
        {
            let key = self.entries[i].0.clone();
            let value = self.entries[i].1.clone();
            entries.push((key, value));
            i += 1;
        }
        proof {
            assert forall|a: int, b: int| 0 <= a < b < entries@.len() implies (
            #[trigger] entries@[a]).0@ != (#[trigger] entries@[b]).0@ by {
                assert(self.entries@[a].0@ != self.entries@[b].0@);
            }
            assert forall|key: Seq<char>|
                has_key(entries@, key) == has_key(self.entries@, key) by {
                if has_key(entries@, key) {
                    let j = index_of(entries@, key);
                    assert(self.entries@[j].0@ == key);
                }
                if has_key(self.entries@, key) {
                    let j = index_of(self.entries@, key);
                    assert(entries@[j].0@ == key);
                }
            }
            assert(to_map(entries@).dom() =~= to_map(self.entries@).dom());
            assert forall|key: Seq<char>| #[trigger]
                to_map(entries@).contains_key(key) implies cloned::<V>(
                to_map(self.entries@)[key],
                to_map(entries@)[key],
            ) by {
                let j = index_of(entries@, key);
                lemma_entry_in_map(entries@, j);
                lemma_entry_in_map(self.entries@, j);
            }
        }
        AccountMap { entries }
    }
}

} // verus!
