//! A small association table: at most one value per key.
use vstd::prelude::*;

use crate::protocols::{CacheOwnerId, WorkerWithDpRank};

verus! {

/// A plain value that can be compared.
pub trait SameAs: Copy {
    fn same(&self, other: &Self) -> (same: bool)
        ensures
            same == (*self == *other),
    ;
}

impl SameAs for u64 {
    fn same(&self, other: &Self) -> (same: bool) {
        *self == *other
    }
}

impl SameAs for WorkerWithDpRank {
    fn same(&self, other: &Self) -> (same: bool) {
        *self == *other
    }
}

impl SameAs for CacheOwnerId {
    fn same(&self, other: &Self) -> (same: bool) {
        *self == *other
    }
}

/// The value under a key, if there is one.
pub open spec fn lookup<K, V>(entries: Map<K, V>, key: K) -> Option<V> {
    if entries.dom().contains(key) {
        Some(entries[key])
    } else {
        None
    }
}

/// The map that a run of entries spells out; a later entry wins.
pub open spec fn map_of<K, V>(entries: Seq<(K, V)>) -> Map<K, V>
    decreases entries.len(),
{
    if entries.len() == 0 {
        Map::empty()
    } else {
        map_of(entries.drop_last()).insert(entries.last().0, entries.last().1)
    }
}

pub open spec fn distinct_keys<K, V>(entries: Seq<(K, V)>) -> bool {
    forall|i: int, j: int|
        0 <= i < j < entries.len() ==> (#[trigger] entries[i]).0 != (#[trigger] entries[j]).0
}

pub open spec fn has_entry<K, V>(entries: Seq<(K, V)>, key: K) -> bool {
    exists|i: int| 0 <= i < entries.len() && (#[trigger] entries[i]).0 == key
}

/// With distinct keys, the map holds exactly the entries.
pub proof fn lemma_map_of<K, V>(entries: Seq<(K, V)>)
    requires
        distinct_keys(entries),
    ensures
        forall|i: int|
            0 <= i < entries.len() ==> map_of(entries).dom().contains((#[trigger] entries[i]).0)
                && map_of(entries)[entries[i].0] == entries[i].1,
        forall|key: K| #[trigger]
            map_of(entries).dom().contains(key) <==> has_entry(entries, key),
        map_of(entries).dom().finite(),
        map_of(entries).dom().len() == entries.len(),
    decreases entries.len(),
{
    if entries.len() > 0 {
        let front = entries.drop_last();
        lemma_map_of(front);
        let last = entries.last();
        if map_of(front).dom().contains(last.0) {
            let i = choose|i: int| 0 <= i < front.len() && (#[trigger] front[i]).0 == last.0;
            assert(entries[i].0 == entries[entries.len() - 1].0);
        }
        assert forall|i: int| 0 <= i < entries.len() implies map_of(entries).dom().contains(
            (#[trigger] entries[i]).0,
        ) && map_of(entries)[entries[i].0] == entries[i].1 by {
            if i < front.len() {
                assert(front[i] == entries[i]);
                assert(entries[i].0 != entries[entries.len() - 1].0);
            }
        }
        assert forall|key: K| #[trigger]
            map_of(entries).dom().contains(key) <==> has_entry(entries, key) by {
            if map_of(entries).dom().contains(key) {
                if key == last.0 {
                    assert(entries[entries.len() - 1].0 == key);
                } else {
                    assert(map_of(front).dom().contains(key));
                    let i = choose|i: int| 0 <= i < front.len() && (#[trigger] front[i]).0 == key;
                    assert(entries[i].0 == key);
                }
            }
        }
    }
}

/// Entries with distinct keys are told apart by nothing but their order.
pub proof fn lemma_map_of_unique<K, V>(entries: Seq<(K, V)>, map: Map<K, V>)
    requires
        distinct_keys(entries),
        forall|i: int|
            0 <= i < entries.len() ==> map.dom().contains((#[trigger] entries[i]).0)
                && map[entries[i].0] == entries[i].1,
        forall|key: K| #[trigger] map.dom().contains(key) ==> has_entry(entries, key),
    ensures
        map_of(entries) == map,
{
    lemma_map_of(entries);
    assert forall|key: K| #[trigger] map_of(entries).dom().contains(key) implies map.dom().contains(
        key,
    ) && map[key] == map_of(entries)[key] by {
        let i = choose|i: int| 0 <= i < entries.len() && (#[trigger] entries[i]).0 == key;
        assert(map.dom().contains(entries[i].0));
    }
    assert(map_of(entries) =~= map);
}

/// A pair is listed exactly when the map holds it.
pub proof fn lemma_listed_pairs<K, V>(entries: Seq<(K, V)>)
    requires
        distinct_keys(entries),
    ensures
        forall|pair: (K, V)| #[trigger]
            entries.contains(pair) <==> map_of(entries).dom().contains(pair.0) && map_of(
                entries,
            )[pair.0] == pair.1,
{
    lemma_map_of(entries);
    assert forall|pair: (K, V)| #[trigger] entries.contains(pair) <==> map_of(
        entries,
    ).dom().contains(pair.0) && map_of(entries)[pair.0] == pair.1 by {
        if entries.contains(pair) {
            let i = choose|i: int| 0 <= i < entries.len() && entries[i] == pair;
            assert(map_of(entries)[entries[i].0] == entries[i].1);
        }
        if map_of(entries).dom().contains(pair.0) && map_of(entries)[pair.0] == pair.1 {
            let i = choose|i: int| 0 <= i < entries.len() && (#[trigger] entries[i]).0 == pair.0;
            assert(entries[i] == pair);
        }
    }
}

#[derive(Debug)]
pub struct Table<K: SameAs, V> {
    entries: Vec<(K, V)>,
}

impl<K: SameAs, V> View for Table<K, V> {
    type V = Map<K, V>;

    closed spec fn view(&self) -> Map<K, V> {
        map_of(self.entries@)
    }
}

impl<K: SameAs, V> Default for Table<K, V> {
    fn default() -> (table: Self)
        ensures
            table@ == Map::<K, V>::empty(),
    {
        Table::new()
    }
}

impl<K: SameAs, V> Table<K, V> {
    #[verifier::type_invariant]
    spec fn keys_are_distinct(&self) -> bool {
        distinct_keys(self.entries@)
    }

    /// The entries in the order in which they stand.
    pub closed spec fn listing(&self) -> Seq<(K, V)> {
        self.entries@
    }

    pub fn new() -> (table: Self)
        ensures
            table@ == Map::<K, V>::empty(),
            table.listing() == Seq::<(K, V)>::empty(),
    {
        let table = Table { entries: Vec::new() };
        proof {
            assert(table.entries@ =~= Seq::<(K, V)>::empty());
        }
        table
    }

    /// The number of entries; the listing holds each entry of the table once.
    pub fn len(&self) -> (len: usize)
        ensures
            len == self.listing().len(),
            len == self@.dom().len(),
            self@.dom().finite(),
            distinct_keys(self.listing()),
            self@ == map_of(self.listing()),
            forall|i: int|
                0 <= i < self.listing().len() ==> self@.dom().contains(
                    (#[trigger] self.listing()[i]).0,
                ) && self@[self.listing()[i].0] == self.listing()[i].1,
            forall|key: K| #[trigger]
                self@.dom().contains(key) <==> has_entry(self.listing(), key),
    {
        proof {
            use_type_invariant(self);
            lemma_map_of(self.entries@);
        }
        self.entries.len()
    }

    pub fn key_at(&self, index: usize) -> (key: K)
        requires
            index < self.listing().len(),
        ensures
            key == self.listing()[index as int].0,
    {
        self.entries[index].0
    }

    pub fn value_at(&self, index: usize) -> (value: &V)
        requires
            index < self.listing().len(),
        ensures
            *value == self.listing()[index as int].1,
    {
        &self.entries[index].1
    }

    /// Every key, once.
    pub fn keys(&self) -> (keys: Vec<K>)
        ensures
            keys@.no_duplicates(),
            forall|key: K| #[trigger] keys@.contains(key) <==> self@.dom().contains(key),
    {
        let mut keys: Vec<K> = Vec::new();
        let len: usize = self.len();
        let mut i: usize = 0;
        while i < len
            invariant
                i <= len,
                len == self.listing().len(),
                keys@.len() == i,
                forall|j: int| 0 <= j < i ==> #[trigger] keys@[j] == self.listing()[j].0,
            decreases len - i,
        {
            keys.push(self.key_at(i));
            i = i + 1;
        }
        proof {
            let listing = self.listing();
            assert forall|a: int, b: int| 0 <= a < b < keys@.len() implies keys@[a]
                != keys@[b] by {
                assert(listing[a].0 != listing[b].0);
            }
            assert forall|key: K| #[trigger] keys@.contains(key) <==> self@.dom().contains(key) by {
                if keys@.contains(key) {
                    let j = choose|j: int| 0 <= j < keys@.len() && keys@[j] == key;
                    assert(listing[j].0 == key);
                }
                if self@.dom().contains(key) {
                    assert(has_entry(listing, key));
                    let j = choose|j: int| 0 <= j < listing.len() && (#[trigger] listing[j]).0 == key;
                    assert(keys@[j] == key);
                }
            }
        }
        keys
    }

    fn take_entries(&mut self) -> (entries: Vec<(K, V)>)
        ensures
            entries@ == old(self).listing(),
            final(self).listing() == Seq::<(K, V)>::empty(),
    {
        let mut taken = Table::new();
        std::mem::swap(self, &mut taken);
        let Table { entries } = taken;
        entries
    }

    fn position(&self, key: &K) -> (position: Option<usize>)
        ensures
            match position {
                Some(p) => p < self.listing().len() && self.listing()[p as int].0 == *key,
                None => !has_entry(self.listing(), *key),
            },
    {
        let mut i: usize = 0;
        while i < self.entries.len()
            invariant
                i <= self.entries.len(),
                forall|j: int| 0 <= j < i ==> (#[trigger] self.entries@[j]).0 != *key,
            decreases self.entries.len() - i,
        {
            if self.entries[i].0.same(key) {
                return Some(i);
            }
            i = i + 1;
        }
        None
    }

    pub fn get(&self, key: &K) -> (value: Option<&V>)
        ensures
            match value {
                Some(v) => self@.dom().contains(*key) && self@[*key] == *v,
                None => !self@.dom().contains(*key),
            },
    {
        proof {
            use_type_invariant(self);
            lemma_map_of(self.entries@);
        }
        match self.position(key) {
            Some(p) => {
                proof {
                    assert(has_entry(self.listing(), *key));
                }
                Some(&self.entries[p].1)
            },
            None => None,
        }
    }

    pub fn contains_key(&self, key: &K) -> (found: bool)
        ensures
            found == self@.dom().contains(*key),
    {
        self.get(key).is_some()
    }

    pub fn remove(&mut self, key: &K) -> (value: Option<V>)
        ensures
            final(self)@ == old(self)@.remove(*key),
            match value {
                Some(v) => old(self)@.dom().contains(*key) && old(self)@[*key] == v,
                None => !old(self)@.dom().contains(*key),
            },
    {
        proof {
            use_type_invariant(&*self);
            lemma_map_of(self.entries@);
        }
        let ghost before = self.entries@;
        let ghost map = self@.remove(*key);
        match self.position(key) {
            Some(p) => {
                proof {
                    assert(has_entry(before, *key));
                    let after = before.remove(p as int);
                    assert forall|i: int, j: int| 0 <= i < j < after.len() implies (
                    #[trigger] after[i]).0 != (#[trigger] after[j]).0 by {
                        let a = if i < p { i } else { i + 1 };
                        let b = if j < p { j } else { j + 1 };
                        assert(before[a].0 != before[b].0);
                    }
                    assert forall|i: int| 0 <= i < after.len() implies map.dom().contains(
                        (#[trigger] after[i]).0,
                    ) && map[after[i].0] == after[i].1 by {
                        let a = if i < p { i } else { i + 1 };
                        assert(after[i] == before[a]);
                        if a < p {
                            assert(before[a].0 != before[p as int].0);
                        } else {
                            assert(before[p as int].0 != before[a].0);
                        }
                    }
                    assert forall|k: K| #[trigger] map.dom().contains(k) implies has_entry(
                        after,
                        k,
                    ) by {
                        assert(map_of(before).dom().contains(k));
                        let a = choose|a: int| 0 <= a < before.len() && (#[trigger] before[a]).0 == k;
                        let i = if a < p { a } else { a - 1 };
                        assert(after[i].0 == k);
                    }
                    lemma_map_of_unique(after, map);
                }
                let mut entries = self.take_entries();
                let (_, value) = entries.remove(p);
                *self = Table { entries };
                Some(value)
            },
            None => {
                proof {
                    assert(map =~= self@);
                }
                None
            },
        }
    }

    pub fn insert(&mut self, key: K, value: V) -> (replaced: Option<V>)
        ensures
            final(self)@ == old(self)@.insert(key, value),
            match replaced {
                Some(v) => old(self)@.dom().contains(key) && old(self)@[key] == v,
                None => !old(self)@.dom().contains(key),
            },
    {
        let replaced = self.remove(&key);
        proof {
            use_type_invariant(&*self);
            lemma_map_of(self.entries@);
            let after = self.entries@.push((key, value));
            assert(!self@.dom().contains(key));
            assert(!has_entry(self.entries@, key));
            assert(after.drop_last() =~= self.entries@);
            assert(self@.insert(key, value) =~= old(self)@.insert(key, value));
        }
        let mut entries = self.take_entries();
        entries.push((key, value));
        *self = Table { entries };
        replaced
    }
}

/// What is put under a key is what is found under it; under every other key there is what was
/// there before. What stood under the key is handed back.
pub proof fn law_inserted_value_is_found<K: SameAs, V>(
    table: &mut Table<K, V>,
    key: K,
    value: V,
    replaced: Option<V>,
    other: K,
    found: Option<&V>,
    before: Option<&V>,
)
    requires
        call_ensures(Table::<K, V>::insert, (table, key, value), replaced),
        call_ensures(Table::<K, V>::get, (final(table), &other), found),
        call_ensures(Table::<K, V>::get, (old(table), &other), before),
    ensures
        other == key ==> found == Some(&value) && (replaced is Some <==> before is Some) && (
        replaced is Some ==> replaced->0 == *(before->0)),
        other != key ==> found == before,
{
}

/// Under a key that was removed nothing is found; under every other key there is what was there
/// before. What stood under the key is handed back.
pub proof fn law_removed_key_is_not_found<K: SameAs, V>(
    table: &mut Table<K, V>,
    key: &K,
    removed: Option<V>,
    other: K,
    found: Option<&V>,
    before: Option<&V>,
)
    requires
        call_ensures(Table::<K, V>::remove, (table, key), removed),
        call_ensures(Table::<K, V>::get, (final(table), &other), found),
        call_ensures(Table::<K, V>::get, (old(table), &other), before),
    ensures
        other == *key ==> found is None && (removed is Some <==> before is Some) && (removed is Some
            ==> removed->0 == *(before->0)),
        other != *key ==> found == before,
{
}

/// A key is held exactly if something is found under it, and a new table holds none.
pub proof fn law_held_key_is_found<K: SameAs, V>(
    table: &Table<K, V>,
    key: &K,
    held: bool,
    found: Option<&V>,
    empty: Table<K, V>,
    found_in_empty: Option<&V>,
)
    requires
        call_ensures(Table::<K, V>::contains_key, (table, key), held),
        call_ensures(Table::<K, V>::get, (table, key), found),
        call_ensures(Table::<K, V>::new, (), empty),
        call_ensures(Table::<K, V>::get, (&empty, key), found_in_empty),
    ensures
        held <==> found is Some,
        found_in_empty is None,
{
}

} // verus!
