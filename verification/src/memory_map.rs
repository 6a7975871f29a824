//! The in-memory backing store.
use crate::error::MapError;
use crate::interface::{MapReader, MapWriter};
use crate::model::{
    entries_of, entry_keys, entry_values, insert_all, items_of, lemma_listing_projections,
    lists_entries, lists_keys, lists_values, value_of,
};
use core::borrow::Borrow;
use core::hash::Hash;
use std::borrow::Cow;
use std::collections::hash_map::HashMap;
use vstd::prelude::*;
use vstd::std_specs::hash::{
    borrowed_key_removed, contains_borrowed_key, maps_borrowed_key_to_value, obeys_key_model,
    spec_hash_map_iter,
};
use vstd::std_specs::iter::IteratorSpec;

verus! {

/// A backing store held in process memory, over a hash table keyed by `K`.
///
/// It grows with every new key and shrinks only by `remove`. No operation on
/// it fails.
pub struct MemoryMap<K: PartialEq + Eq + Hash, V: PartialEq + Eq> {
    map: HashMap<K, V>,
}

impl<K: PartialEq + Eq + Hash, V: PartialEq + Eq> View for MemoryMap<K, V> {
    type V = Map<K, V>;

    /// The entries of the store, as a map from each key to its value.
    closed spec fn view(&self) -> Map<K, V> {
        self.map@
    }
}

impl<K: Clone + PartialEq + Eq + Hash, V: Clone + PartialEq + Eq> MemoryMap<K, V> {
    /// A store built from `entries`, first to last: where a key comes more
    /// than once its last value stays.
    pub fn from_iter(entries: Vec<(K, V)>) -> (store: Self)
        ensures
            obeys_key_model::<K>() ==> store@ == insert_all(Map::<K, V>::empty(), entries@),
    {
        let ghost all = entries@;
        let mut map = HashMap::new();
        for entry in it: entries
            invariant
                it.seq() == all,
                obeys_key_model::<K>() ==> map@ == insert_all(
                    Map::<K, V>::empty(),
                    all.take(it.index()),
                ),
        {
            proof {
                assert(all.take(it.index() + 1).drop_last() =~= all.take(it.index()));
            }
            map.insert(entry.0, entry.1);
        }
        proof {
            assert(all.take(all.len() as int) =~= all);
        }
        Self { map }
    }
}

/// The next item of `source`: the first of those that remain, if any does.
fn next_item<I: Iterator>(source: &mut I) -> (item: Option<I::Item>)
    ensures
        (*old(source)).obeys_prophetic_iter_laws() ==> {
            if (*old(source)).remaining().len() > 0 {
                &&& (*final(source)).remaining() == (*old(source)).remaining().drop_first()
                &&& item == Some((*old(source)).remaining()[0])
            } else {
                &&& (*final(source)).remaining() == (*old(source)).remaining()
                &&& item is None
            }
        },
{
    source.next()
}

impl<K: Clone + PartialEq + Eq + Hash, V: Clone + PartialEq + Eq> MapWriter<K, V> for MemoryMap<
    K,
    V,
> {
    /// Stores `value` under `key`, whether or not the store held the key.
    fn insert(&mut self, key: K, value: V) -> (done: Result<(), MapError>)
        ensures
            done is Ok,
            obeys_key_model::<K>() ==> final(self)@ == old(self)@.insert(key, value),
    {
        self.map.insert(key, value);
        Ok(())
    }

    /// Removes the entry for `key`, whether or not the store held one.
    fn remove<Q>(&mut self, key: &Q) -> (done: Result<(), MapError>) where
        K: Borrow<Q>,
        Q: PartialEq + Eq + Hash + ?Sized,

        ensures
            done is Ok,
            obeys_key_model::<K>() ==> borrowed_key_removed(old(self)@, final(self)@, key),
    {
        self.map.remove(key);
        Ok(())
    }
}

impl<K: Clone + PartialEq + Eq + Hash, V: Clone + PartialEq + Eq> MapReader<K, V> for MemoryMap<
    K,
    V,
> {
    /// Whether the store holds an entry for `key`.
    fn contains_key<Q>(&self, key: &Q) -> (found: Result<bool, MapError>) where
        K: Borrow<Q>,
        Q: PartialEq + Eq + Hash + ?Sized,

        ensures
            found is Ok,
            obeys_key_model::<K>() ==> found == Ok::<bool, MapError>(
                contains_borrowed_key(self@, key),
            ),
    {
        Ok(self.map.contains_key(key))
    }

    /// The value stored for `key`, lent from the store without a copy, or
    /// `None` where the store holds none.
    fn get<Q>(&self, key: &Q) -> (found: Result<Option<Cow<'_, V>>, MapError>) where
        K: Borrow<Q>,
        Q: PartialEq + Eq + Hash + ?Sized,

        ensures
            found is Ok,
            found matches Ok(Some(view)) ==> view is Borrowed,
            obeys_key_model::<K>() ==> match found {
                Ok(Some(view)) => maps_borrowed_key_to_value(self@, key, value_of(view)),
                Ok(None) => !contains_borrowed_key(self@, key),
                Err(_) => false,
            },
    {
        match self.map.get(key) {
            Some(value) => Ok(Some(Cow::Borrowed(value))),
            None => Ok(None),
        }
    }

    /// The entries of the store, each once and lent from the store, in the
    /// order in which the hash table yields them.
    fn iter(&self) -> (entries: Vec<(Cow<'_, K>, Cow<'_, V>)>)
        ensures
            obeys_key_model::<K>() ==> lists_entries(self@, entries_of(entries@)),
            forall|i: int|
                0 <= i < entries@.len() ==> (#[trigger] entries@[i]).0 is Borrowed
                    && entries@[i].1 is Borrowed,
    {
        let count = self.map.len();
        let mut source = self.map.iter();
        let mut entries: Vec<(Cow<'_, K>, Cow<'_, V>)> = Vec::new();
        // The table yields as many entries as it holds. Counting them is what
        // ends the loop for a key type of which nothing is known.
        while entries.len() < count
            invariant
                entries@.len() <= count,
                forall|i: int|
                    0 <= i < entries@.len() ==> (#[trigger] entries@[i]).0 is Borrowed
                        && entries@[i].1 is Borrowed,
                obeys_key_model::<K>() ==> spec_hash_map_iter(&self.map).remaining().len()
                    == count,
                obeys_key_model::<K>() ==> source.remaining() == spec_hash_map_iter(
                    &self.map,
                ).remaining().skip(entries@.len() as int),
                obeys_key_model::<K>() ==> forall|i: int|
                    0 <= i < entries@.len() ==> #[trigger] entries@[i] == (
                        Cow::Borrowed(spec_hash_map_iter(&self.map).remaining()[i].0),
                        Cow::Borrowed(spec_hash_map_iter(&self.map).remaining()[i].1),
                    ),
            decreases count - entries@.len(),
        {
            proof {
                if obeys_key_model::<K>() {
                    let listed = spec_hash_map_iter(&self.map).remaining();
                    assert(listed.skip(entries@.len() as int).drop_first() =~= listed.skip(
                        entries@.len() as int + 1,
                    ));
                }
            }
            match next_item(&mut source) {
                Some(pair) => {
                    entries.push((Cow::Borrowed(pair.0), Cow::Borrowed(pair.1)));
                },
                None => {
                    return entries;
                },
            }
        }
        proof {
            if obeys_key_model::<K>() {
                let listed = spec_hash_map_iter(&self.map).remaining();
                assert(entries_of(entries@) =~= listed.unref());
            }
        }
        entries
    }

    /// The keys of the store, each once and lent from the store: the keys of
    /// `iter`.
    fn keys(&self) -> (keys: Vec<Cow<'_, K>>)
        ensures
            obeys_key_model::<K>() ==> lists_keys(self@, items_of(keys@)),
            forall|i: int| 0 <= i < keys@.len() ==> #[trigger] keys@[i] is Borrowed,
    {
        let entries = self.iter();
        let ghost all = entries@;
        let mut keys: Vec<Cow<'_, K>> = Vec::new();
        for entry in it: entries
            invariant
                it.seq() == all,
                keys@.len() == it.index(),
                forall|i: int| 0 <= i < keys@.len() ==> keys@[i] == all[i].0,
        {
            keys.push(entry.0);
        }
        proof {
            if obeys_key_model::<K>() {
                lemma_listing_projections(self@, entries_of(all));
                assert(items_of(keys@) =~= entry_keys(entries_of(all)));
            }
        }
        keys
    }

    /// The value of every key of the store, lent from the store: the values
    /// of `iter`.
    fn values(&self) -> (values: Vec<Cow<'_, V>>)
        ensures
            obeys_key_model::<K>() ==> lists_values(self@, items_of(values@)),
            forall|i: int| 0 <= i < values@.len() ==> #[trigger] values@[i] is Borrowed,
    {
        let entries = self.iter();
        let ghost all = entries@;
        let mut values: Vec<Cow<'_, V>> = Vec::new();
        for entry in it: entries
            invariant
                it.seq() == all,
                values@.len() == it.index(),
                forall|i: int| 0 <= i < values@.len() ==> values@[i] == all[i].1,
        {
            values.push(entry.1);
        }
        proof {
            if obeys_key_model::<K>() {
                lemma_listing_projections(self@, entries_of(all));
                assert(items_of(values@) =~= entry_values(entries_of(all)));
            }
        }
        values
    }
}

impl<K: Clone + PartialEq + Eq + Hash, V: Clone + PartialEq + Eq> Default for MemoryMap<K, V> {
    /// The empty store.
    fn default() -> (store: Self)
        ensures
            store@ == Map::<K, V>::empty(),
    {
        Self { map: HashMap::new() }
    }
}

impl<K: Clone + PartialEq + Eq + Hash, V: Clone + PartialEq + Eq> Clone for MemoryMap<K, V> {
    /// A store of its own with the same entries.
    fn clone(&self) -> (copy: Self)
        ensures
            copy@ == self@,
    {
        Self { map: self.map.clone() }
    }
}

} // verus!
