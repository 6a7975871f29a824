//! The two interfaces that every backing store implements: reading and
//! mutation. A store is modelled by the map from its keys to their values.
use crate::error::MapError;
use crate::model::{entries_of, items_of, lists_entries, lists_keys, lists_values, value_of};
use core::borrow::Borrow;
use core::hash::Hash;
use std::borrow::Cow;
use vstd::prelude::*;
use vstd::std_specs::hash::{
    borrowed_key_removed, contains_borrowed_key, maps_borrowed_key_to_value, obeys_key_model,
};

verus! {

/// The read side of a backing store.
///
/// A key may be given in any borrowed form of `K`. What the contracts say
/// holds for key types that obey the hash-table key model: two keys compare
/// equal exactly when they are identical, a key always hashes alike, and a
/// clone of a key is identical to it.
pub trait MapReader<K: Clone, V: Clone>: View<V = Map<K, V>> {
    /// Whether the store holds an entry for `key`.
    fn contains_key<Q>(&self, key: &Q) -> (found: Result<bool, MapError>) where
        K: Borrow<Q>,
        Q: PartialEq + Eq + Hash + ?Sized,

        ensures
            obeys_key_model::<K>() ==> (found matches Ok(present) ==> present
                == contains_borrowed_key(self@, key)),
    ;

    /// The value stored for `key`, or `None` where the store holds none.
    /// An absent key is no failure. The view either borrows from the store
    /// or owns a copy; the caller reads it and does not keep it across a
    /// mutation.
    fn get<Q>(&self, key: &Q) -> (found: Result<Option<Cow<'_, V>>, MapError>) where
        K: Borrow<Q>,
        Q: PartialEq + Eq + Hash + ?Sized,

        ensures
            obeys_key_model::<K>() ==> match found {
                Ok(Some(view)) => maps_borrowed_key_to_value(self@, key, value_of(view)),
                Ok(None) => !contains_borrowed_key(self@, key),
                Err(_) => true,
            },
    ;

    /// All entries that the store holds now, each once, in no particular
    /// order. Every call lists the store afresh.
    fn iter(&self) -> (entries: Vec<(Cow<'_, K>, Cow<'_, V>)>)
        ensures
            obeys_key_model::<K>() ==> lists_entries(self@, entries_of(entries@)),
    ;

    /// All keys that the store holds now, each once, in no particular order.
    fn keys(&self) -> (keys: Vec<Cow<'_, K>>)
        ensures
            obeys_key_model::<K>() ==> lists_keys(self@, items_of(keys@)),
    ;

    /// The value of every key that the store holds now, once per key, in no
    /// particular order.
    fn values(&self) -> (values: Vec<Cow<'_, V>>)
        ensures
            obeys_key_model::<K>() ==> lists_values(self@, items_of(values@)),
    ;
}

/// The write side of a backing store.
///
/// Both operations are fallible in their type, for stores whose medium can
/// fail. When one reports success the mapping was updated as stated.
pub trait MapWriter<K: Clone, V: Clone>: MapReader<K, V> {
    /// Stores `value` under `key`, replacing the value of an existing entry.
    fn insert(&mut self, key: K, value: V) -> (done: Result<(), MapError>)
        ensures
            obeys_key_model::<K>() ==> (done is Ok ==> final(self)@ == old(self)@.insert(
                key,
                value,
            )),
    ;

    /// Removes the entry for `key`. Where the store holds none this is no
    /// failure, and nothing changes.
    fn remove<Q>(&mut self, key: &Q) -> (done: Result<(), MapError>) where
        K: Borrow<Q>,
        Q: PartialEq + Eq + Hash + ?Sized,

        ensures
            obeys_key_model::<K>() ==> (done is Ok ==> borrowed_key_removed(
                old(self)@,
                final(self)@,
                key,
            )),
    ;
}

} // verus!
