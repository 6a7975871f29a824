//! Laws that relate the operations of a store to one another.
//!
//! Each is stated over the model of a store, the map from its keys to their
//! values, and over the relations in which the contracts of `contains_key`,
//! `get` and `remove` are written, taken at keys given in their owned form.
use crate::memory_map::MemoryMap;
use crate::model::{entry_keys, insert_all, lemma_listing_projections, lists_entries};
use core::hash::Hash;
use vstd::prelude::*;
use vstd::std_specs::hash::{
    borrowed_key_removed, contains_borrowed_key, maps_borrowed_key_to_value,
};

verus! {

/// On a store with entries `m`, a lookup of `key` by its owned form finds
/// `value`: `contains_key` answers whether there is one, and `get` answers
/// it.
pub open spec fn reads_as<K, V>(m: Map<K, V>, key: K, value: Option<V>) -> bool {
    &&& contains_borrowed_key(m, &key) == value.is_some()
    &&& forall|v: V| #[trigger] maps_borrowed_key_to_value(m, &key, v) <==> value == Some(v)
}

/// A lookup by the owned form of a key reads the model at that key.
pub proof fn lemma_reads_model<K, V>(m: Map<K, V>, key: K)
    ensures
        reads_as(m, key, m.index_opt(key)),
{
}

/// A listing is as long as the store has keys, and only a store with
/// finitely many keys has a listing.
pub proof fn lemma_listing_len<K, V>(m: Map<K, V>, entries: Seq<(K, V)>)
    requires
        lists_entries(m, entries),
    ensures
        m.dom().finite(),
        entries.len() == m.len(),
{
    lemma_listing_projections(m, entries);
    let keys = entry_keys(entries);
    vstd::seq_lib::seq_to_set_is_finite(keys);
    keys.unique_seq_to_set();
}

/// A key that no pair of `entries` has keeps in `insert_all(m, entries)`
/// what it had in `m`.
pub proof fn lemma_insert_all_elsewhere<K, V>(m: Map<K, V>, entries: Seq<(K, V)>, key: K)
    requires
        forall|i: int| 0 <= i < entries.len() ==> entries[i].0 != key,
    ensures
        insert_all(m, entries).index_opt(key) == m.index_opt(key),
    decreases entries.len(),
{
    if entries.len() > 0 {
        lemma_insert_all_elsewhere(m, entries.drop_last(), key);
    }
}

/// Last write wins: a pair of `entries` after which no pair has the same key
/// is an entry of `insert_all(m, entries)`.
pub proof fn lemma_last_write_wins<K, V>(m: Map<K, V>, entries: Seq<(K, V)>, at: int)
    requires
        0 <= at < entries.len(),
        forall|j: int| at < j < entries.len() ==> entries[j].0 != entries[at].0,
    ensures
        insert_all(m, entries).contains_pair(entries[at].0, entries[at].1),
        reads_as(insert_all(m, entries), entries[at].0, Some(entries[at].1)),
    decreases entries.len(),
{
    if at < entries.len() - 1 {
        lemma_last_write_wins(m, entries.drop_last(), at);
    }
}

/// After pairs with distinct keys were inserted in order, every one of them
/// is retrievable: `contains_key` is true of its key and `get` returns its
/// value.
pub proof fn lemma_distinct_inserts_retrievable<K, V>(m: Map<K, V>, entries: Seq<(K, V)>)
    requires
        forall|i: int, j: int| 0 <= i < j < entries.len() ==> entries[i].0 != entries[j].0,
    ensures
        forall|i: int|
            0 <= i < entries.len() ==> #[trigger] reads_as(
                insert_all(m, entries),
                entries[i].0,
                Some(entries[i].1),
            ),
{
    assert forall|i: int| 0 <= i < entries.len() implies #[trigger] reads_as(
        insert_all(m, entries),
        entries[i].0,
        Some(entries[i].1),
    ) by {
        lemma_last_write_wins(m, entries, i);
    }
}

/// Inserting twice under one key overwrites: the store is as if only the
/// second pair had been inserted, and only the second value is retrievable.
pub proof fn lemma_insert_overwrites<K, V>(m: Map<K, V>, key: K, first: V, second: V)
    ensures
        m.insert(key, first).insert(key, second) == m.insert(key, second),
        reads_as(m.insert(key, first).insert(key, second), key, Some(second)),
{
}

/// An entry lasts until its own key is written again: after `insert(key,
/// value)` a lookup of `key` gives `value`, and an insertion or removal under
/// another key does not change that.
pub proof fn lemma_entry_lasts<K, V>(m: Map<K, V>, key: K, value: V, other: K, other_value: V)
    requires
        other != key,
    ensures
        reads_as(m.insert(key, value), key, Some(value)),
        reads_as(m.insert(key, value).insert(other, other_value), key, Some(value)),
        reads_as(m.insert(key, value).remove(other), key, Some(value)),
{
}

/// Removing a key that the store does not hold leaves the store unchanged.
pub proof fn lemma_remove_absent<K, V>(before: Map<K, V>, after: Map<K, V>, key: K)
    requires
        borrowed_key_removed(before, after, &key),
        !contains_borrowed_key(before, &key),
    ensures
        after == before,
{
}

/// After `remove(key)`, whether or not the store held `key`, `contains_key`
/// is false of it and `get` returns `None`. No other key is affected.
pub proof fn lemma_removed_key_absent<K, V>(before: Map<K, V>, after: Map<K, V>, key: K)
    requires
        borrowed_key_removed(before, after, &key),
    ensures
        after == before.remove(key),
        reads_as(after, key, None),
        forall|other: K| other != key ==> after.index_opt(other) == before.index_opt(other),
{
}

/// A clone is a store of its own. Whatever `clone` returns holds the
/// entries of the store it was made from. An insertion or a removal then
/// takes the clone from its own state to the next; the other store is no
/// part of that step. Its entries are what they were, and the two stores
/// differ at most at the key that was written.
pub proof fn lemma_clone_isolated<
    K: Clone + PartialEq + Eq + Hash,
    V: Clone + PartialEq + Eq,
>(store: MemoryMap<K, V>, copy: MemoryMap<K, V>, mutated: MemoryMap<K, V>, key: K, value: V)
    requires
        cloned(store, copy),
        mutated@ == copy@.insert(key, value) || mutated@ == copy@.remove(key),
    ensures
        copy@ == store@,
        forall|other: K| other != key ==> mutated@.index_opt(other) == store@.index_opt(other),
        mutated@ == store@.insert(key, value) || mutated@ == store@.remove(key),
{
}

} // verus!
