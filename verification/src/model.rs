//! The mathematical model of a store: what a view stands for, what it means
//! for a sequence to list a store, and what a run of insertions leaves behind.
use std::borrow::Cow;
use vstd::prelude::*;

verus! {

/// What a view stands for, whether it borrows from the store or owns a
/// copy.
pub open spec fn value_of<T: Clone>(view: Cow<'_, T>) -> T {
    match view {
        Cow::Borrowed(borrowed) => *borrowed,
        Cow::Owned(owned) => owned,
    }
}

/// What each view of a sequence stands for, in the same order.
pub open spec fn items_of<T: Clone>(views: Seq<Cow<'_, T>>) -> Seq<T> {
    views.map_values(|view: Cow<'_, T>| value_of(view))
}

/// The pairs that a sequence of entry views stands for, in the same order.
pub open spec fn entries_of<K: Clone, V: Clone>(views: Seq<(Cow<'_, K>, Cow<'_, V>)>) -> Seq<
    (K, V),
> {
    views.map_values(|view: (Cow<'_, K>, Cow<'_, V>)| (value_of(view.0), value_of(view.1)))
}

/// The keys of a sequence of pairs, in the same order.
pub open spec fn entry_keys<K, V>(entries: Seq<(K, V)>) -> Seq<K> {
    entries.map_values(|entry: (K, V)| entry.0)
}

/// The values of a sequence of pairs, in the same order.
pub open spec fn entry_values<K, V>(entries: Seq<(K, V)>) -> Seq<V> {
    entries.map_values(|entry: (K, V)| entry.1)
}

/// `entries` lists the store `m`: it holds every entry of `m` exactly once
/// and nothing else. The order is left open.
pub open spec fn lists_entries<K, V>(m: Map<K, V>, entries: Seq<(K, V)>) -> bool {
    &&& entries.no_duplicates()
    &&& entries.to_set() == m.kv_pairs()
}

/// `keys` lists the keys of `m`: every key of `m` exactly once and nothing
/// else. The order is left open.
pub open spec fn lists_keys<K, V>(m: Map<K, V>, keys: Seq<K>) -> bool {
    &&& keys.no_duplicates()
    &&& keys.to_set() == m.dom()
}

/// `values` lists the values of `m`: the value of every key of `m`, once per
/// key, in the order of some listing of the keys.
pub open spec fn lists_values<K, V>(m: Map<K, V>, values: Seq<V>) -> bool {
    exists|keys: Seq<K>| #[trigger]
        lists_keys(m, keys) && values == keys.map_values(|key: K| m[key])
}

/// The store that results from inserting the pairs of `entries` into `m`,
/// first to last. A later pair replaces an earlier one with the same key.
pub open spec fn insert_all<K, V>(m: Map<K, V>, entries: Seq<(K, V)>) -> Map<K, V>
    decreases entries.len(),
{
    if entries.len() == 0 {
        m
    } else {
        insert_all(m, entries.drop_last()).insert(entries.last().0, entries.last().1)
    }
}

/// In a listing of a store no key comes twice, and every pair is an entry
/// of the store.
pub proof fn lemma_listing_keys_distinct<K, V>(m: Map<K, V>, entries: Seq<(K, V)>)
    requires
        lists_entries(m, entries),
    ensures
        forall|i: int, j: int|
            0 <= i < entries.len() && 0 <= j < entries.len() && i != j ==> entries[i].0
                != entries[j].0,
        forall|i: int| 0 <= i < entries.len() ==> m.contains_pair(entries[i].0, entries[i].1),
{
    assert forall|i: int| 0 <= i < entries.len() implies m.contains_pair(
        entries[i].0,
        entries[i].1,
    ) by {
        assert(entries.to_set().contains(entries[i]));
    }
}

/// The keys of a listing of a store list its keys, and its values list its
/// values.
pub proof fn lemma_listing_projections<K, V>(m: Map<K, V>, entries: Seq<(K, V)>)
    requires
        lists_entries(m, entries),
    ensures
        lists_keys(m, entry_keys(entries)),
        entry_values(entries) == entry_keys(entries).map_values(|key: K| m[key]),
        lists_values(m, entry_values(entries)),
{
    lemma_listing_keys_distinct(m, entries);
    let keys = entry_keys(entries);
    assert forall|k: K| m.dom().contains(k) implies keys.to_set().contains(k) by {
        assert(entries.to_set().contains((k, m[k])));
        let i = choose|i: int| 0 <= i < entries.len() && entries[i] == (k, m[k]);
        assert(keys[i] == k);
    }
    assert(keys.to_set() =~= m.dom());
    assert(entry_values(entries) =~= keys.map_values(|key: K| m[key]));
    assert(lists_keys(m, keys));
}

} // verus!
