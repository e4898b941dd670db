//! Association lists as finite maps.
//!
//! A sequence of key-value pairs stands for the map that results from
//! inserting its pairs in order. When the keys are pairwise distinct, every
//! pair of the list is an entry of the map, and the list is as long as the
//! map is large.

use vstd::prelude::*;

verus! {

/// The keys of the list, in order.
pub open spec fn keys_of<K, V>(entries: Seq<(K, V)>) -> Seq<K> {
    entries.map_values(|entry: (K, V)| entry.0)
}

/// No key occurs at two positions.
pub open spec fn distinct_keys<K, V>(entries: Seq<(K, V)>) -> bool {
    forall|i: int, j: int| 0 <= i < j < entries.len() ==> entries[i].0 != entries[j].0
}

/// Some pair of the list has the key `key`.
pub open spec fn has_key<K, V>(entries: Seq<(K, V)>, key: K) -> bool {
    exists|i: int| 0 <= i < entries.len() && #[trigger] entries[i].0 == key
}

/// The map that holds the pairs of the list; a later pair replaces an earlier
/// one with the same key.
pub open spec fn to_map<K, V>(entries: Seq<(K, V)>) -> Map<K, V>
    decreases entries.len(),
{
    if entries.len() == 0 {
        Map::empty()
    } else {
        to_map(entries.drop_last()).insert(entries.last().0, entries.last().1)
    }
}

/// The map of a list has exactly the keys of the list, and is finite.
pub proof fn lemma_to_map_keys<K, V>(entries: Seq<(K, V)>)
    ensures
        to_map(entries).dom().finite(),
        forall|key: K| to_map(entries).contains_key(key) <==> has_key(entries, key),
    decreases entries.len(),
{
    if entries.len() > 0 {
        let front = entries.drop_last();
        lemma_to_map_keys(front);
        assert forall|key: K| to_map(entries).contains_key(key) <==> has_key(entries, key) by {
            if has_key(entries, key) {
                let i = choose|i: int| 0 <= i < entries.len() && #[trigger] entries[i].0 == key;
                if i < entries.len() - 1 {
                    assert(front[i].0 == key);
                    assert(has_key(front, key));
                }
            }
            if to_map(entries).contains_key(key) {
                if key == entries.last().0 {
                    assert(entries[entries.len() - 1].0 == key);
                } else {
                    assert(has_key(front, key));
                    let i = choose|i: int| 0 <= i < front.len() && #[trigger] front[i].0 == key;
                    assert(entries[i].0 == key);
                }
            }
        }
    }
}

/// With distinct keys, the map sends the key of each pair to that pair's
/// value.
pub proof fn lemma_to_map_value<K, V>(entries: Seq<(K, V)>, i: int)
    requires
        distinct_keys(entries),
        0 <= i < entries.len(),
    ensures
        to_map(entries).contains_key(entries[i].0),
        to_map(entries)[entries[i].0] == entries[i].1,
    decreases entries.len(),
{
    if i < entries.len() - 1 {
        let front = entries.drop_last();
        assert(distinct_keys(front)) by {
            assert forall|a: int, b: int| 0 <= a < b < front.len() implies front[a].0
                != front[b].0 by {
                assert(entries[a].0 != entries[b].0);
            }
        }
        lemma_to_map_value(front, i);
        assert(front[i] == entries[i]);
        assert(entries[i].0 != entries[entries.len() - 1].0);
    }
}

/// Appending a pair inserts it into the map.
pub proof fn lemma_to_map_push<K, V>(entries: Seq<(K, V)>, key: K, value: V)
    ensures
        to_map(entries.push((key, value))) == to_map(entries).insert(key, value),
        distinct_keys(entries) && !has_key(entries, key) ==> distinct_keys(
            entries.push((key, value)),
        ),
{
    let longer = entries.push((key, value));
    assert(longer.drop_last() =~= entries);
    if distinct_keys(entries) && !has_key(entries, key) {
        assert forall|a: int, b: int| 0 <= a < b < longer.len() implies longer[a].0
            != longer[b].0 by {
            if b == entries.len() {
                assert(entries[a].0 != key);
            } else {
                assert(entries[a].0 != entries[b].0);
            }
        }
    }
}

/// With distinct keys, replacing the value of the pair at a position replaces
/// the value of its key in the map, and the keys stay distinct.
pub proof fn lemma_to_map_update<K, V>(entries: Seq<(K, V)>, i: int, value: V)
    requires
        distinct_keys(entries),
        0 <= i < entries.len(),
    ensures
        to_map(entries.update(i, (entries[i].0, value))) == to_map(entries).insert(
            entries[i].0,
            value,
        ),
        distinct_keys(entries.update(i, (entries[i].0, value))),
    decreases entries.len(),
{
    let key = entries[i].0;
    let changed = entries.update(i, (key, value));
    assert(distinct_keys(changed)) by {
        assert forall|a: int, b: int| 0 <= a < b < changed.len() implies changed[a].0
            != changed[b].0 by {
            assert(entries[a].0 != entries[b].0);
        }
    }
    let front = entries.drop_last();
    if i == entries.len() - 1 {
        assert(changed.drop_last() =~= front);
        assert(to_map(changed) =~= to_map(entries).insert(key, value));
    } else {
        assert(distinct_keys(front)) by {
            assert forall|a: int, b: int| 0 <= a < b < front.len() implies front[a].0
                != front[b].0 by {
                assert(entries[a].0 != entries[b].0);
            }
        }
        lemma_to_map_update(front, i, value);
        assert(front[i] == entries[i]);
        assert(changed.drop_last() =~= front.update(i, (key, value)));
        assert(changed.last() == entries.last());
        assert(entries[i].0 != entries[entries.len() - 1].0);
        assert(to_map(changed) =~= to_map(entries).insert(key, value));
    }
}

/// With distinct keys, the map has as many entries as the list has pairs.
pub proof fn lemma_to_map_len<K, V>(entries: Seq<(K, V)>)
    requires
        distinct_keys(entries),
    ensures
        to_map(entries).dom().finite(),
        to_map(entries).dom().len() == entries.len(),
    decreases entries.len(),
{
    lemma_to_map_keys(entries);
    if entries.len() > 0 {
        let front = entries.drop_last();
        assert(distinct_keys(front)) by {
            assert forall|a: int, b: int| 0 <= a < b < front.len() implies front[a].0
                != front[b].0 by {
                assert(entries[a].0 != entries[b].0);
            }
        }
        lemma_to_map_len(front);
        lemma_to_map_keys(front);
        let key = entries.last().0;
        assert(!has_key(front, key)) by {
            if has_key(front, key) {
                let i = choose|i: int| 0 <= i < front.len() && #[trigger] front[i].0 == key;
                assert(entries[i].0 != entries[entries.len() - 1].0);
            }
        }
        assert(to_map(entries).dom() =~= to_map(front).dom().insert(key));
    }
}

/// The keys of a list are the keys that some pair of it has; with distinct
/// keys none is listed twice.
pub proof fn lemma_keys_of<K, V>(entries: Seq<(K, V)>)
    ensures
        forall|key: K| keys_of(entries).contains(key) <==> has_key(entries, key),
        distinct_keys(entries) ==> keys_of(entries).no_duplicates(),
{
    let keys = keys_of(entries);
    assert forall|key: K| keys.contains(key) <==> has_key(entries, key) by {
        if keys.contains(key) {
            let i = choose|i: int| 0 <= i < keys.len() && keys[i] == key;
            assert(entries[i].0 == key);
        }
        if has_key(entries, key) {
            let i = choose|i: int| 0 <= i < entries.len() && #[trigger] entries[i].0 == key;
            assert(keys[i] == key);
        }
    }
    if distinct_keys(entries) {
        assert forall|i: int, j: int| 0 <= i < keys.len() && 0 <= j < keys.len() && i
            != j implies keys[i] != keys[j] by {
            if i < j {
                assert(entries[i].0 != entries[j].0);
            } else {
                assert(entries[j].0 != entries[i].0);
            }
        }
    }
}

} // verus!
