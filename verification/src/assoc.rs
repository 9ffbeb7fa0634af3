//! Lists of keyed entries in which no key occurs twice, read as maps.

use vstd::prelude::*;

verus! {

/// No key occurs twice among the entries.
pub open spec fn distinct_keys<K, V>(entries: Seq<(K, V)>) -> bool {
    forall|i: int, j: int| 0 <= i < j < entries.len() ==> entries[i].0 != entries[j].0
}

/// Whether an entry has the key.
pub open spec fn has_key<K, V>(entries: Seq<(K, V)>, key: K) -> bool {
    exists|i: int| 0 <= i < entries.len() && entries[i].0 == key
}

/// An index at which an entry has the key.
pub open spec fn index_of_key<K, V>(entries: Seq<(K, V)>, key: K) -> int {
    choose|i: int| 0 <= i < entries.len() && entries[i].0 == key
}

/// The map from each key to the value of its entry.
pub open spec fn to_map<K, V>(entries: Seq<(K, V)>) -> Map<K, V> {
    Map::new(|key: K| has_key(entries, key), |key: K| entries[index_of_key(entries, key)].1)
}

/// Among distinct keys, the entry at an index is the one that the map has
/// for its key.
pub proof fn lemma_entry_at<K, V>(entries: Seq<(K, V)>, i: int)
    requires
        distinct_keys(entries),
        0 <= i < entries.len(),
    ensures
        has_key(entries, entries[i].0),
        index_of_key(entries, entries[i].0) == i,
        to_map(entries).contains_key(entries[i].0),
        to_map(entries)[entries[i].0] == entries[i].1,
{
    let key = entries[i].0;
    assert(has_key(entries, key));
    let k = index_of_key(entries, key);
    if k < i {
        assert(entries[k].0 != entries[i].0);
    } else if i < k {
        assert(entries[i].0 != entries[k].0);
    }
}

/// Adding an entry with a new key adds it to the map.
pub proof fn lemma_push<K, V>(entries: Seq<(K, V)>, key: K, value: V)
    requires
        distinct_keys(entries),
        !has_key(entries, key),
    ensures
        distinct_keys(entries.push((key, value))),
        to_map(entries.push((key, value))) == to_map(entries).insert(key, value),
{
    let after = entries.push((key, value));
    assert forall|i: int, j: int| 0 <= i < j < after.len() implies after[i].0 != after[j].0 by {
        assert(after[i] == entries[i]);
        if j < entries.len() {
            assert(after[j] == entries[j]);
        }
    }
    assert forall|k: K| has_key(after, k) <==> (k == key || has_key(entries, k)) by {
        if has_key(after, k) {
            let i = index_of_key(after, k);
            if i < entries.len() {
                assert(entries[i].0 == k);
            }
        }
        if has_key(entries, k) {
            let i = index_of_key(entries, k);
            assert(after[i].0 == k);
        }
        if k == key {
            assert(after[entries.len() as int].0 == k);
        }
    }
    assert forall|k: K| has_key(after, k) implies #[trigger] to_map(after)[k] == to_map(
        entries,
    ).insert(key, value)[k] by {
        let i = index_of_key(after, k);
        lemma_entry_at(after, i);
        if i < entries.len() {
            assert(after[i] == entries[i]);
            lemma_entry_at(entries, i);
        }
    }
    assert(to_map(after) =~= to_map(entries).insert(key, value));
}

/// Removing an entry removes its key from the map.
pub proof fn lemma_remove<K, V>(entries: Seq<(K, V)>, i: int)
    requires
        distinct_keys(entries),
        0 <= i < entries.len(),
    ensures
        distinct_keys(entries.remove(i)),
        to_map(entries.remove(i)) == to_map(entries).remove(entries[i].0),
{
    let after = entries.remove(i);
    let key = entries[i].0;
    assert forall|a: int, b: int| 0 <= a < b < after.len() implies after[a].0 != after[b].0 by {
        let a0 = if a < i { a } else { a + 1 };
        let b0 = if b < i { b } else { b + 1 };
        assert(after[a] == entries[a0]);
        assert(after[b] == entries[b0]);
    }
    assert forall|k: K| has_key(after, k) <==> (k != key && has_key(entries, k)) by {
        if has_key(after, k) {
            let a = index_of_key(after, k);
            let a0 = if a < i { a } else { a + 1 };
            assert(after[a] == entries[a0]);
            assert(entries[a0].0 == k);
            if a0 < i {
                assert(entries[a0].0 != entries[i].0);
            } else {
                assert(entries[i].0 != entries[a0].0);
            }
        }
        if k != key && has_key(entries, k) {
            let a0 = index_of_key(entries, k);
            let a = if a0 < i { a0 } else { a0 - 1 };
            assert(after[a] == entries[a0]);
        }
    }
    assert forall|k: K| has_key(after, k) implies #[trigger] to_map(after)[k] == to_map(
        entries,
    ).remove(key)[k] by {
        let a = index_of_key(after, k);
        lemma_entry_at(after, a);
        let a0 = if a < i { a } else { a + 1 };
        assert(after[a] == entries[a0]);
        lemma_entry_at(entries, a0);
    }
    assert(to_map(after) =~= to_map(entries).remove(key));
}

} // verus!
