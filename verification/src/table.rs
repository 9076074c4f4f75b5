//! A list of entries read as a map from the key of each entry to what the
//! entry stands for. The list keeps the order in which the entries came; the
//! map is what contracts speak of.

use vstd::prelude::*;

verus! {

/// No two entries have the same key.
pub open spec fn keys_differ<T, K>(entries: Seq<T>, key: spec_fn(T) -> K) -> bool {
    forall|i: int, j: int|
        0 <= i < j < entries.len() ==> key(#[trigger] entries[i]) != key(#[trigger] entries[j])
}

/// Some entry has the key `k`.
pub open spec fn has_key<T, K>(entries: Seq<T>, key: spec_fn(T) -> K, k: K) -> bool {
    exists|i: int| 0 <= i < entries.len() && key(#[trigger] entries[i]) == k
}

/// Where an entry of key `k` stands.
pub open spec fn slot<T, K>(entries: Seq<T>, key: spec_fn(T) -> K, k: K) -> int {
    choose|i: int| 0 <= i < entries.len() && key(#[trigger] entries[i]) == k
}

/// The map from each key to what its entry stands for.
pub open spec fn filed<T, K, V>(
    entries: Seq<T>,
    key: spec_fn(T) -> K,
    value: spec_fn(T) -> V,
) -> Map<K, V> {
    Map::new(|k: K| has_key(entries, key, k), |k: K| value(entries[slot(entries, key, k)]))
}

/// An entry is filed under its key.
pub proof fn lemma_filed_at<T, K, V>(
    entries: Seq<T>,
    key: spec_fn(T) -> K,
    value: spec_fn(T) -> V,
    i: int,
)
    requires
        keys_differ(entries, key),
        0 <= i < entries.len(),
    ensures
        filed(entries, key, value).contains_key(key(entries[i])),
        filed(entries, key, value)[key(entries[i])] == value(entries[i]),
{
    let k = key(entries[i]);
    assert(has_key(entries, key, k));
    assert(slot(entries, key, k) == i);
}

/// The empty list files nothing.
pub proof fn lemma_filed_empty<T, K, V>(key: spec_fn(T) -> K, value: spec_fn(T) -> V)
    ensures
        filed(Seq::<T>::empty(), key, value) == Map::<K, V>::empty(),
{
    assert(filed(Seq::<T>::empty(), key, value) =~= Map::<K, V>::empty());
}

/// Appending an entry under a new key inserts it.
pub proof fn lemma_filed_push<T, K, V>(
    entries: Seq<T>,
    key: spec_fn(T) -> K,
    value: spec_fn(T) -> V,
    entry: T,
)
    requires
        keys_differ(entries, key),
        !has_key(entries, key, key(entry)),
    ensures
        keys_differ(entries.push(entry), key),
        filed(entries.push(entry), key, value) == filed(entries, key, value).insert(
            key(entry),
            value(entry),
        ),
{
    let grown = entries.push(entry);
    let k0 = key(entry);
    assert forall|i: int, j: int| 0 <= i < j < grown.len() implies key(#[trigger] grown[i]) != key(
        #[trigger] grown[j],
    ) by {
        if j == entries.len() {
            assert(key(entries[i]) != k0);
        } else {
            assert(key(entries[i]) != key(entries[j]));
        }
    }
    let target = filed(entries, key, value).insert(k0, value(entry));
    assert forall|k: K| filed(grown, key, value).contains_key(k) <==> target.contains_key(k) by {
        if has_key(grown, key, k) {
            let i = slot(grown, key, k);
            if i < entries.len() {
                assert(key(entries[i]) == k);
            }
        }
        if has_key(entries, key, k) {
            let i = slot(entries, key, k);
            assert(key(grown[i]) == k);
        }
        if k == k0 {
            assert(key(grown[entries.len() as int]) == k);
        }
    }
    assert forall|k: K| filed(grown, key, value).contains_key(k) implies filed(
        grown,
        key,
        value,
    )[k] == target[k] by {
        let i = slot(grown, key, k);
        lemma_filed_at(grown, key, value, i);
        if i < entries.len() {
            assert(grown[i] == entries[i]);
            lemma_filed_at(entries, key, value, i);
        }
    }
    assert(filed(grown, key, value) =~= target);
}

/// Replacing an entry by one of the same key replaces what is filed under that key.
pub proof fn lemma_filed_update<T, K, V>(
    entries: Seq<T>,
    key: spec_fn(T) -> K,
    value: spec_fn(T) -> V,
    i: int,
    entry: T,
)
    requires
        keys_differ(entries, key),
        0 <= i < entries.len(),
        key(entry) == key(entries[i]),
    ensures
        keys_differ(entries.update(i, entry), key),
        filed(entries.update(i, entry), key, value) == filed(entries, key, value).insert(
            key(entry),
            value(entry),
        ),
{
    let changed = entries.update(i, entry);
    let k0 = key(entry);
    assert forall|a: int, b: int| 0 <= a < b < changed.len() implies key(#[trigger] changed[a])
        != key(#[trigger] changed[b]) by {
        assert(key(entries[a]) != key(entries[b]));
    }
    let target = filed(entries, key, value).insert(k0, value(entry));
    assert forall|k: K| filed(changed, key, value).contains_key(k) <==> target.contains_key(k) by {
        if has_key(changed, key, k) {
            let a = slot(changed, key, k);
            assert(key(entries[a]) == k);
        }
        if has_key(entries, key, k) {
            let a = slot(entries, key, k);
            assert(key(changed[a]) == k);
        }
        if k == k0 {
            assert(key(changed[i]) == k);
        }
    }
    assert forall|k: K| filed(changed, key, value).contains_key(k) implies filed(
        changed,
        key,
        value,
    )[k] == target[k] by {
        let a = slot(changed, key, k);
        lemma_filed_at(changed, key, value, a);
        if a != i {
            assert(changed[a] == entries[a]);
            lemma_filed_at(entries, key, value, a);
        }
    }
    assert(filed(changed, key, value) =~= target);
}

} // verus!
