//! Grouping a sequence by a key, keeping the order in which things came:
//! the keys in the order of their first occurrence, and under each key the
//! items that carry it, in the order in which they stand.

use vstd::prelude::*;

verus! {

/// The keys of `items`, each once, in the order of first occurrence.
pub open spec fn keys_of<T, K>(items: Seq<T>, key: spec_fn(T) -> K) -> Seq<K>
    decreases items.len(),
{
    if items.len() == 0 {
        Seq::empty()
    } else {
        let keys = keys_of(items.drop_last(), key);
        let k = key(items.last());
        if keys.contains(k) {
            keys
        } else {
            keys.push(k)
        }
    }
}

/// The test "has key `k`".
pub open spec fn with_key<T, K>(key: spec_fn(T) -> K, k: K) -> spec_fn(T) -> bool {
    |t: T| key(t) == k
}

/// The items that carry key `k`, in the order in which they stand.
pub open spec fn group<T, K>(items: Seq<T>, key: spec_fn(T) -> K, k: K) -> Seq<T> {
    items.filter(with_key(key, k))
}

/// The groups of `items`, in the order of `keys_of`.
pub open spec fn groups<T, K>(items: Seq<T>, key: spec_fn(T) -> K) -> Seq<Seq<T>> {
    let keys = keys_of(items, key);
    Seq::new(keys.len(), |i: int| group(items, key, keys[i]))
}

/// How keys and groups grow when one item is added at the end.
pub proof fn lemma_push<T, K>(items: Seq<T>, t: T, key: spec_fn(T) -> K)
    ensures
        keys_of(items.push(t), key) == if keys_of(items, key).contains(key(t)) {
            keys_of(items, key)
        } else {
            keys_of(items, key).push(key(t))
        },
        forall|k: K|
            #[trigger] group(items.push(t), key, k) == if key(t) == k {
                group(items, key, k).push(t)
            } else {
                group(items, key, k)
            },
{
    assert(items.push(t).drop_last() =~= items);
    assert(items.push(t).last() == t);
    assert forall|k: K|
        #[trigger] group(items.push(t), key, k) == if key(t) == k {
            group(items, key, k).push(t)
        } else {
            group(items, key, k)
        } by {
        items.lemma_filter_push(t, with_key(key, k));
    }
}

/// No key is listed twice.
pub proof fn lemma_keys_distinct<T, K>(items: Seq<T>, key: spec_fn(T) -> K)
    ensures
        keys_of(items, key).no_duplicates(),
    decreases items.len(),
{
    if items.len() > 0 {
        lemma_keys_distinct(items.drop_last(), key);
    }
}

/// A key is listed exactly when some item carries it, which is exactly
/// when its group is not empty.
pub proof fn lemma_keys_cover<T, K>(items: Seq<T>, key: spec_fn(T) -> K, k: K)
    ensures
        keys_of(items, key).contains(k) <==> exists|j: int|
            0 <= j < items.len() && key(#[trigger] items[j]) == k,
        keys_of(items, key).contains(k) <==> group(items, key, k).len() > 0,
    decreases items.len(),
{
    if items.len() > 0 {
        let rest = items.drop_last();
        let last = items.last();
        lemma_keys_cover(rest, key, k);
        assert(rest.push(last) =~= items);
        rest.lemma_filter_push(last, with_key(key, k));
        let keys = keys_of(rest, key);
        if keys.contains(k) {
            let j = choose|j: int| 0 <= j < rest.len() && key(#[trigger] rest[j]) == k;
            assert(items[j] == rest[j]);
            assert(keys_of(items, key).contains(k)) by {
                if keys.contains(key(last)) {
                } else {
                    let i = choose|i: int| 0 <= i < keys.len() && keys[i] == k;
                    assert(keys.push(key(last))[i] == k);
                }
            }
        } else if key(last) == k {
            assert(items[items.len() - 1] == last);
            assert(keys.push(k)[keys.len() as int] == k);
        } else {
            assert(!keys_of(items, key).contains(k)) by {
                if keys_of(items, key).contains(k) {
                    let i = choose|i: int|
                        0 <= i < keys_of(items, key).len() && keys_of(items, key)[i] == k;
                    if keys.contains(key(last)) {
                    } else {
                        assert(keys.push(key(last))[i] == k);
                        assert(i < keys.len());
                        assert(keys[i] == k);
                    }
                }
            }
            assert forall|j: int| 0 <= j < items.len() implies key(#[trigger] items[j]) != k by {
                if j < rest.len() {
                    assert(items[j] == rest[j]);
                }
            }
        }
    }
}

/// Grouping loses nothing and mixes nothing up: every item stands in the
/// group of its own key, that key is listed, and a group holds items of
/// its key only.
pub proof fn lemma_groups_partition<T, K>(items: Seq<T>, key: spec_fn(T) -> K)
    ensures
        forall|j: int|
            0 <= j < items.len() ==> keys_of(items, key).contains(key(#[trigger] items[j]))
                && group(items, key, key(items[j])).contains(items[j]),
        forall|k: K, i: int|
            0 <= i < group(items, key, k).len() ==> key(#[trigger] group(items, key, k)[i]) == k,
{
    assert forall|j: int| 0 <= j < items.len() implies keys_of(items, key).contains(
        key(#[trigger] items[j]),
    ) && group(items, key, key(items[j])).contains(items[j]) by {
        lemma_keys_cover(items, key, key(items[j]));
        items.lemma_filter_contains(with_key(key, key(items[j])), j);
    }
    assert forall|k: K, i: int| 0 <= i < group(items, key, k).len() implies key(
        #[trigger] group(items, key, k)[i],
    ) == k by {
        items.lemma_filter_pred(with_key(key, k), i);
    }
}

} // verus!
