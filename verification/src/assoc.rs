//! Sequences of key-value pairs read as finite maps.

use vstd::prelude::*;

verus! {

/// No key occurs twice in `pairs`.
pub open spec fn distinct_keys<K, V>(pairs: Seq<(K, V)>) -> bool {
    forall|i: int, j: int|
        0 <= i < j < pairs.len() ==> (#[trigger] pairs[i]).0 != (#[trigger] pairs[j]).0
}

/// Some pair of `pairs` has the key `key`.
pub open spec fn has_key<K, V>(pairs: Seq<(K, V)>, key: K) -> bool {
    exists|i: int| 0 <= i < pairs.len() && (#[trigger] pairs[i]).0 == key
}

/// The map that `pairs` stands for. Where a key occurs more than once, its
/// last occurrence counts.
pub open spec fn as_map<K, V>(pairs: Seq<(K, V)>) -> Map<K, V>
    decreases pairs.len(),
{
    if pairs.len() == 0 {
        Map::empty()
    } else {
        as_map(pairs.drop_last()).insert(pairs.last().0, pairs.last().1)
    }
}

/// The keys of the map are the keys of the pairs.
pub proof fn lemma_as_map_contains<K, V>(pairs: Seq<(K, V)>, key: K)
    ensures
        as_map(pairs).contains_key(key) <==> has_key(pairs, key),
    decreases pairs.len(),
{
    if pairs.len() > 0 {
        let init = pairs.drop_last();
        lemma_as_map_contains(init, key);
        if has_key(init, key) {
            let i = choose|i: int| 0 <= i < init.len() && (#[trigger] init[i]).0 == key;
            assert(pairs[i].0 == key);
        }
        if has_key(pairs, key) && pairs.last().0 != key {
            let i = choose|i: int| 0 <= i < pairs.len() && (#[trigger] pairs[i]).0 == key;
            assert(init[i].0 == key);
        }
        if pairs.last().0 == key {
            assert(pairs[pairs.len() - 1].0 == key);
        }
    }
}

/// A key that no pair has is not in the map.
pub proof fn lemma_as_map_lacks<K, V>(pairs: Seq<(K, V)>, key: K)
    requires
        forall|i: int| 0 <= i < pairs.len() ==> (#[trigger] pairs[i]).0 != key,
    ensures
        !as_map(pairs).contains_key(key),
{
    lemma_as_map_contains(pairs, key);
}

/// Where no key occurs twice, each pair gives the value of its key.
pub proof fn lemma_as_map_at<K, V>(pairs: Seq<(K, V)>, i: int)
    requires
        distinct_keys(pairs),
        0 <= i < pairs.len(),
    ensures
        as_map(pairs).contains_key(pairs[i].0),
        as_map(pairs)[pairs[i].0] == pairs[i].1,
    decreases pairs.len(),
{
    let init = pairs.drop_last();
    if i < pairs.len() - 1 {
        assert(distinct_keys(init)) by {
            assert forall|a: int, b: int| 0 <= a < b < init.len() implies (#[trigger] init[a]).0
                != (#[trigger] init[b]).0 by {
                assert(pairs[a].0 != pairs[b].0);
            }
        }
        lemma_as_map_at(init, i);
        assert(init[i] == pairs[i]);
        assert(pairs[i].0 != pairs[pairs.len() - 1].0);
    }
}

/// A prefix of pairs without a repeated key has no repeated key.
pub proof fn lemma_distinct_keys_take<K, V>(pairs: Seq<(K, V)>, n: int)
    requires
        distinct_keys(pairs),
        0 <= n <= pairs.len(),
    ensures
        distinct_keys(pairs.take(n)),
{
    let head = pairs.take(n);
    assert forall|a: int, b: int| 0 <= a < b < head.len() implies (#[trigger] head[a]).0 != (
    #[trigger] head[b]).0 by {
        assert(pairs[a].0 != pairs[b].0);
    }
}

/// Appending a pair inserts it into the map.
pub proof fn lemma_as_map_push<K, V>(pairs: Seq<(K, V)>, key: K, value: V)
    ensures
        as_map(pairs.push((key, value))) == as_map(pairs).insert(key, value),
{
    assert(pairs.push((key, value)).drop_last() =~= pairs);
}

/// Appending a pair with a new key keeps the keys distinct.
pub proof fn lemma_distinct_keys_push<K, V>(pairs: Seq<(K, V)>, key: K, value: V)
    requires
        distinct_keys(pairs),
        forall|i: int| 0 <= i < pairs.len() ==> (#[trigger] pairs[i]).0 != key,
    ensures
        distinct_keys(pairs.push((key, value))),
{
    let more = pairs.push((key, value));
    assert forall|a: int, b: int| 0 <= a < b < more.len() implies (#[trigger] more[a]).0 != (
    #[trigger] more[b]).0 by {
        if b < pairs.len() {
            assert(pairs[a].0 != pairs[b].0);
        } else {
            assert(pairs[a].0 != key);
        }
    }
}

/// Replacing the value of the pair at `i` replaces the value of its key.
pub proof fn lemma_as_map_update<K, V>(pairs: Seq<(K, V)>, i: int, value: V)
    requires
        distinct_keys(pairs),
        0 <= i < pairs.len(),
    ensures
        distinct_keys(pairs.update(i, (pairs[i].0, value))),
        as_map(pairs.update(i, (pairs[i].0, value))) == as_map(pairs).insert(pairs[i].0, value),
    decreases pairs.len(),
{
    let key = pairs[i].0;
    let changed = pairs.update(i, (key, value));
    assert forall|a: int, b: int| 0 <= a < b < changed.len() implies (#[trigger] changed[a]).0 != (
    #[trigger] changed[b]).0 by {
        assert(pairs[a].0 != pairs[b].0);
    }
    let init = pairs.drop_last();
    if i == pairs.len() - 1 {
        assert(changed.drop_last() =~= init);
        assert(as_map(changed) =~= as_map(pairs).insert(key, value));
    } else {
        lemma_distinct_keys_take(pairs, pairs.len() - 1);
        assert(pairs.take(pairs.len() - 1) =~= init);
        lemma_as_map_update(init, i, value);
        assert(init[i] == pairs[i]);
        assert(changed.drop_last() =~= init.update(i, (key, value)));
        assert(pairs[i].0 != pairs[pairs.len() - 1].0);
        assert(as_map(changed) =~= as_map(pairs).insert(key, value));
    }
}

} // verus!
