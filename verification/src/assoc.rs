//! Association lists: sequences of key-value pairs read as maps.
//!
//! The evidence table keeps its barcodes and its sites in vectors of pairs
//! whose keys are pairwise distinct. This module says which map such a
//! sequence stands for and how pushing, updating and summing over the
//! sequence show in that map.

use vstd::prelude::*;
use crate::map_sum::{lemma_map_sum_empty, lemma_map_sum_insert, map_sum};

verus! {

/// The map a sequence of pairs stands for. A later pair wins over an earlier
/// one with the same key.
pub open spec fn assoc_map<K, V>(pairs: Seq<(K, V)>) -> Map<K, V>
    decreases pairs.len(),
{
    if pairs.len() == 0 {
        Map::empty()
    } else {
        assoc_map(pairs.drop_last()).insert(pairs.last().0, pairs.last().1)
    }
}

/// No key occurs twice in `pairs`.
pub open spec fn distinct_keys<K, V>(pairs: Seq<(K, V)>) -> bool {
    forall|i: int, j: int| 0 <= i < j < pairs.len() ==> pairs[i].0 != pairs[j].0
}

/// `key` is the key of one of the pairs.
pub open spec fn has_key<K, V>(pairs: Seq<(K, V)>, key: K) -> bool {
    exists|i: int| 0 <= i < pairs.len() && (#[trigger] pairs[i]).0 == key
}

/// The sum of `weigh` over the values of the pairs.
pub open spec fn assoc_sum<K, V>(pairs: Seq<(K, V)>, weigh: spec_fn(V) -> int) -> int
    decreases pairs.len(),
{
    if pairs.len() == 0 {
        0
    } else {
        assoc_sum(pairs.drop_last(), weigh) + weigh(pairs.last().1)
    }
}

/// The map of a sequence is finite, and its keys are the keys of the pairs.
pub proof fn lemma_assoc_dom<K, V>(pairs: Seq<(K, V)>)
    ensures
        assoc_map(pairs).dom().finite(),
        forall|key: K| #[trigger] assoc_map(pairs).contains_key(key) <==> has_key(pairs, key),
    decreases pairs.len(),
{
    if pairs.len() > 0 {
        let front = pairs.drop_last();
        lemma_assoc_dom(front);
        assert forall|key: K| #[trigger]
            assoc_map(pairs).contains_key(key) <==> has_key(pairs, key) by {
            if has_key(pairs, key) {
                let i = choose|i: int| 0 <= i < pairs.len() && (#[trigger] pairs[i]).0 == key;
                if i < front.len() {
                    assert(front[i].0 == key);
                    assert(has_key(front, key));
                }
            }
            if assoc_map(pairs).contains_key(key) {
                if key == pairs.last().0 {
                    assert(pairs[pairs.len() - 1].0 == key);
                } else {
                    assert(has_key(front, key));
                    let i = choose|i: int| 0 <= i < front.len() && (#[trigger] front[i]).0 == key;
                    assert(pairs[i].0 == key);
                }
            }
        }
    }
}

/// With distinct keys, every pair is bound in the map as it stands in the
/// sequence.
pub proof fn lemma_assoc_get<K, V>(pairs: Seq<(K, V)>, i: int)
    requires
        distinct_keys(pairs),
        0 <= i < pairs.len(),
    ensures
        assoc_map(pairs).contains_key(pairs[i].0),
        assoc_map(pairs)[pairs[i].0] == pairs[i].1,
    decreases pairs.len(),
{
    if i < pairs.len() - 1 {
        let front = pairs.drop_last();
        assert(front[i] == pairs[i]);
        lemma_assoc_get(front, i);
    }
}

/// Pushing a pair binds its key to its value.
pub proof fn lemma_assoc_push<K, V>(pairs: Seq<(K, V)>, key: K, value: V)
    ensures
        assoc_map(pairs.push((key, value))) == assoc_map(pairs).insert(key, value),
{
    assert(pairs.push((key, value)).drop_last() =~= pairs);
}

/// With distinct keys, replacing the value of the pair at `i` rebinds its key
/// and nothing else.
pub proof fn lemma_assoc_update<K, V>(pairs: Seq<(K, V)>, i: int, value: V)
    requires
        distinct_keys(pairs),
        0 <= i < pairs.len(),
    ensures
        assoc_map(pairs.update(i, (pairs[i].0, value))) == assoc_map(pairs).insert(
            pairs[i].0,
            value,
        ),
        distinct_keys(pairs.update(i, (pairs[i].0, value))),
    decreases pairs.len(),
{
    let key = pairs[i].0;
    let changed = pairs.update(i, (key, value));
    let front = pairs.drop_last();
    if i == pairs.len() - 1 {
        assert(changed.drop_last() =~= front);
        assert(assoc_map(changed) =~= assoc_map(pairs).insert(key, value));
    } else {
        assert(front[i] == pairs[i]);
        assert(changed.drop_last() =~= front.update(i, (key, value)));
        lemma_assoc_update(front, i, value);
        assert(pairs.last().0 != key);
        assert(assoc_map(changed) =~= assoc_map(pairs).insert(key, value));
    }
}

/// With distinct keys, the map has as many keys as the sequence has pairs.
pub proof fn lemma_assoc_len<K, V>(pairs: Seq<(K, V)>)
    requires
        distinct_keys(pairs),
    ensures
        assoc_map(pairs).dom().finite(),
        assoc_map(pairs).dom().len() == pairs.len(),
    decreases pairs.len(),
{
    lemma_assoc_dom(pairs);
    if pairs.len() > 0 {
        let front = pairs.drop_last();
        let last = pairs.last();
        lemma_assoc_len(front);
        lemma_assoc_dom(front);
        if has_key(front, last.0) {
            let i = choose|i: int| 0 <= i < front.len() && (#[trigger] front[i]).0 == last.0;
            assert(pairs[i].0 == pairs[pairs.len() - 1].0);
        }
        assert(assoc_map(pairs).dom() =~= assoc_map(front).dom().insert(last.0));
    }
}

/// With distinct keys, summing over the map is summing over the sequence.
pub proof fn lemma_assoc_sum<K, V>(pairs: Seq<(K, V)>, weigh: spec_fn(V) -> int)
    requires
        distinct_keys(pairs),
    ensures
        map_sum(assoc_map(pairs), weigh) == assoc_sum(pairs, weigh),
    decreases pairs.len(),
{
    if pairs.len() == 0 {
        lemma_map_sum_empty::<K, V>(weigh);
    } else {
        let front = pairs.drop_last();
        let last = pairs.last();
        lemma_assoc_sum(front, weigh);
        lemma_assoc_dom(front);
        if has_key(front, last.0) {
            let i = choose|i: int| 0 <= i < front.len() && (#[trigger] front[i]).0 == last.0;
            assert(pairs[i].0 == pairs[pairs.len() - 1].0);
        }
        lemma_map_sum_insert(assoc_map(front), last.0, last.1, weigh);
    }
}

/// Taking one more pair adds the weight of its value.
pub proof fn lemma_assoc_sum_step<K, V>(pairs: Seq<(K, V)>, n: int, weigh: spec_fn(V) -> int)
    requires
        0 <= n < pairs.len(),
    ensures
        assoc_sum(pairs.take(n + 1), weigh) == assoc_sum(pairs.take(n), weigh) + weigh(
            pairs[n].1,
        ),
{
    assert(pairs.take(n + 1).drop_last() =~= pairs.take(n));
}

/// A prefix of the sequence sums to no more than the whole, if no weight is
/// negative.
pub proof fn lemma_assoc_sum_prefix<K, V>(pairs: Seq<(K, V)>, n: int, weigh: spec_fn(V) -> int)
    requires
        0 <= n <= pairs.len(),
        forall|i: int| 0 <= i < pairs.len() ==> weigh((#[trigger] pairs[i]).1) >= 0,
    ensures
        0 <= assoc_sum(pairs.take(n), weigh) <= assoc_sum(pairs, weigh),
    decreases pairs.len(),
{
    if n == pairs.len() {
        assert(pairs.take(n) =~= pairs);
        if n > 0 {
            lemma_assoc_sum_prefix(pairs.drop_last(), n - 1, weigh);
            assert(pairs.drop_last().take(n - 1) =~= pairs.drop_last());
        }
    } else {
        assert(pairs.drop_last().take(n) =~= pairs.take(n));
        lemma_assoc_sum_prefix(pairs.drop_last(), n, weigh);
    }
}

} // verus!
