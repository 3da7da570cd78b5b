//! Sums over the values of a finite map, and the facts about them that the
//! evidence table rests on.

use vstd::prelude::*;
use vstd::set::fold::*;

verus! {

/// The sum of `weigh(m[k])` over the keys `k` in `keys`.
pub open spec fn keys_sum<K, V>(m: Map<K, V>, keys: Set<K>, weigh: spec_fn(V) -> int) -> int {
    keys.fold(0int, |acc: int, k: K| acc + weigh(m[k]))
}

/// The sum of `weigh` over all values of `m`.
pub open spec fn map_sum<K, V>(m: Map<K, V>, weigh: spec_fn(V) -> int) -> int {
    keys_sum(m, m.dom(), weigh)
}

/// Over no keys the sum is zero.
pub proof fn lemma_keys_sum_empty<K, V>(m: Map<K, V>, weigh: spec_fn(V) -> int)
    ensures
        keys_sum(m, Set::<K>::empty(), weigh) == 0,
{
    lemma_fold_empty(0int, |acc: int, k: K| acc + weigh(m[k]));
}

/// A key that joins the set adds the weight of its value.
pub proof fn lemma_keys_sum_insert<K, V>(
    m: Map<K, V>,
    keys: Set<K>,
    k: K,
    weigh: spec_fn(V) -> int,
)
    requires
        keys.finite(),
        !keys.contains(k),
    ensures
        keys_sum(m, keys.insert(k), weigh) == keys_sum(m, keys, weigh) + weigh(m[k]),
{
    let step = |acc: int, k: K| acc + weigh(m[k]);
    assert(is_fun_commutative(step));
    lemma_fold_insert(keys, 0int, step, k);
}

/// Any one key of the set can be split off the sum.
pub proof fn lemma_keys_sum_remove<K, V>(
    m: Map<K, V>,
    keys: Set<K>,
    k: K,
    weigh: spec_fn(V) -> int,
)
    requires
        keys.finite(),
        keys.contains(k),
    ensures
        keys_sum(m, keys, weigh) == keys_sum(m, keys.remove(k), weigh) + weigh(m[k]),
{
    assert(keys.remove(k).insert(k) =~= keys);
    lemma_keys_sum_insert(m, keys.remove(k), k, weigh);
}

/// The sum depends on the map only through the weights at the keys summed over.
pub proof fn lemma_keys_sum_agree<K, V>(
    m1: Map<K, V>,
    m2: Map<K, V>,
    keys: Set<K>,
    weigh: spec_fn(V) -> int,
)
    requires
        keys.finite(),
        forall|k: K| keys.contains(k) ==> weigh(#[trigger] m1[k]) == weigh(m2[k]),
    ensures
        keys_sum(m1, keys, weigh) == keys_sum(m2, keys, weigh),
    decreases keys.len(),
{
    if keys.is_empty() {
        assert(keys =~= Set::<K>::empty());
        lemma_keys_sum_empty(m1, weigh);
        lemma_keys_sum_empty(m2, weigh);
    } else {
        let k = keys.choose();
        lemma_keys_sum_remove(m1, keys, k, weigh);
        lemma_keys_sum_remove(m2, keys, k, weigh);
        lemma_keys_sum_agree(m1, m2, keys.remove(k), weigh);
    }
}

/// The sum over an empty map is zero.
pub proof fn lemma_map_sum_empty<K, V>(weigh: spec_fn(V) -> int)
    ensures
        map_sum(Map::<K, V>::empty(), weigh) == 0,
{
    assert(Map::<K, V>::empty().dom() =~= Set::<K>::empty());
    lemma_keys_sum_empty(Map::<K, V>::empty(), weigh);
}

/// Binding `k` to `v` replaces the weight that `k` had, if any, by that of `v`.
pub proof fn lemma_map_sum_insert<K, V>(m: Map<K, V>, k: K, v: V, weigh: spec_fn(V) -> int)
    requires
        m.dom().finite(),
    ensures
        map_sum(m.insert(k, v), weigh) == map_sum(m, weigh) + weigh(v) - (if m.contains_key(k) {
            weigh(m[k])
        } else {
            0
        }),
{
    let rest = m.dom().remove(k);
    let bound = m.insert(k, v);
    assert(bound.dom() =~= rest.insert(k));
    lemma_keys_sum_insert(bound, rest, k, weigh);
    lemma_keys_sum_agree(bound, m, rest, weigh);
    if m.contains_key(k) {
        lemma_keys_sum_remove(m, m.dom(), k, weigh);
    } else {
        assert(rest =~= m.dom());
    }
}

} // verus!
