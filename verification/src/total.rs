//! The sum of a weight over the values of a finite map.

use vstd::prelude::*;

verus! {

/// The sum of `weight` over the values of `m`, which is to have finitely
/// many keys.
pub closed spec fn total<K, V>(m: Map<K, V>, weight: spec_fn(V) -> nat) -> nat
    decreases m.dom().len(),
    when m.dom().finite()
{
    if m.dom().len() == 0 {
        0
    } else {
        let k = m.dom().choose();
        weight(m[k]) + total(m.remove(k), weight)
    }
}

/// The empty map weighs nothing.
pub proof fn lemma_total_empty<K, V>(weight: spec_fn(V) -> nat)
    ensures
        total(Map::<K, V>::empty(), weight) == 0,
{
}

/// Any one entry can be taken out of the sum: the total is the weight of
/// that entry plus the total of the others.
pub proof fn lemma_total_remove<K, V>(m: Map<K, V>, weight: spec_fn(V) -> nat, key: K)
    requires
        m.dom().finite(),
        m.contains_key(key),
    ensures
        total(m, weight) == weight(m[key]) + total(m.remove(key), weight),
    decreases m.dom().len(),
{
    let first = m.dom().choose();
    if first != key {
        lemma_total_remove(m.remove(first), weight, key);
        lemma_total_remove(m.remove(key), weight, first);
        assert(m.remove(first).remove(key) =~= m.remove(key).remove(first));
    }
}

/// Writing a value under a key replaces that key's weight in the sum.
pub proof fn lemma_total_insert<K, V>(m: Map<K, V>, weight: spec_fn(V) -> nat, key: K, value: V)
    requires
        m.dom().finite(),
    ensures
        total(m.insert(key, value), weight) == weight(value) + total(m.remove(key), weight),
{
    lemma_total_remove(m.insert(key, value), weight, key);
    assert(m.insert(key, value).remove(key) =~= m.remove(key));
}

} // verus!
