//! Sums over finite maps.
use vstd::prelude::*;

verus! {

/// The sum of `weight` over the values of a finite map.
pub open spec fn total<K, V>(m: Map<K, V>, weight: spec_fn(V) -> int) -> int
    decreases m.dom().len(),
{
    if m.dom().finite() && m.dom().len() > 0 {
        let k = m.dom().choose();
        weight(m[k]) + total(m.remove(k), weight)
    } else {
        0
    }
}

/// Any key may be counted first.
pub proof fn lemma_total_remove<K, V>(m: Map<K, V>, weight: spec_fn(V) -> int, k: K)
    requires
        m.dom().finite(),
        m.contains_key(k),
    ensures
        total(m, weight) == weight(m[k]) + total(m.remove(k), weight),
    decreases m.dom().len(),
{
    assert(m.dom().len() > 0) by {
        if m.dom().len() == 0 {
            assert(m.dom() =~= Set::empty());
        }
    }
    let first = m.dom().choose();
    assert(m.dom().contains(first));
    if first != k {
        lemma_total_remove(m.remove(first), weight, k);
        lemma_total_remove(m.remove(k), weight, first);
        assert(m.remove(first).remove(k) =~= m.remove(k).remove(first));
    }
}

/// Storing a value under a key adds its weight and takes away the weight of
/// what was there.
pub proof fn lemma_total_insert<K, V>(m: Map<K, V>, weight: spec_fn(V) -> int, k: K, v: V)
    requires
        m.dom().finite(),
    ensures
        total(m.insert(k, v), weight) == total(m, weight) + weight(v) - if m.contains_key(k) {
            weight(m[k])
        } else {
            0
        },
{
    lemma_total_remove(m.insert(k, v), weight, k);
    if m.contains_key(k) {
        lemma_total_remove(m, weight, k);
        assert(m.insert(k, v).remove(k) =~= m.remove(k));
    } else {
        assert(m.insert(k, v).remove(k) =~= m);
    }
}

/// The sum over the empty map.
pub proof fn lemma_total_empty<K, V>(weight: spec_fn(V) -> int)
    ensures
        total(Map::<K, V>::empty(), weight) == 0,
{
}

/// A sum of weights that are all zero is zero.
pub proof fn lemma_total_zero<K, V>(m: Map<K, V>, weight: spec_fn(V) -> int)
    requires
        forall|k: K| #[trigger] m.contains_key(k) ==> weight(m[k]) == 0,
    ensures
        total(m, weight) == 0,
    decreases m.dom().len(),
{
    if m.dom().finite() && m.dom().len() > 0 {
        let first = m.dom().choose();
        assert(m.dom().contains(first));
        assert(m.contains_key(first));
        let rest = m.remove(first);
        assert forall|k: K| #[trigger] rest.contains_key(k) implies weight(rest[k]) == 0 by {
            assert(m.contains_key(k));
        }
        lemma_total_zero(rest, weight);
    }
}

/// A sum of weights that are not negative is not negative, and no single
/// weight exceeds it.
pub proof fn lemma_total_bounds<K, V>(m: Map<K, V>, weight: spec_fn(V) -> int)
    requires
        m.dom().finite(),
        forall|k: K| #[trigger] m.contains_key(k) ==> weight(m[k]) >= 0,
    ensures
        total(m, weight) >= 0,
        forall|k: K| #[trigger] m.contains_key(k) ==> weight(m[k]) <= total(m, weight),
    decreases m.dom().len(),
{
    if m.dom().len() > 0 {
        let first = m.dom().choose();
        assert(m.dom().contains(first));
        let rest = m.remove(first);
        assert forall|k: K| #[trigger] rest.contains_key(k) implies weight(rest[k]) >= 0 by {
            assert(m.contains_key(k));
        }
        lemma_total_bounds(rest, weight);
        assert forall|k: K| #[trigger] m.contains_key(k) implies weight(m[k]) <= total(
            m,
            weight,
        ) by {
            if k != first {
                assert(rest.contains_key(k));
            }
        }
    } else {
        assert(m.dom() =~= Set::empty());
    }
}

} // verus!
