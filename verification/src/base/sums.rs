//! Sums over the values of a map.

use vstd::prelude::*;

use crate::base::table::value_or;

verus! {

/// The sum of the values of a finite map.
pub open spec fn map_sum<K>(m: Map<K, i128>) -> int
    decreases m.dom().len(),
    when m.dom().finite()
{
    if m.dom().len() == 0 {
        0
    } else {
        let k = m.dom().choose();
        m[k] + map_sum(m.remove(k))
    }
}

/// Any key can be counted first.
pub proof fn lemma_map_sum_split<K>(m: Map<K, i128>, k: K)
    requires
        m.dom().finite(),
        m.contains_key(k),
    ensures
        map_sum(m) == m[k] + map_sum(m.remove(k)),
    decreases m.dom().len(),
{
    let c = m.dom().choose();
    assert(m.dom().contains(k));
    assert(m.dom().len() > 0);
    if c != k {
        lemma_map_sum_split(m.remove(c), k);
        lemma_map_sum_split(m.remove(k), c);
        assert(m.remove(c).remove(k) =~= m.remove(k).remove(c));
    }
}

/// Giving a key a value changes the sum by the difference.
pub proof fn lemma_map_sum_insert<K>(m: Map<K, i128>, k: K, v: i128)
    requires
        m.dom().finite(),
    ensures
        map_sum(m.insert(k, v)) == map_sum(m) - value_or(m, k, 0) + v,
{
    let n = m.insert(k, v);
    lemma_map_sum_split(n, k);
    if m.contains_key(k) {
        lemma_map_sum_split(m, k);
        assert(n.remove(k) =~= m.remove(k));
    } else {
        assert(n.remove(k) =~= m);
    }
}

/// Taking a key away takes its value off the sum.
pub proof fn lemma_map_sum_remove<K>(m: Map<K, i128>, k: K)
    requires
        m.dom().finite(),
    ensures
        map_sum(m.remove(k)) == map_sum(m) - value_or(m, k, 0),
{
    if m.contains_key(k) {
        lemma_map_sum_split(m, k);
    } else {
        assert(m.remove(k) =~= m);
    }
}

/// Where no value is negative, neither is the sum, and no value is above it.
pub proof fn lemma_map_sum_part<K>(m: Map<K, i128>, k: K)
    requires
        m.dom().finite(),
        forall|x: K| #[trigger] m.contains_key(x) ==> m[x] >= 0,
    ensures
        0 <= map_sum(m),
        value_or(m, k, 0) <= map_sum(m),
    decreases m.dom().len(),
{
    if m.dom().len() > 0 {
        let c = m.dom().choose();
        assert(m.contains_key(c));
        let rest = m.remove(c);
        assert forall|x: K| #[trigger] rest.contains_key(x) implies rest[x] >= 0 by {
            assert(m.contains_key(x));
        }
        lemma_map_sum_part(rest, k);
    } else {
        assert(m.dom() =~= Set::empty());
        assert(!m.dom().contains(k));
    }
}

} // verus!
