//! Lists of plain values.

use vstd::prelude::*;

use crate::base::address::Address;
use crate::base::symbol::Symbol;

verus! {

/// An equal list of its own.
pub fn copy_vec<T: Copy>(v: &Vec<T>) -> (r: Vec<T>)
    ensures
        r@ == v@,
{
    let mut r: Vec<T> = Vec::new();
    let mut i: usize = 0;
    while i < v.len()
        invariant
            i <= v@.len(),
            r@ == v@.take(i as int),
        decreases v@.len() - i,
    {
        r.push(v[i]);
        i += 1;
        assert(r@ =~= v@.take(i as int));
    }
    assert(r@ =~= v@);
    r
}

/// A list of `n` equal items.
pub fn repeat_vec<T: Copy>(x: T, n: usize) -> (r: Vec<T>)
    ensures
        r@ == Seq::new(n as nat, |i: int| x),
{
    let mut r: Vec<T> = Vec::new();
    let mut i: usize = 0;
    while i < n
        invariant
            i <= n,
            r@ == Seq::new(i as nat, |j: int| x),
        decreases n - i,
    {
        r.push(x);
        i += 1;
        assert(r@ =~= Seq::new(i as nat, |j: int| x));
    }
    r
}

/// A list that keeps its newest items up to a limit, after one more item.
pub open spec fn pushed_capped<T>(s: Seq<T>, x: T, limit: nat) -> Seq<T> {
    if s.len() >= limit {
        s.skip(1).push(x)
    } else {
        s.push(x)
    }
}

/// Adds an item to a list that keeps its newest items up to a limit.
pub fn push_capped<T>(v: &mut Vec<T>, x: T, limit: usize)
    requires
        limit > 0,
    ensures
        final(v)@ == pushed_capped(old(v)@, x, limit as nat),
{
    if v.len() >= limit {
        v.remove(0);
        assert(v@ =~= old(v)@.skip(1));
    }
    v.push(x);
}

/// A list that stays within the limit stays within it, and its newest item is
/// the one that was added.
pub proof fn capped_lists_stay_capped<T>(s: Seq<T>, x: T, limit: nat)
    requires
        s.len() <= limit,
        limit > 0,
    ensures
        pushed_capped(s, x, limit).len() <= limit,
        pushed_capped(s, x, limit).last() == x,
        s.len() < limit ==> pushed_capped(s, x, limit).drop_last() == s,
        s.len() == limit ==> pushed_capped(s, x, limit).drop_last() == s.skip(1),
{
    if s.len() < limit {
        assert(s.push(x).drop_last() =~= s);
    } else {
        assert(s.skip(1).push(x).drop_last() =~= s.skip(1));
    }
}

/// Whether the address is in the list.
pub fn has_address(v: &Vec<Address>, a: Address) -> (b: bool)
    ensures
        b == v@.contains(a),
{
    let mut i: usize = 0;
    while i < v.len()
        invariant
            i <= v@.len(),
            forall|j: int| 0 <= j < i ==> v@[j] != a,
        decreases v@.len() - i,
    {
        if v[i] == a {
            assert(v@.contains(a));
            return true;
        }
        i += 1;
    }
    false
}

/// Whether the symbol is in the list.
pub fn has_symbol(v: &Vec<Symbol>, a: Symbol) -> (b: bool)
    ensures
        b == v@.contains(a),
{
    let mut i: usize = 0;
    while i < v.len()
        invariant
            i <= v@.len(),
            forall|j: int| 0 <= j < i ==> v@[j] != a,
        decreases v@.len() - i,
    {
        if v[i] == a {
            assert(v@.contains(a));
            return true;
        }
        i += 1;
    }
    false
}

} // verus!
