//! How the outcome of a call relates to the state before and after it.

use vstd::prelude::*;

verus! {

/// A call that is expected to give a new state and a value, or to be refused:
/// a refused call leaves the state as it was.
pub open spec fn effect<S, T, E>(
    expected: Result<(S, T), E>,
    r: Result<T, E>,
    before: S,
    after: S,
) -> bool {
    match expected {
        Ok((s, v)) => r == Ok::<T, E>(v) && after == s,
        Err(e) => r == Err::<T, E>(e) && after == before,
    }
}

} // verus!
