//! The library's single source of randomness.

use vstd::prelude::*;

verus! {

/// Relies on rand::random_range: a uniformly distributed value in the given
/// range, which panics only when the range is empty. Nothing is assumed of
/// which value comes back, only that it lies below the bound.
#[verifier::external_body]
pub(crate) fn random_below(bound: u64) -> (r: u64)
    requires
        bound >= 1,
    ensures
        r < bound,
{
    rand::random_range(0..bound)
}

} // verus!
