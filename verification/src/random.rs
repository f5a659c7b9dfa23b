//! The library's single source of randomness.

use vstd::prelude::*;

verus! {

/// Relies on rand::random_range over `0..bound`: it returns a value of the
/// range, and panics only when the range is empty.
#[verifier::external_body]
pub(crate) fn random_below(bound: u64) -> (r: u64)
    requires
        bound > 0,
    ensures
        r < bound,
{
    rand::random_range(0..bound)
}

} // verus!
