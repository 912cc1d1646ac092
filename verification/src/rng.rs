use vstd::prelude::*;

use rand::RngExt;

verus! {

/// Relies on rand's `rng()` and `RngExt::random_range` over `0..bound`:
/// the drawn value lies in the given non-empty range, each value with the
/// same probability. Nothing more is assumed of it; every caller must be
/// correct whatever value comes back.
#[verifier::external_body]
pub(crate) fn rand_below(bound: u64) -> (r: u64)
    requires
        1 <= bound,
    ensures
        r < bound,
{
    rand::rng().random_range(0..bound)
}

} // verus!
