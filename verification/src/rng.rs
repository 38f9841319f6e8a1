//! The one call into the random number generator, behind a trusted contract.

use vstd::prelude::*;

verus! {

/// Relies on `rand::Rng::gen_range` over the range `0..max`, driven by
/// `rand::thread_rng`: a sample drawn from a non-empty half-open range lies
/// in that range. The range must be non-empty, or the call panics.
#[verifier::external_body]
pub(crate) fn random_below(max: i64) -> (r: i64)
    requires
        1 <= max,
    ensures
        0 <= r < max,
{
    rand::Rng::gen_range(&mut rand::thread_rng(), 0..max)
}

} // verus!
