//! Random numbers.
use rand::Rng;
use vstd::prelude::*;

verus! {

/// `Rng::random_range` of the thread-local generator `rand::rng`, over `0..limit`: some number
/// of that range. Which one is left to chance. The call panics on an empty range.
#[verifier::external_body]
pub(crate) fn random_below(limit: u64) -> (number: u64)
    requires
        limit > 0,
    ensures
        number < limit,
{
    rand::rng().random_range(0..limit)
}

} // verus!
