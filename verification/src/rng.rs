//! The random number generator that training and replay draw from.

use vstd::prelude::*;
use rand::rngs::StdRng;
use rand::Rng;

verus! {

#[verifier::external_type_specification]
#[verifier::external_body]
pub struct ExStdRng(StdRng);

/// Draws from `rand::Rng::gen_range` over the half-open range `0..bound`.
/// The contract claims only what every draw satisfies: the value lies in
/// the range. (`gen_range` panics on an empty range, hence `bound > 0`.)
/// For integers, `gen_range(0..bound)` samples exactly as
/// `gen_range(0..=bound - 1)` does.
#[verifier::external_body]
pub(crate) fn random_below(rng: &mut StdRng, bound: usize) -> (r: usize)
    requires
        bound > 0,
    ensures
        r < bound,
{
    rng.gen_range(0..bound)
}

} // verus!
