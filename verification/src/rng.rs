//! Trusted boundary to the `rand` crate: the caller-supplied random source
//! that seeding draws its biased booleans from.

use vstd::prelude::*;

verus! {

#[verifier::external_type_specification]
#[verifier::external_body]
pub struct ExStdRng(rand::rngs::StdRng);

/// Relies on `rand::Rng::gen_ratio` (rand 0.8): returns true with probability
/// `num / den`, and panics only when `den == 0` or `num > den`. Its Bernoulli
/// sampler compares a fresh `u64` against a threshold that is `0` when
/// `num == 0` (so every draw is false) and a reserved always-true marker when
/// `num == den` (so every draw is true); between the extremes nothing is
/// promised of a single draw.
#[verifier::external_body]
pub(crate) fn coin_flip(rng: &mut rand::rngs::StdRng, num: u32, den: u32) -> (alive: bool)
    requires
        den >= 1,
        num <= den,
    ensures
        num == 0 ==> !alive,
        num == den ==> alive,
{
    rand::Rng::gen_ratio(rng, num, den)
}

} // verus!
