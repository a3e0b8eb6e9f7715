//! Random draws, taken from the `rand` crate's generator of the current thread.

use vstd::prelude::*;
use rand::Rng;
use rand::rngs::ThreadRng;

verus! {

/// The `rand` crate's handle to the random number generator of the current
/// thread.
#[verifier::external_type_specification]
#[verifier::external_body]
pub struct ExThreadRng(ThreadRng);

/// `rand::thread_rng` hands out the generator of the current thread, seeded
/// by the system; it panics only where the system cannot supply a seed.
/// Nothing is claimed of the generator.
pub assume_specification[ rand::thread_rng ]() -> (rng: ThreadRng);

/// `Rng::gen_range(0, bound)`: a number from zero up to, not including,
/// `bound`. The call panics on an empty range, so `bound` is positive.
#[verifier::external_body]
pub(crate) fn random_index(rng: &mut ThreadRng, bound: usize) -> (index: usize)
    requires
        bound > 0,
    ensures
        index < bound,
{
    rng.gen_range(0, bound)
}

/// `Rng::gen` for `bool`: a coin flip. Nothing is claimed of the outcome.
#[verifier::external_body]
pub(crate) fn random_flag(rng: &mut ThreadRng) -> (flag: bool) {
    rng.gen()
}

} // verus!
