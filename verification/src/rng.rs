//! The random numbers that place food, from the `rand` crate.

use rand::Rng;
use vstd::prelude::*;

verus! {

/// `rand::rngs::ThreadRng`, the thread-local generator of `rand`; opaque here.
#[verifier::external_type_specification]
#[verifier::external_body]
pub struct ExThreadRng(rand::rngs::ThreadRng);

/// Calls `rand::thread_rng`, which hands out a handle to the thread-local
/// generator (seeded from the operating system on first use). Nothing is
/// stated of the handle; `rand` panics in it only if the operating system
/// cannot supply a seed, which this contract does not exclude.
#[verifier::external_body]
pub(crate) fn thread_rng() -> rand::rngs::ThreadRng {
    rand::thread_rng()
}

/// Calls `Rng::gen_range(0..bound)` of `rand` 0.8 on the generator. Its
/// source samples the half-open range `[0, bound)` and panics only when the
/// range is empty, which `requires` rules out; the contract claims no more
/// than that the result lies in the range. Which value comes out is chance.
#[verifier::external_body]
pub(crate) fn random_below(rng: &mut rand::rngs::ThreadRng, bound: usize) -> (r: usize)
    requires
        bound > 0,
    ensures
        r < bound,
{
    rng.gen_range(0..bound)
}

} // verus!
