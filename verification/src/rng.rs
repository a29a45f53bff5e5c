//! The source of chance that the sand's moves draw on.

use vstd::prelude::*;
use rand::RngExt;
use rand::rngs::ThreadRng;

verus! {

/// The generator of the current thread, from the `rand` crate.
#[verifier::external_type_specification]
#[verifier::external_body]
pub struct ExThreadRng(ThreadRng);

/// `rand::rng`: hands out the generator of the current thread. Nothing is
/// stated of its state.
#[verifier::external_body]
pub(crate) fn thread_rng() -> ThreadRng {
    rand::rng()
}

/// `RngExt::random_ratio`: a draw that is true with chance
/// `numerator / denominator`. The crate documents, and its source shows,
/// that it is always false for a numerator of zero and always true when
/// numerator and denominator are equal; it panics on a zero denominator or
/// a numerator above the denominator, which `requires` leaves out. Which
/// value comes back otherwise rests on chance and is not stated.
#[verifier::external_body]
pub(crate) fn random_ratio(rng: &mut ThreadRng, numerator: u32, denominator: u32) -> (b: bool)
    requires
        0 < denominator,
        numerator <= denominator,
    ensures
        numerator == 0 ==> !b,
        numerator == denominator ==> b,
{
    rng.random_ratio(numerator, denominator)
}

} // verus!
