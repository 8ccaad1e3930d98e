use rand::rngs::StdRng;
use rand::{Rng, SeedableRng};
use vstd::prelude::*;

verus! {

/// `rand::rngs::StdRng`, the generator that a game draws its pieces from.
/// Nothing is known here of what a generator holds.
#[verifier::external_type_specification]
#[verifier::external_body]
pub struct ExStdRng(rand::rngs::StdRng);

/// `StdRng::clone`, which copies a generator. Nothing is claimed of the copy.
pub assume_specification[ <StdRng as Clone>::clone ](rng: &StdRng) -> (copy: StdRng);

/// Calls `rand::random::<u64>()`, which draws a number from the generator
/// of the running thread; that generator is seeded by the system. Nothing is
/// claimed of the number.
#[verifier::external_body]
pub(crate) fn entropy_seed() -> (seed: u64) {
    rand::random::<u64>()
}

/// Calls `StdRng::seed_from_u64(seed)`, which builds a generator from a
/// seed and does not fail. Nothing is claimed of the generator.
#[verifier::external_body]
pub(crate) fn seeded_rng(seed: u64) -> (rng: StdRng) {
    StdRng::seed_from_u64(seed)
}

/// Calls `Rng::random_range(rng, 0..bound)`, which advances the generator and
/// hands out a number of the range. The range must hold a number. The
/// contract claims that the result lies in the range, and nothing of which
/// number it is.
#[verifier::external_body]
pub(crate) fn draw_below(rng: &mut StdRng, bound: i32) -> (n: i32)
    requires
        bound > 0,
    ensures
        0 <= n < bound,
{
    rng.random_range(0..bound)
}

} // verus!
