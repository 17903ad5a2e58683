//! Draws from the thread-local random number generator.

use vstd::prelude::*;
use rand::Rng;

verus! {

/// Relies on rand's `Rng::gen_range` over `0..bound` on `rand::thread_rng()`:
/// a value below `bound`. It panics on an empty range, which `requires`
/// rules out.
#[verifier::external_body]
pub(crate) fn random_below(bound: u32) -> (r: u32)
    requires
        bound > 0,
    ensures
        r < bound,
{
    rand::thread_rng().gen_range(0..bound)
}

/// Relies on rand's `Rng::gen_ratio` on `rand::thread_rng()`: true with
/// probability `numerator / denominator`, always when the two are equal and
/// never when `numerator` is 0. It panics when `denominator` is 0 or below
/// `numerator`, which `requires` rules out.
#[verifier::external_body]
pub(crate) fn random_ratio(numerator: u32, denominator: u32) -> (r: bool)
    requires
        0 < denominator,
        numerator <= denominator,
    ensures
        numerator == 0 ==> !r,
        numerator == denominator ==> r,
{
    rand::thread_rng().gen_ratio(numerator, denominator)
}

} // verus!
