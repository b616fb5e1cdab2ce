//! The calls into the `rand` crate. Their contracts are trusted, not proved;
//! they state what holds of every outcome of a draw.

use vstd::prelude::*;
use rand::Rng;

verus! {

/// Draws a number from `low..=high`.
///
/// Trusted: calls `rand::Rng::gen_range` with the inclusive range on the
/// generator that `rand::thread_rng` hands out. The contract claims that the
/// number lies in the range, which is what `gen_range` documents; the range
/// must not be empty, because `gen_range` panics on an empty range.
#[verifier::external_body]
pub(crate) fn random_between(low: usize, high: usize) -> (n: usize)
    requires
        low <= high,
    ensures
        low <= n <= high,
{
    rand::thread_rng().gen_range(low..=high)
}

/// Draws `true` with `numerator` chances in `denominator`.
///
/// Trusted: calls `rand::Rng::gen_ratio` on the generator that
/// `rand::thread_rng` hands out. The contract claims what `gen_ratio`
/// documents of every draw: with as many chances as there are cases the result
/// is `true`, with no chance it is `false`. In between nothing is claimed.
/// `gen_ratio` panics if there are no cases or more chances than cases.
#[verifier::external_body]
pub(crate) fn random_ratio(numerator: u32, denominator: u32) -> (drawn: bool)
    requires
        0 < denominator,
        numerator <= denominator,
    ensures
        numerator == denominator ==> drawn,
        numerator == 0 ==> !drawn,
{
    rand::thread_rng().gen_ratio(numerator, denominator)
}

} // verus!
