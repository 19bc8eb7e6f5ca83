//! The random draws of the simulation, made by the `rand` crate on a
//! generator that the caller brings.

use vstd::prelude::*;
use rand::rngs::StdRng;
use rand::Rng;

verus! {

/// The generator every random draw is made on. Seed it to replay a run.
#[verifier::external_type_specification]
#[verifier::external_body]
pub struct ExStdRng(StdRng);

/// Calls `rand::seq::index::sample`, which draws `amount` distinct indices
/// below `length` in random order. It panics when asked for more indices than
/// there are, and for a `length` beyond 32 bits its sampler also wants fewer
/// indices than there are; both are left out. Trusted: the result has
/// `amount` entries, each below `length`, no two alike.
#[verifier::external_body]
pub(crate) fn sample_indices(rng: &mut StdRng, length: usize, amount: usize) -> (picks: Vec<usize>)
    requires
        amount <= length,
        length <= u32::MAX || amount < length,
    ensures
        picks@.len() == amount,
        forall|i: int| 0 <= i < picks@.len() ==> picks@[i] < length,
        forall|i: int, j: int| 0 <= i < j < picks@.len() ==> picks@[i] != picks@[j],
{
    rand::seq::index::sample(rng, length, amount).into_vec()
}

/// Calls `rand::Rng::random_range` on the inclusive range from `low` to
/// `high`, which panics on an empty range. Trusted: the result lies in the range.
#[verifier::external_body]
pub(crate) fn random_between(rng: &mut StdRng, low: i64, high: i64) -> (r: i64)
    requires
        low <= high,
    ensures
        low <= r <= high,
{
    rng.random_range(low..=high)
}

} // verus!
