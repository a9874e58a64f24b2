//! The library's only sources of randomness, wrapped so that everything
//! around them is verified for every outcome.

use vstd::prelude::*;

verus! {

/// Relies on rand::random: a fresh pseudo-random identifier. Nothing
/// can be promised of a random value.
#[verifier::external_body]
pub(crate) fn random_i32() -> i32 {
    rand::random::<i32>()
}

/// Relies on rand::Rng::gen_range: a uniformly drawn index below `n`.
/// The callee panics on an empty range, so `n` must be positive; of the
/// value itself only the range is promised.
#[verifier::external_body]
pub(crate) fn random_index_below(n: usize) -> (r: usize)
    requires
        n > 0,
    ensures
        r < n,
{
    rand::Rng::gen_range(&mut rand::thread_rng(), 0..n)
}

} // verus!
