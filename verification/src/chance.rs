//! The random choices of the engine. Nothing is known of a random result
//! but the range it lies in.

use rand::Rng;
use vstd::prelude::*;

verus! {

/// Calls `Rng::gen_range(0, bound)` on `rand::thread_rng()`. Trusted: the
/// result lies in the half-open range from 0 to `bound`. The call panics on
/// an empty range, which `requires` leaves out.
#[verifier::external_body]
pub(crate) fn random_below(bound: usize) -> (index: usize)
    requires
        bound > 0,
    ensures
        index < bound,
{
    rand::thread_rng().gen_range(0, bound)
}

/// Calls `rand::seq::index::sample` on `rand::thread_rng()`. Trusted: it
/// returns exactly `amount` indices below `length`, no two of them equal.
/// The call panics when more indices are asked for than there are, and for
/// a `length` beyond 32 bits it goes by rejection sampling, which asserts
/// that fewer indices are asked for than there are. So `requires` admits
/// only an `amount` strictly below `length`.
#[verifier::external_body]
pub(crate) fn sample_positions(length: usize, amount: usize) -> (positions: Vec<usize>)
    requires
        amount < length,
    ensures
        positions@.len() == amount,
        forall|i: int| 0 <= i < positions@.len() ==> positions@[i] < length,
        positions@.no_duplicates(),
{
    rand::seq::index::sample(&mut rand::thread_rng(), length, amount).into_iter().collect()
}

} // verus!
