//! The one place where the simulations draw random numbers.

use rand::Rng;
use vstd::prelude::*;

verus! {

/// Draws a number from `low` up to, but not including, `high` from the
/// thread-local generator.
///
/// Trusted: calls `rand::thread_rng().gen_range(low, high)`, which samples
/// the half-open range `[low, high)` and panics when the range is empty,
/// hence the `requires`. Nothing else is claimed of the outcome: two draws
/// from the same range may differ.
#[verifier::external_body]
pub(crate) fn draw_between(low: usize, high: usize) -> (drawn: usize)
    requires
        low < high,
    ensures
        low <= drawn < high,
{
    rand::thread_rng().gen_range(low, high)
}

} // verus!
