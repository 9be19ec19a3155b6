//! The one door to the random number generator.

use rand::Rng;
use vstd::prelude::*;

verus! {

/// Draws an integer from the generator of the current thread, by
/// `rand::thread_rng` and `rand::Rng::gen_range`. The claim is the range that
/// `gen_range` documents: `low` is included, `high` is not. Which number
/// comes is left open, and two draws need not agree. `gen_range` panics on an
/// empty range, so the range must not be empty.
#[verifier::external_body]
pub(crate) fn random_range(low: i32, high: i32) -> (drawn: i32)
    requires
        low < high,
    ensures
        low <= drawn < high,
{
    rand::thread_rng().gen_range(low, high)
}

} // verus!
