use rand::Rng;
use vstd::prelude::*;

verus! {

/// Draws a whole number with `Rng::gen_range` of the `rand` crate, on the
/// generator that `rand::thread_rng` hands out. The range runs from `low`
/// to `high` and includes both. `gen_range` refuses an empty range, so
/// `low` may not lie above `high`. All that is claimed of the number drawn
/// is that it lies in the range.
#[verifier::external_body]
pub(crate) fn random_between(low: i32, high: i32) -> (drawn: i32)
    requires
        low <= high,
    ensures
        low <= drawn <= high,
{
    rand::thread_rng().gen_range(low..=high)
}

/// Draws 32 random bits with `Rng::gen` of the `rand` crate, on the
/// generator that `rand::thread_rng` hands out. Nothing is claimed of the
/// value drawn.
#[verifier::external_body]
pub(crate) fn random_sample() -> (sample: u32) {
    rand::thread_rng().gen::<u32>()
}

} // verus!
