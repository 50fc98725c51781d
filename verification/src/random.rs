//! The source of fresh kernel weights.

use crate::scalar::{Scalar, SAMPLE_LIMIT};
use vstd::prelude::*;

verus! {

/// Draws one number below `limit` from the thread's random generator.
///
/// This is `rand::random_range` on the range `0..limit`. The contract claims
/// only what holds of every draw: the number lies in the range. An empty
/// range, on which `rand` panics, is left out.
#[verifier::external_body]
fn random_below(limit: u32) -> (r: u32)
    requires
        limit > 0,
    ensures
        r < limit,
{
    rand::random_range(0..limit)
}

/// The number is a weight in `(0, 1]` that some sample stands for.
pub open spec fn drawn<T: Scalar>(w: T) -> bool {
    &&& w.is_unit_weight()
    &&& exists|sample: u32| sample < SAMPLE_LIMIT && w == T::spec_from_sample(sample)
}

/// Draws a fresh weight in `(0, 1]`: a random sample below `SAMPLE_LIMIT`,
/// turned into a number by the cell type.
pub fn draw_weight<T: Scalar>() -> (w: T)
    ensures
        drawn(w),
{
    let sample: u32 = random_below(SAMPLE_LIMIT);
    T::from_sample(sample)
}

} // verus!
