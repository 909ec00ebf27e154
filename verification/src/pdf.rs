use vstd::prelude::*;
use crate::scalar::Real;
use crate::scalar::HALF_BITS;

verus! {

/// The distribution that is even over the unit sphere.
#[derive(Clone, Copy, Debug, Default)]
pub struct SpherePdf {}

/// An even blend of two distributions.
#[derive(Clone, Copy, Debug, Default)]
pub struct MixturePdf {}

impl MixturePdf {
    /// The distribution that a direction is drawn from, by a number drawn
    /// from `[0, 1)`: the first for a number below one half, else the
    /// second.
    pub fn pick(draw: Real) -> (r: usize)
        ensures
            r == if draw.lt_spec(Real { bits: HALF_BITS }) {
                0usize
            } else {
                1usize
            },
    {
        if draw.lt(&Real::from_bits(HALF_BITS)) {
            0
        } else {
            1
        }
    }
}

} // verus!
