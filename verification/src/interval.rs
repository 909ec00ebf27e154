use vstd::prelude::*;
use crate::scalar::Real;
use crate::scalar::INFINITY_BITS;
use crate::scalar::SIGN_BIT;

verus! {

/// Encoding of `0.001`, the least parameter at which a ray that leaves a
/// surface may hit again.
pub const RAY_START_BITS: u64 = 0x3F50_624D_D2F1_A9FC;

/// A closed range `[min, max]` of a scalar. The empty range has
/// `min = +inf` and `max = -inf`.
#[derive(Clone, Copy, Debug)]
pub struct Interval {
    pub min: Real,
    pub max: Real,
}

impl Interval {
    /// The range that holds no number.
    pub open spec fn empty_spec() -> Interval {
        Interval {
            min: Real { bits: INFINITY_BITS },
            max: Real { bits: (INFINITY_BITS + SIGN_BIT) as u64 },
        }
    }

    /// The range that holds every number.
    pub open spec fn universe_spec() -> Interval {
        Interval {
            min: Real { bits: (INFINITY_BITS + SIGN_BIT) as u64 },
            max: Real { bits: INFINITY_BITS },
        }
    }

    /// Neither bound is a NaN.
    pub open spec fn ordered(self) -> bool {
        !self.min.nan() && !self.max.nan()
    }

    /// `min <= x <= max`.
    pub open spec fn contains_spec(self, x: Real) -> bool {
        self.min.le_spec(x) && x.le_spec(self.max)
    }

    /// `min < x < max`.
    pub open spec fn surrounds_spec(self, x: Real) -> bool {
        self.min.lt_spec(x) && x.lt_spec(self.max)
    }

    /// The smallest range that holds both `a` and `b`.
    pub open spec fn merge_spec(a: Interval, b: Interval) -> Interval {
        Interval {
            min: if a.min.le_spec(b.min) {
                a.min
            } else {
                b.min
            },
            max: if b.max.le_spec(a.max) {
                a.max
            } else {
                b.max
            },
        }
    }

    /// `x` moved to the nearer bound when it lies outside.
    pub open spec fn clamp_spec(self, x: Real) -> Real {
        if x.lt_spec(self.min) {
            self.min
        } else if self.max.lt_spec(x) {
            self.max
        } else {
            x
        }
    }

    /// The nearer of two ray parameters that lies strictly inside the
    /// range, the farther one standing in when the nearer lies outside.
    pub open spec fn first_surrounded_spec(self, near: Real, far: Real) -> Option<Real> {
        if self.surrounds_spec(near) {
            Some(near)
        } else if self.surrounds_spec(far) {
            Some(far)
        } else {
            None
        }
    }

    /// The part of a chord `[enter, exit]` that the range keeps: both ends
    /// are moved inside the range, a chord that is left without length is
    /// dropped, and an entry behind the origin is moved to it.
    pub open spec fn clip_chord_spec(self, enter: Real, exit: Real) -> Option<(Real, Real)> {
        let e0 = if enter.lt_spec(self.min) {
            self.min
        } else {
            enter
        };
        let x0 = if self.max.lt_spec(exit) {
            self.max
        } else {
            exit
        };
        if x0.le_spec(e0) {
            None
        } else if e0.lt_spec(Real { bits: 0 }) {
            Some((Real { bits: 0 }, x0))
        } else {
            Some((e0, x0))
        }
    }

    pub fn default() -> (r: Interval)
        ensures
            r == Self::empty_spec(),
            forall|x: Real| !(#[trigger] r.contains_spec(x)),
    {
        Interval { min: Real::infinity(), max: Real::neg_infinity() }
    }

    pub fn empty() -> (r: Interval)
        ensures
            r == Self::empty_spec(),
    {
        Interval { min: Real::infinity(), max: Real::neg_infinity() }
    }

    pub fn universe() -> (r: Interval)
        ensures
            r == Self::universe_spec(),
            forall|x: Real| !x.nan() ==> #[trigger] r.contains_spec(x),
    {
        Interval { min: Real::neg_infinity(), max: Real::infinity() }
    }

    /// The range of parameters in which a ray is followed: from `0.001`
    /// on, without end.
    pub fn ray_range() -> (r: Interval)
        ensures
            r.min.bits == RAY_START_BITS,
            r.max.bits == INFINITY_BITS,
    {
        Interval { min: Real::from_bits(RAY_START_BITS), max: Real::infinity() }
    }

    pub fn new(min: Real, max: Real) -> (r: Interval)
        ensures
            r.min == min,
            r.max == max,
    {
        Interval { min, max }
    }

    pub fn new_merge(a: &Interval, b: &Interval) -> (r: Interval)
        ensures
            r == Self::merge_spec(*a, *b),
    {
        Interval {
            min: if a.min.le(&b.min) {
                a.min
            } else {
                b.min
            },
            max: if a.max.ge(&b.max) {
                a.max
            } else {
                b.max
            },
        }
    }

    pub fn contains(&self, x: Real) -> (r: bool)
        ensures
            r == self.contains_spec(x),
    {
        self.min.le(&x) && x.le(&self.max)
    }

    pub fn surrounds(&self, x: Real) -> (r: bool)
        ensures
            r == self.surrounds_spec(x),
    {
        self.min.lt(&x) && x.lt(&self.max)
    }

    pub fn clamp(&self, x: Real) -> (r: Real)
        ensures
            r == self.clamp_spec(x),
    {
        if x.lt(&self.min) {
            self.min
        } else if x.gt(&self.max) {
            self.max
        } else {
            x
        }
    }

    /// Chooses between the two roots of a quadratic along a ray.
    pub fn first_surrounded(&self, near: Real, far: Real) -> (r: Option<Real>)
        ensures
            r == self.first_surrounded_spec(near, far),
    {
        if self.surrounds(near) {
            Some(near)
        } else if self.surrounds(far) {
            Some(far)
        } else {
            None
        }
    }

    /// Clips the stretch of a ray inside a convex boundary to this range.
    pub fn clip_chord(&self, enter: Real, exit: Real) -> (r: Option<(Real, Real)>)
        ensures
            r == self.clip_chord_spec(enter, exit),
    {
        let e0 = if enter.lt(&self.min) {
            self.min
        } else {
            enter
        };
        let x0 = if exit.gt(&self.max) {
            self.max
        } else {
            exit
        };
        if e0.ge(&x0) {
            None
        } else if e0.lt(&Real::zero()) {
            Some((Real::zero(), x0))
        } else {
            Some((e0, x0))
        }
    }
}

/// The merge of two ranges holds every number that either holds, and every
/// range with ordered bounds that holds both holds the merge.
pub proof fn lemma_merge_is_hull(a: Interval, b: Interval, x: Real, c: Interval)
    requires
        a.ordered(),
        b.ordered(),
    ensures
        Interval::merge_spec(a, b).ordered(),
        a.contains_spec(x) ==> Interval::merge_spec(a, b).contains_spec(x),
        b.contains_spec(x) ==> Interval::merge_spec(a, b).contains_spec(x),
        c.min.le_spec(a.min) && c.min.le_spec(b.min) && a.max.le_spec(c.max) && b.max.le_spec(
            c.max,
        ) ==> c.min.le_spec(Interval::merge_spec(a, b).min) && Interval::merge_spec(
            a,
            b,
        ).max.le_spec(c.max),
{
}

/// Merging the empty range with a range of ordered bounds gives that range.
pub proof fn lemma_merge_empty(b: Interval)
    requires
        b.ordered(),
    ensures
        Interval::merge_spec(Interval::empty_spec(), b).min.rank() == b.min.rank(),
        Interval::merge_spec(Interval::empty_spec(), b).max.rank() == b.max.rank(),
{
}

/// A clamped number lies in the range, whenever the range is not empty and
/// the number is not a NaN.
pub proof fn lemma_clamp_contained(iv: Interval, x: Real)
    requires
        iv.min.le_spec(iv.max),
        !x.nan(),
    ensures
        iv.contains_spec(iv.clamp_spec(x)),
        iv.contains_spec(x) ==> iv.clamp_spec(x) == x,
{
}

} // verus!
