use vstd::prelude::*;
use crate::hittable::HitRecord;
use crate::interval::Interval;
use crate::scalar::Real;
use crate::scalar::ONE_BITS;

verus! {

/// The range from zero to one.
pub open spec fn unit_interval() -> Interval {
    Interval { min: Real { bits: 0 }, max: Real { bits: ONE_BITS } }
}

/// The point with plane coordinates `(a, b)` lies in the parallelogram.
pub open spec fn in_quad(a: Real, b: Real) -> bool {
    unit_interval().contains_spec(a) && unit_interval().contains_spec(b)
}

/// The point with plane coordinates `(a, b)`, whose sum is `sum`, lies in
/// the triangle.
pub open spec fn in_triangle(a: Real, b: Real, sum: Real) -> bool {
    in_quad(a, b) && unit_interval().contains_spec(sum)
}

/// A parallelogram.
pub struct Quad {}

/// A triangle.
pub struct Triangle {}

impl Quad {
    /// Tells whether the plane coordinates of a hit lie inside the
    /// parallelogram. If so they become the surface coordinates of the
    /// record; if not the record stays as it was.
    pub fn is_interior(a: Real, b: Real, rec: &mut HitRecord) -> (inside: bool)
        ensures
            inside == in_quad(a, b),
            inside ==> *final(rec) == (HitRecord { u: a, v: b, ..*old(rec) }),
            !inside ==> *final(rec) == *old(rec),
    {
        let unit = Interval::new(Real::zero(), Real::one());
        if !unit.contains(a) || !unit.contains(b) {
            return false;
        }
        rec.u = a;
        rec.v = b;
        true
    }
}

impl Triangle {
    /// Tells whether a hit is cut out of the surface: it is when a number
    /// drawn from `[0, 1)` lies below the value that the alpha map holds
    /// at the surface coordinates of the hit.
    pub fn cut_out(alpha: Real, draw: Real) -> (r: bool)
        ensures
            r == draw.lt_spec(alpha),
    {
        draw.lt(&alpha)
    }

    /// Tells whether the plane coordinates of a hit lie inside the
    /// triangle; `sum` is `a + b`. If so they become the surface
    /// coordinates of the record; if not the record stays as it was.
    pub fn is_interior(a: Real, b: Real, sum: Real, rec: &mut HitRecord) -> (inside: bool)
        ensures
            inside == in_triangle(a, b, sum),
            inside ==> *final(rec) == (HitRecord { u: a, v: b, ..*old(rec) }),
            !inside ==> *final(rec) == *old(rec),
    {
        let unit = Interval::new(Real::zero(), Real::one());
        if !unit.contains(a) || !unit.contains(b) || !unit.contains(sum) {
            return false;
        }
        rec.u = a;
        rec.v = b;
        true
    }
}

} // verus!
