use vstd::prelude::*;
use crate::scalar::Real;
use crate::vec3::Point3;
use crate::vec3::Vec3;

verus! {

/// A ray: where it starts, where it points, and when it was cast.
#[derive(Clone, Copy, Debug)]
pub struct Ray {
    pub origin: Point3,
    pub direction: Vec3,
    pub time: Real,
}

impl Ray {
    /// A ray cast at time zero.
    pub fn new(origin: Point3, direction: Vec3) -> (r: Ray)
        ensures
            r.origin == origin,
            r.direction == direction,
            r.time.bits == 0,
    {
        Ray { origin, direction, time: Real::zero() }
    }

    /// A ray cast at the given time.
    pub fn new_move(origin: Point3, direction: Vec3, time: Real) -> (r: Ray)
        ensures
            r.origin == origin,
            r.direction == direction,
            r.time == time,
    {
        Ray { origin, direction, time }
    }
}

} // verus!
