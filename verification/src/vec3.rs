use vstd::prelude::*;
use crate::scalar::Real;
use crate::scalar::SIGN_BIT;

verus! {

/// Encoding of `1e-8`, below which a component counts as zero.
pub const NEAR_ZERO_BITS: u64 = 0x3E45_798E_E230_8C3A;

/// Three scalars: a vector, a point or a colour.
#[derive(Clone, Copy, Debug)]
pub struct Vec3 {
    pub x: Real,
    pub y: Real,
    pub z: Real,
}

pub type Point3 = Vec3;

impl Real {
    /// The number with its sign changed: the encoding with the sign bit
    /// flipped.
    pub open spec fn neg_spec(self) -> Real {
        if self.bits >= SIGN_BIT {
            Real { bits: (self.bits - SIGN_BIT) as u64 }
        } else {
            Real { bits: (self.bits + SIGN_BIT) as u64 }
        }
    }

    pub fn neg(self) -> (r: Real)
        ensures
            r == self.neg_spec(),
            r.magnitude() == self.magnitude(),
            r.negative() == !self.negative(),
    {
        if self.bits >= SIGN_BIT {
            Real { bits: self.bits - SIGN_BIT }
        } else {
            Real { bits: self.bits + SIGN_BIT }
        }
    }

    /// The absolute value is below `1e-8`.
    pub open spec fn tiny(self) -> bool {
        self.magnitude() < NEAR_ZERO_BITS
    }

    /// Tells whether the number is closer to zero than `1e-8`, as the
    /// cosine between a ray and a plane is when the two are all but
    /// parallel.
    pub fn is_tiny(&self) -> (r: bool)
        ensures
            r == self.tiny(),
    {
        self.abs().lt(&Real { bits: NEAR_ZERO_BITS })
    }
}

impl Vec3 {
    pub open spec fn neg_spec(self) -> Vec3 {
        Vec3 { x: self.x.neg_spec(), y: self.y.neg_spec(), z: self.z.neg_spec() }
    }

    /// The component along an axis: 0 for x, 1 for y, anything else for z.
    pub open spec fn axis_spec(self, axis: int) -> Real {
        if axis == 0 {
            self.x
        } else if axis == 1 {
            self.y
        } else {
            self.z
        }
    }

    pub fn new(x: Real, y: Real, z: Real) -> (r: Vec3)
        ensures
            r.x == x,
            r.y == y,
            r.z == z,
    {
        Vec3 { x, y, z }
    }

    pub fn index_val(&self, axis: usize) -> (r: Real)
        requires
            axis < 3,
        ensures
            r == self.axis_spec(axis as int),
    {
        if axis == 0 {
            self.x
        } else if axis == 1 {
            self.y
        } else {
            self.z
        }
    }

    /// True when every component is closer to zero than `1e-8`.
    pub fn near_zero(&self) -> (r: bool)
        ensures
            r == (self.x.tiny() && self.y.tiny() && self.z.tiny()),
    {
        let zx = self.x.is_tiny();
        let zy = self.y.is_tiny();
        let zz = self.z.is_tiny();
        zx && zy && zz
    }

    pub fn neg(self) -> (r: Vec3)
        ensures
            r == self.neg_spec(),
    {
        Vec3 { x: self.x.neg(), y: self.y.neg(), z: self.z.neg() }
    }

    /// Turns an outward normal against the incoming ray. `facing` is the dot
    /// product of the ray's direction with the normal: the face is the front
    /// one when that is below zero, and else the normal is reversed.
    pub fn face_forward(outward_normal: Vec3, facing: Real) -> (r: (bool, Vec3))
        ensures
            r.0 == facing.below_zero(),
            r.1 == if r.0 {
                outward_normal
            } else {
                outward_normal.neg_spec()
            },
    {
        let front_face = facing.lt(&Real::zero());
        if front_face {
            (true, outward_normal)
        } else {
            (false, outward_normal.neg())
        }
    }

    /// Chooses the half of the sphere that a normal points into: `v` when
    /// its dot product with the normal, `facing`, is above zero, else `-v`.
    pub fn on_hemisphere(v: Vec3, facing: Real) -> (r: Vec3)
        ensures
            r == if facing.above_zero() {
                v
            } else {
                v.neg_spec()
            },
    {
        if facing.gt(&Real::zero()) {
            v
        } else {
            v.neg()
        }
    }
}

} // verus!
