use vstd::prelude::*;
use crate::interval::Interval;
use crate::scalar::Real;
use crate::scalar::ONE_BITS;
use crate::vec3::Point3;
use crate::vec3::Vec3;

verus! {

/// What one intersection test found: the point, the unit normal turned
/// against the ray, the material's handle, the ray parameter, the surface
/// coordinates and the tangent frame.
#[derive(Clone, Copy, Debug)]
pub struct HitRecord {
    pub p: Point3,
    pub normal: Vec3,
    pub mat: usize,
    pub t: Real,
    pub u: Real,
    pub v: Real,
    pub front_face: bool,
    pub tangent: Vec3,
    pub bitangent: Vec3,
}

/// The closest hit found so far along a ray, and the upper bound that it
/// leaves for the tests still to come.
#[derive(Clone, Copy, Debug)]
pub struct HitState {
    pub closest: Real,
    pub best: Option<HitRecord>,
}

impl HitRecord {
    /// The record before any test: everything zero, material 0, and the
    /// tangent frame along x and y.
    pub open spec fn blank() -> HitRecord {
        let zero = Real { bits: 0 };
        let one = Real { bits: ONE_BITS };
        let origin = Vec3 { x: zero, y: zero, z: zero };
        HitRecord {
            p: origin,
            normal: origin,
            mat: 0,
            t: zero,
            u: zero,
            v: zero,
            front_face: false,
            tangent: Vec3 { x: one, y: zero, z: zero },
            bitangent: Vec3 { x: zero, y: one, z: zero },
        }
    }

    pub fn new() -> (r: HitRecord)
        ensures
            r == Self::blank(),
    {
        let zero = Real::zero();
        let one = Real::one();
        let origin = Vec3 { x: zero, y: zero, z: zero };
        HitRecord {
            p: origin,
            normal: origin,
            mat: 0,
            t: zero,
            u: zero,
            v: zero,
            front_face: false,
            tangent: Vec3 { x: one, y: zero, z: zero },
            bitangent: Vec3 { x: zero, y: one, z: zero },
        }
    }

    /// Stores the normal turned against the incoming ray and records which
    /// face was hit. `facing` is the dot product of the ray's direction with
    /// `outward_normal`.
    pub fn set_face_normal(&mut self, outward_normal: &Vec3, facing: Real)
        ensures
            final(self).front_face == facing.below_zero(),
            final(self).normal == if facing.below_zero() {
                *outward_normal
            } else {
                outward_normal.neg_spec()
            },
            final(self).p == old(self).p,
            final(self).mat == old(self).mat,
            final(self).t == old(self).t,
            final(self).u == old(self).u,
            final(self).v == old(self).v,
            final(self).tangent == old(self).tangent,
            final(self).bitangent == old(self).bitangent,
    {
        let (front_face, normal) = Vec3::face_forward(*outward_normal, facing);
        self.front_face = front_face;
        self.normal = normal;
    }
}

impl HitState {
    /// The state before any test: nothing hit, and `t_max` as the bound.
    pub open spec fn start(t_max: Real) -> HitState {
        HitState { closest: t_max, best: None }
    }

    /// The state after one more test: a hit replaces what was found and
    /// lowers the bound to its own parameter, a miss changes nothing.
    pub open spec fn accept_spec(self, found: Option<HitRecord>) -> HitState {
        match found {
            Some(rec) => HitState { closest: rec.t, best: Some(rec) },
            None => self,
        }
    }

    /// The range that the next test is given.
    pub open spec fn window(self, t_min: Real) -> Interval {
        Interval { min: t_min, max: self.closest }
    }

    pub fn new(t_max: Real) -> (r: HitState)
        ensures
            r == Self::start(t_max),
    {
        HitState { closest: t_max, best: None }
    }

    pub fn accept(self, found: Option<HitRecord>) -> (r: HitState)
        ensures
            r == self.accept_spec(found),
    {
        match found {
            Some(rec) => HitState { closest: rec.t, best: Some(rec) },
            None => self,
        }
    }
}

/// `m` gives, for each object and range, what the caller's test of that
/// object against the ray returns.
pub open spec fn hit_model<F: Fn(usize, Interval) -> Option<HitRecord>>(
    test: &F,
    m: spec_fn(usize, Interval) -> Option<HitRecord>,
) -> bool {
    forall|i: usize, iv: Interval, r: Option<HitRecord>| test.ensures((i, iv), r) ==> r == m(i, iv)
}

/// The closest-hit sweep over the first `n` objects: each is tested within
/// the bound that the hits before it have left.
pub open spec fn sweep_spec(
    n: nat,
    ray_t: Interval,
    m: spec_fn(usize, Interval) -> Option<HitRecord>,
) -> HitState
    decreases n,
{
    if n == 0 {
        HitState::start(ray_t.max)
    } else {
        let before = sweep_spec((n - 1) as nat, ray_t, m);
        before.accept_spec(m((n - 1) as usize, before.window(ray_t.min)))
    }
}

/// Tests the objects `0 .. n` in turn and keeps the closest hit.
pub fn sweep<F: Fn(usize, Interval) -> Option<HitRecord>>(
    n: usize,
    ray_t: Interval,
    test: &F,
) -> (r: Option<HitRecord>)
    requires
        forall|i: usize, iv: Interval| i < n ==> test.requires((i, iv)),
    ensures
        n == 0 ==> r is None,
        forall|m: spec_fn(usize, Interval) -> Option<HitRecord>| #[trigger]
            hit_model(test, m) ==> r == sweep_spec(n as nat, ray_t, m).best,
{
    let mut state = HitState::new(ray_t.max);
    let mut i: usize = 0;
    while i < n
        invariant
            i <= n,
            forall|k: usize, iv: Interval| k < n ==> test.requires((k, iv)),
            n == 0 ==> state.best is None,
            forall|m: spec_fn(usize, Interval) -> Option<HitRecord>| #[trigger]
                hit_model(test, m) ==> state == sweep_spec(i as nat, ray_t, m),
        decreases n - i,
    {
        let found = test(i, Interval::new(ray_t.min, state.closest));
        state = state.accept(found);
        i = i + 1;
    }
    state.best
}

} // verus!
