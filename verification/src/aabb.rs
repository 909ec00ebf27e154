use vstd::prelude::*;
use crate::interval::Interval;
use crate::scalar::Real;
use crate::vec3::Point3;

verus! {

/// Encoding of `0.0001`, the least length of a box along any axis.
pub const PAD_BITS: u64 = 0x3F1A_36E2_EB1C_432D;

/// An axis-aligned box: one range for each axis.
#[derive(Clone, Copy, Debug)]
pub struct AABB {
    pub x: Interval,
    pub y: Interval,
    pub z: Interval,
}

/// Where a ray crosses the two planes that bound a box along one axis:
/// the ray's parameter at the lower plane, at the upper plane, and the
/// inverse of the ray's direction along that axis.
#[derive(Clone, Copy, Debug)]
pub struct Slab {
    pub t0: Real,
    pub t1: Real,
    pub inv_dir: Real,
}

impl Interval {
    /// The range spanned by two scalars, in either order.
    pub open spec fn spanning_spec(a: Real, b: Real) -> Interval {
        Interval { min: a.min_spec(b), max: a.max_spec(b) }
    }

    /// The part of a range of ray parameters that lies between the two
    /// planes of a slab. A ray that runs against the axis meets the upper
    /// plane first.
    pub open spec fn clip_slab_spec(self, s: Slab) -> Interval {
        if s.inv_dir.below_zero() {
            Interval { min: self.min.max_spec(s.t1), max: self.max.min_spec(s.t0) }
        } else {
            Interval { min: self.min.max_spec(s.t0), max: self.max.min_spec(s.t1) }
        }
    }

    /// Nothing lies strictly between the bounds.
    pub open spec fn exhausted(self) -> bool {
        self.max.le_spec(self.min)
    }

    pub fn clip_slab(&self, s: &Slab) -> (r: Interval)
        ensures
            r == self.clip_slab_spec(*s),
    {
        if s.inv_dir.lt(&Real::zero()) {
            Interval { min: self.min.max(s.t1), max: self.max.min(s.t0) }
        } else {
            Interval { min: self.min.max(s.t0), max: self.max.min(s.t1) }
        }
    }
}

impl AABB {
    pub open spec fn empty_spec() -> AABB {
        AABB { x: Interval::empty_spec(), y: Interval::empty_spec(), z: Interval::empty_spec() }
    }

    pub open spec fn universe_spec() -> AABB {
        AABB {
            x: Interval::universe_spec(),
            y: Interval::universe_spec(),
            z: Interval::universe_spec(),
        }
    }

    /// No bound of the box is a NaN.
    pub open spec fn ordered(self) -> bool {
        self.x.ordered() && self.y.ordered() && self.z.ordered()
    }

    /// The smallest box that holds both boxes.
    pub open spec fn merge_spec(a: AABB, b: AABB) -> AABB {
        AABB {
            x: Interval::merge_spec(a.x, b.x),
            y: Interval::merge_spec(a.y, b.y),
            z: Interval::merge_spec(a.z, b.z),
        }
    }

    /// The box spanned by two corners.
    pub open spec fn spanning_spec(a: Point3, b: Point3) -> AABB {
        AABB {
            x: Interval::spanning_spec(a.x, b.x),
            y: Interval::spanning_spec(a.y, b.y),
            z: Interval::spanning_spec(a.z, b.z),
        }
    }

    /// The range of the box along an axis: 0 for x, 1 for y, anything else
    /// for z.
    pub open spec fn axis_spec(self, axis: int) -> Interval {
        if axis == 0 {
            self.x
        } else if axis == 1 {
            self.y
        } else {
            self.z
        }
    }

    /// The point lies in the box, bounds included.
    pub open spec fn holds(self, p: Point3) -> bool {
        self.x.contains_spec(p.x) && self.y.contains_spec(p.y) && self.z.contains_spec(p.z)
    }

    /// Every bound of `inner` lies within the bounds of `self`.
    pub open spec fn encloses(self, inner: AABB) -> bool {
        &&& self.x.min.le_spec(inner.x.min) && inner.x.max.le_spec(self.x.max)
        &&& self.y.min.le_spec(inner.y.min) && inner.y.max.le_spec(self.y.max)
        &&& self.z.min.le_spec(inner.z.min) && inner.z.max.le_spec(self.z.max)
    }

    /// The slab test: the range of ray parameters is clipped to the x slab,
    /// then to the y slab, then to the z slab, and the ray misses as soon as
    /// nothing is left strictly between the bounds.
    pub open spec fn hit_spec(slabs: [Slab; 3], ray_t: Interval) -> bool {
        let tx = ray_t.clip_slab_spec(slabs[0]);
        let ty = tx.clip_slab_spec(slabs[1]);
        let tz = ty.clip_slab_spec(slabs[2]);
        !tx.exhausted() && !ty.exhausted() && !tz.exhausted()
    }

    pub fn default() -> (r: AABB)
        ensures
            r == Self::empty_spec(),
    {
        AABB { x: Interval::default(), y: Interval::default(), z: Interval::default() }
    }

    pub fn empty() -> (r: AABB)
        ensures
            r == Self::empty_spec(),
    {
        AABB { x: Interval::empty(), y: Interval::empty(), z: Interval::empty() }
    }

    pub fn universe() -> (r: AABB)
        ensures
            r == Self::universe_spec(),
    {
        AABB { x: Interval::universe(), y: Interval::universe(), z: Interval::universe() }
    }

    /// The box with the three ranges as they are given.
    pub fn from_intervals(x: Interval, y: Interval, z: Interval) -> (r: AABB)
        ensures
            r.x == x,
            r.y == y,
            r.z == z,
    {
        AABB { x, y, z }
    }

    /// The box spanned by two corners, as thin as they make it.
    pub fn spanning(a: Point3, b: Point3) -> (r: AABB)
        ensures
            r == Self::spanning_spec(a, b),
    {
        AABB {
            x: Interval::new(a.x.min(b.x), a.x.max(b.x)),
            y: Interval::new(a.y.min(b.y), a.y.max(b.y)),
            z: Interval::new(a.z.min(b.z), a.z.max(b.z)),
        }
    }

    pub fn new_merge(box0: &AABB, box1: &AABB) -> (r: AABB)
        ensures
            r == Self::merge_spec(*box0, *box1),
    {
        AABB {
            x: Interval::new_merge(&box0.x, &box1.x),
            y: Interval::new_merge(&box0.y, &box1.y),
            z: Interval::new_merge(&box0.z, &box1.z),
        }
    }

    pub fn axis_interval(&self, axis: i32) -> (r: Interval)
        requires
            0 <= axis <= 2,
        ensures
            r == self.axis_spec(axis as int),
    {
        if axis == 0 {
            self.x
        } else if axis == 1 {
            self.y
        } else {
            self.z
        }
    }

    /// Decides whether a ray passes through a box within a range of its
    /// parameter, from the three slabs that the ray makes with the box.
    pub fn hit(slabs: &[Slab; 3], ray_t: Interval) -> (r: bool)
        ensures
            r == Self::hit_spec(*slabs, ray_t),
    {
        let tx = ray_t.clip_slab(&slabs[0]);
        if tx.max.le(&tx.min) {
            return false;
        }
        let ty = tx.clip_slab(&slabs[1]);
        if ty.max.le(&ty.min) {
            return false;
        }
        let tz = ty.clip_slab(&slabs[2]);
        !tz.max.le(&tz.min)
    }
}

/// `m` gives the length that the caller's `extent` computes for each range.
pub open spec fn extent_model<F: Fn(Interval) -> Real>(
    extent: &F,
    m: spec_fn(Interval) -> Real,
) -> bool {
    forall|iv: Interval, r: Real| extent.ensures((iv,), r) ==> r == m(iv)
}

/// `m` gives the range that the caller's `expand` computes from a range and
/// the length to add.
pub open spec fn expand_model<G: Fn(Interval, Real) -> Interval>(
    expand: &G,
    m: spec_fn(Interval, Real) -> Interval,
) -> bool {
    forall|iv: Interval, delta: Real, r: Interval|
        expand.ensures((iv, delta), r) ==> r == m(iv, delta)
}

impl Interval {
    /// A range that is shorter than `0.0001` is widened by that much, and
    /// any other is left as it is. `em` gives the length of a range and
    /// `xm` the widened range.
    pub open spec fn padded_spec(
        self,
        em: spec_fn(Interval) -> Real,
        xm: spec_fn(Interval, Real) -> Interval,
    ) -> Interval {
        if em(self).lt_spec(Real { bits: PAD_BITS }) {
            xm(self, Real { bits: PAD_BITS })
        } else {
            self
        }
    }

    fn padded<F: Fn(Interval) -> Real, G: Fn(Interval, Real) -> Interval>(
        self,
        extent: &F,
        expand: &G,
    ) -> (r: Interval)
        requires
            forall|iv: Interval| extent.requires((iv,)),
            forall|iv: Interval, delta: Real| expand.requires((iv, delta)),
        ensures
            forall|em: spec_fn(Interval) -> Real, xm: spec_fn(Interval, Real) -> Interval|
                #![trigger extent_model(extent, em), expand_model(expand, xm)]
                extent_model(extent, em) && expand_model(expand, xm) ==> r == self.padded_spec(
                    em,
                    xm,
                ),
    {
        let delta = Real::from_bits(PAD_BITS);
        if extent(self).lt(&delta) {
            expand(self, delta)
        } else {
            self
        }
    }
}

impl AABB {
    /// The box with each range padded to the least length.
    pub open spec fn padded_spec(
        self,
        em: spec_fn(Interval) -> Real,
        xm: spec_fn(Interval, Real) -> Interval,
    ) -> AABB {
        AABB {
            x: self.x.padded_spec(em, xm),
            y: self.y.padded_spec(em, xm),
            z: self.z.padded_spec(em, xm),
        }
    }

    /// The smallest box that holds all the points, starting from the empty
    /// box.
    pub open spec fn enclosing_spec(points: Seq<Point3>) -> AABB
        decreases points.len(),
    {
        if points.len() == 0 {
            Self::empty_spec()
        } else {
            let before = Self::enclosing_spec(points.drop_last());
            let p = points.last();
            AABB {
                x: Interval { min: before.x.min.min_spec(p.x), max: before.x.max.max_spec(p.x) },
                y: Interval { min: before.y.min.min_spec(p.y), max: before.y.max.max_spec(p.y) },
                z: Interval { min: before.z.min.min_spec(p.z), max: before.z.max.max_spec(p.z) },
            }
        }
    }

    /// Widens each range of the box that is shorter than `0.0001` by that
    /// much, so that no box is flat. `extent` computes the length
    /// `max - min` of a range, and `expand` the range widened by a length,
    /// half of it at each end.
    pub fn pad_to_minimums<F: Fn(Interval) -> Real, G: Fn(Interval, Real) -> Interval>(
        &mut self,
        extent: &F,
        expand: &G,
    )
        requires
            forall|iv: Interval| extent.requires((iv,)),
            forall|iv: Interval, delta: Real| expand.requires((iv, delta)),
        ensures
            forall|em: spec_fn(Interval) -> Real, xm: spec_fn(Interval, Real) -> Interval|
                #![trigger extent_model(extent, em), expand_model(expand, xm)]
                extent_model(extent, em) && expand_model(expand, xm) ==> *final(self) == old(
                    self,
                ).padded_spec(em, xm),
    {
        let x = self.x.padded(extent, expand);
        let y = self.y.padded(extent, expand);
        let z = self.z.padded(extent, expand);
        self.x = x;
        self.y = y;
        self.z = z;
    }

    /// The box of three ranges, padded so that it is not flat.
    pub fn new<F: Fn(Interval) -> Real, G: Fn(Interval, Real) -> Interval>(
        x: Interval,
        y: Interval,
        z: Interval,
        extent: &F,
        expand: &G,
    ) -> (r: AABB)
        requires
            forall|iv: Interval| extent.requires((iv,)),
            forall|iv: Interval, delta: Real| expand.requires((iv, delta)),
        ensures
            forall|em: spec_fn(Interval) -> Real, xm: spec_fn(Interval, Real) -> Interval|
                #![trigger extent_model(extent, em), expand_model(expand, xm)]
                extent_model(extent, em) && expand_model(expand, xm) ==> r == (AABB {
                    x,
                    y,
                    z,
                }).padded_spec(em, xm),
    {
        let mut res = AABB { x, y, z };
        res.pad_to_minimums(extent, expand);
        res
    }

    /// The box spanned by two corners, padded so that it is not flat.
    pub fn new_points<F: Fn(Interval) -> Real, G: Fn(Interval, Real) -> Interval>(
        a: Point3,
        b: Point3,
        extent: &F,
        expand: &G,
    ) -> (r: AABB)
        requires
            forall|iv: Interval| extent.requires((iv,)),
            forall|iv: Interval, delta: Real| expand.requires((iv, delta)),
        ensures
            forall|em: spec_fn(Interval) -> Real, xm: spec_fn(Interval, Real) -> Interval|
                #![trigger extent_model(extent, em), expand_model(expand, xm)]
                extent_model(extent, em) && expand_model(expand, xm) ==> r == Self::spanning_spec(
                    a,
                    b,
                ).padded_spec(em, xm),
    {
        let mut res = Self::spanning(a, b);
        res.pad_to_minimums(extent, expand);
        res
    }

    /// The smallest box that holds all the points.
    pub fn enclosing(points: &Vec<Point3>) -> (r: AABB)
        ensures
            r == Self::enclosing_spec(points@),
    {
        let mut bbox = AABB::empty();
        let mut k: usize = 0;
        while k < points.len()
            invariant
                k <= points@.len(),
                bbox == Self::enclosing_spec(points@.subrange(0, k as int)),
            decreases points@.len() - k,
        {
            proof {
                assert(points@.subrange(0, k + 1).drop_last() =~= points@.subrange(0, k as int));
            }
            let p = points[k];
            bbox = AABB {
                x: Interval::new(bbox.x.min.min(p.x), bbox.x.max.max(p.x)),
                y: Interval::new(bbox.y.min.min(p.y), bbox.y.max.max(p.y)),
                z: Interval::new(bbox.z.min.min(p.z), bbox.z.max.max(p.z)),
            };
            k = k + 1;
        }
        proof {
            assert(points@.subrange(0, points@.len() as int) =~= points@);
        }
        bbox
    }

    /// The axis along which the box is longest, by the lengths `m` of its
    /// three ranges: x only when it is longer than both others, y when it
    /// is at least as long as x and longer than z, and z otherwise.
    pub open spec fn longest_axis_spec(self, m: spec_fn(Interval) -> Real) -> usize {
        if m(self.y).lt_spec(m(self.x)) {
            if m(self.z).lt_spec(m(self.x)) {
                0
            } else {
                2
            }
        } else {
            if m(self.z).lt_spec(m(self.y)) {
                1
            } else {
                2
            }
        }
    }

    /// The axis of greatest extent. `extent` computes the length
    /// `max - min` of a range.
    pub fn longest_axis<F: Fn(Interval) -> Real>(&self, extent: &F) -> (r: usize)
        requires
            forall|iv: Interval| extent.requires((iv,)),
        ensures
            r < 3,
            forall|m: spec_fn(Interval) -> Real| #[trigger]
                extent_model(extent, m) ==> r == self.longest_axis_spec(m),
    {
        let sx = extent(self.x);
        let sy = extent(self.y);
        let sz = extent(self.z);
        if sx.gt(&sy) {
            if sx.gt(&sz) {
                0
            } else {
                2
            }
        } else {
            if sy.gt(&sz) {
                1
            } else {
                2
            }
        }
    }
}

/// The merge of two boxes encloses both, holds every point that either
/// holds, and is enclosed by every box that encloses both.
pub proof fn lemma_merge_is_hull(a: AABB, b: AABB, p: Point3, c: AABB)
    requires
        a.ordered(),
        b.ordered(),
    ensures
        AABB::merge_spec(a, b).ordered(),
        AABB::merge_spec(a, b).encloses(a),
        AABB::merge_spec(a, b).encloses(b),
        a.holds(p) || b.holds(p) ==> AABB::merge_spec(a, b).holds(p),
        c.encloses(a) && c.encloses(b) ==> c.encloses(AABB::merge_spec(a, b)),
{
}

/// The box spanned by two corners that are numbers holds both corners.
pub proof fn lemma_spanning_holds_corners(a: Point3, b: Point3)
    requires
        !a.x.nan() && !a.y.nan() && !a.z.nan(),
        !b.x.nan() && !b.y.nan() && !b.z.nan(),
    ensures
        AABB::spanning_spec(a, b).ordered(),
        AABB::spanning_spec(a, b).holds(a),
        AABB::spanning_spec(a, b).holds(b),
{
}

/// A ray that misses within a range of its parameter misses within every
/// part of that range.
pub proof fn lemma_hit_shrinks(slabs: [Slab; 3], wide: Interval, narrow: Interval)
    requires
        wide.ordered(),
        narrow.ordered(),
        wide.min.le_spec(narrow.min),
        narrow.max.le_spec(wide.max),
        AABB::hit_spec(slabs, narrow),
    ensures
        AABB::hit_spec(slabs, wide),
{
}

impl Slab {
    /// The parameter at which the ray enters the slab.
    pub open spec fn enter(self) -> Real {
        if self.inv_dir.below_zero() {
            self.t1
        } else {
            self.t0
        }
    }

    /// The parameter at which the ray leaves the slab.
    pub open spec fn leave(self) -> Real {
        if self.inv_dir.below_zero() {
            self.t0
        } else {
            self.t1
        }
    }

    /// Neither crossing of the slab is a NaN.
    pub open spec fn crossed(self) -> bool {
        !self.t0.nan() && !self.t1.nan()
    }
}

/// The larger of two integers.
pub open spec fn later(a: int, b: int) -> int {
    if a < b {
        b
    } else {
        a
    }
}

/// The smaller of two integers.
pub open spec fn earlier(a: int, b: int) -> int {
    if a < b {
        a
    } else {
        b
    }
}

/// The rank of the latest entry into the three slabs, the lower bound of
/// the range counted in.
pub open spec fn latest_entry(slabs: [Slab; 3], ray_t: Interval) -> int {
    later(
        later(later(ray_t.min.rank(), slabs[0].enter().rank()), slabs[1].enter().rank()),
        slabs[2].enter().rank(),
    )
}

/// The rank of the earliest exit from the three slabs, the upper bound of
/// the range counted in.
pub open spec fn earliest_exit(slabs: [Slab; 3], ray_t: Interval) -> int {
    earlier(
        earlier(earlier(ray_t.max.rank(), slabs[0].leave().rank()), slabs[1].leave().rank()),
        slabs[2].leave().rank(),
    )
}

/// Clipping a range to a slab moves its lower bound up to the entry and
/// its upper bound down to the exit.
proof fn lemma_clip_ranks(iv: Interval, s: Slab)
    requires
        iv.ordered(),
        s.crossed(),
    ensures
        iv.clip_slab_spec(s).ordered(),
        iv.clip_slab_spec(s).min.rank() == later(iv.min.rank(), s.enter().rank()),
        iv.clip_slab_spec(s).max.rank() == earlier(iv.max.rank(), s.leave().rank()),
{
}

/// The slab test passes exactly when the ray is inside all three slabs at
/// once somewhere within the range: when the latest entry comes before the
/// earliest exit.
pub proof fn lemma_hit_is_common_stretch(slabs: [Slab; 3], ray_t: Interval)
    requires
        ray_t.ordered(),
        slabs[0].crossed(),
        slabs[1].crossed(),
        slabs[2].crossed(),
    ensures
        AABB::hit_spec(slabs, ray_t) <==> latest_entry(slabs, ray_t) < earliest_exit(slabs, ray_t),
{
    let tx = ray_t.clip_slab_spec(slabs[0]);
    let ty = tx.clip_slab_spec(slabs[1]);
    let tz = ty.clip_slab_spec(slabs[2]);
    lemma_clip_ranks(ray_t, slabs[0]);
    lemma_clip_ranks(tx, slabs[1]);
    lemma_clip_ranks(ty, slabs[2]);
    assert(tx.exhausted() <==> tx.max.rank() <= tx.min.rank());
    assert(ty.exhausted() <==> ty.max.rank() <= ty.min.rank());
    assert(tz.exhausted() <==> tz.max.rank() <= tz.min.rank());
}

} // verus!
