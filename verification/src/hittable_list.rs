use vstd::prelude::*;
use crate::aabb::AABB;
use crate::hittable::hit_model;
use crate::hittable::sweep;
use crate::hittable::sweep_spec;
use crate::hittable::HitRecord;
use crate::interval::Interval;
use crate::random::random_int_range;
use crate::random::RandomStream;

verus! {

/// The objects of a scene, each known by its bounding box and addressed by
/// its place in the list, together with the box that holds them all.
#[derive(Debug)]
pub struct HittableList {
    pub boxes: Vec<AABB>,
    pub bbox: AABB,
}

/// The merge of the boxes of a list, starting from the empty box.
pub open spec fn merged(boxes: Seq<AABB>) -> AABB
    decreases boxes.len(),
{
    if boxes.len() == 0 {
        AABB::empty_spec()
    } else {
        AABB::merge_spec(merged(boxes.drop_last()), boxes.last())
    }
}

impl HittableList {
    /// No box of the list has a NaN bound.
    pub open spec fn ordered(self) -> bool {
        forall|p: int| 0 <= p < self.boxes@.len() ==> (#[trigger] self.boxes@[p]).ordered()
    }

    pub fn new() -> (r: HittableList)
        ensures
            r.boxes@.len() == 0,
            r.bbox == AABB::empty_spec(),
    {
        HittableList { boxes: Vec::new(), bbox: AABB::default() }
    }

    /// Removes the objects. The box of the list stays as it was.
    pub fn clear(&mut self)
        ensures
            final(self).boxes@.len() == 0,
            final(self).bbox == old(self).bbox,
    {
        self.boxes.clear();
    }

    /// Adds an object by its bounding box. Its handle is the number of
    /// objects that were in the list before.
    pub fn add(&mut self, bbox: AABB)
        ensures
            final(self).boxes@ == old(self).boxes@.push(bbox),
            final(self).bbox == AABB::merge_spec(old(self).bbox, bbox),
    {
        self.boxes.push(bbox);
        self.bbox = AABB::new_merge(&self.bbox, &bbox);
    }

    pub fn len(&self) -> (n: usize)
        ensures
            n == self.boxes@.len(),
    {
        self.boxes.len()
    }

    pub fn bounding_box(&self) -> (r: AABB)
        ensures
            r == self.bbox,
    {
        self.bbox
    }

    /// Tells whether every box has bounds that are numbers.
    pub fn is_ordered(&self) -> (r: bool)
        ensures
            r == self.ordered(),
    {
        let mut k: usize = 0;
        while k < self.boxes.len()
            invariant
                k <= self.boxes@.len(),
                forall|p: int| 0 <= p < k ==> (#[trigger] self.boxes@[p]).ordered(),
            decreases self.boxes@.len() - k,
        {
            let b = &self.boxes[k];
            if b.x.min.is_nan() || b.x.max.is_nan() || b.y.min.is_nan() || b.y.max.is_nan()
                || b.z.min.is_nan() || b.z.max.is_nan() {
                return false;
            }
            k = k + 1;
        }
        true
    }

    /// Draws the handle of one object of the list.
    pub fn pick(&self, rng: &mut RandomStream) -> (r: usize)
        requires
            1 <= self.boxes@.len() <= i32::MAX,
        ensures
            r < self.boxes@.len(),
    {
        let int_size = self.boxes.len() as i32;
        random_int_range(rng, 0, int_size - 1) as usize
    }

    /// Finds the closest hit of a ray with the objects of the list within
    /// `ray_t`: each object is tested, by `test`, within the range that the
    /// hits before it have left.
    pub fn hit<F: Fn(usize, Interval) -> Option<HitRecord>>(&self, ray_t: Interval, test: &F) -> (r:
        Option<HitRecord>)
        requires
            forall|i: usize, iv: Interval| i < self.boxes@.len() ==> test.requires((i, iv)),
        ensures
            self.boxes@.len() == 0 ==> r is None,
            forall|m: spec_fn(usize, Interval) -> Option<HitRecord>| #[trigger]
                hit_model(test, m) ==> r == sweep_spec(self.boxes@.len(), ray_t, m).best,
    {
        sweep(self.boxes.len(), ray_t, test)
    }
}

/// A list that was filled by `add` alone, from the empty list, has the
/// merge of its boxes as its box.
pub proof fn lemma_add_keeps_merged(before: HittableList, bbox: AABB)
    requires
        before.bbox == merged(before.boxes@),
    ensures
        AABB::merge_spec(before.bbox, bbox) == merged(before.boxes@.push(bbox)),
{
    assert(before.boxes@.push(bbox).drop_last() =~= before.boxes@);
}

} // verus!
