use vstd::prelude::*;
use crate::aabb::lemma_merge_is_hull;
use crate::aabb::Slab;
use crate::aabb::AABB;
use crate::bvh::handles;
use crate::bvh::lemma_sorted_run_same_objects;
use crate::bvh::run_ok;
use crate::bvh::sorted_run;
use crate::bvh::union_box;
use crate::bvh::BvhChild;
use crate::bvh::BvhNode;
use crate::hittable::sweep_spec;
use crate::hittable::HitRecord;
use crate::hittable::HitState;
use crate::interval::Interval;
use crate::scalar::Real;
use crate::vec3::Vec3;

verus! {

/// What a test within the bound `c` returns of an object whose first hit
/// beyond the lower bound is `candidate`: that hit when its parameter lies
/// below `c`, or at `c` for an object whose test counts the bound in, and
/// otherwise nothing.
pub open spec fn visible(candidate: Option<HitRecord>, closed: bool, c: Real) -> Option<HitRecord> {
    match candidate {
        Some(rec) => if rec.t.rank() < c.rank() || (closed && rec.t.rank() == c.rank()) {
            candidate
        } else {
            None
        },
        None => None,
    }
}

/// The tests of one ray against `n` objects behave as tests for the
/// closest hit do: object `i` has at most one candidate `first(i)`, whose
/// parameter is a number, and a test within `[t_min, c]` returns what is
/// visible of it within `c`.
pub open spec fn closest_hit_tests(
    lm: spec_fn(usize, Interval) -> Option<HitRecord>,
    t_min: Real,
    n: nat,
    first: spec_fn(usize) -> Option<HitRecord>,
    closed: spec_fn(usize) -> bool,
) -> bool {
    &&& forall|i: usize, c: Real|
        i < n && !c.nan() ==> #[trigger] lm(i, Interval { min: t_min, max: c }) == visible(
            first(i),
            closed(i),
            c,
        )
    &&& forall|i: usize| i < n && first(i) is Some ==> !(#[trigger] first(i))->0.t.nan()
}

/// The boxes are conservative: whenever an object is hit within a range,
/// the slab test passes within that range for every box that encloses the
/// object's box.
pub open spec fn boxes_hold_hits(
    sm: spec_fn(AABB) -> [Slab; 3],
    lm: spec_fn(usize, Interval) -> Option<HitRecord>,
    boxes: Seq<AABB>,
    t_min: Real,
) -> bool {
    forall|i: usize, b: AABB, c: Real|
        #![trigger b.encloses(boxes[i as int]), lm(i, Interval { min: t_min, max: c })]
        i < boxes.len() && b.encloses(boxes[i as int]) && !c.nan() && lm(
            i,
            Interval { min: t_min, max: c },
        ) is Some ==> AABB::hit_spec(sm(b), Interval { min: t_min, max: c })
}

/// No two objects have visible candidates at the same parameter, unless
/// they report the same record.
pub open spec fn no_ties(
    n: nat,
    t_max: Real,
    first: spec_fn(usize) -> Option<HitRecord>,
    closed: spec_fn(usize) -> bool,
) -> bool {
    forall|i: usize, j: usize|
        #![trigger first(i), first(j)]
        i < n && j < n && visible(first(i), closed(i), t_max) is Some && visible(
            first(j),
            closed(j),
            t_max,
        ) is Some && first(i)->0.t.rank() == first(j)->0.t.rank() ==> first(i) == first(j)
}

/// The state is the one before any test, or holds the candidate of an
/// object that is visible within `t_max`.
pub open spec fn settled(
    st: HitState,
    t_max: Real,
    n: nat,
    first: spec_fn(usize) -> Option<HitRecord>,
    closed: spec_fn(usize) -> bool,
) -> bool {
    ||| st == HitState::start(t_max)
    ||| exists|j: usize|
        j < n && #[trigger] visible(first(j), closed(j), t_max) is Some && st.best == first(j)
            && st.closest == first(j)->0.t
}

/// The state accounts for an object: if the object's candidate is visible
/// within `t_max`, something was hit, and nothing farther than it.
pub open spec fn absorbed(st: HitState, candidate: Option<HitRecord>, closed: bool, t_max: Real) -> bool {
    visible(candidate, closed, t_max) is Some ==> st.best is Some && st.closest.rank()
        <= candidate->0.t.rank()
}

/// One test of an object, from a settled state, leaves a settled state
/// that accounts for the object and whose bound is no higher.
proof fn lemma_test_step(
    st: HitState,
    i: usize,
    t_min: Real,
    t_max: Real,
    n: nat,
    lm: spec_fn(usize, Interval) -> Option<HitRecord>,
    first: spec_fn(usize) -> Option<HitRecord>,
    closed: spec_fn(usize) -> bool,
)
    requires
        i < n,
        !t_max.nan(),
        closest_hit_tests(lm, t_min, n, first, closed),
        settled(st, t_max, n, first, closed),
    ensures
        ({
            let after = st.accept_spec(lm(i, st.window(t_min)));
            &&& settled(after, t_max, n, first, closed)
            &&& absorbed(after, first(i), closed(i), t_max)
            &&& after.closest.rank() <= st.closest.rank()
            &&& st.best is Some ==> after.best is Some
        }),
{
    let c = st.closest;
    if st != HitState::start(t_max) {
        let j = choose|j: usize|
            j < n && #[trigger] visible(first(j), closed(j), t_max) is Some && st.best == first(j)
                && st.closest == first(j)->0.t;
        assert(first(j) is Some);
        assert(!c.nan());
    }
    assert(!c.nan());
    assert(c.rank() <= t_max.rank());
    let found = lm(i, Interval { min: t_min, max: c });
    assert(found == visible(first(i), closed(i), c));
    let after = st.accept_spec(found);
    if found is Some {
        assert(visible(first(i), closed(i), t_max) is Some);
    }
}

/// A state that accounts for an object keeps doing so when something
/// stays hit and the bound gets no higher.
proof fn lemma_absorbed_stays(
    st: HitState,
    after: HitState,
    candidate: Option<HitRecord>,
    closed: bool,
    t_max: Real,
)
    requires
        absorbed(st, candidate, closed, t_max),
        after.closest.rank() <= st.closest.rank(),
        st.best is Some ==> after.best is Some,
    ensures
        absorbed(after, candidate, closed, t_max),
{
}

impl BvhNode {
    /// The box of a sound tree encloses the box of every object that stands
    /// in the tree.
    pub proof fn lemma_box_encloses_objects(self, boxes: Seq<AABB>, i: usize)
        requires
            self.sound(boxes),
            self.mentions(i),
        ensures
            i < boxes.len(),
            self.bbox.encloses(boxes[i as int]),
        decreases self,
    {
        match self.left {
            BvhChild::Leaf(p) => {},
            BvhChild::Node(sub) => {
                if sub.mentions(i) {
                    sub.lemma_box_encloses_objects(boxes, i);
                }
            },
        }
        match self.right {
            BvhChild::Leaf(p) => {},
            BvhChild::Node(sub) => {
                if sub.mentions(i) {
                    sub.lemma_box_encloses_objects(boxes, i);
                }
            },
        }
    }

    /// The walk of a sound tree, from a settled state, leaves a settled
    /// state that accounts for every object of the tree, and whose bound is
    /// no higher.
    proof fn lemma_walk_settles(
        self,
        st: HitState,
        boxes: Seq<AABB>,
        t_min: Real,
        t_max: Real,
        sm: spec_fn(AABB) -> [Slab; 3],
        lm: spec_fn(usize, Interval) -> Option<HitRecord>,
        first: spec_fn(usize) -> Option<HitRecord>,
        closed: spec_fn(usize) -> bool,
    )
        requires
            !t_max.nan(),
            self.sound(boxes),
            closest_hit_tests(lm, t_min, boxes.len(), first, closed),
            boxes_hold_hits(sm, lm, boxes, t_min),
            settled(st, t_max, boxes.len(), first, closed),
        ensures
            ({
                let after = self.walk_spec(t_min, st, sm, lm);
                &&& settled(after, t_max, boxes.len(), first, closed)
                &&& after.closest.rank() <= st.closest.rank()
                &&& st.best is Some ==> after.best is Some
                &&& forall|i: usize| #[trigger]
                    self.mentions(i) ==> absorbed(after, first(i), closed(i), t_max)
            }),
        decreases self,
    {
        let n = boxes.len();
        let c = st.closest;
        if st != HitState::start(t_max) {
            let j = choose|j: usize|
                j < n && #[trigger] visible(first(j), closed(j), t_max) is Some && st.best == first(
                    j,
                ) && st.closest == first(j)->0.t;
            assert(first(j) is Some);
        }
        assert(!c.nan());
        if !AABB::hit_spec(sm(self.bbox), st.window(t_min)) {
            assert forall|i: usize| #[trigger] self.mentions(i) implies absorbed(
                st,
                first(i),
                closed(i),
                t_max,
            ) by {
                self.lemma_box_encloses_objects(boxes, i);
                if visible(first(i), closed(i), t_max) is Some && !(st.best is Some
                    && st.closest.rank() <= first(i)->0.t.rank()) {
                    assert(lm(i, Interval { min: t_min, max: c }) == visible(
                        first(i),
                        closed(i),
                        c,
                    ));
                    assert(lm(i, Interval { min: t_min, max: c }) is Some);
                    assert(self.bbox.encloses(boxes[i as int]));
                    assert(false);
                }
            }
        } else {
            let after_left = match self.left {
                BvhChild::Leaf(p) => st.accept_spec(lm(p, st.window(t_min))),
                BvhChild::Node(sub) => sub.walk_spec(t_min, st, sm, lm),
            };
            match self.left {
                BvhChild::Leaf(p) => {
                    lemma_test_step(st, p, t_min, t_max, n, lm, first, closed);
                },
                BvhChild::Node(sub) => {
                    sub.lemma_walk_settles(st, boxes, t_min, t_max, sm, lm, first, closed);
                },
            }
            let after = match self.right {
                BvhChild::Leaf(q) => after_left.accept_spec(lm(q, after_left.window(t_min))),
                BvhChild::Node(sub) => sub.walk_spec(t_min, after_left, sm, lm),
            };
            match self.right {
                BvhChild::Leaf(q) => {
                    lemma_test_step(after_left, q, t_min, t_max, n, lm, first, closed);
                },
                BvhChild::Node(sub) => {
                    sub.lemma_walk_settles(after_left, boxes, t_min, t_max, sm, lm, first, closed);
                },
            }
            assert(after == self.walk_spec(t_min, st, sm, lm));
            assert forall|i: usize| #[trigger] self.mentions(i) implies absorbed(
                after,
                first(i),
                closed(i),
                t_max,
            ) by {
                let in_left = match self.left {
                    BvhChild::Leaf(p) => p == i,
                    BvhChild::Node(sub) => sub.mentions(i),
                };
                let in_right = match self.right {
                    BvhChild::Leaf(q) => q == i,
                    BvhChild::Node(sub) => sub.mentions(i),
                };
                assert(in_left || in_right);
                if in_left {
                    assert(absorbed(after_left, first(i), closed(i), t_max));
                    lemma_absorbed_stays(after_left, after, first(i), closed(i), t_max);
                } else {
                    assert(absorbed(after, first(i), closed(i), t_max));
                }
            }
        }
    }
}

/// The sweep over the first `k` objects leaves a settled state that
/// accounts for each of them.
proof fn lemma_sweep_settles(
    k: nat,
    n: nat,
    ray_t: Interval,
    lm: spec_fn(usize, Interval) -> Option<HitRecord>,
    first: spec_fn(usize) -> Option<HitRecord>,
    closed: spec_fn(usize) -> bool,
)
    requires
        k <= n <= usize::MAX,
        !ray_t.max.nan(),
        closest_hit_tests(lm, ray_t.min, n, first, closed),
    ensures
        settled(sweep_spec(k, ray_t, lm), ray_t.max, n, first, closed),
        forall|i: usize|
            i < k ==> absorbed(sweep_spec(k, ray_t, lm), #[trigger] first(i), closed(i), ray_t.max),
    decreases k,
{
    if k > 0 {
        let before = sweep_spec((k - 1) as nat, ray_t, lm);
        let after = sweep_spec(k, ray_t, lm);
        lemma_sweep_settles((k - 1) as nat, n, ray_t, lm, first, closed);
        lemma_test_step(before, (k - 1) as usize, ray_t.min, ray_t.max, n, lm, first, closed);
        assert forall|i: usize| i < k implies absorbed(
            after,
            #[trigger] first(i),
            closed(i),
            ray_t.max,
        ) by {
            if i < k - 1 {
                lemma_absorbed_stays(before, after, first(i), closed(i), ray_t.max);
            }
        }
    }
}

/// The sweep over a list finds the closest hit. Let the tests of a ray
/// against `n` objects be tests for the closest hit. Then the sweep finds
/// nothing exactly when no object has a candidate that is visible within
/// the range; and what it finds is the candidate of one of the objects,
/// visible within the range, and no farther than any other such candidate.
pub proof fn lemma_sweep_finds_closest(
    n: nat,
    ray_t: Interval,
    lm: spec_fn(usize, Interval) -> Option<HitRecord>,
    first: spec_fn(usize) -> Option<HitRecord>,
    closed: spec_fn(usize) -> bool,
)
    requires
        n <= usize::MAX,
        !ray_t.max.nan(),
        closest_hit_tests(lm, ray_t.min, n, first, closed),
    ensures
        ({
            let found = sweep_spec(n, ray_t, lm).best;
            &&& found is None <==> forall|i: usize|
                i < n ==> #[trigger] visible(first(i), closed(i), ray_t.max) is None
            &&& found is Some ==> exists|j: usize|
                j < n && #[trigger] visible(first(j), closed(j), ray_t.max) is Some && found
                    == first(j)
            &&& found is Some ==> forall|i: usize|
                i < n && #[trigger] visible(first(i), closed(i), ray_t.max) is Some
                    ==> found->0.t.rank() <= first(i)->0.t.rank()
        }),
{
    let st = sweep_spec(n, ray_t, lm);
    lemma_sweep_settles(n, n, ray_t, lm, first, closed);
    if st.best is None {
        assert forall|i: usize| i < n implies #[trigger] visible(
            first(i),
            closed(i),
            ray_t.max,
        ) is None by {
            assert(absorbed(st, first(i), closed(i), ray_t.max));
        }
    } else {
        assert(st != HitState::start(ray_t.max));
        let j = choose|j: usize|
            j < n && #[trigger] visible(first(j), closed(j), ray_t.max) is Some && st.best == first(
                j,
            ) && st.closest == first(j)->0.t;
        assert forall|i: usize|
            i < n && #[trigger] visible(first(i), closed(i), ray_t.max) is Some implies st.best->0.t.rank()
            <= first(i)->0.t.rank() by {
            assert(absorbed(st, first(i), closed(i), ray_t.max));
        }
    }
}

/// Two settled states that both account for every object agree on whether
/// anything was hit and on how far the closest hit lies, and hold the same
/// record when no two objects tie.
proof fn lemma_settled_agree(
    a: HitState,
    b: HitState,
    t_max: Real,
    n: nat,
    first: spec_fn(usize) -> Option<HitRecord>,
    closed: spec_fn(usize) -> bool,
)
    requires
        settled(a, t_max, n, first, closed),
        settled(b, t_max, n, first, closed),
        forall|i: usize| i < n ==> absorbed(a, #[trigger] first(i), closed(i), t_max),
        forall|i: usize| i < n ==> absorbed(b, #[trigger] first(i), closed(i), t_max),
    ensures
        a.best is None <==> b.best is None,
        a.best is Some ==> a.best->0.t.rank() == b.best->0.t.rank(),
        no_ties(n, t_max, first, closed) ==> a.best == b.best,
{
    if a != HitState::start(t_max) {
        let j = choose|j: usize|
            j < n && #[trigger] visible(first(j), closed(j), t_max) is Some && a.best == first(j)
                && a.closest == first(j)->0.t;
        assert(absorbed(b, first(j), closed(j), t_max));
        assert(b != HitState::start(t_max));
        let k = choose|k: usize|
            k < n && #[trigger] visible(first(k), closed(k), t_max) is Some && b.best == first(k)
                && b.closest == first(k)->0.t;
        assert(absorbed(a, first(k), closed(k), t_max));
        assert(first(j)->0.t.rank() == first(k)->0.t.rank());
        if no_ties(n, t_max, first, closed) {
            assert(first(j) == first(k));
        }
    } else if b != HitState::start(t_max) {
        let k = choose|k: usize|
            k < n && #[trigger] visible(first(k), closed(k), t_max) is Some && b.best == first(k)
                && b.closest == first(k)->0.t;
        assert(absorbed(a, first(k), closed(k), t_max));
    }
}

/// The tree built over a run of objects is sound and holds exactly the
/// objects of the run.
pub proof fn lemma_build_sound(boxes: Seq<AABB>, prims: Seq<usize>, em: spec_fn(Interval) -> Real)
    requires
        1 <= prims.len() <= usize::MAX,
        run_ok(boxes, prims),
    ensures
        BvhNode::build_spec(boxes, prims, em).sound(boxes),
        forall|i: usize| #[trigger]
            BvhNode::build_spec(boxes, prims, em).mentions(i) <==> prims.contains(i),
    decreases prims.len(),
{
    let tree = BvhNode::build_spec(boxes, prims, em);
    let axis = union_box(boxes, prims).longest_axis_spec(em) as int;
    let origin = Vec3 { x: Real { bits: 0 }, y: Real { bits: 0 }, z: Real { bits: 0 } };
    if prims.len() == 1 {
        let p = prims[0];
        lemma_merge_is_hull(boxes[p as int], boxes[p as int], origin, boxes[p as int]);
        assert forall|i: usize| tree.mentions(i) <==> prims.contains(i) by {
            if prims.contains(i) {
                let k = choose|k: int| 0 <= k < prims.len() && prims[k] == i;
            }
        }
    } else if prims.len() == 2 {
        let p = prims[0];
        let q = prims[1];
        lemma_merge_is_hull(boxes[p as int], boxes[q as int], origin, boxes[p as int]);
        lemma_merge_is_hull(boxes[q as int], boxes[p as int], origin, boxes[p as int]);
        assert forall|i: usize| tree.mentions(i) <==> prims.contains(i) by {
            if prims.contains(i) {
                let k = choose|k: int| 0 <= k < prims.len() && prims[k] == i;
            }
        }
    } else {
        let n = prims.len() as int;
        let sorted = sorted_run(boxes, prims, axis);
        let mid = n / 2;
        let head = sorted.subrange(0, mid);
        let tail = sorted.subrange(mid, n);
        let left = BvhNode::build_spec(boxes, head, em);
        let right = BvhNode::build_spec(boxes, tail, em);
        assert forall|k: int| 0 <= k < sorted.len() implies (#[trigger] sorted[k]) < boxes.len() by {
            lemma_sorted_run_same_objects(boxes, prims, axis, sorted[k]);
            assert(sorted.contains(sorted[k]));
            let j = choose|j: int| 0 <= j < prims.len() && prims[j] == sorted[k];
        }
        lemma_build_sound(boxes, head, em);
        lemma_build_sound(boxes, tail, em);
        lemma_merge_is_hull(left.bbox, right.bbox, origin, left.bbox);
        assert(tree.left == BvhChild::Node(Box::new(left)));
        assert(tree.right == BvhChild::Node(Box::new(right)));
        assert(tree.sound(boxes));
        assert forall|i: usize| tree.mentions(i) <==> prims.contains(i) by {
            lemma_sorted_run_same_objects(boxes, prims, axis, i);
            assert(tree.mentions(i) == (left.mentions(i) || right.mentions(i)));
            if head.contains(i) {
                let k = choose|k: int| 0 <= k < head.len() && head[k] == i;
                assert(sorted[k] == i);
            }
            if tail.contains(i) {
                let k = choose|k: int| 0 <= k < tail.len() && tail[k] == i;
                assert(sorted[mid + k] == i);
            }
            if sorted.contains(i) {
                let k = choose|k: int| 0 <= k < sorted.len() && sorted[k] == i;
                if k < mid {
                    assert(head[k] == i);
                } else {
                    assert(tail[k - mid] == i);
                }
            }
        }
    }
}

/// The hierarchy built over a list finds what the sweep over the list
/// finds. Let the list hold at least one object and no box with a NaN
/// bound, the tests of a ray against its objects be tests for the closest
/// hit, and the boxes be conservative. Then, whatever lengths `em` gives,
/// the built tree hits something exactly when the sweep does, the two hits
/// lie equally far, and they are the same record when no two objects tie.
pub proof fn lemma_bvh_matches_list(
    boxes: Seq<AABB>,
    em: spec_fn(Interval) -> Real,
    ray_t: Interval,
    sm: spec_fn(AABB) -> [Slab; 3],
    lm: spec_fn(usize, Interval) -> Option<HitRecord>,
    first: spec_fn(usize) -> Option<HitRecord>,
    closed: spec_fn(usize) -> bool,
)
    requires
        1 <= boxes.len() <= usize::MAX,
        forall|p: int| 0 <= p < boxes.len() ==> (#[trigger] boxes[p]).ordered(),
        !ray_t.max.nan(),
        closest_hit_tests(lm, ray_t.min, boxes.len(), first, closed),
        boxes_hold_hits(sm, lm, boxes, ray_t.min),
    ensures
        ({
            let tree = BvhNode::build_spec(boxes, handles(boxes.len()), em);
            let by_tree = tree.hit_spec(ray_t, sm, lm);
            let by_list = sweep_spec(boxes.len(), ray_t, lm).best;
            &&& by_tree is None <==> by_list is None
            &&& by_tree is Some ==> by_tree->0.t.rank() == by_list->0.t.rank()
            &&& no_ties(boxes.len(), ray_t.max, first, closed) ==> by_tree == by_list
        }),
{
    let all = handles(boxes.len());
    let tree = BvhNode::build_spec(boxes, all, em);
    lemma_build_sound(boxes, all, em);
    assert forall|i: usize| i < boxes.len() implies #[trigger] tree.mentions(i) by {
        assert(all[i as int] == i);
        assert(all.contains(i));
    }
    lemma_walk_matches_sweep(tree, boxes, ray_t, sm, lm, first, closed);
}

/// The walk of a tree finds what the sweep over the list finds. Let the
/// tests of a ray against `boxes.len()` objects be tests for the closest
/// hit, the boxes conservative, and the tree sound and holding every
/// object. Then the walk hits something exactly when the sweep does, the
/// two hits lie equally far, and they are the same record when no two
/// objects tie.
pub proof fn lemma_walk_matches_sweep(
    tree: BvhNode,
    boxes: Seq<AABB>,
    ray_t: Interval,
    sm: spec_fn(AABB) -> [Slab; 3],
    lm: spec_fn(usize, Interval) -> Option<HitRecord>,
    first: spec_fn(usize) -> Option<HitRecord>,
    closed: spec_fn(usize) -> bool,
)
    requires
        boxes.len() <= usize::MAX,
        !ray_t.max.nan(),
        tree.sound(boxes),
        forall|i: usize| i < boxes.len() ==> #[trigger] tree.mentions(i),
        closest_hit_tests(lm, ray_t.min, boxes.len(), first, closed),
        boxes_hold_hits(sm, lm, boxes, ray_t.min),
    ensures
        ({
            let by_tree = tree.hit_spec(ray_t, sm, lm);
            let by_list = sweep_spec(boxes.len(), ray_t, lm).best;
            &&& by_tree is None <==> by_list is None
            &&& by_tree is Some ==> by_tree->0.t.rank() == by_list->0.t.rank()
            &&& no_ties(boxes.len(), ray_t.max, first, closed) ==> by_tree == by_list
        }),
{
    let n = boxes.len();
    let start = HitState::start(ray_t.max);
    let a = tree.walk_spec(ray_t.min, start, sm, lm);
    let b = sweep_spec(n, ray_t, lm);
    tree.lemma_walk_settles(start, boxes, ray_t.min, ray_t.max, sm, lm, first, closed);
    lemma_sweep_settles(n, n, ray_t, lm, first, closed);
    assert forall|i: usize| i < n implies absorbed(a, #[trigger] first(i), closed(i), ray_t.max) by {
        assert(tree.mentions(i));
    }
    lemma_settled_agree(a, b, ray_t.max, n, first, closed);
}

} // verus!
