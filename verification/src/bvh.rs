use vstd::prelude::*;
use crate::aabb::extent_model;
use crate::aabb::lemma_merge_is_hull;
use crate::aabb::AABB;
use crate::aabb::Slab;
use crate::hittable::hit_model;
use crate::hittable::HitRecord;
use crate::hittable::HitState;
use crate::hittable_list::HittableList;
use crate::interval::Interval;
use crate::scalar::Real;
use vstd::relations::sorted_by;
use vstd::relations::total_ordering;
use vstd::seq_lib::lemma_sorted_unique;

verus! {

/// `a` does not come after `b`: by the key first, then by the position.
pub open spec fn pair_leq() -> spec_fn((i64, usize), (i64, usize)) -> bool {
    |a: (i64, usize), b: (i64, usize)| a.0 < b.0 || (a.0 == b.0 && a.1 <= b.1)
}

/// Sorts pairs of integers in ascending order with `<[T]>::sort`: by the
/// first component, and by the second where the first are equal. The
/// contract claims what std documents of it: the result holds the same
/// pairs as before, each as often, in ascending order.
#[verifier::external_body]
fn sort_pairs(v: &mut Vec<(i64, usize)>)
    ensures
        final(v)@.to_multiset() == old(v)@.to_multiset(),
        sorted_by(final(v)@, pair_leq()),
{
    v.sort();
}

/// The key by which the objects are ordered along an axis: the rank of the
/// lower bound of the object's box.
pub open spec fn sort_key(boxes: Seq<AABB>, prim: usize, axis: int) -> int {
    boxes[prim as int].axis_spec(axis).min.rank()
}

/// Each object of a run with its key and its place in the run.
pub open spec fn keyed(boxes: Seq<AABB>, prims: Seq<usize>, axis: int) -> Seq<(i64, usize)> {
    Seq::new(prims.len(), |k: int| (sort_key(boxes, prims[k], axis) as i64, k as usize))
}

/// The run in ascending order of the keys, objects of equal key staying in
/// the order they had.
pub open spec fn sorted_run(boxes: Seq<AABB>, prims: Seq<usize>, axis: int) -> Seq<usize> {
    let order = keyed(boxes, prims, axis).sort_by(pair_leq());
    Seq::new(prims.len(), |k: int| prims[order[k].1 as int])
}

/// The merge of the boxes of a run of objects, starting from the empty box.
pub open spec fn union_box(boxes: Seq<AABB>, prims: Seq<usize>) -> AABB
    decreases prims.len(),
{
    if prims.len() == 0 {
        AABB::empty_spec()
    } else {
        AABB::merge_spec(union_box(boxes, prims.drop_last()), boxes[prims.last() as int])
    }
}

/// The handles `0, 1, .., n - 1` in ascending order.
pub open spec fn handles(n: nat) -> Seq<usize> {
    Seq::new(n, |k: int| k as usize)
}

/// The handles of a run are handles of `boxes`, and no box has a NaN bound.
pub open spec fn run_ok(boxes: Seq<AABB>, prims: Seq<usize>) -> bool {
    &&& forall|k: int| 0 <= k < prims.len() ==> (#[trigger] prims[k]) < boxes.len()
    &&& forall|p: int| 0 <= p < boxes.len() ==> (#[trigger] boxes[p]).ordered()
}

/// One side of a node: a single object, by its handle, or a subtree.
#[derive(Debug)]
pub enum BvhChild {
    Leaf(usize),
    Node(Box<BvhNode>),
}

/// A node of the bounding-volume hierarchy: two sides, and the box that
/// holds the boxes of both.
#[derive(Debug)]
pub struct BvhNode {
    pub left: BvhChild,
    pub right: BvhChild,
    pub bbox: AABB,
}

/// `m` gives the three slabs that the caller's `slabs_of` computes for the
/// ray and each box.
pub open spec fn slab_model<S: Fn(AABB) -> [Slab; 3]>(
    slabs_of: &S,
    m: spec_fn(AABB) -> [Slab; 3],
) -> bool {
    forall|b: AABB, r: [Slab; 3]| slabs_of.ensures((b,), r) ==> r == m(b)
}

/// `pair_leq` is a total order.
proof fn lemma_pair_leq_total()
    ensures
        total_ordering(pair_leq()),
{
    let leq = pair_leq();
    assert forall|x: (i64, usize), y: (i64, usize)| #[trigger] leq(x, y) && #[trigger] leq(y, x) implies x == y by {
        assert(x.0 == y.0 && x.1 == y.1);
    }
}

/// Sorting a run keeps its objects: the sorted run holds handles of the
/// run, at every place.
proof fn lemma_sorted_run_in_run(boxes: Seq<AABB>, prims: Seq<usize>, axis: int, k: int)
    requires
        0 <= k < prims.len(),
    ensures
        0 <= keyed(boxes, prims, axis).sort_by(pair_leq())[k].1 < prims.len(),
        keyed(boxes, prims, axis).sort_by(pair_leq()).len() == prims.len(),
{
    broadcast use vstd::seq_lib::group_to_multiset_ensures;

    let pairs = keyed(boxes, prims, axis);
    let order = pairs.sort_by(pair_leq());
    lemma_pair_leq_total();
    pairs.lemma_sort_by_ensures(pair_leq());
    assert(order.to_multiset().len() == order.len());
    assert(pairs.to_multiset().len() == pairs.len());
    assert(order.to_multiset() == pairs.to_multiset());
    assert(order.contains(order[k]));
    assert(pairs.contains(order[k]));
}

/// A sorted run holds the objects of the run, and no others.
pub proof fn lemma_sorted_run_same_objects(boxes: Seq<AABB>, prims: Seq<usize>, axis: int, p: usize)
    requires
        prims.len() <= usize::MAX,
    ensures
        sorted_run(boxes, prims, axis).contains(p) <==> prims.contains(p),
        sorted_run(boxes, prims, axis).len() == prims.len(),
{
    broadcast use vstd::seq_lib::group_to_multiset_ensures;

    let pairs = keyed(boxes, prims, axis);
    let order = pairs.sort_by(pair_leq());
    let sorted = sorted_run(boxes, prims, axis);
    lemma_pair_leq_total();
    pairs.lemma_sort_by_ensures(pair_leq());
    if sorted.contains(p) {
        let k = choose|k: int| 0 <= k < sorted.len() && sorted[k] == p;
        lemma_sorted_run_in_run(boxes, prims, axis, k);
        assert(prims[order[k].1 as int] == p);
    }
    if prims.contains(p) {
        let j = choose|j: int| 0 <= j < prims.len() && prims[j] == p;
        assert(pairs[j].1 == j);
        assert(pairs.contains(pairs[j]));
        assert(pairs.to_multiset().count(pairs[j]) > 0);
        assert(order.to_multiset().count(pairs[j]) > 0);
        assert(order.contains(pairs[j]));
        let k = choose|k: int| 0 <= k < order.len() && order[k] == pairs[j];
        assert(order.to_multiset().len() == order.len());
        assert(pairs.to_multiset().len() == pairs.len());
        assert(sorted[k] == p);
    }
}

/// Both halves of a sorted run are runs of handles of `boxes`.
proof fn lemma_run_parts_ok(boxes: Seq<AABB>, prims: Seq<usize>, axis: int, mid: int)
    requires
        run_ok(boxes, prims),
        0 <= mid <= prims.len(),
    ensures
        run_ok(boxes, sorted_run(boxes, prims, axis).subrange(0, mid)),
        run_ok(boxes, sorted_run(boxes, prims, axis).subrange(mid, prims.len() as int)),
{
    let sorted = sorted_run(boxes, prims, axis);
    assert forall|k: int| 0 <= k < sorted.len() implies (#[trigger] sorted[k]) < boxes.len() by {
        lemma_sorted_run_in_run(boxes, prims, axis, k);
    }
}

/// The merge of the boxes of a run.
fn union_of(boxes: &Vec<AABB>, prims: &Vec<usize>) -> (r: AABB)
    requires
        run_ok(boxes@, prims@),
    ensures
        r == union_box(boxes@, prims@),
{
    let mut bbox = AABB::empty();
    let mut k: usize = 0;
    while k < prims.len()
        invariant
            k <= prims.len(),
            run_ok(boxes@, prims@),
            bbox == union_box(boxes@, prims@.subrange(0, k as int)),
        decreases prims.len() - k,
    {
        proof {
            let upto = prims@.subrange(0, k + 1);
            assert(upto.drop_last() =~= prims@.subrange(0, k as int));
        }
        bbox = AABB::new_merge(&bbox, &boxes[prims[k]]);
        k = k + 1;
    }
    proof {
        assert(prims@.subrange(0, prims.len() as int) =~= prims@);
    }
    bbox
}

/// The run in ascending order of the keys along an axis.
fn sort_run(boxes: &Vec<AABB>, prims: &Vec<usize>, axis: usize) -> (r: Vec<usize>)
    requires
        run_ok(boxes@, prims@),
        axis < 3,
    ensures
        r@ == sorted_run(boxes@, prims@, axis as int),
{
    let n = prims.len();
    let mut pairs: Vec<(i64, usize)> = Vec::new();
    let mut k: usize = 0;
    while k < n
        invariant
            k <= n,
            n == prims.len(),
            axis < 3,
            run_ok(boxes@, prims@),
            pairs@ == keyed(boxes@, prims@, axis as int).subrange(0, k as int),
        decreases n - k,
    {
        let lower = boxes[prims[k]].axis_interval(axis as i32).min;
        let key = match lower.key() {
            Some(key) => key,
            None => 0,
        };
        pairs.push((key, k));
        proof {
            let all = keyed(boxes@, prims@, axis as int);
            assert(pairs@ =~= all.subrange(0, k + 1));
        }
        k = k + 1;
    }
    let ghost all = keyed(boxes@, prims@, axis as int);
    proof {
        assert(pairs@ =~= all);
    }
    sort_pairs(&mut pairs);
    proof {
        lemma_pair_leq_total();
        all.lemma_sort_by_ensures(pair_leq());
        lemma_sorted_unique(pairs@, all.sort_by(pair_leq()), pair_leq());
    }
    let mut sorted: Vec<usize> = Vec::new();
    let mut j: usize = 0;
    while j < n
        invariant
            j <= n,
            n == prims.len(),
            pairs@ == all.sort_by(pair_leq()),
            all == keyed(boxes@, prims@, axis as int),
            sorted@ == sorted_run(boxes@, prims@, axis as int).subrange(0, j as int),
        decreases n - j,
    {
        proof {
            lemma_sorted_run_in_run(boxes@, prims@, axis as int, j as int);
        }
        sorted.push(prims[pairs[j].1]);
        proof {
            assert(sorted@ =~= sorted_run(boxes@, prims@, axis as int).subrange(0, j + 1));
        }
        j = j + 1;
    }
    proof {
        assert(sorted@ =~= sorted_run(boxes@, prims@, axis as int));
    }
    sorted
}

/// The run before `mid` and the run from `mid` on.
fn split_run(run: &Vec<usize>, mid: usize) -> (r: (Vec<usize>, Vec<usize>))
    requires
        mid <= run.len(),
    ensures
        r.0@ == run@.subrange(0, mid as int),
        r.1@ == run@.subrange(mid as int, run.len() as int),
{
    let mut first: Vec<usize> = Vec::new();
    let mut second: Vec<usize> = Vec::new();
    let mut k: usize = 0;
    while k < mid
        invariant
            k <= mid <= run.len(),
            first@ == run@.subrange(0, k as int),
        decreases mid - k,
    {
        first.push(run[k]);
        proof {
            assert(first@ =~= run@.subrange(0, k + 1));
        }
        k = k + 1;
    }
    while k < run.len()
        invariant
            mid <= k <= run.len(),
            second@ == run@.subrange(mid as int, k as int),
        decreases run.len() - k,
    {
        second.push(run[k]);
        proof {
            assert(second@ =~= run@.subrange(mid as int, k + 1));
        }
        k = k + 1;
    }
    (first, second)
}

impl BvhNode {
    /// The walk of a subtree. A node whose box the ray misses within the
    /// bound left so far is skipped. Else the left side is walked, then the
    /// right side within the bound that the left side has left.
    pub open spec fn walk_spec(
        self,
        t_min: Real,
        state: HitState,
        sm: spec_fn(AABB) -> [Slab; 3],
        lm: spec_fn(usize, Interval) -> Option<HitRecord>,
    ) -> HitState
        decreases self,
    {
        if !AABB::hit_spec(sm(self.bbox), state.window(t_min)) {
            state
        } else {
            let after_left = match self.left {
                BvhChild::Leaf(i) => state.accept_spec(lm(i, state.window(t_min))),
                BvhChild::Node(sub) => sub.walk_spec(t_min, state, sm, lm),
            };
            match self.right {
                BvhChild::Leaf(i) => after_left.accept_spec(lm(i, after_left.window(t_min))),
                BvhChild::Node(sub) => sub.walk_spec(t_min, after_left, sm, lm),
            }
        }
    }

    /// The closest hit that the walk finds within `ray_t`.
    pub open spec fn hit_spec(
        self,
        ray_t: Interval,
        sm: spec_fn(AABB) -> [Slab; 3],
        lm: spec_fn(usize, Interval) -> Option<HitRecord>,
    ) -> Option<HitRecord> {
        self.walk_spec(ray_t.min, HitState::start(ray_t.max), sm, lm).best
    }

    /// The tree over a run of objects. The split axis is the longest axis
    /// of the merge of their boxes. One object stands on both sides of its
    /// node. Of two, the one with the lower key stands left, and the second
    /// stands left when the keys are equal or the first is not lower. More
    /// are sorted by their key and split at the middle of their count.
    /// The box of a node is the merge of the boxes of its two sides.
    pub open spec fn build_spec(
        boxes: Seq<AABB>,
        prims: Seq<usize>,
        em: spec_fn(Interval) -> Real,
    ) -> BvhNode
        decreases prims.len(),
    {
        let axis = union_box(boxes, prims).longest_axis_spec(em) as int;
        if prims.len() <= 1 {
            let p = prims[0];
            BvhNode {
                left: BvhChild::Leaf(p),
                right: BvhChild::Leaf(p),
                bbox: AABB::merge_spec(boxes[p as int], boxes[p as int]),
            }
        } else if prims.len() == 2 {
            let p = prims[0];
            let q = prims[1];
            if sort_key(boxes, p, axis) < sort_key(boxes, q, axis) {
                BvhNode {
                    left: BvhChild::Leaf(p),
                    right: BvhChild::Leaf(q),
                    bbox: AABB::merge_spec(boxes[p as int], boxes[q as int]),
                }
            } else {
                BvhNode {
                    left: BvhChild::Leaf(q),
                    right: BvhChild::Leaf(p),
                    bbox: AABB::merge_spec(boxes[q as int], boxes[p as int]),
                }
            }
        } else {
            let sorted = sorted_run(boxes, prims, axis);
            let mid = (prims.len() / 2) as int;
            let left = Self::build_spec(boxes, sorted.subrange(0, mid), em);
            let right = Self::build_spec(boxes, sorted.subrange(mid, prims.len() as int), em);
            BvhNode {
                left: BvhChild::Node(Box::new(left)),
                right: BvhChild::Node(Box::new(right)),
                bbox: AABB::merge_spec(left.bbox, right.bbox),
            }
        }
    }

    /// The object with handle `i` stands somewhere in the tree.
    pub open spec fn mentions(self, i: usize) -> bool
        decreases self,
    {
        ||| match self.left {
            BvhChild::Leaf(p) => p == i,
            BvhChild::Node(sub) => sub.mentions(i),
        }
        ||| match self.right {
            BvhChild::Leaf(p) => p == i,
            BvhChild::Node(sub) => sub.mentions(i),
        }
    }

    /// Every box in the tree has ordered bounds and encloses what stands
    /// below it: the box of a subtree, or the box in `boxes` of an object.
    pub open spec fn sound(self, boxes: Seq<AABB>) -> bool
        decreases self,
    {
        &&& self.bbox.ordered()
        &&& match self.left {
            BvhChild::Leaf(p) => p < boxes.len() && self.bbox.encloses(boxes[p as int]),
            BvhChild::Node(sub) => sub.sound(boxes) && self.bbox.encloses(sub.bbox),
        }
        &&& match self.right {
            BvhChild::Leaf(p) => p < boxes.len() && self.bbox.encloses(boxes[p as int]),
            BvhChild::Node(sub) => sub.sound(boxes) && self.bbox.encloses(sub.bbox),
        }
    }

    /// Builds the hierarchy over the objects of a list. `extent` computes
    /// the length `max - min` of a range.
    pub fn new<F: Fn(Interval) -> Real>(objects: HittableList, extent: &F) -> (r: BvhNode)
        requires
            objects.boxes@.len() >= 1,
            objects.ordered(),
            forall|iv: Interval| extent.requires((iv,)),
        ensures
            r.sound(objects.boxes@),
            forall|i: usize| r.mentions(i) <==> i < objects.boxes@.len(),
            forall|em: spec_fn(Interval) -> Real| #[trigger]
                extent_model(extent, em) ==> r == Self::build_spec(
                    objects.boxes@,
                    handles(objects.boxes@.len()),
                    em,
                ),
    {
        let n = objects.boxes.len();
        let mut prims: Vec<usize> = Vec::new();
        let mut k: usize = 0;
        while k < n
            invariant
                k <= n,
                prims@ == handles(k as nat),
            decreases n - k,
        {
            prims.push(k);
            proof {
                assert(prims@ =~= handles((k + 1) as nat));
            }
            k = k + 1;
        }
        let tree = Self::build(&objects.boxes, prims, extent);
        proof {
            assert forall|i: usize| tree.mentions(i) <==> i < n by {
                if tree.mentions(i) {
                    let j = choose|j: int| 0 <= j < n && handles(n as nat)[j] == i;
                }
                if i < n {
                    assert(handles(n as nat)[i as int] == i);
                }
            }
        }
        tree
    }

    /// Builds the hierarchy over the objects of a list, or nothing when
    /// the list is empty or one of its boxes has a bound that is no number.
    pub fn try_new<F: Fn(Interval) -> Real>(objects: HittableList, extent: &F) -> (r: Option<
        BvhNode,
    >)
        requires
            forall|iv: Interval| extent.requires((iv,)),
        ensures
            r is Some <==> objects.boxes@.len() >= 1 && objects.ordered(),
            r is Some ==> r->0.sound(objects.boxes@),
            r is Some ==> forall|i: usize| r->0.mentions(i) <==> i < objects.boxes@.len(),
            forall|em: spec_fn(Interval) -> Real| #[trigger]
                extent_model(extent, em) && r is Some ==> r->0 == Self::build_spec(
                    objects.boxes@,
                    handles(objects.boxes@.len()),
                    em,
                ),
    {
        if objects.len() == 0 || !objects.is_ordered() {
            None
        } else {
            Some(Self::new(objects, extent))
        }
    }

    fn build<F: Fn(Interval) -> Real>(boxes: &Vec<AABB>, prims: Vec<usize>, extent: &F) -> (r:
        BvhNode)
        requires
            prims.len() >= 1,
            run_ok(boxes@, prims@),
            forall|iv: Interval| extent.requires((iv,)),
        ensures
            r.sound(boxes@),
            forall|i: usize| r.mentions(i) <==> prims@.contains(i),
            forall|em: spec_fn(Interval) -> Real| #[trigger]
                extent_model(extent, em) ==> r == Self::build_spec(boxes@, prims@, em),
        decreases prims.len(),
    {
        let n = prims.len();
        let bbox = union_of(boxes, &prims);
        let axis = bbox.longest_axis(extent);
        let ghost origin = crate::vec3::Vec3 {
            x: Real { bits: 0 },
            y: Real { bits: 0 },
            z: Real { bits: 0 },
        };
        if n == 1 {
            let p = prims[0];
            proof {
                assert(prims@[0] == p && prims@.contains(p));
                lemma_merge_is_hull(boxes@[p as int], boxes@[p as int], origin, boxes@[p as int]);
                assert forall|i: usize| prims@.contains(i) implies i == p by {
                    let k = choose|k: int| 0 <= k < prims@.len() && prims@[k] == i;
                }
            }
            let node = BvhNode {
                left: BvhChild::Leaf(p),
                right: BvhChild::Leaf(p),
                bbox: AABB::new_merge(&boxes[p], &boxes[p]),
            };
            node
        } else if n == 2 {
            let p = prims[0];
            let q = prims[1];
            proof {
                assert(prims@[0] == p && prims@[1] == q);
                assert(prims@.contains(p) && prims@.contains(q));
                lemma_merge_is_hull(boxes@[p as int], boxes@[q as int], origin, boxes@[p as int]);
                lemma_merge_is_hull(boxes@[q as int], boxes@[p as int], origin, boxes@[p as int]);
                assert forall|i: usize| prims@.contains(i) implies i == p || i == q by {
                    let k = choose|k: int| 0 <= k < prims@.len() && prims@[k] == i;
                }
            }
            let p_min = boxes[p].axis_interval(axis as i32).min;
            let q_min = boxes[q].axis_interval(axis as i32).min;
            if p_min.lt(&q_min) {
                let node = BvhNode {
                    left: BvhChild::Leaf(p),
                    right: BvhChild::Leaf(q),
                    bbox: AABB::new_merge(&boxes[p], &boxes[q]),
                };
                node
            } else {
                let node = BvhNode {
                    left: BvhChild::Leaf(q),
                    right: BvhChild::Leaf(p),
                    bbox: AABB::new_merge(&boxes[q], &boxes[p]),
                };
                node
            }
        } else {
            let sorted = sort_run(boxes, &prims, axis);
            let mid = n / 2;
            let (first, second) = split_run(&sorted, mid);
            let ghost head = first@;
            let ghost tail = second@;
            proof {
                lemma_run_parts_ok(boxes@, prims@, axis as int, mid as int);
            }
            let left = Self::build(boxes, first, extent);
            let right = Self::build(boxes, second, extent);
            let bbox = AABB::new_merge(&left.bbox, &right.bbox);
            let ghost lt = left;
            let ghost rt = right;
            proof {
                lemma_merge_is_hull(lt.bbox, rt.bbox, origin, lt.bbox);
                assert forall|i: usize|
                    #![trigger lt.mentions(i)]
                    #![trigger rt.mentions(i)]
                    (lt.mentions(i) || rt.mentions(i)) <==> prims@.contains(i) by {
                    lemma_sorted_run_same_objects(boxes@, prims@, axis as int, i);
                    if lt.mentions(i) {
                        let k = choose|k: int| 0 <= k < head.len() && head[k] == i;
                        assert(sorted@[k] == i);
                        assert(sorted@.contains(i));
                    } else if rt.mentions(i) {
                        let k = choose|k: int| 0 <= k < tail.len() && tail[k] == i;
                        assert(sorted@[mid + k] == i);
                        assert(sorted@.contains(i));
                    }
                    if prims@.contains(i) {
                        let k = choose|k: int| 0 <= k < sorted@.len() && sorted@[k] == i;
                        if k < mid {
                            assert(head[k] == i);
                            assert(head.contains(i));
                        } else {
                            assert(tail[k - mid] == i);
                            assert(tail.contains(i));
                        }
                    }
                }
            }
            let node = BvhNode {
                left: BvhChild::Node(Box::new(left)),
                right: BvhChild::Node(Box::new(right)),
                bbox,
            };
            proof {
                assert(node.left == BvhChild::Node(Box::new(lt)));
                assert(node.right == BvhChild::Node(Box::new(rt)));
                assert(node.sound(boxes@));
                assert forall|i: usize| node.mentions(i) <==> prims@.contains(i) by {
                    assert(node.mentions(i) == (lt.mentions(i) || rt.mentions(i)));
                }
            }
            node
        }
    }

    fn walk<S: Fn(AABB) -> [Slab; 3], F: Fn(usize, Interval) -> Option<HitRecord>>(
        &self,
        t_min: Real,
        state: HitState,
        slabs_of: &S,
        test: &F,
    ) -> (r: HitState)
        requires
            forall|b: AABB| slabs_of.requires((b,)),
            forall|i: usize, iv: Interval| self.mentions(i) ==> test.requires((i, iv)),
        ensures
            forall|sm: spec_fn(AABB) -> [Slab; 3], lm: spec_fn(usize, Interval) -> Option<HitRecord>|
                #![trigger slab_model(slabs_of, sm), hit_model(test, lm)]
                slab_model(slabs_of, sm) && hit_model(test, lm) ==> r == self.walk_spec(
                    t_min,
                    state,
                    sm,
                    lm,
                ),
        decreases self,
    {
        let slabs = slabs_of(self.bbox);
        if !AABB::hit(&slabs, Interval::new(t_min, state.closest)) {
            return state;
        }
        let after_left = match &self.left {
            BvhChild::Leaf(i) => state.accept(test(*i, Interval::new(t_min, state.closest))),
            BvhChild::Node(sub) => sub.walk(t_min, state, slabs_of, test),
        };
        match &self.right {
            BvhChild::Leaf(i) => after_left.accept(
                test(*i, Interval::new(t_min, after_left.closest)),
            ),
            BvhChild::Node(sub) => sub.walk(t_min, after_left, slabs_of, test),
        }
    }

    /// Finds the closest hit of a ray with the objects of the tree within
    /// `ray_t`. `slabs_of` computes the slabs that the ray makes with a
    /// box, and `test` intersects the ray with one object within a range.
    pub fn hit<S: Fn(AABB) -> [Slab; 3], F: Fn(usize, Interval) -> Option<HitRecord>>(
        &self,
        ray_t: Interval,
        slabs_of: &S,
        test: &F,
    ) -> (r: Option<HitRecord>)
        requires
            forall|b: AABB| slabs_of.requires((b,)),
            forall|i: usize, iv: Interval| self.mentions(i) ==> test.requires((i, iv)),
        ensures
            forall|sm: spec_fn(AABB) -> [Slab; 3], lm: spec_fn(usize, Interval) -> Option<HitRecord>|
                #![trigger slab_model(slabs_of, sm), hit_model(test, lm)]
                slab_model(slabs_of, sm) && hit_model(test, lm) ==> r == self.hit_spec(
                    ray_t,
                    sm,
                    lm,
                ),
    {
        self.walk(ray_t.min, HitState::new(ray_t.max), slabs_of, test).best
    }

    pub fn bounding_box(&self) -> (r: AABB)
        ensures
            r == self.bbox,
    {
        self.bbox
    }
}

} // verus!
