use pathtracer::aabb::Slab;
use pathtracer::aabb::AABB;
use pathtracer::bvh::BvhChild;
use pathtracer::bvh::BvhNode;
use pathtracer::hittable::sweep;
use pathtracer::hittable::HitRecord;
use pathtracer::hittable::HitState;
use pathtracer::hittable_list::HittableList;
use pathtracer::interval::Interval;
use pathtracer::random::RandomStream;
use pathtracer::scalar::Real;
use pathtracer::vec3::Vec3;

fn num(x: f64) -> Real {
    Real::from_bits(x.to_bits())
}

fn value(r: Real) -> f64 {
    f64::from_bits(r.to_bits())
}

fn point(p: [f64; 3]) -> Vec3 {
    Vec3::new(num(p[0]), num(p[1]), num(p[2]))
}

fn extent(iv: Interval) -> Real {
    num(value(iv.max) - value(iv.min))
}

fn expand(iv: Interval, delta: Real) -> Interval {
    let padding = value(delta) / 2.0;
    Interval::new(num(value(iv.min) - padding), num(value(iv.max) + padding))
}

#[derive(Clone, Copy)]
struct Ball {
    center: [f64; 3],
    radius: f64,
}

impl Ball {
    fn bounding_box(&self) -> AABB {
        let c = self.center;
        let r = self.radius;
        AABB::new_points(
            point([c[0] - r, c[1] - r, c[2] - r]),
            point([c[0] + r, c[1] + r, c[2] + r]),
            &extent,
            &expand,
        )
    }

    fn hit(&self, handle: usize, origin: [f64; 3], dir: [f64; 3], ray_t: Interval) -> Option<HitRecord> {
        let oc = [
            self.center[0] - origin[0],
            self.center[1] - origin[1],
            self.center[2] - origin[2],
        ];
        let a = dir[0] * dir[0] + dir[1] * dir[1] + dir[2] * dir[2];
        let h = dir[0] * oc[0] + dir[1] * oc[1] + dir[2] * oc[2];
        let c = oc[0] * oc[0] + oc[1] * oc[1] + oc[2] * oc[2] - self.radius * self.radius;
        let discriminant = h * h - a * c;
        if discriminant < 0.0 {
            return None;
        }
        let sqrtd = discriminant.sqrt();
        let root = ray_t.first_surrounded(num((h - sqrtd) / a), num((h + sqrtd) / a))?;
        let t = value(root);
        let mut rec = HitRecord::new();
        rec.t = root;
        rec.mat = handle;
        rec.p = point([origin[0] + t * dir[0], origin[1] + t * dir[1], origin[2] + t * dir[2]]);
        Some(rec)
    }
}

fn slabs(bbox: AABB, origin: [f64; 3], dir: [f64; 3]) -> [Slab; 3] {
    let mut out = [Slab { t0: num(0.0), t1: num(0.0), inv_dir: num(0.0) }; 3];
    for axis in 0..3 {
        let ax = bbox.axis_interval(axis as i32);
        let adinv = 1.0 / dir[axis];
        out[axis] = Slab {
            t0: num((value(ax.min) - origin[axis]) * adinv),
            t1: num((value(ax.max) - origin[axis]) * adinv),
            inv_dir: num(adinv),
        };
    }
    out
}

struct Lcg(u64);

impl Lcg {
    fn next(&mut self) -> f64 {
        self.0 = self.0.wrapping_mul(6364136223846793005).wrapping_add(1442695040888963407);
        ((self.0 >> 11) as f64) / ((1u64 << 53) as f64)
    }

    fn between(&mut self, lo: f64, hi: f64) -> f64 {
        lo + (hi - lo) * self.next()
    }
}

fn scene(rng: &mut Lcg, count: usize) -> (Vec<Ball>, HittableList) {
    let mut balls = Vec::new();
    let mut list = HittableList::new();
    for _ in 0..count {
        let ball = Ball {
            center: [rng.between(-10.0, 10.0), rng.between(-10.0, 10.0), rng.between(-10.0, 10.0)],
            radius: rng.between(0.2, 2.0),
        };
        list.add(ball.bounding_box());
        balls.push(ball);
    }
    (balls, list)
}

fn leaves(node: &BvhNode, out: &mut Vec<usize>) {
    for child in [&node.left, &node.right] {
        match child {
            BvhChild::Leaf(p) => out.push(*p),
            BvhChild::Node(sub) => leaves(sub, out),
        }
    }
}

fn boxes_enclose(node: &BvhNode, boxes: &Vec<AABB>) -> AABB {
    let mut merged = AABB::empty();
    for child in [&node.left, &node.right] {
        let b = match child {
            BvhChild::Leaf(p) => boxes[*p],
            BvhChild::Node(sub) => boxes_enclose(sub, boxes),
        };
        merged = AABB::new_merge(&merged, &b);
    }
    for axis in 0..3 {
        assert_eq!(value(node.bbox.axis_interval(axis).min), value(merged.axis_interval(axis).min));
        assert_eq!(value(node.bbox.axis_interval(axis).max), value(merged.axis_interval(axis).max));
    }
    node.bbox
}

#[test]
fn hierarchy_finds_what_the_list_finds() {
    let mut rng = Lcg(7);
    for round in 0..20 {
        let count = 1 + (round * 3) % 17;
        let (balls, list) = scene(&mut rng, count);
        assert!(list.is_ordered());
        let boxes = list.boxes.clone();
        let tree = BvhNode::new(list, &extent);
        let mut again = HittableList::new();
        for b in boxes.iter() {
            again.add(*b);
        }
        for _ in 0..200 {
            let origin = [rng.between(-15.0, 15.0), rng.between(-15.0, 15.0), rng.between(-15.0, 15.0)];
            let dir = [rng.between(-1.0, 1.0), rng.between(-1.0, 1.0), rng.between(-1.0, 1.0)];
            let ray_t = Interval::new(num(0.001), num(f64::INFINITY));
            let test = |i: usize, iv: Interval| balls[i].hit(i, origin, dir, iv);
            let slabs_of = |b: AABB| slabs(b, origin, dir);
            let by_list = again.hit(ray_t, &test);
            let by_tree = tree.hit(ray_t, &slabs_of, &test);
            match (by_list, by_tree) {
                (None, None) => {}
                (Some(a), Some(b)) => {
                    assert_eq!(value(a.t), value(b.t));
                    assert_eq!(a.mat, b.mat);
                }
                (a, b) => panic!("list {:?} and tree {:?} differ", a.map(|r| r.mat), b.map(|r| r.mat)),
            }
        }
    }
}

#[test]
fn hierarchy_holds_every_object_under_sound_boxes() {
    let mut rng = Lcg(99);
    for count in 1..40 {
        let (_, list) = scene(&mut rng, count);
        let boxes = list.boxes.clone();
        let tree = BvhNode::new(list, &extent);
        let mut seen = Vec::new();
        leaves(&tree, &mut seen);
        for p in 0..count {
            assert!(seen.contains(&p));
        }
        assert!(seen.iter().all(|p| *p < count));
        boxes_enclose(&tree, &boxes);
        let whole = tree.bounding_box();
        assert_eq!(value(whole.x.min), value(tree.bbox.x.min));
    }
}

fn box_at(x: f64, y: f64, z: f64) -> AABB {
    AABB::spanning(point([x, y, z]), point([x + 1.0, y + 1.0, z + 1.0]))
}

#[test]
fn single_object_stands_on_both_sides() {
    let mut list = HittableList::new();
    list.add(box_at(0.0, 0.0, 0.0));
    let tree = BvhNode::new(list, &extent);
    assert!(matches!(tree.left, BvhChild::Leaf(0)));
    assert!(matches!(tree.right, BvhChild::Leaf(0)));
    assert_eq!(value(tree.bbox.x.max), 1.0);
}

#[test]
fn two_objects_are_ordered_along_the_longest_axis() {
    let mut list = HittableList::new();
    list.add(box_at(0.0, 10.0, 0.0));
    list.add(box_at(0.0, -10.0, 0.0));
    let tree = BvhNode::new(list, &extent);
    assert!(matches!(tree.left, BvhChild::Leaf(1)));
    assert!(matches!(tree.right, BvhChild::Leaf(0)));
    let mut list = HittableList::new();
    list.add(box_at(0.0, -10.0, 0.0));
    list.add(box_at(0.0, 10.0, 0.0));
    let tree = BvhNode::new(list, &extent);
    assert!(matches!(tree.left, BvhChild::Leaf(0)));
    assert!(matches!(tree.right, BvhChild::Leaf(1)));
    // Equal keys: the second stands left.
    let mut list = HittableList::new();
    list.add(box_at(0.0, 0.0, 0.0));
    list.add(box_at(0.0, 0.0, 0.0));
    let tree = BvhNode::new(list, &extent);
    assert!(matches!(tree.left, BvhChild::Leaf(1)));
    assert!(matches!(tree.right, BvhChild::Leaf(0)));
}

#[test]
fn more_objects_are_sorted_and_split_at_the_middle() {
    let xs = [5.0, -3.0, 9.0, 1.0, -7.0];
    let mut list = HittableList::new();
    for x in xs.iter() {
        list.add(box_at(*x, 0.0, 0.0));
    }
    let tree = BvhNode::new(list, &extent);
    // Sorted along x: 4 (-7), 1 (-3), 3 (1), 0 (5), 2 (9); split after two.
    let mut order = Vec::new();
    leaves(&tree, &mut order);
    assert_eq!(order, vec![4, 1, 3, 3, 0, 2]);
    match (&tree.left, &tree.right) {
        (BvhChild::Node(l), BvhChild::Node(r)) => {
            assert!(matches!(l.left, BvhChild::Leaf(4)));
            assert!(matches!(l.right, BvhChild::Leaf(1)));
            assert!(matches!(r.left, BvhChild::Node(_)));
            assert!(matches!(r.right, BvhChild::Node(_)));
            assert_eq!(value(l.bbox.x.min), -7.0);
            assert_eq!(value(l.bbox.x.max), -2.0);
            assert_eq!(value(r.bbox.x.min), 1.0);
            assert_eq!(value(r.bbox.x.max), 10.0);
        }
        _ => panic!("both sides are subtrees"),
    }
}

#[test]
fn objects_of_equal_key_keep_their_order() {
    let mut list = HittableList::new();
    for _ in 0..4 {
        list.add(box_at(2.0, 0.0, 0.0));
    }
    let tree = BvhNode::new(list, &extent);
    let mut order = Vec::new();
    leaves(&tree, &mut order);
    // Halves [0, 1] and [2, 3]; within a pair of equal keys the second stands left.
    assert_eq!(order, vec![1, 0, 3, 2]);
}

#[test]
fn sweep_keeps_the_closest_hit() {
    let ts = [5.0, 3.0, 4.0, 3.0, 8.0];
    let test = |i: usize, iv: Interval| {
        if iv.surrounds(num(ts[i])) {
            let mut rec = HitRecord::new();
            rec.t = num(ts[i]);
            rec.mat = i;
            Some(rec)
        } else {
            None
        }
    };
    let found = sweep(5, Interval::new(num(0.001), num(f64::INFINITY)), &test).unwrap();
    assert_eq!(value(found.t), 3.0);
    assert_eq!(found.mat, 1);
    assert!(sweep(5, Interval::new(num(0.001), num(3.0)), &test).is_none());
    assert!(sweep(0, Interval::new(num(0.001), num(f64::INFINITY)), &test).is_none());
    let found = sweep(1, Interval::new(num(0.001), num(f64::INFINITY)), &test).unwrap();
    assert_eq!(found.mat, 0);
}

#[test]
fn state_accepts_hits_and_keeps_misses_out() {
    let start = HitState::new(num(10.0));
    assert!(start.best.is_none());
    assert_eq!(value(start.closest), 10.0);
    let same = start.accept(None);
    assert!(same.best.is_none());
    assert_eq!(value(same.closest), 10.0);
    let mut rec = HitRecord::new();
    rec.t = num(4.0);
    rec.mat = 3;
    let hit = start.accept(Some(rec));
    assert_eq!(value(hit.closest), 4.0);
    assert_eq!(hit.best.unwrap().mat, 3);
    let kept = hit.accept(None);
    assert_eq!(kept.best.unwrap().mat, 3);
}

#[test]
fn list_grows_its_box_and_keeps_it_when_cleared() {
    let mut list = HittableList::new();
    assert_eq!(list.len(), 0);
    assert_eq!(value(list.bounding_box().x.min), f64::INFINITY);
    list.add(box_at(1.0, 2.0, 3.0));
    list.add(box_at(-1.0, 0.0, 5.0));
    assert_eq!(list.len(), 2);
    let b = list.bounding_box();
    assert_eq!((value(b.x.min), value(b.x.max)), (-1.0, 2.0));
    assert_eq!((value(b.y.min), value(b.y.max)), (0.0, 3.0));
    assert_eq!((value(b.z.min), value(b.z.max)), (3.0, 6.0));
    list.clear();
    assert_eq!(list.len(), 0);
    assert_eq!(value(list.bounding_box().x.min), -1.0);
    let mut bad = HittableList::new();
    bad.add(AABB::spanning(point([0.0, 0.0, 0.0]), point([1.0, 1.0, 1.0])));
    assert!(bad.is_ordered());
    bad.add(AABB::from_intervals(
        Interval::new(num(0.0), num(f64::NAN)),
        Interval::new(num(0.0), num(1.0)),
        Interval::new(num(0.0), num(1.0)),
    ));
    assert!(!bad.is_ordered());
}

#[test]
fn pick_draws_a_handle_of_the_list() {
    let mut list = HittableList::new();
    for k in 0..5 {
        list.add(box_at(k as f64, 0.0, 0.0));
    }
    let mut rng = RandomStream::new(3);
    let mut seen = [false; 5];
    for _ in 0..500 {
        let k = list.pick(&mut rng);
        assert!(k < 5);
        seen[k] = true;
    }
    assert!(seen.iter().all(|s| *s));
    let mut one = HittableList::new();
    one.add(box_at(0.0, 0.0, 0.0));
    assert_eq!(one.pick(&mut rng), 0);
}

#[test]
fn hierarchy_needs_objects_with_boxes_of_numbers() {
    assert!(BvhNode::try_new(HittableList::new(), &extent).is_none());
    let mut bad = HittableList::new();
    bad.add(box_at(0.0, 0.0, 0.0));
    bad.add(AABB::from_intervals(
        Interval::new(num(f64::NAN), num(1.0)),
        Interval::new(num(0.0), num(1.0)),
        Interval::new(num(0.0), num(1.0)),
    ));
    assert!(BvhNode::try_new(bad, &extent).is_none());
    let mut good = HittableList::new();
    good.add(box_at(0.0, 0.0, 0.0));
    good.add(box_at(3.0, 0.0, 0.0));
    let tree = BvhNode::try_new(good, &extent).unwrap();
    assert!(matches!(tree.left, BvhChild::Leaf(0)));
    assert!(matches!(tree.right, BvhChild::Leaf(1)));
}
