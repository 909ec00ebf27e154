use pathtracer::perlin::holds_each_once;
use pathtracer::perlin::permute;
use pathtracer::perlin::shuffle;
use pathtracer::perlin::Perlin;
use pathtracer::pdf::MixturePdf;
use pathtracer::random::random_double;
use pathtracer::random::random_int_range;
use pathtracer::random::unit_double;
use pathtracer::random::RandomStream;
use pathtracer::scalar::Real;
use pathtracer::vec3::Vec3;

fn num(x: f64) -> Real {
    Real::from_bits(x.to_bits())
}

fn value(r: Real) -> f64 {
    f64::from_bits(r.to_bits())
}

#[test]
fn integers_stay_within_their_bounds() {
    let mut rng = RandomStream::new(11);
    let rng = &mut rng;
    let mut seen = [false; 7];
    for _ in 0..2000 {
        let r = random_int_range(rng, -3, 3);
        assert!((-3..=3).contains(&r));
        seen[(r + 3) as usize] = true;
    }
    assert!(seen.iter().all(|s| *s));
    for _ in 0..50 {
        assert_eq!(random_int_range(rng, 5, 5), 5);
        assert_eq!(random_int_range(rng, i32::MAX, i32::MAX), i32::MAX);
        let r = random_int_range(rng, i32::MIN, i32::MAX);
        assert!(r >= i32::MIN);
    }
}

#[test]
fn descending_bounds_stand_for_the_range_between() {
    let mut rng = RandomStream::new(12);
    let mut seen = [false; 3];
    for _ in 0..500 {
        let r = random_int_range(&mut rng, 5, 2);
        assert!((3..=5).contains(&r));
        seen[(r - 3) as usize] = true;
    }
    assert!(seen.iter().all(|s| *s));
    let mut stream = RandomStream::new(1);
    for _ in 0..500 {
        let r = stream.int_range(0, -2);
        assert!((-1..=0).contains(&r));
    }
}

#[test]
fn doubles_lie_in_the_unit_range() {
    let mut rng = RandomStream::new(13);
    let mut low = false;
    let mut high = false;
    for _ in 0..2000 {
        let x = value(random_double(&mut rng));
        assert!((0.0..1.0).contains(&x));
        low |= x < 0.5;
        high |= x >= 0.5;
    }
    assert!(low && high);
}

#[test]
fn words_become_multiples_of_two_to_the_minus_53() {
    let scale = 1.0 / ((1u64 << 53) as f64);
    let words: [u64; 8] = [
        0,
        1,
        2047,
        2048,
        u64::MAX,
        1 << 63,
        0xDEAD_BEEF_0123_4567,
        0x0000_0000_FFFF_FFFF,
    ];
    for &w in words.iter() {
        assert_eq!(value(unit_double(w)), ((w >> 11) as f64) * scale);
    }
    assert_eq!(value(unit_double(1 << 63)), 0.5);
    assert_eq!(value(unit_double(2047)), 0.0);
    assert!(value(unit_double(u64::MAX)) < 1.0);
}

#[test]
fn streams_of_one_seed_agree() {
    let mut a = RandomStream::new(2024);
    let mut b = RandomStream::new(2024);
    let mut c = RandomStream::new(2025);
    let mut differs = false;
    for k in 0..200 {
        if k % 2 == 0 {
            let x = a.double();
            let y = b.double();
            let z = c.double();
            assert_eq!(x.to_bits(), y.to_bits());
            assert!((0.0..1.0).contains(&value(x)));
            differs |= x.to_bits() != z.to_bits();
        } else {
            let x = a.int_range(-100, 100);
            let y = b.int_range(-100, 100);
            let z = c.int_range(-100, 100);
            assert_eq!(x, y);
            assert!((-100..=100).contains(&x));
            differs |= x != z;
        }
    }
    assert!(differs);
}

#[test]
fn shuffle_keeps_the_entries() {
    let mut rng = RandomStream::new(14);
    let rng = &mut rng;
    let mut p: Vec<i32> = (0..100).collect();
    permute(&mut p, 60, rng);
    assert_eq!(p.len(), 100);
    for k in 60..100 {
        assert_eq!(p[k], k as i32);
    }
    let mut head: Vec<i32> = p[..60].to_vec();
    head.sort();
    assert_eq!(head, (0..60).collect::<Vec<i32>>());
    let mut q: Vec<i32> = vec![4, 4, 9];
    permute(&mut q, 3, rng);
    q.sort();
    assert_eq!(q, vec![4, 4, 9]);
    let mut none: Vec<i32> = vec![1, 2];
    permute(&mut none, 0, rng);
    assert_eq!(none, vec![1, 2]);
}

#[test]
fn permutation_holds_each_number_once() {
    let mut rng = RandomStream::new(15);
    let mut moved = false;
    for _ in 0..5 {
        let p = Perlin::perlin_generate_perm(&mut rng);
        assert_eq!(p.len(), 256);
        let mut sorted = p.clone();
        sorted.sort();
        assert_eq!(sorted, (0..256).collect::<Vec<i32>>());
        moved |= p != sorted;
    }
    assert!(moved);
}

#[test]
fn lattice_wraps_every_256() {
    let counter = std::cell::Cell::new(0u64);
    let make = || {
        let k = counter.get();
        counter.set(k + 1);
        Vec3::new(num(k as f64), num(0.0), num(0.0))
    };
    let noise = Perlin::new(&make, &mut RandomStream::new(16));
    assert_eq!(counter.get(), 256);
    let mut seen = vec![false; 256];
    for i in 0..256 {
        let v = noise.corner(i, 0, 0);
        let k = value(v.x) as usize;
        assert!(k < 256);
        seen[k] = true;
    }
    assert!(seen.iter().all(|s| *s));
    for &(i, j, k) in [(0, 0, 0), (5, -7, 300), (-1, -256, 1000), (i32::MAX, i32::MIN, -255)].iter() {
        let here = noise.corner(i, j, k);
        let there = noise.corner(i.wrapping_add(256), j.wrapping_sub(512), k.wrapping_add(256 * 7));
        assert_eq!(here.x.to_bits(), there.x.to_bits());
    }
    assert_eq!(noise.corner(-1, 0, 0).x.to_bits(), noise.corner(255, 0, 0).x.to_bits());
}

#[test]
fn cell_lists_its_eight_corners() {
    let counter = std::cell::Cell::new(0u64);
    let make = || {
        let k = counter.get();
        counter.set(k + 1);
        Vec3::new(num(k as f64), num(1.0), num(2.0))
    };
    let noise = Perlin::new(&make, &mut RandomStream::new(16));
    let cell = noise.cell(3, -4, 255);
    for di in 0..2 {
        for dj in 0..2 {
            for dk in 0..2 {
                let want = noise.corner(3 + di, -4 + dj, 255 + dk);
                let got = cell[(4 * di + 2 * dj + dk) as usize];
                assert_eq!(got.x.to_bits(), want.x.to_bits());
                assert_eq!(value(got.y), 1.0);
            }
        }
    }
}

#[test]
fn tables_of_one_seed_agree() {
    let make = || Vec3::new(num(1.0), num(0.0), num(0.0));
    let a = Perlin::perlin_generate_perm(&mut RandomStream::new(5));
    let b = Perlin::perlin_generate_perm(&mut RandomStream::new(5));
    let c = Perlin::perlin_generate_perm(&mut RandomStream::new(6));
    assert_eq!(a, b);
    assert_ne!(a, c);
    let n1 = Perlin::new(&make, &mut RandomStream::new(5));
    let n2 = Perlin::new(&make, &mut RandomStream::new(5));
    for i in 0..300 {
        assert_eq!(n1.corner(i, 2 * i, -i).x.to_bits(), n2.corner(i, 2 * i, -i).x.to_bits());
    }
}

#[test]
fn lower_half_of_the_words_picks_the_first() {
    assert_eq!(MixturePdf::pick(unit_double(0)), 0);
    assert_eq!(MixturePdf::pick(unit_double((1 << 63) - 1)), 0);
    assert_eq!(MixturePdf::pick(unit_double(1 << 63)), 1);
    assert_eq!(MixturePdf::pick(unit_double(u64::MAX)), 1);
    let mut rng = RandomStream::new(21);
    let mut first = 0;
    for _ in 0..4000 {
        let draw = rng.double();
        let picked = MixturePdf::pick(draw);
        assert_eq!(picked == 0, value(draw) < 0.5);
        first += 1 - picked;
    }
    assert!(first > 1700 && first < 2300);
}

#[test]
fn exchanges_run_from_the_last_place_down() {
    let mut p = vec![10, 20, 30, 40];
    shuffle(&mut p, &vec![0, 0, 1, 2]);
    assert_eq!(p, vec![40, 10, 20, 30]);
    let mut p = vec![10, 20, 30, 40];
    shuffle(&mut p, &vec![0, 1, 2, 3]);
    assert_eq!(p, vec![10, 20, 30, 40]);
    let mut p = vec![10, 20, 30, 40];
    shuffle(&mut p, &vec![0, 0]);
    assert_eq!(p, vec![20, 10, 30, 40]);
    let mut p = vec![10, 20, 30, 40];
    shuffle(&mut p, &vec![0, 0, 0, 0]);
    assert_eq!(p, vec![20, 30, 40, 10]);
    let mut p: Vec<i32> = Vec::new();
    shuffle(&mut p, &Vec::new());
    assert!(p.is_empty());
}

#[test]
fn tables_are_taken_over_when_they_are_permutations() {
    let vectors: Vec<Vec3> = (0..256).map(|k| Vec3::new(num(k as f64), num(0.0), num(0.0))).collect();
    let id: Vec<i32> = (0..256).collect();
    let rev: Vec<i32> = (0..256).rev().collect();
    let noise = Perlin::from_tables(vectors.clone(), id.clone(), rev.clone(), id.clone()).unwrap();
    for &(i, j, k) in [(0, 0, 0), (1, 2, 3), (255, 255, 255), (-1, 300, 77), (1000, -1000, 5)].iter() {
        let want = (i & 255) ^ (255 - (j & 255)) ^ (k & 255);
        assert_eq!(value(noise.corner(i, j, k).x), want as f64);
    }
    assert!(holds_each_once(&id));
    assert!(holds_each_once(&rev));
    let mut twice = id.clone();
    twice[7] = 8;
    assert!(!holds_each_once(&twice));
    let mut beyond = id.clone();
    beyond[0] = 256;
    assert!(!holds_each_once(&beyond));
    let mut below = id.clone();
    below[255] = -1;
    assert!(!holds_each_once(&below));
    assert!(!holds_each_once(&id[..255].to_vec()));
    assert!(!holds_each_once(&Vec::new()));
    assert!(Perlin::from_tables(vectors.clone(), id.clone(), twice, id.clone()).is_none());
    assert!(Perlin::from_tables(vectors[..255].to_vec(), id.clone(), id.clone(), id.clone()).is_none());
    assert!(Perlin::from_tables(vectors, id.clone(), id.clone(), beyond).is_none());
}
