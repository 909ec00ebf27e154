use vstd::prelude::*;
use crate::random::random_int_range;
use crate::random::RandomStream;
use crate::vec3::Vec3;

verus! {

/// Number of lattice vectors, and of entries in each permutation.
pub const POINT_COUNT: usize = 256;

/// The tables of gradient noise: the lattice vectors, and one permutation
/// of `0 .. 256` for each axis.
pub struct Perlin {
    randvec: Vec<Vec3>,
    perm_x: Vec<i32>,
    perm_y: Vec<i32>,
    perm_z: Vec<i32>,
}

/// The numbers `0, 1, .., n - 1` in ascending order.
pub open spec fn identity(n: nat) -> Seq<i32> {
    Seq::new(n, |k: int| k as i32)
}

/// The table holds each of `0 .. 256` exactly once.
pub open spec fn is_permutation(p: Seq<i32>) -> bool {
    p.to_multiset() == identity(POINT_COUNT as nat).to_multiset()
}

/// Where a lattice coordinate falls in a table: the coordinate modulo 256.
pub open spec fn wrap(i: int) -> int {
    i % 256
}

/// The place among the lattice vectors of the lattice point `(i, j, k)`.
pub open spec fn lattice_slot(px: Seq<i32>, py: Seq<i32>, pz: Seq<i32>, i: int, j: int, k: int) -> i32 {
    px[wrap(i)] ^ py[wrap(j)] ^ pz[wrap(k)]
}

/// Every entry of a permutation of `0 .. 256` lies in that range, and the
/// table has 256 entries.
pub proof fn lemma_permutation_in_range(p: Seq<i32>)
    requires
        is_permutation(p),
    ensures
        p.len() == POINT_COUNT,
        forall|k: int| 0 <= k < p.len() ==> 0 <= #[trigger] p[k] < 256,
{
    broadcast use vstd::seq_lib::group_to_multiset_ensures;

    let id = identity(POINT_COUNT as nat);
    assert(p.to_multiset().len() == p.len());
    assert(id.to_multiset().len() == id.len());
    assert forall|k: int| 0 <= k < p.len() implies 0 <= #[trigger] p[k] < 256 by {
        assert(p.contains(p[k]));
        assert(p.to_multiset().count(p[k]) > 0);
        assert(id.to_multiset().count(p[k]) > 0);
        assert(id.contains(p[k]));
        let j = choose|j: int| 0 <= j < id.len() && id[j] == p[k];
    }
}

/// The table with the entries at two places exchanged.
pub open spec fn swapped(p: Seq<i32>, i: int, j: int) -> Seq<i32> {
    p.update(i, p[j]).update(j, p[i])
}

/// The table after the exchanges of the places `from` and above: from the
/// last place of `targets` down, each place `i` changes entries with the
/// place `targets[i]`.
pub open spec fn shuffled(p: Seq<i32>, targets: Seq<usize>, from: int) -> Seq<i32>
    decreases targets.len() - from,
{
    if 0 <= from < targets.len() {
        swapped(shuffled(p, targets, from + 1), from, targets[from] as int)
    } else {
        p
    }
}

/// Places to exchange the first `n` places of a table with: one for each,
/// and none beyond its own place.
pub open spec fn draws(targets: Seq<usize>, n: nat) -> bool {
    &&& targets.len() == n
    &&& forall|i: int| 0 <= i < n ==> #[trigger] targets[i] <= i
}

/// Exchanging two entries keeps the entries and the length of the table.
pub proof fn lemma_swapped_keeps_entries(p: Seq<i32>, i: int, j: int)
    requires
        0 <= i < p.len(),
        0 <= j < p.len(),
    ensures
        swapped(p, i, j).len() == p.len(),
        swapped(p, i, j).to_multiset() == p.to_multiset(),
{
    let mid = p.update(i, p[j]);
    p.to_multiset_ensures();
    vstd::seq_lib::to_multiset_update(p, i, p[j]);
    vstd::seq_lib::to_multiset_update(mid, j, p[i]);
    assert(p.contains(p[i]) && p.contains(p[j]));
    assert(swapped(p, i, j).to_multiset() =~= p.to_multiset());
}

/// Carries out the exchanges that `targets` names: from the last place of
/// `targets` down, each place `i` changes entries with the place
/// `targets[i]`, which is not beyond `i`.
pub fn shuffle(p: &mut Vec<i32>, targets: &Vec<usize>)
    requires
        targets@.len() <= old(p)@.len(),
        forall|i: int| 0 <= i < targets@.len() ==> #[trigger] targets@[i] <= i,
    ensures
        final(p)@ == shuffled(old(p)@, targets@, 0),
        final(p)@.len() == old(p)@.len(),
        final(p)@.to_multiset() == old(p)@.to_multiset(),
        forall|k: int| targets@.len() <= k < old(p)@.len() ==> final(p)@[k] == old(p)@[k],
{
    let n = targets.len();
    let mut i: usize = n;
    while i > 0
        invariant
            i <= n,
            n == targets@.len(),
            n <= p@.len(),
            forall|k: int| 0 <= k < targets@.len() ==> #[trigger] targets@[k] <= k,
            p@ == shuffled(old(p)@, targets@, i as int),
            p@.len() == old(p)@.len(),
            p@.to_multiset() == old(p)@.to_multiset(),
            forall|k: int| n <= k < p@.len() ==> p@[k] == old(p)@[k],
        decreases i,
    {
        i = i - 1;
        let target = targets[i];
        let ghost before = p@;
        let a = p[i];
        let b = p[target];
        p[i] = b;
        p[target] = a;
        proof {
            assert(p@ == swapped(before, i as int, target as int));
            lemma_swapped_keeps_entries(before, i as int, target as int);
        }
    }
}

/// Shuffles the first `n` entries of a table: from the last of them down,
/// each entry changes places with one drawn from those up to it. The table
/// that results is what `shuffle` makes of it with the places drawn.
pub fn permute(p: &mut Vec<i32>, n: usize, rng: &mut RandomStream)
    requires
        n <= old(p)@.len(),
        n <= i32::MAX,
    ensures
        exists|targets: Seq<usize>|
            draws(targets, n as nat) && final(p)@ == #[trigger] shuffled(old(p)@, targets, 0),
        final(p)@.len() == old(p)@.len(),
        final(p)@.to_multiset() == old(p)@.to_multiset(),
        forall|k: int| n <= k < old(p)@.len() ==> final(p)@[k] == old(p)@[k],
{
    let mut targets: Vec<usize> = Vec::new();
    let mut k: usize = 0;
    while k < n
        invariant
            k <= n,
            targets@.len() == k,
            forall|j: int| 0 <= j < k ==> targets@[j] == 0,
        decreases n - k,
    {
        targets.push(0);
        k = k + 1;
    }
    let mut i: usize = n;
    while i > 0
        invariant
            i <= n <= i32::MAX,
            targets@.len() == n,
            forall|j: int| 0 <= j < i ==> targets@[j] == 0,
            forall|j: int| 0 <= j < n ==> #[trigger] targets@[j] <= j,
        decreases i,
    {
        i = i - 1;
        let target = random_int_range(rng, 0, i as i32) as usize;
        targets[i] = target;
    }
    shuffle(p, &targets);
    proof {
        assert(draws(targets@, n as nat) && p@ == shuffled(old(p)@, targets@, 0));
    }
}

impl Perlin {
    /// The lattice vectors.
    pub closed spec fn vectors(self) -> Seq<Vec3> {
        self.randvec@
    }

    /// The permutation for an axis: 0 for x, 1 for y, anything else for z.
    pub closed spec fn perm(self, axis: int) -> Seq<i32> {
        if axis == 0 {
            self.perm_x@
        } else if axis == 1 {
            self.perm_y@
        } else {
            self.perm_z@
        }
    }

    /// There are 256 lattice vectors, and each table is a permutation.
    #[verifier::type_invariant]
    pub closed spec fn well_formed(self) -> bool {
        &&& self.randvec@.len() == POINT_COUNT
        &&& is_permutation(self.perm_x@)
        &&& is_permutation(self.perm_y@)
        &&& is_permutation(self.perm_z@)
    }

    /// The lattice vector of the lattice point `(i, j, k)`.
    pub open spec fn corner_spec(self, i: int, j: int, k: int) -> Vec3 {
        self.vectors()[lattice_slot(self.perm(0), self.perm(1), self.perm(2), i, j, k) as int]
    }

    /// Makes the tables: 256 lattice vectors, each from one call of
    /// `make_vector`, and three permutations shuffled by the stream.
    pub fn new<F: Fn() -> Vec3>(make_vector: &F, rng: &mut RandomStream) -> (r: Perlin)
        requires
            make_vector.requires(()),
        ensures
            r.vectors().len() == POINT_COUNT,
            forall|k: int| 0 <= k < POINT_COUNT ==> make_vector.ensures((), #[trigger] r.vectors()[k]),
            is_permutation(r.perm(0)),
            is_permutation(r.perm(1)),
            is_permutation(r.perm(2)),
    {
        let mut randvec: Vec<Vec3> = Vec::new();
        let mut k: usize = 0;
        while k < POINT_COUNT
            invariant
                k <= POINT_COUNT,
                randvec@.len() == k,
                make_vector.requires(()),
                forall|j: int| 0 <= j < k ==> make_vector.ensures((), #[trigger] randvec@[j]),
            decreases POINT_COUNT - k,
        {
            randvec.push(make_vector());
            k = k + 1;
        }
        let perm_x = Self::perlin_generate_perm(rng);
        let perm_y = Self::perlin_generate_perm(rng);
        let perm_z = Self::perlin_generate_perm(rng);
        Perlin { randvec, perm_x, perm_y, perm_z }
    }

    /// Takes over tables that were made elsewhere, or nothing unless
    /// there are 256 lattice vectors and each table is a permutation of
    /// `0 .. 256`.
    pub fn from_tables(randvec: Vec<Vec3>, perm_x: Vec<i32>, perm_y: Vec<i32>, perm_z: Vec<i32>) -> (r:
        Option<Perlin>)
        ensures
            r is Some <==> randvec@.len() == POINT_COUNT && is_permutation(perm_x@)
                && is_permutation(perm_y@) && is_permutation(perm_z@),
            r is Some ==> r->0.vectors() == randvec@ && r->0.perm(0) == perm_x@ && r->0.perm(1)
                == perm_y@ && r->0.perm(2) == perm_z@,
    {
        if randvec.len() != POINT_COUNT {
            return None;
        }
        if !holds_each_once(&perm_x) || !holds_each_once(&perm_y) || !holds_each_once(&perm_z) {
            return None;
        }
        Some(Perlin { randvec, perm_x, perm_y, perm_z })
    }

    /// A shuffled permutation of `0 .. 256`.
    pub fn perlin_generate_perm(rng: &mut RandomStream) -> (p: Vec<i32>)
        ensures
            is_permutation(p@),
    {
        let mut p: Vec<i32> = Vec::new();
        let mut i: i32 = 0;
        while i < 256
            invariant
                0 <= i <= 256,
                p@ == identity(i as nat),
            decreases 256 - i,
        {
            p.push(i);
            proof {
                assert(p@ =~= identity((i + 1) as nat));
            }
            i = i + 1;
        }
        permute(&mut p, POINT_COUNT, rng);
        p
    }

    /// The lattice vector that belongs to the lattice point `(i, j, k)`.
    pub fn corner(&self, i: i32, j: i32, k: i32) -> (r: Vec3)
        ensures
            r == self.corner_spec(i as int, j as int, k as int),
    {
        proof {
            use_type_invariant(self);
            lemma_permutation_in_range(self.perm_x@);
            lemma_permutation_in_range(self.perm_y@);
            lemma_permutation_in_range(self.perm_z@);
        }
        let a = self.perm_x[slot(i)];
        let b = self.perm_y[slot(j)];
        let c = self.perm_z[slot(k)];
        assert(0 <= a ^ b ^ c < 256) by (bit_vector)
            requires
                0 <= a < 256,
                0 <= b < 256,
                0 <= c < 256,
        ;
        self.randvec[(a ^ b ^ c) as usize]
    }

    /// The lattice vectors at the eight corners of the cell whose lowest
    /// corner is `(i, j, k)`: the corner `(i + di, j + dj, k + dk)` stands
    /// at place `4 di + 2 dj + dk`.
    pub fn cell(&self, i: i32, j: i32, k: i32) -> (r: [Vec3; 8])
        requires
            i < i32::MAX,
            j < i32::MAX,
            k < i32::MAX,
        ensures
            forall|di: int, dj: int, dk: int|
                0 <= di < 2 && 0 <= dj < 2 && 0 <= dk < 2 ==> #[trigger] r[4 * di + 2 * dj + dk]
                    == self.corner_spec(i + di, j + dj, k + dk),
    {
        [
            self.corner(i, j, k),
            self.corner(i, j, k + 1),
            self.corner(i, j + 1, k),
            self.corner(i, j + 1, k + 1),
            self.corner(i + 1, j, k),
            self.corner(i + 1, j, k + 1),
            self.corner(i + 1, j + 1, k),
            self.corner(i + 1, j + 1, k + 1),
        ]
    }
}

/// Tells whether a table is a permutation of `0 .. 256`.
pub fn holds_each_once(p: &Vec<i32>) -> (r: bool)
    ensures
        r == is_permutation(p@),
{
    if p.len() != POINT_COUNT {
        proof {
            if is_permutation(p@) {
                lemma_permutation_in_range(p@);
            }
        }
        return false;
    }
    let mut seen: Vec<bool> = Vec::new();
    let mut k: usize = 0;
    while k < POINT_COUNT
        invariant
            k <= POINT_COUNT,
            seen@.len() == k,
            forall|j: int| 0 <= j < k ==> !seen@[j],
        decreases POINT_COUNT - k,
    {
        seen.push(false);
        k = k + 1;
    }
    let mut i: usize = 0;
    while i < POINT_COUNT
        invariant
            i <= POINT_COUNT,
            p@.len() == POINT_COUNT,
            seen@.len() == POINT_COUNT,
            forall|j: int| 0 <= j < i ==> 0 <= #[trigger] p@[j] < 256,
            forall|a: int, b: int| 0 <= a < b < i ==> p@[a] != p@[b],
            forall|v: int|
                0 <= v < 256 ==> (#[trigger] seen@[v] <==> exists|j: int|
                    0 <= j < i && p@[j] == v),
        decreases POINT_COUNT - i,
    {
        let v = p[i];
        if v < 0 || v >= 256 {
            proof {
                if is_permutation(p@) {
                    lemma_permutation_in_range(p@);
                }
            }
            return false;
        }
        if seen[v as usize] {
            proof {
                let j = choose|j: int| 0 <= j < i && p@[j] == v;
                if is_permutation(p@) {
                    lemma_permutation_is_injective(p@, j, i as int);
                }
            }
            return false;
        }
        let ghost before = seen@;
        seen[v as usize] = true;
        proof {
            assert forall|w: int| 0 <= w < 256 implies (#[trigger] seen@[w] <==> exists|j: int|
                0 <= j < i + 1 && p@[j] == w) by {
                if w == v {
                    assert(p@[i as int] == w);
                } else {
                    if before[w] {
                        let j = choose|j: int| 0 <= j < i && p@[j] == w;
                        assert(0 <= j < i + 1 && p@[j] == w);
                    }
                    if exists|j: int| 0 <= j < i + 1 && p@[j] == w {
                        let j = choose|j: int| 0 <= j < i + 1 && p@[j] == w;
                        assert(j < i);
                    }
                }
            }
        }
        i = i + 1;
    }
    proof {
        lemma_injective_is_permutation(p@);
    }
    true
}

/// No number stands at two places of a permutation.
pub proof fn lemma_permutation_is_injective(p: Seq<i32>, a: int, b: int)
    requires
        is_permutation(p),
        0 <= a < b < p.len(),
    ensures
        p[a] != p[b],
{
    broadcast use vstd::seq_lib::group_to_multiset_ensures;

    let id = identity(POINT_COUNT as nat);
    lemma_permutation_in_range(p);
    if p[a] == p[b] {
        let v = p[a];
        assert(id.no_duplicates()) by {
            assert forall|i: int, j: int| 0 <= i < id.len() && 0 <= j < id.len() && i != j implies id[i]
                != id[j] by {}
        }
        id.lemma_multiset_has_no_duplicates();
        assert(id.to_multiset().count(v) <= 1) by {
            if id.to_multiset().count(v) > 0 {
                assert(id.to_multiset().contains(v));
            }
        }
        let q = p.remove(b);
        assert(q[a] == v);
        assert(q.contains(v));
        assert(q.to_multiset().count(v) > 0);
        assert(q.to_multiset() == p.to_multiset().remove(v));
        assert(p.to_multiset().count(v) >= 2);
    }
}

/// A table of 256 different numbers from `0 .. 256` is a permutation.
pub proof fn lemma_injective_is_permutation(p: Seq<i32>)
    requires
        p.len() == POINT_COUNT,
        forall|j: int| 0 <= j < p.len() ==> 0 <= #[trigger] p[j] < 256,
        forall|a: int, b: int| 0 <= a < b < p.len() ==> p[a] != p[b],
    ensures
        is_permutation(p),
{
    broadcast use vstd::seq_lib::group_to_multiset_ensures;

    let id = identity(POINT_COUNT as nat);
    assert(p.no_duplicates());
    assert(id.no_duplicates());
    p.lemma_multiset_has_no_duplicates();
    id.lemma_multiset_has_no_duplicates();
    p.unique_seq_to_set();
    id.unique_seq_to_set();
    let ps = p.to_set();
    let ids = id.to_set();
    assert forall|v: i32| ps.contains(v) implies ids.contains(v) by {
        let j = choose|j: int| 0 <= j < p.len() && p[j] == v;
        assert(id[v as int] == v);
    }
    assert(ps.subset_of(ids));
    assert(ids.finite());
    vstd::set_lib::lemma_subset_equality(ps, ids);
    assert(ps =~= ids);
    assert forall|v: i32| p.to_multiset().count(v) == id.to_multiset().count(v) by {
        if ps.contains(v) {
            assert(p.contains(v) && id.contains(v));
            assert(p.to_multiset().contains(v) && id.to_multiset().contains(v));
        } else {
            assert(!p.contains(v) && !id.contains(v));
        }
    }
    assert(p.to_multiset() =~= id.to_multiset());
}

/// The place of a lattice coordinate in a table.
fn slot(i: i32) -> (r: usize)
    ensures
        r == wrap(i as int),
        r < 256,
{
    let shifted = (i as i64 + 0x8000_0000) as u64;
    let r = shifted % 256;
    r as usize
}

} // verus!
