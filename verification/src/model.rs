use vstd::prelude::*;
use crate::mtl::find_material;
use crate::mtl::last_named;
use crate::mtl::models;
use crate::mtl::MtlInfo;
use crate::scalar::Real;
use crate::text::views;
use crate::vec3::Vec3;

verus! {

/// Encoding of `0.8`, the strength of the colours that stand in for a
/// material that cannot be found.
pub const FALLBACK_BITS: u64 = 0x3FE9_9999_9999_999A;

/// One triangle of a mesh: for each of its three corners the vertex whose
/// position it takes, and the vertices whose texture coordinates and
/// normal it takes where the mesh has them.
#[derive(Clone, Copy, Debug)]
pub struct Face {
    pub position: [u32; 3],
    pub texcoord: [Option<u32>; 3],
    pub normal: [Option<u32>; 3],
}

/// Why the indices of a mesh are refused. Each names the triangle,
/// counted from 0, at which reading stops.
#[derive(Clone, Copy, Debug, PartialEq, Eq, Structural)]
pub enum MeshError {
    /// The indices end in the middle of this triangle.
    RaggedIndices(usize),
    /// A corner of this triangle names a vertex without a position.
    PositionOutOfRange(usize),
    /// The third corner of this triangle names a vertex without a normal,
    /// though the first corner has one.
    NormalOutOfRange(usize),
}

/// The material of a mesh.
#[derive(Clone, Copy, Debug, PartialEq, Eq, Structural)]
pub enum MaterialChoice {
    /// The material at this place in the list read from the material file.
    Named(usize),
    /// The mesh names a material that the material file does not hold.
    UnknownName,
    /// The mesh refers to a material that the model does not list.
    UnknownId,
    /// The mesh has no material.
    NoId,
}

/// The vertex has `width` numbers among `count` numbers.
pub open spec fn has_entry(vertex: int, width: int, count: int) -> bool {
    width * (vertex + 1) <= count
}

/// The vertex to take an attribute from, where the vertex `guard` has one.
pub open spec fn attribute(vertex: u32, guard: u32, width: int, count: int) -> Option<u32> {
    if has_entry(guard as int, width, count) {
        Some(vertex)
    } else {
        None
    }
}

/// The triangle number `f` of a mesh. Texture coordinates come in pairs
/// and each corner takes them where its own vertex has them. Normals come
/// in triples: the first two corners take them where their own vertex has
/// one, the third where the vertex of the first corner has one.
pub open spec fn face_spec(
    indices: Seq<u32>,
    f: int,
    positions: int,
    texcoords: int,
    normals: int,
) -> Result<Face, MeshError> {
    let a = indices[3 * f];
    let b = indices[3 * f + 1];
    let c = indices[3 * f + 2];
    if 3 * f + 3 > indices.len() {
        Err(MeshError::RaggedIndices(f as usize))
    } else if !has_entry(a as int, 3, positions) || !has_entry(b as int, 3, positions) || !has_entry(
        c as int,
        3,
        positions,
    ) {
        Err(MeshError::PositionOutOfRange(f as usize))
    } else if has_entry(a as int, 3, normals) && !has_entry(c as int, 3, normals) {
        Err(MeshError::NormalOutOfRange(f as usize))
    } else {
        Ok(
            Face {
                position: [a, b, c],
                texcoord: [
                    attribute(a, a, 2, texcoords),
                    attribute(b, b, 2, texcoords),
                    attribute(c, c, 2, texcoords),
                ],
                normal: [
                    attribute(a, a, 3, normals),
                    attribute(b, b, 3, normals),
                    attribute(c, a, 3, normals),
                ],
            },
        )
    }
}

/// How many triangles the indices start: one for every three, and one
/// more for what is left over.
pub open spec fn face_count(len: int) -> int {
    (len + 2) / 3
}

/// The first triangle among the first `n` that cannot be read.
pub open spec fn first_bad_face(
    indices: Seq<u32>,
    n: nat,
    positions: int,
    texcoords: int,
    normals: int,
) -> Option<MeshError>
    decreases n,
{
    if n == 0 {
        None
    } else {
        match first_bad_face(indices, (n - 1) as nat, positions, texcoords, normals) {
            Some(e) => Some(e),
            None => match face_spec(indices, n - 1, positions, texcoords, normals) {
                Ok(_) => None,
                Err(e) => Some(e),
            },
        }
    }
}

/// The triangles of a mesh, in the order of its indices, or why the first
/// one that cannot be read is refused.
pub open spec fn faces_spec(indices: Seq<u32>, positions: int, texcoords: int, normals: int) -> Result<
    Seq<Face>,
    MeshError,
> {
    let n = face_count(indices.len() as int);
    match first_bad_face(indices, n as nat, positions, texcoords, normals) {
        Some(e) => Err(e),
        None => Ok(
            Seq::new(n as nat, |f: int| face_spec(indices, f, positions, texcoords, normals)->Ok_0),
        ),
    }
}

fn entry(vertex: u32, width: usize, count: usize) -> (r: bool)
    requires
        width <= 3,
    ensures
        r == has_entry(vertex as int, width as int, count as int),
{
    assert(width * (vertex + 1) <= 3 * 0x1_0000_0000) by (nonlinear_arith)
        requires
            0 <= width <= 3,
            0 <= vertex < 0x1_0000_0000,
    ;
    let need = (width as u64) * (vertex as u64 + 1);
    need <= count as u64
}

/// Reads the indices of a mesh of triangles. `positions`, `texcoords` and
/// `normals` are the lengths of the mesh's lists of numbers: three to a
/// position, two to a texture coordinate, three to a normal.
pub fn faces(indices: &Vec<u32>, positions: usize, texcoords: usize, normals: usize) -> (r: Result<
    Vec<Face>,
    MeshError,
>)
    ensures
        match r {
            Ok(list) => faces_spec(
                indices@,
                positions as int,
                texcoords as int,
                normals as int,
            ) == Ok::<Seq<Face>, MeshError>(list@),
            Err(e) => faces_spec(indices@, positions as int, texcoords as int, normals as int)
                == Err::<Seq<Face>, MeshError>(e),
        },
{
    let len = indices.len();
    let ghost n = face_count(len as int);
    let ghost p = positions as int;
    let ghost t = texcoords as int;
    let ghost m = normals as int;
    let mut out: Vec<Face> = Vec::new();
    let mut i: usize = 0;
    let mut f: usize = 0;
    while i < len
        invariant
            i == 3 * f,
            f <= n,
            i <= len + 2,
            len == indices@.len(),
            n == face_count(len as int),
            p == positions && t == texcoords && m == normals,
            first_bad_face(indices@, f as nat, p, t, m) is None,
            out@.len() == f,
            forall|k: int| 0 <= k < f ==> Ok::<Face, MeshError>(#[trigger] out@[k]) == face_spec(indices@, k, p, t, m),
        decreases len + 2 - i,
    {
        if len - i < 3 {
            proof {
                lemma_bad_face_stays(indices@, (f + 1) as nat, n as nat, p, t, m);
            }
            return Err(MeshError::RaggedIndices(f));
        }
        let a = indices[i];
        let b = indices[i + 1];
        let c = indices[i + 2];
        if !entry(a, 3, positions) || !entry(b, 3, positions) || !entry(c, 3, positions) {
            proof {
                lemma_bad_face_stays(indices@, (f + 1) as nat, n as nat, p, t, m);
            }
            return Err(MeshError::PositionOutOfRange(f));
        }
        let first_normal = entry(a, 3, normals);
        if first_normal && !entry(c, 3, normals) {
            proof {
                lemma_bad_face_stays(indices@, (f + 1) as nat, n as nat, p, t, m);
            }
            return Err(MeshError::NormalOutOfRange(f));
        }
        let face = Face {
            position: [a, b, c],
            texcoord: [
                if entry(a, 2, texcoords) {
                    Some(a)
                } else {
                    None
                },
                if entry(b, 2, texcoords) {
                    Some(b)
                } else {
                    None
                },
                if entry(c, 2, texcoords) {
                    Some(c)
                } else {
                    None
                },
            ],
            normal: [
                if first_normal {
                    Some(a)
                } else {
                    None
                },
                if entry(b, 3, normals) {
                    Some(b)
                } else {
                    None
                },
                if first_normal {
                    Some(c)
                } else {
                    None
                },
            ],
        };
        proof {
            let want = face_spec(indices@, f as int, p, t, m)->Ok_0;
            assert(face.position =~= want.position);
            assert(face.texcoord =~= want.texcoord);
            assert(face.normal =~= want.normal);
        }
        out.push(face);
        i = i + 3;
        f = f + 1;
    }
    proof {
        assert(f == n);
        let want = Seq::new(n as nat, |k: int| face_spec(indices@, k, p, t, m)->Ok_0);
        assert(out@ =~= want);
    }
    Ok(out)
}

/// Once a triangle cannot be read, the first such triangle stays the same
/// however many follow.
proof fn lemma_bad_face_stays(indices: Seq<u32>, n: nat, m: nat, p: int, t: int, q: int)
    requires
        n <= m,
        first_bad_face(indices, n, p, t, q) is Some,
    ensures
        first_bad_face(indices, m, p, t, q) == first_bad_face(indices, n, p, t, q),
    decreases m - n,
{
    if n < m {
        lemma_bad_face_stays(indices, n, (m - 1) as nat, p, t, q);
    }
}

/// What `choose_material` decides.
pub open spec fn choice_spec(
    material_id: Option<usize>,
    names: Seq<Seq<char>>,
    library: Seq<crate::mtl::MtlModel>,
) -> MaterialChoice {
    match material_id {
        None => MaterialChoice::NoId,
        Some(id) => if id >= names.len() {
            MaterialChoice::UnknownId
        } else {
            match last_named(library, names[id as int]) {
                Some(k) => MaterialChoice::Named(k as usize),
                None => MaterialChoice::UnknownName,
            }
        },
    }
}

/// Chooses the material of a mesh: the one that the material file holds
/// under the name that the model lists for the mesh. `names` are the names
/// of the materials that the model lists, `library` what was read from the
/// material file.
pub fn choose_material(material_id: Option<usize>, names: &Vec<String>, library: &Vec<MtlInfo>) -> (r:
    MaterialChoice)
    ensures
        r == choice_spec(material_id, views(names@), models(library@)),
{
    match material_id {
        None => MaterialChoice::NoId,
        Some(id) => {
            if id >= names.len() {
                MaterialChoice::UnknownId
            } else {
                assert(views(names@)[id as int] == names@[id as int]@);
                match find_material(library, names[id].as_str()) {
                    Some(k) => MaterialChoice::Named(k),
                    None => MaterialChoice::UnknownName,
                }
            }
        },
    }
}

impl MaterialChoice {
    /// The colour that stands in for a material that cannot be found: red
    /// for an unknown name, green for an unknown reference, blue for a mesh
    /// without material, each of strength `0.8`. A material that was found
    /// has no such colour.
    pub open spec fn fallback_spec(self) -> Option<Vec3> {
        let zero = Real { bits: 0 };
        let some = Real { bits: FALLBACK_BITS };
        match self {
            MaterialChoice::Named(_) => None,
            MaterialChoice::UnknownName => Some(Vec3 { x: some, y: zero, z: zero }),
            MaterialChoice::UnknownId => Some(Vec3 { x: zero, y: some, z: zero }),
            MaterialChoice::NoId => Some(Vec3 { x: zero, y: zero, z: some }),
        }
    }

    pub fn fallback_color(&self) -> (r: Option<Vec3>)
        ensures
            r == self.fallback_spec(),
    {
        let zero = Real::zero();
        let some = Real::from_bits(FALLBACK_BITS);
        match self {
            MaterialChoice::Named(_) => None,
            MaterialChoice::UnknownName => Some(Vec3 { x: some, y: zero, z: zero }),
            MaterialChoice::UnknownId => Some(Vec3 { x: zero, y: some, z: zero }),
            MaterialChoice::NoId => Some(Vec3 { x: zero, y: zero, z: some }),
        }
    }
}

} // verus!
