use vstd::prelude::*;
use crate::material::ScatterKind;
use crate::scalar::Real;
use crate::scalar::ONE_BITS;
use crate::vec3::Point3;
use crate::vec3::Vec3;

verus! {

/// Encoding of `90.0`, the default vertical field of view in degrees.
pub const RIGHT_ANGLE_BITS: u64 = 0x4056_8000_0000_0000;

/// What the camera is set to, and what follows from it for the image.
#[derive(Clone, Copy, Debug)]
pub struct Camera {
    pub aspect_ratio: Real,
    pub image_width: u32,
    pub samples_per_pixel: u32,
    pub max_depth: i32,
    pub background: Vec3,
    pub vfov: Real,
    pub lookfrom: Point3,
    pub lookat: Point3,
    pub vup: Vec3,
    pub defocus_angle: Real,
    pub focus_dist: Real,
    pub image_height: u32,
    pub sqrt_spp: u32,
}

/// What the estimator does with one ray.
#[derive(Clone, Copy, Debug, PartialEq, Eq, Structural)]
pub enum PathStep {
    /// The depth is used up: the ray contributes nothing.
    Exhausted,
    /// The ray hits nothing: it contributes the background.
    Background,
    /// The surface scatters nothing: the ray contributes what the surface
    /// emits.
    EmissionOnly,
    /// The surface makes the ray to follow: what comes back along it is
    /// weighted by the tint alone.
    Specular,
    /// A direction is drawn from the blend of the surface's distribution
    /// and the lights, and what comes back is weighted by the tint and the
    /// two densities.
    Sampled,
}

/// The largest number whose square is at most `n`.
pub open spec fn is_sqrt(n: int, r: int) -> bool {
    0 <= r && r * r <= n < (r + 1) * (r + 1)
}

/// The pixel that is shaded at place `k`: rows from the bottom row up,
/// and each row from the left.
pub open spec fn pixel_at(width: int, height: int, k: int) -> (u32, u32) {
    ((k % width) as u32, (height - 1 - k / width) as u32)
}

/// The sample that is taken at place `k` within a pixel: rows of cells,
/// each row from the left.
pub open spec fn sample_at(side: int, k: int) -> (u32, u32) {
    ((k % side) as u32, (k / side) as u32)
}

/// The largest number whose square is at most `n`.
pub fn isqrt(n: u32) -> (r: u32)
    ensures
        is_sqrt(n as int, r as int),
        r < 0x1_0000,
{
    let mut r: u64 = 0;
    while (r + 1) * (r + 1) <= n as u64
        invariant
            r * r <= n,
            r < 0x1_0000,
            (r + 1) * (r + 1) <= 0x1_0000_0000,
        decreases n - r * r,
    {
        assert((r + 1) * (r + 1) <= 0xFFFF_FFFF ==> r + 1 < 0x1_0000) by (nonlinear_arith)
            requires
                r >= 0,
        ;
        assert(r * r < (r + 1) * (r + 1)) by (nonlinear_arith)
            requires
                r >= 0,
        ;
        r = r + 1;
        assert((r + 1) * (r + 1) <= 0x1_0000_0000) by (nonlinear_arith)
            requires
                0 <= r < 0x1_0000,
        ;
    }
    r as u32
}

/// The pairs `(k % side, k / side)` for `k` below `side * rows`, in
/// ascending order of `k`.
fn grid(side: u32, rows: u32) -> (r: Vec<(u32, u32)>)
    ensures
        r@.len() == side * rows,
        forall|k: int| 0 <= k < r@.len() ==> #[trigger] r@[k] == sample_at(side as int, k),
{
    let mut out: Vec<(u32, u32)> = Vec::new();
    let mut j: u32 = 0;
    while j < rows
        invariant
            j <= rows,
            out@.len() == side * j,
            forall|k: int| 0 <= k < out@.len() ==> #[trigger] out@[k] == sample_at(side as int, k),
        decreases rows - j,
    {
        let mut i: u32 = 0;
        while i < side
            invariant
                i <= side,
                j < rows,
                out@.len() == side * j + i,
                forall|k: int|
                    0 <= k < out@.len() ==> #[trigger] out@[k] == sample_at(side as int, k),
            decreases side - i,
        {
            proof {
                let k = side * j + i;
                assert(k % (side as int) == i && k / (side as int) == j) by (nonlinear_arith)
                    requires
                        k == side * j + i,
                        0 <= i < side,
                        0 <= j,
                ;
            }
            out.push((i, j));
            i = i + 1;
        }
        assert(side * j + side == side * (j + 1)) by (nonlinear_arith);
        j = j + 1;
    }
    out
}

impl Camera {
    /// The camera as it is before anything is set: a square image of 100
    /// pixels, 10 samples to a pixel, depth 10, a black background, a view
    /// of 90 degrees from the origin along `-z` with `y` up, no defocus.
    pub fn new() -> (r: Camera)
        ensures
            r.aspect_ratio.bits == ONE_BITS,
            r.image_width == 100,
            r.samples_per_pixel == 10,
            r.max_depth == 10,
            r.background == (Vec3 { x: Real { bits: 0 }, y: Real { bits: 0 }, z: Real { bits: 0 } }),
            r.vfov.bits == RIGHT_ANGLE_BITS,
            r.lookfrom == r.background,
            r.lookat == (Vec3 { z: (Real { bits: ONE_BITS }).neg_spec(), ..r.background }),
            r.vup == (Vec3 { y: Real { bits: ONE_BITS }, ..r.background }),
            r.defocus_angle.bits == 0,
            r.focus_dist.bits == ONE_BITS,
            r.image_height == 0,
            r.sqrt_spp == 1,
    {
        let zero = Real::zero();
        let one = Real::one();
        let origin = Vec3 { x: zero, y: zero, z: zero };
        Camera {
            aspect_ratio: one,
            image_width: 100,
            samples_per_pixel: 10,
            max_depth: 10,
            background: origin,
            vfov: Real::from_bits(RIGHT_ANGLE_BITS),
            lookfrom: origin,
            lookat: Vec3 { x: zero, y: zero, z: one.neg() },
            vup: Vec3 { x: zero, y: one, z: zero },
            defocus_angle: zero,
            focus_dist: one,
            image_height: 0,
            sqrt_spp: 1,
        }
    }

    /// Settles the size of the image and the number of samples. `height`
    /// is the width divided by the aspect ratio, rounded down; the image
    /// gets at least one row. Each pixel is cut into a square of cells, as
    /// many to a side as the square root of the samples asked for, rounded
    /// down.
    pub fn initialize(&mut self, height: u32)
        ensures
            final(self).image_height == if height < 1 {
                1u32
            } else {
                height
            },
            is_sqrt(old(self).samples_per_pixel as int, final(self).sqrt_spp as int),
            *final(self) == (Camera {
                image_height: final(self).image_height,
                sqrt_spp: final(self).sqrt_spp,
                ..*old(self)
            }),
    {
        self.image_height = if height < 1 {
            1
        } else {
            height
        };
        self.sqrt_spp = isqrt(self.samples_per_pixel);
    }

    /// The number of pixels of the image.
    pub fn pixel_count(&self) -> (n: u64)
        ensures
            n == self.image_width * self.image_height,
    {
        assert(self.image_width * self.image_height <= 0xFFFF_FFFF * 0xFFFF_FFFF) by (nonlinear_arith)
            requires
                0 <= self.image_width <= 0xFFFF_FFFF,
                0 <= self.image_height <= 0xFFFF_FFFF,
        ;
        (self.image_width as u64) * (self.image_height as u64)
    }

    /// The pixels in the order in which they are shaded, as column and
    /// row: from the bottom row up, each row from the left.
    pub fn pixels(&self) -> (r: Vec<(u32, u32)>)
        ensures
            r@.len() == self.image_width * self.image_height,
            forall|k: int|
                0 <= k < r@.len() ==> #[trigger] r@[k] == pixel_at(
                    self.image_width as int,
                    self.image_height as int,
                    k,
                ),
    {
        let width = self.image_width;
        let height = self.image_height;
        let mut out = grid(width, height);
        let n = out.len();
        let mut k: usize = 0;
        while k < n
            invariant
                k <= n,
                n == out@.len(),
                n == width * height,
                forall|m: int|
                    0 <= m < k ==> #[trigger] out@[m] == pixel_at(width as int, height as int, m),
                forall|m: int| k <= m < n ==> #[trigger] out@[m] == sample_at(width as int, m),
            decreases n - k,
        {
            let (i, j) = out[k];
            proof {
                assert(width >= 1 && (k as int) / (width as int) < height) by (nonlinear_arith)
                    requires
                        0 <= k < width * height,
                        0 <= width,
                        0 <= height,
                ;
            }
            out[k] = (i, height - 1 - j);
            k = k + 1;
        }
        out
    }

    /// The cells of a pixel in the order in which they are sampled, as
    /// column and row: row by row, each row from the left.
    pub fn samples(&self) -> (r: Vec<(u32, u32)>)
        ensures
            r@.len() == self.sqrt_spp * self.sqrt_spp,
            forall|k: int|
                0 <= k < r@.len() ==> #[trigger] r@[k] == sample_at(self.sqrt_spp as int, k),
    {
        grid(self.sqrt_spp, self.sqrt_spp)
    }

    /// Decides what the estimator does with a ray: `depth` is the number
    /// of bounces still allowed, `hit` tells whether the ray hit anything,
    /// and `scatter` what the material there does with it.
    pub fn path_step(depth: i32, hit: bool, scatter: ScatterKind) -> (r: PathStep)
        ensures
            r == if depth <= 0 {
                PathStep::Exhausted
            } else if !hit {
                PathStep::Background
            } else {
                match scatter {
                    ScatterKind::Absorbed => PathStep::EmissionOnly,
                    ScatterKind::Specular => PathStep::Specular,
                    ScatterKind::Sampled(_) => PathStep::Sampled,
                }
            },
    {
        if depth <= 0 {
            PathStep::Exhausted
        } else if !hit {
            PathStep::Background
        } else {
            match scatter {
                ScatterKind::Absorbed => PathStep::EmissionOnly,
                ScatterKind::Specular => PathStep::Specular,
                ScatterKind::Sampled(_) => PathStep::Sampled,
            }
        }
    }
}

} // verus!
