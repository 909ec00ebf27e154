use vstd::prelude::*;
use crate::rtw_image::RtwImage;
use crate::scalar::Real;
use crate::scalar::ONE_BITS;
use crate::vec3::Vec3;

verus! {

/// A texture that takes its colour from an image.
pub struct ImageTexture {
    pub image: RtwImage,
}

/// A texture with a colour image and, where the surface has them, a normal
/// map and an alpha map.
pub struct MappedTexture {
    pub color_map: RtwImage,
    pub normal_map: Option<RtwImage>,
    pub alpha_map: Option<RtwImage>,
}

/// The pixel that a colour lookup reads: none for an image without rows,
/// for which the lookup answers with a fixed colour.
pub open spec fn color_texel_spec(image: RtwImage, i: int, j: int) -> Option<Seq<u8>> {
    if image.height_spec() == 0 {
        None
    } else {
        Some(image.pixel_spec(i, j))
    }
}

/// The pixel that a lookup in a map reads: none where there is no map.
pub open spec fn map_texel_spec(map: Option<RtwImage>, i: int, j: int) -> Option<Seq<u8>> {
    match map {
        Some(image) => Some(image.pixel_spec(i, j)),
        None => None,
    }
}

/// The view of a pixel that may be missing.
pub open spec fn texel_view(texel: Option<&[u8]>) -> Option<Seq<u8>> {
    match texel {
        Some(rgb) => Some(rgb@),
        None => None,
    }
}

/// The colour that a lookup answers with when the image has no rows:
/// cyan.
pub fn missing_color() -> (r: Vec3)
    ensures
        r.x.bits == 0,
        r.y.bits == ONE_BITS,
        r.z.bits == ONE_BITS,
{
    Vec3 { x: Real::zero(), y: Real::one(), z: Real::one() }
}

fn color_texel(image: &RtwImage, i: usize, j: usize) -> (r: Option<&[u8]>)
    ensures
        texel_view(r) == color_texel_spec(*image, i as int, j as int),
        r is Some ==> r->0@.len() == 3,
{
    if image.height() == 0 {
        None
    } else {
        Some(image.pixel_data(i, j))
    }
}

fn map_texel(map: &Option<RtwImage>, i: usize, j: usize) -> (r: Option<&[u8]>)
    ensures
        texel_view(r) == map_texel_spec(*map, i as int, j as int),
        r is Some ==> r->0@.len() == 3,
{
    match map {
        Some(image) => Some(image.pixel_data(i, j)),
        None => None,
    }
}

/// A texture of two textures that alternate from cell to cell of a grid.
#[derive(Clone, Copy, Debug)]
pub struct CheckerTexture {
    pub even: usize,
    pub odd: usize,
}

impl CheckerTexture {
    pub fn new(even: usize, odd: usize) -> (r: CheckerTexture)
        ensures
            r.even == even,
            r.odd == odd,
    {
        CheckerTexture { even, odd }
    }

    /// The handle of the texture that colours the grid cell `(x, y, z)`:
    /// the even one where the sum of the three is even, else the odd one.
    pub fn pick(&self, x: i32, y: i32, z: i32) -> (r: usize)
        ensures
            r == if (x + y + z) % 2 == 0 {
                self.even
            } else {
                self.odd
            },
    {
        let sum = x as i64 + y as i64 + z as i64;
        if sum % 2 == 0 {
            self.even
        } else {
            self.odd
        }
    }
}

impl ImageTexture {
    pub fn new(image: RtwImage) -> (r: ImageTexture)
        ensures
            r.image == image,
    {
        ImageTexture { image }
    }

    /// The pixel in column `i` of row `j`, counted from the top, or none
    /// when the image has no rows.
    pub fn texel(&self, i: usize, j: usize) -> (r: Option<&[u8]>)
        ensures
            texel_view(r) == color_texel_spec(self.image, i as int, j as int),
            r is Some ==> r->0@.len() == 3,
    {
        color_texel(&self.image, i, j)
    }
}

impl MappedTexture {
    pub fn new(color_map: RtwImage, normal_map: Option<RtwImage>, alpha_map: Option<RtwImage>) -> (r:
        MappedTexture)
        ensures
            r.color_map == color_map,
            r.normal_map == normal_map,
            r.alpha_map == alpha_map,
    {
        MappedTexture { color_map, normal_map, alpha_map }
    }

    /// The pixel of the colour image, or none when it has no rows.
    pub fn texel(&self, i: usize, j: usize) -> (r: Option<&[u8]>)
        ensures
            texel_view(r) == color_texel_spec(self.color_map, i as int, j as int),
            r is Some ==> r->0@.len() == 3,
    {
        color_texel(&self.color_map, i, j)
    }

    /// The pixel of the normal map, or none when the texture has no normal
    /// map.
    pub fn normal_texel(&self, i: usize, j: usize) -> (r: Option<&[u8]>)
        ensures
            texel_view(r) == map_texel_spec(self.normal_map, i as int, j as int),
            r is Some ==> r->0@.len() == 3,
    {
        map_texel(&self.normal_map, i, j)
    }

    /// The first byte of the pixel of the alpha map, or none when the
    /// texture has no alpha map.
    pub fn alpha_texel(&self, i: usize, j: usize) -> (r: Option<u8>)
        ensures
            r == match map_texel_spec(self.alpha_map, i as int, j as int) {
                Some(rgb) => Some(rgb[0]),
                None => None,
            },
    {
        match map_texel(&self.alpha_map, i, j) {
            Some(rgb) => Some(rgb[0]),
            None => None,
        }
    }
}

} // verus!
