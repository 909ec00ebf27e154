use vstd::prelude::*;
use crate::ray::Ray;
use crate::rtw_image::RtwImage;
use crate::scalar::Real;
use crate::scalar::ONE_BITS;
use crate::vec3::Vec3;

verus! {

/// How a surface answers a ray.
pub enum Material {
    /// Diffuse: scatters by the cosine about the normal, tinted by a
    /// texture.
    Lambertian { tex: usize },
    /// A mirror, blurred by `fuzz`, which is at most one.
    Metal { albedo: Vec3, fuzz: Real },
    /// Glass: reflects or refracts.
    Dielectric { refraction_index: Real },
    /// A light: emits the colour of a texture from its front face and
    /// scatters nothing.
    DiffuseLight { tex: usize },
    /// Scatters evenly in all directions, tinted by a texture.
    Isotropic { tex: usize },
    /// Another material with maps laid over it.
    Mapping(Mapping),
}

/// A material with maps laid over it: a map of normals, a map of alpha
/// values and a map of emitted light, each of which may be missing.
pub struct Mapping {
    pub basis_material: Box<Material>,
    pub normal_mapping: Option<RtwImage>,
    pub alpha_mapping: Option<RtwImage>,
    pub light_mapping: Option<RtwImage>,
}

/// The distribution that a scattered direction is drawn from.
#[derive(Clone, Copy, Debug, PartialEq, Eq, Structural)]
pub enum PdfChoice {
    /// Even over the sphere.
    Sphere,
    /// Weighted by the cosine about the surface normal.
    Cosine,
}

/// What a material does with an incoming ray.
#[derive(Clone, Copy, Debug, PartialEq, Eq, Structural)]
pub enum ScatterKind {
    /// The ray ends here.
    Absorbed,
    /// A direction is drawn from a distribution.
    Sampled(PdfChoice),
    /// The material makes the one ray to follow, and no distribution
    /// applies.
    Specular,
}

/// Where the light that a surface emits comes from.
#[derive(Clone, Copy, Debug, PartialEq, Eq, Structural)]
pub enum Emission {
    /// The surface emits nothing.
    Dark,
    /// The colour of the texture with this handle.
    Texture(usize),
    /// The colour that the map of emitted light holds.
    LightMap,
}

/// The outcome of scattering: the tint, the distribution to draw the next
/// direction from, or the ray to follow when `skip_pdf` is set.
#[derive(Clone, Copy, Debug)]
pub struct ScatterRecord {
    pub attenuation: Vec3,
    pub pdf: PdfChoice,
    pub skip_pdf: bool,
    pub skip_pdf_ray: Ray,
}

impl ScatterRecord {
    /// The record before scattering: no tint, the even distribution, and a
    /// ray of zeros cast at time zero.
    pub fn default() -> (r: ScatterRecord)
        ensures
            r.attenuation.x.bits == 0 && r.attenuation.y.bits == 0 && r.attenuation.z.bits == 0,
            r.pdf == PdfChoice::Sphere,
            !r.skip_pdf,
            r.skip_pdf_ray.origin == r.attenuation,
            r.skip_pdf_ray.direction == r.attenuation,
            r.skip_pdf_ray.time.bits == 0,
    {
        let zero = Real::zero();
        let origin = Vec3 { x: zero, y: zero, z: zero };
        ScatterRecord {
            attenuation: origin,
            pdf: PdfChoice::Sphere,
            skip_pdf: false,
            skip_pdf_ray: Ray::new(origin, origin),
        }
    }
}

impl Material {
    /// The blur of a mirror: what is asked for, but no more than one.
    pub open spec fn fuzz_spec(fuzz: Real) -> Real {
        if fuzz.lt_spec(Real { bits: ONE_BITS }) {
            fuzz
        } else {
            Real { bits: ONE_BITS }
        }
    }

    /// What the material does with a ray. Lambertian surfaces scatter by
    /// the cosine, isotropic ones evenly, metal and glass make their own
    /// ray, a light scatters nothing, and a mapping does what the
    /// material below it does.
    pub open spec fn scatter_spec(self) -> ScatterKind
        decreases self,
    {
        match self {
            Material::Lambertian { .. } => ScatterKind::Sampled(PdfChoice::Cosine),
            Material::Metal { .. } => ScatterKind::Specular,
            Material::Dielectric { .. } => ScatterKind::Specular,
            Material::DiffuseLight { .. } => ScatterKind::Absorbed,
            Material::Isotropic { .. } => ScatterKind::Sampled(PdfChoice::Sphere),
            Material::Mapping(m) => m.basis_material.scatter_spec(),
        }
    }

    /// Where the emitted light comes from. A light emits its texture from
    /// the front face alone. A mapping emits nothing from the back face;
    /// from the front it emits its map of light, or what the material
    /// below it emits where it has no such map. Nothing else emits.
    pub open spec fn emitted_spec(self, front_face: bool) -> Emission
        decreases self,
    {
        match self {
            Material::DiffuseLight { tex } => if front_face {
                Emission::Texture(tex)
            } else {
                Emission::Dark
            },
            Material::Mapping(m) => if !front_face {
                Emission::Dark
            } else if m.light_mapping is Some {
                Emission::LightMap
            } else {
                m.basis_material.emitted_spec(front_face)
            },
            _ => Emission::Dark,
        }
    }

    /// The map that the emitted light is read from: that of the outermost
    /// mapping that has one.
    pub open spec fn light_map_spec(self) -> Option<RtwImage>
        decreases self,
    {
        match self {
            Material::Mapping(m) => if m.light_mapping is Some {
                m.light_mapping
            } else {
                m.basis_material.light_map_spec()
            },
            _ => None,
        }
    }

    /// A front face emits from a map of light exactly when the material
    /// has such a map to read from.
    pub proof fn lemma_light_map_is_read(self)
        ensures
            self.emitted_spec(true) == Emission::LightMap <==> self.light_map_spec() is Some,
        decreases self,
    {
        match self {
            Material::Mapping(m) => {
                if m.light_mapping is None {
                    m.basis_material.lemma_light_map_is_read();
                }
            },
            _ => {},
        }
    }

    /// The map that the emitted light is read from, if there is one.
    pub fn light_map(&self) -> (r: Option<&RtwImage>)
        ensures
            r is Some <==> self.light_map_spec() is Some,
            r is Some ==> *r->0 == self.light_map_spec()->0,
        decreases self,
    {
        match self {
            Material::Mapping(m) => {
                match &m.light_mapping {
                    Some(map) => Some(map),
                    None => m.basis_material.light_map(),
                }
            },
            _ => None,
        }
    }

    /// A mirror of the given tint, its blur held to at most one.
    pub fn metal(albedo: Vec3, fuzz: Real) -> (r: Material)
        ensures
            r == (Material::Metal { albedo, fuzz: Self::fuzz_spec(fuzz) }),
    {
        let one = Real::one();
        Material::Metal {
            albedo,
            fuzz: if fuzz.lt(&one) {
                fuzz
            } else {
                one
            },
        }
    }

    pub fn scatter(&self) -> (r: ScatterKind)
        ensures
            r == self.scatter_spec(),
        decreases self,
    {
        match self {
            Material::Lambertian { .. } => ScatterKind::Sampled(PdfChoice::Cosine),
            Material::Metal { .. } => ScatterKind::Specular,
            Material::Dielectric { .. } => ScatterKind::Specular,
            Material::DiffuseLight { .. } => ScatterKind::Absorbed,
            Material::Isotropic { .. } => ScatterKind::Sampled(PdfChoice::Sphere),
            Material::Mapping(m) => m.basis_material.scatter(),
        }
    }

    pub fn emitted(&self, front_face: bool) -> (r: Emission)
        ensures
            r == self.emitted_spec(front_face),
        decreases self,
    {
        match self {
            Material::DiffuseLight { tex } => {
                if front_face {
                    Emission::Texture(*tex)
                } else {
                    Emission::Dark
                }
            },
            Material::Mapping(m) => {
                if !front_face {
                    Emission::Dark
                } else if m.light_mapping.is_some() {
                    Emission::LightMap
                } else {
                    m.basis_material.emitted(front_face)
                }
            },
            _ => Emission::Dark,
        }
    }

    /// Tells whether the material lays a map of normals over the surface.
    pub fn check_normal_mapping(&self) -> (r: bool)
        ensures
            r == (self matches Material::Mapping(m) && m.normal_mapping is Some),
    {
        match self {
            Material::Mapping(m) => m.normal_mapping.is_some(),
            _ => false,
        }
    }

    /// Tells whether the material lays a map of alpha values over the
    /// surface.
    pub fn check_alpha_mapping(&self) -> (r: bool)
        ensures
            r == (self matches Material::Mapping(m) && m.alpha_mapping is Some),
    {
        match self {
            Material::Mapping(m) => m.alpha_mapping.is_some(),
            _ => false,
        }
    }

    /// Tells whether the material lays a map of emitted light over the
    /// surface.
    pub fn check_light_mapping(&self) -> (r: bool)
        ensures
            r == (self matches Material::Mapping(m) && m.light_mapping is Some),
    {
        match self {
            Material::Mapping(m) => m.light_mapping.is_some(),
            _ => false,
        }
    }
}

impl Mapping {
    /// A black mirror without blur, and no maps.
    pub fn default() -> (r: Mapping)
        ensures
            *r.basis_material matches Material::Metal { albedo, fuzz } && fuzz.bits == 0
                && albedo.x.bits == 0 && albedo.y.bits == 0 && albedo.z.bits == 0,
            r.normal_mapping is None,
            r.alpha_mapping is None,
            r.light_mapping is None,
    {
        let zero = Real::zero();
        let black = Vec3 { x: zero, y: zero, z: zero };
        Mapping {
            basis_material: Box::new(Material::metal(black, zero)),
            normal_mapping: None,
            alpha_mapping: None,
            light_mapping: None,
        }
    }

    pub fn new(basis_material: Material) -> (r: Mapping)
        ensures
            *r.basis_material == basis_material,
            r.normal_mapping is None,
            r.alpha_mapping is None,
            r.light_mapping is None,
    {
        Mapping {
            basis_material: Box::new(basis_material),
            normal_mapping: None,
            alpha_mapping: None,
            light_mapping: None,
        }
    }

    pub fn set_normal_mapping(&mut self, normal_mapping: RtwImage)
        ensures
            final(self).normal_mapping == Some(normal_mapping),
            final(self).basis_material == old(self).basis_material,
            final(self).alpha_mapping == old(self).alpha_mapping,
            final(self).light_mapping == old(self).light_mapping,
    {
        self.normal_mapping = Some(normal_mapping);
    }

    pub fn set_alpha_mapping(&mut self, alpha_mapping: RtwImage)
        ensures
            final(self).alpha_mapping == Some(alpha_mapping),
            final(self).basis_material == old(self).basis_material,
            final(self).normal_mapping == old(self).normal_mapping,
            final(self).light_mapping == old(self).light_mapping,
    {
        self.alpha_mapping = Some(alpha_mapping);
    }

    pub fn set_light_mapping(&mut self, light_mapping: RtwImage)
        ensures
            final(self).light_mapping == Some(light_mapping),
            final(self).basis_material == old(self).basis_material,
            final(self).normal_mapping == old(self).normal_mapping,
            final(self).alpha_mapping == old(self).alpha_mapping,
    {
        self.light_mapping = Some(light_mapping);
    }

    /// The pixel of the map of normals at column `i` of row `j`.
    pub fn normal_texel(&self, i: usize, j: usize) -> (rgb: &[u8])
        requires
            self.normal_mapping is Some,
        ensures
            rgb@ == self.normal_mapping->0.pixel_spec(i as int, j as int),
            rgb@.len() == 3,
    {
        match &self.normal_mapping {
            Some(map) => map.pixel_data(i, j),
            None => &[],
        }
    }

    /// The first byte of the pixel of the map of alpha values at column
    /// `i` of row `j`.
    pub fn alpha_texel(&self, i: usize, j: usize) -> (a: u8)
        requires
            self.alpha_mapping is Some,
        ensures
            a == self.alpha_mapping->0.pixel_spec(i as int, j as int)[0],
    {
        match &self.alpha_mapping {
            Some(map) => map.pixel_data(i, j)[0],
            None => 0,
        }
    }

    /// The pixel of the map of emitted light at column `i` of row `j`, or
    /// none when the map has no rows.
    pub fn light_texel(&self, i: usize, j: usize) -> (r: Option<&[u8]>)
        requires
            self.light_mapping is Some,
        ensures
            r is None <==> self.light_mapping->0.height_spec() == 0,
            r is Some ==> r->0@ == self.light_mapping->0.pixel_spec(i as int, j as int),
            r is Some ==> r->0@.len() == 3,
    {
        match &self.light_mapping {
            Some(map) => {
                if map.height() == 0 {
                    None
                } else {
                    Some(map.pixel_data(i, j))
                }
            },
            None => None,
        }
    }
}

} // verus!
