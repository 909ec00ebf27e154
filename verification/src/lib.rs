//! The discrete core of an offline path tracer: how scalars are ordered,
//! how boxes are merged and clipped, how the bounding-volume hierarchy is
//! built and walked, how texels are addressed and how scene files are read.
//! Arithmetic on real numbers is left to the caller.

pub mod aabb;
pub mod bvh;
pub mod camera;
pub mod color;
pub mod equivalence;
pub mod hittable;
pub mod hittable_list;
pub mod interval;
pub mod material;
pub mod model;
pub mod mtl;
pub mod pdf;
pub mod perlin;
pub mod random;
pub mod ray;
pub mod rtw_image;
pub mod scalar;
pub mod shapes;
pub mod text;
pub mod texture;
pub mod vec3;
