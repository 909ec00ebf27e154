use pathtracer::camera::isqrt;
use pathtracer::camera::Camera;
use pathtracer::camera::PathStep;
use pathtracer::color::linear_to_gamma;
use pathtracer::color::to_byte;
use pathtracer::color::write_color;
use pathtracer::material::Emission;
use pathtracer::material::Mapping;
use pathtracer::material::Material;
use pathtracer::material::PdfChoice;
use pathtracer::material::ScatterKind;
use pathtracer::material::ScatterRecord;
use pathtracer::pdf::MixturePdf;
use pathtracer::ray::Ray;
use pathtracer::rtw_image::RtwImage;
use pathtracer::scalar::Real;
use pathtracer::shapes::Triangle;
use pathtracer::texture::CheckerTexture;
use pathtracer::vec3::Vec3;

fn num(x: f64) -> Real {
    Real::from_bits(x.to_bits())
}

fn value(r: Real) -> f64 {
    f64::from_bits(r.to_bits())
}

fn triple(v: Vec3) -> (f64, f64, f64) {
    (value(v.x), value(v.y), value(v.z))
}

fn root(x: Real) -> Real {
    num(value(x).sqrt())
}

#[test]
fn camera_starts_from_its_defaults() {
    let cam = Camera::new();
    assert_eq!(value(cam.aspect_ratio), 1.0);
    assert_eq!(cam.image_width, 100);
    assert_eq!(cam.samples_per_pixel, 10);
    assert_eq!(cam.max_depth, 10);
    assert_eq!(triple(cam.background), (0.0, 0.0, 0.0));
    assert_eq!(value(cam.vfov), 90.0);
    assert_eq!(triple(cam.lookfrom), (0.0, 0.0, 0.0));
    assert_eq!(triple(cam.lookat), (0.0, 0.0, -1.0));
    assert_eq!(triple(cam.vup), (0.0, 1.0, 0.0));
    assert_eq!(value(cam.defocus_angle), 0.0);
    assert_eq!(value(cam.focus_dist), 1.0);
    assert_eq!(cam.image_height, 0);
    assert_eq!(cam.sqrt_spp, 1);
}

#[test]
fn image_gets_at_least_one_row() {
    let mut cam = Camera::new();
    cam.image_width = 20;
    cam.samples_per_pixel = 4;
    cam.initialize(10);
    assert_eq!(cam.image_height, 10);
    assert_eq!(cam.sqrt_spp, 2);
    assert_eq!(cam.image_width, 20);
    assert_eq!(cam.pixel_count(), 200);
    cam.samples_per_pixel = 1000;
    cam.initialize(0);
    assert_eq!(cam.image_height, 1);
    assert_eq!(cam.sqrt_spp, 31);
    assert_eq!(cam.pixel_count(), 20);
    cam.image_width = u32::MAX;
    cam.initialize(u32::MAX);
    assert_eq!(cam.pixel_count(), (u32::MAX as u64) * (u32::MAX as u64));
}

#[test]
fn square_roots_are_rounded_down() {
    let cases: [(u32, u32); 14] = [
        (0, 0),
        (1, 1),
        (2, 1),
        (3, 1),
        (4, 2),
        (8, 2),
        (9, 3),
        (10, 3),
        (99, 9),
        (100, 10),
        (1000, 31),
        (65535, 255),
        (65536, 256),
        (u32::MAX, 65535),
    ];
    for &(n, r) in cases.iter() {
        assert_eq!(isqrt(n), r, "n = {}", n);
    }
    for n in 0..5000u32 {
        assert_eq!(isqrt(n), (n as f64).sqrt() as u32);
    }
}

#[test]
fn pixels_run_from_the_bottom_row_up() {
    let mut cam = Camera::new();
    cam.image_width = 3;
    cam.initialize(2);
    assert_eq!(cam.pixels(), vec![(0, 1), (1, 1), (2, 1), (0, 0), (1, 0), (2, 0)]);
    let want: Vec<(u32, u32)> =
        (0..cam.image_height).rev().flat_map(|j| (0..cam.image_width).map(move |i| (i, j))).collect();
    assert_eq!(cam.pixels(), want);
    cam.image_width = 0;
    assert!(cam.pixels().is_empty());
    cam.image_width = 20;
    cam.initialize(10);
    let all = cam.pixels();
    assert_eq!(all.len(), 200);
    assert_eq!(all[0], (0, 9));
    assert_eq!(all[19], (19, 9));
    assert_eq!(all[20], (0, 8));
    assert_eq!(all[199], (19, 0));
}

#[test]
fn samples_run_row_by_row() {
    let mut cam = Camera::new();
    cam.samples_per_pixel = 4;
    cam.initialize(1);
    assert_eq!(cam.samples(), vec![(0, 0), (1, 0), (0, 1), (1, 1)]);
    cam.samples_per_pixel = 10;
    cam.initialize(1);
    assert_eq!(cam.samples().len(), 9);
    assert_eq!(cam.samples()[5], (2, 1));
    cam.samples_per_pixel = 0;
    cam.initialize(1);
    assert!(cam.samples().is_empty());
}

#[test]
fn estimator_steps() {
    let cosine = ScatterKind::Sampled(PdfChoice::Cosine);
    assert_eq!(Camera::path_step(0, true, cosine), PathStep::Exhausted);
    assert_eq!(Camera::path_step(-3, false, cosine), PathStep::Exhausted);
    assert_eq!(Camera::path_step(5, false, cosine), PathStep::Background);
    assert_eq!(Camera::path_step(5, true, ScatterKind::Absorbed), PathStep::EmissionOnly);
    assert_eq!(Camera::path_step(1, true, ScatterKind::Specular), PathStep::Specular);
    assert_eq!(Camera::path_step(1, true, cosine), PathStep::Sampled);
    assert_eq!(
        Camera::path_step(50, true, ScatterKind::Sampled(PdfChoice::Sphere)),
        PathStep::Sampled
    );
}

#[test]
fn bytes_are_256_times_the_number_rounded_down() {
    let mut x = 0.0f64;
    while x < 1.2 {
        assert_eq!(to_byte(num(x)), (256.0 * x) as u8, "x = {}", x);
        x += 0.000_37;
    }
    let edges = [
        0.0,
        -0.0,
        1.0 / 256.0,
        1.0 / 256.0 - 1e-12,
        0.5,
        0.999,
        255.0 / 256.0,
        1.0 - 1e-16,
        1.0,
        2.0,
        1e300,
        f64::INFINITY,
        -0.25,
        -1e-300,
        f64::NEG_INFINITY,
        f64::NAN,
        5e-324,
        1e-310,
        0.003_906_249,
        0.003_906_25,
        0.123_456_789,
    ];
    for &e in edges.iter() {
        assert_eq!(to_byte(num(e)), (256.0 * e) as u8, "x = {}", e);
    }
    assert_eq!(to_byte(num(0.5)), 128);
    assert_eq!(to_byte(num(0.999)), 255);
    assert_eq!(to_byte(num(0.25)), 64);
}

#[test]
fn colours_are_shown_by_their_square_roots() {
    let rgb = write_color(&Vec3::new(num(0.25), num(1.0), num(f64::NAN)), &root);
    assert_eq!(rgb, [128, 255, 0]);
    let rgb = write_color(&Vec3::new(num(0.0), num(-4.0), num(49.0)), &root);
    assert_eq!(rgb, [0, 0, 255]);
    let rgb = write_color(&Vec3::new(num(0.0625), num(0.01), num(0.64)), &root);
    assert_eq!(rgb, [64, 25, 204]);
    let rgb = write_color(&Vec3::new(num(f64::INFINITY), num(1e-30), num(0.998)), &root);
    assert_eq!(rgb, [255, 0, (256.0 * 0.998f64.sqrt()) as u8]);
    assert_eq!(value(linear_to_gamma(num(0.25), &root)), 0.5);
    assert_eq!(value(linear_to_gamma(num(0.0), &root)), 0.0);
    assert_eq!(value(linear_to_gamma(num(-1.0), &root)), 0.0);
    assert_eq!(value(linear_to_gamma(num(f64::NAN), &root)), 0.0);
}

#[test]
fn mixture_picks_by_one_half() {
    assert_eq!(MixturePdf::pick(num(0.0)), 0);
    assert_eq!(MixturePdf::pick(num(0.499_999)), 0);
    assert_eq!(MixturePdf::pick(num(0.5)), 1);
    assert_eq!(MixturePdf::pick(num(0.75)), 1);
    assert_eq!(MixturePdf::pick(num(f64::NAN)), 1);
}

fn image() -> RtwImage {
    let mut img = RtwImage::empty();
    assert!(img.load(vec![10, 20, 30, 40, 50, 60], 2, 1, 3));
    img
}

#[test]
fn materials_scatter_as_their_kind_says() {
    let black = Vec3::new(num(0.0), num(0.0), num(0.0));
    assert_eq!(
        Material::Lambertian { tex: 0 }.scatter(),
        ScatterKind::Sampled(PdfChoice::Cosine)
    );
    assert_eq!(Material::Isotropic { tex: 0 }.scatter(), ScatterKind::Sampled(PdfChoice::Sphere));
    assert_eq!(Material::metal(black, num(0.5)).scatter(), ScatterKind::Specular);
    assert_eq!(Material::Dielectric { refraction_index: num(1.5) }.scatter(), ScatterKind::Specular);
    assert_eq!(Material::DiffuseLight { tex: 2 }.scatter(), ScatterKind::Absorbed);
    let over_light = Material::Mapping(Mapping::new(Material::DiffuseLight { tex: 2 }));
    assert_eq!(over_light.scatter(), ScatterKind::Absorbed);
    let twice = Material::Mapping(Mapping::new(Material::Mapping(Mapping::new(
        Material::Lambertian { tex: 1 },
    ))));
    assert_eq!(twice.scatter(), ScatterKind::Sampled(PdfChoice::Cosine));
    assert_eq!(Material::Mapping(Mapping::default()).scatter(), ScatterKind::Specular);
}

#[test]
fn light_leaves_the_front_face_alone() {
    let light = Material::DiffuseLight { tex: 7 };
    assert_eq!(light.emitted(true), Emission::Texture(7));
    assert_eq!(light.emitted(false), Emission::Dark);
    assert_eq!(Material::Lambertian { tex: 7 }.emitted(true), Emission::Dark);
    let plain = Material::Mapping(Mapping::new(Material::DiffuseLight { tex: 7 }));
    assert_eq!(plain.emitted(true), Emission::Texture(7));
    assert_eq!(plain.emitted(false), Emission::Dark);
    let mut lit = Mapping::new(Material::Lambertian { tex: 1 });
    lit.set_light_mapping(image());
    let lit = Material::Mapping(lit);
    assert_eq!(lit.emitted(true), Emission::LightMap);
    assert_eq!(lit.emitted(false), Emission::Dark);
    assert!(lit.check_light_mapping());
    assert!(!lit.check_normal_mapping());
    assert!(!lit.check_alpha_mapping());
    assert!(!light.check_light_mapping());
}

#[test]
fn maps_are_read_where_they_are_set() {
    let mut m = Mapping::default();
    assert!(m.normal_mapping.is_none() && m.alpha_mapping.is_none() && m.light_mapping.is_none());
    m.set_normal_mapping(image());
    assert_eq!(m.normal_texel(1, 0), &[40, 50, 60]);
    assert_eq!(m.normal_texel(9, 9), &[40, 50, 60]);
    m.set_alpha_mapping(image());
    assert_eq!(m.alpha_texel(0, 0), 10);
    m.set_light_mapping(RtwImage::empty());
    assert_eq!(m.light_texel(0, 0), None);
    m.set_light_mapping(image());
    assert_eq!(m.light_texel(0, 0), Some(&[10u8, 20, 30][..]));
    let mat = Material::Mapping(m);
    assert!(mat.check_normal_mapping() && mat.check_alpha_mapping() && mat.check_light_mapping());
}

#[test]
fn blur_of_a_mirror_is_at_most_one() {
    let black = Vec3::new(num(0.0), num(0.0), num(0.0));
    let fuzz = |m: Material| match m {
        Material::Metal { fuzz, .. } => value(fuzz),
        _ => panic!("a mirror"),
    };
    assert_eq!(fuzz(Material::metal(black, num(0.3))), 0.3);
    assert_eq!(fuzz(Material::metal(black, num(1.0))), 1.0);
    assert_eq!(fuzz(Material::metal(black, num(7.0))), 1.0);
    assert_eq!(fuzz(Material::metal(black, num(-2.0))), -2.0);
    assert_eq!(fuzz(Material::metal(black, num(f64::NAN))), 1.0);
}

#[test]
fn scatter_record_and_rays_start_empty() {
    let srec = ScatterRecord::default();
    assert_eq!(triple(srec.attenuation), (0.0, 0.0, 0.0));
    assert_eq!(srec.pdf, PdfChoice::Sphere);
    assert!(!srec.skip_pdf);
    assert_eq!(value(srec.skip_pdf_ray.time), 0.0);
    let o = Vec3::new(num(1.0), num(2.0), num(3.0));
    let d = Vec3::new(num(0.0), num(0.0), num(-1.0));
    let r = Ray::new(o, d);
    assert_eq!(triple(r.origin), (1.0, 2.0, 3.0));
    assert_eq!(triple(r.direction), (0.0, 0.0, -1.0));
    assert_eq!(value(r.time), 0.0);
    let r = Ray::new_move(o, d, num(0.75));
    assert_eq!(value(r.time), 0.75);
}

#[test]
fn checker_alternates_from_cell_to_cell() {
    let c = CheckerTexture::new(7, 9);
    assert_eq!(c.pick(0, 0, 0), 7);
    assert_eq!(c.pick(1, 0, 0), 9);
    assert_eq!(c.pick(1, 1, 0), 7);
    assert_eq!(c.pick(-1, 0, 0), 9);
    assert_eq!(c.pick(-3, -4, 7), 7);
    assert_eq!(c.pick(i32::MAX, i32::MAX, i32::MAX), 9);
    assert_eq!(c.pick(i32::MIN, i32::MIN, 0), 7);
}

#[test]
fn alpha_map_cuts_hits_out() {
    assert!(Triangle::cut_out(num(0.75), num(0.5)));
    assert!(!Triangle::cut_out(num(0.25), num(0.5)));
    assert!(!Triangle::cut_out(num(0.5), num(0.5)));
    assert!(!Triangle::cut_out(num(0.0), num(0.0)));
    assert!(Triangle::cut_out(num(1.0), num(0.999)));
}

#[test]
fn light_is_read_from_the_outermost_map() {
    let plain = Material::Mapping(Mapping::new(Material::Lambertian { tex: 0 }));
    assert!(plain.light_map().is_none());
    assert!(Material::DiffuseLight { tex: 0 }.light_map().is_none());
    let mut inner = Mapping::new(Material::Lambertian { tex: 0 });
    inner.set_light_mapping(image());
    let outer = Material::Mapping(Mapping::new(Material::Mapping(inner)));
    let map = outer.light_map().expect("the inner mapping has a map");
    assert_eq!(map.pixel_data(1, 0), &[40, 50, 60]);
    assert_eq!(outer.emitted(true), Emission::LightMap);
    let mut inner = Mapping::new(Material::Lambertian { tex: 0 });
    inner.set_light_mapping(image());
    let mut outer = Mapping::new(Material::Mapping(inner));
    outer.set_light_mapping(RtwImage::empty());
    let outer = Material::Mapping(outer);
    assert_eq!(outer.light_map().unwrap().width(), 0);
}
