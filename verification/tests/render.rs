use raytrace::camera::{band_rows, Camera};
use raytrace::fx::FX_ONE;
use raytrace::hittable::{Hittable, HittableList, Sphere};
use raytrace::material::{Lambertian, Material};
use raytrace::random::RandomGenerator;
use raytrace::util::Vec3;

fn gray() -> Material {
    Material::Lambertian(Lambertian::new(Vec3::new(FX_ONE / 2, FX_ONE / 2, FX_ONE / 2)))
}

/// A pinhole camera at the origin looking down the negative z axis.
fn small_camera(width: u32, height: u32, samples: u32, depth: u32) -> Camera {
    Camera::configure(
        10 * FX_ONE,
        Vec3::new(0, 0, 0),
        Vec3::new(0, 0, -FX_ONE),
        width,
        height,
        samples,
        depth,
        0,
        10 * FX_ONE,
    )
    .expect("a plain pinhole configuration is representable")
}

#[test]
fn seeded_generator_is_reproducible() {
    let mut a = RandomGenerator::from_seed(99);
    let mut b = RandomGenerator::from_seed(99);
    for _ in 0..100 {
        assert_eq!(a.random_float(), b.random_float());
    }
    let mut c = RandomGenerator::from_seed(100);
    let mut d = RandomGenerator::from_seed(99);
    let mut diff = false;
    for _ in 0..10 {
        if c.random_float() != d.random_float() {
            diff = true;
        }
    }
    assert!(diff);
}

#[test]
fn random_draws_stay_in_range() {
    let mut rng = RandomGenerator::from_seed(1);
    for _ in 0..200 {
        let f = rng.random_float();
        assert!(0 <= f && f < FX_ONE);
        let g = rng.random_float_range(-3 * FX_ONE, 5 * FX_ONE);
        assert!(-3 * FX_ONE <= g && g < 5 * FX_ONE);
        let sq = rng.random_vec3_square();
        assert!(sq.z == 0 && sq.x.abs() <= FX_ONE / 2 && sq.y.abs() <= FX_ONE / 2);
        let disk = rng.random_on_disk();
        assert!(disk.z == 0 && disk.x.abs() <= FX_ONE && disk.y.abs() <= FX_ONE);
        let unit = rng.random_unit_vector_on_sphere();
        assert!(unit.x.abs() <= 2 * FX_ONE && unit.y.abs() <= 2 * FX_ONE && unit.z.abs() <= 2 * FX_ONE);
    }
}

#[test]
fn random_chars_has_requested_length() {
    let mut rng = RandomGenerator::new();
    let s = rng.random_chars(4);
    assert_eq!(s.len(), 4);
    assert!(s.chars().all(|c| c.is_ascii_alphanumeric()));
}

#[test]
fn write_color_gamma_then_clamp_then_scale() {
    // 0.25 gamma-corrects to 0.5 and lands mid-scale; 1.0 clamps just below
    // one and saturates; negatives floor at zero.
    let (r, g, b) = Camera::write_color(Vec3::new(FX_ONE / 4, -FX_ONE, FX_ONE));
    assert_eq!(r, 128);
    assert_eq!(g, 0);
    assert_eq!(b, 255);
}

#[test]
fn band_rows_truncates_remainder() {
    assert_eq!(band_rows(10, 3, 0), (0, 3));
    assert_eq!(band_rows(10, 3, 1), (3, 6));
    assert_eq!(band_rows(10, 3, 2), (6, 9));
    // Row 9 belongs to no band: the scheduler drops the remainder rows.
    assert_eq!(band_rows(8, 2, 1), (4, 8));
}

#[test]
fn ray_color_at_depth_zero_is_black() {
    let cam = small_camera(8, 8, 1, 2);
    let mut world = HittableList::new();
    world.add(Hittable::Sphere(Sphere::new(Vec3::new(0, 0, -2 * FX_ONE), FX_ONE / 2, gray())));
    let ray = raytrace::util::Ray::new(Vec3::new(0, 0, 0), Vec3::new(0, 0, -FX_ONE));
    let mut rng = RandomGenerator::from_seed(5);
    let c = cam.ray_color(&ray, &world, 0, &mut rng);
    assert_eq!(c, Vec3::new(0, 0, 0));
    // No randomness is consumed at depth zero either.
    assert_eq!(rng.random_float(), RandomGenerator::from_seed(5).random_float());
}

#[test]
fn render_same_seed_twice_is_identical() {
    let cam = small_camera(8, 6, 2, 3);
    let mut world = HittableList::new();
    world.add(Hittable::Sphere(Sphere::new(Vec3::new(0, 0, -2 * FX_ONE), FX_ONE / 2, gray())));
    let a = cam.render_rows(&world, 0, 6, 12345);
    let b = cam.render_rows(&world, 0, 6, 12345);
    assert_eq!(a.len(), 48);
    assert_eq!(a.len(), b.len());
    for (pa, pb) in a.iter().zip(b.iter()) {
        assert_eq!(pa.loc, pb.loc);
        assert_eq!(pa.color, pb.color);
    }
}

#[test]
fn banding_does_not_change_pixels() {
    let cam = small_camera(8, 6, 2, 3);
    let mut world = HittableList::new();
    world.add(Hittable::Sphere(Sphere::new(Vec3::new(0, 0, -2 * FX_ONE), FX_ONE / 2, gray())));
    let whole = cam.render_rows(&world, 0, 6, 777);
    let top = cam.render_rows(&world, 0, 3, 777);
    let bottom = cam.render_rows(&world, 3, 6, 777);
    assert_eq!(whole.len(), top.len() + bottom.len());
    for (pw, pp) in whole.iter().zip(top.iter().chain(bottom.iter())) {
        assert_eq!(pw.loc, pp.loc);
        assert_eq!(pw.color, pp.color);
    }
}

#[test]
fn different_seed_changes_some_pixel() {
    let cam = small_camera(8, 6, 1, 2);
    let mut world = HittableList::new();
    world.add(Hittable::Sphere(Sphere::new(Vec3::new(0, 0, -2 * FX_ONE), FX_ONE / 2, gray())));
    let a = cam.render_rows(&world, 0, 6, 1);
    let b = cam.render_rows(&world, 0, 6, 2);
    assert!(a.iter().zip(b.iter()).any(|(pa, pb)| pa.color != pb.color));
}

#[test]
fn foreground_sphere_occludes_background_gradient() {
    // One large ground sphere far below the narrow field of view and one
    // small sphere dead ahead: the image is the sky gradient except where
    // the foreground silhouette blocks it.
    let cam = small_camera(64, 36, 1, 1);
    let seed = 2024u64;

    let mut empty = HittableList::new();
    // The ground sphere sits entirely below the viewport.
    let ground = Hittable::Sphere(Sphere::new(
        Vec3::new(0, -1010 * FX_ONE, 0),
        1000 * FX_ONE,
        gray(),
    ));
    empty.add(ground);
    let background = cam.render_rows(&empty, 0, 36, seed);

    let mut scene = HittableList::new();
    scene.add(ground);
    scene.add(Hittable::Sphere(Sphere::new(
        Vec3::new(0, 0, -2 * FX_ONE),
        FX_ONE / 10,
        gray(),
    )));
    let image = cam.render_rows(&scene, 0, 36, seed);
    assert_eq!(image.len(), 64 * 36);

    // The silhouette sits around the image center; with depth one every
    // covered pixel is black.
    let center = &image[18 * 64 + 32];
    assert_eq!(center.loc, (32, 18));
    assert_eq!(center.color, Vec3::new(0, 0, 0));

    // Rows far from the center are pure background.
    for y in (0..6).chain(30..36) {
        for x in 0..64 {
            let k = y * 64 + x;
            assert_eq!(image[k].color, background[k].color);
        }
    }

    // The background itself is the sky gradient: blue-dominant, never black.
    for p in background.iter() {
        assert!(p.color.z > 0);
        assert!(p.color.x <= p.color.y && p.color.y <= p.color.z);
    }

    // Higher rows look higher into the sky and are bluer (smaller red).
    let top = &background[2 * 64 + 32];
    let low = &background[33 * 64 + 32];
    assert!(top.color.x < low.color.x);

    // The silhouette changed something.
    assert!(image.iter().zip(background.iter()).any(|(a, b)| a.color != b.color));
}
