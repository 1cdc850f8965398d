use raytrace::fx::FX_ONE;
use raytrace::hittable::{HitRecord, Hittable, HittableList, Interval, Sphere};
use raytrace::material::{Lambertian, Material};
use raytrace::util::{linear_to_gamma, Ray, Vec3};

fn gray() -> Material {
    Material::Lambertian(Lambertian::new(Vec3::new(FX_ONE / 2, FX_ONE / 2, FX_ONE / 2)))
}

#[test]
fn vector_algebra_exact() {
    let a = Vec3::new(FX_ONE, 2 * FX_ONE, -FX_ONE);
    let b = Vec3::new(3 * FX_ONE, -FX_ONE, FX_ONE / 2);
    assert_eq!(a.add(&b), Vec3::new(4 * FX_ONE, FX_ONE, -FX_ONE / 2));
    assert_eq!(a.sub(&b), Vec3::new(-2 * FX_ONE, 3 * FX_ONE, -3 * FX_ONE / 2));
    assert_eq!(a.scale(2 * FX_ONE), Vec3::new(2 * FX_ONE, 4 * FX_ONE, -2 * FX_ONE));
    assert_eq!(Vec3::dot(&a, &b), FX_ONE - FX_ONE / 2);
    // (1,0,0) x (0,1,0) == (0,0,1)
    let x = Vec3::new(FX_ONE, 0, 0);
    let y = Vec3::new(0, FX_ONE, 0);
    assert_eq!(Vec3::cross(&x, &y), Vec3::new(0, 0, FX_ONE));
    // Component-wise product and scalar division.
    let c = Vec3::new(FX_ONE / 2, FX_ONE / 4, 2 * FX_ONE);
    assert_eq!(c.mul(&c), Vec3::new(FX_ONE / 4, FX_ONE / 16, 4 * FX_ONE));
    assert_eq!(
        Vec3::new(FX_ONE, 2 * FX_ONE, -FX_ONE).div(2 * FX_ONE),
        Vec3::new(FX_ONE / 2, FX_ONE, -FX_ONE / 2)
    );
    assert_eq!(a.neg(), Vec3::new(-FX_ONE, -2 * FX_ONE, FX_ONE));
}

#[test]
fn near_zero_uses_small_threshold() {
    assert!(Vec3::new(0, 0, 0).near_zero());
    assert!(Vec3::new(63, -63, 1).near_zero());
    assert!(!Vec3::new(64, 0, 0).near_zero());
    assert!(!Vec3::new(0, -FX_ONE, 0).near_zero());
}

#[test]
fn refract_head_on_is_straight() {
    // Head on, the perpendicular part vanishes and the parallel part is the
    // full normal.
    let uv = Vec3::new(0, 0, FX_ONE);
    let n = Vec3::new(0, 0, FX_ONE);
    let out = Vec3::refract(&uv, &n, 43690);
    assert_eq!(out, Vec3::new(0, 0, FX_ONE));
}

#[test]
fn unit_vector_exact_on_axis() {
    let v = Vec3::new(2 * FX_ONE, 0, 0);
    assert_eq!(v.unit_vector(), Vec3::new(FX_ONE, 0, 0));
    assert_eq!(v.length(), 2 * FX_ONE);
    assert_eq!(v.length_squared(), 4 * FX_ONE);
}

#[test]
fn reflect_exact() {
    let v = Vec3::new(FX_ONE, -FX_ONE, 0);
    let n = Vec3::new(0, FX_ONE, 0);
    assert_eq!(Vec3::reflect(&v, &n), Vec3::new(FX_ONE, FX_ONE, 0));
}

#[test]
fn ray_at_walks_the_parameter() {
    let r = Ray::new(Vec3::new(FX_ONE, 0, 0), Vec3::new(0, 0, -FX_ONE));
    assert_eq!(r.at(FX_ONE / 2), Vec3::new(FX_ONE, 0, -FX_ONE / 2));
    assert_eq!(*r.origin(), Vec3::new(FX_ONE, 0, 0));
    assert_eq!(*r.direction(), Vec3::new(0, 0, -FX_ONE));
}

#[test]
fn gamma_of_quarter_is_half() {
    assert_eq!(linear_to_gamma(FX_ONE / 4), FX_ONE / 2);
    assert_eq!(linear_to_gamma(0), 0);
    assert_eq!(linear_to_gamma(-3 * FX_ONE), 0);
}

#[test]
fn interval_logic() {
    let i = Interval::new(0, FX_ONE);
    assert!(i.contains(0) && i.contains(FX_ONE));
    assert!(!i.surrounds(0) && !i.surrounds(FX_ONE) && i.surrounds(1));
    assert_eq!(i.size(), FX_ONE);
    assert_eq!(i.clamp(-5), 0);
    assert_eq!(i.clamp(2 * FX_ONE), FX_ONE);
    assert_eq!(i.clamp(7), 7);
    let e = Interval::empty();
    assert!(e.min > e.max);
    let u = Interval::universe();
    assert!(u.min < u.max);
}

#[test]
fn sphere_hit_head_on() {
    // Sphere centered at (0,0,-1) with radius 1/2, ray from the origin
    // straight down the axis: t == 1/2, hit point (0,0,-1/2).
    let s = Sphere::new(Vec3::new(0, 0, -FX_ONE), FX_ONE / 2, gray());
    let r = Ray::new(Vec3::new(0, 0, 0), Vec3::new(0, 0, -FX_ONE));
    let mut rec = HitRecord::new();
    let hit = s.hit(&r, Interval::new(64, 1 << 44), &mut rec);
    assert!(hit);
    assert_eq!(rec.t, FX_ONE / 2);
    assert_eq!(rec.point, Vec3::new(0, 0, -FX_ONE / 2));
    assert!(rec.front_face);
    assert_eq!(rec.normal, Vec3::new(0, 0, FX_ONE));
}

#[test]
fn sphere_missed_when_pointing_away() {
    let s = Sphere::new(Vec3::new(0, 0, -2 * FX_ONE), FX_ONE / 2, gray());
    let r = Ray::new(Vec3::new(0, 0, 0), Vec3::new(0, 0, FX_ONE));
    let mut rec = HitRecord::new();
    let hit = s.hit(&r, Interval::new(64, 1 << 44), &mut rec);
    assert!(!hit);
    // The record is untouched on a miss.
    assert_eq!(rec.t, 0);
}

#[test]
fn zero_radius_sphere_never_hits() {
    let s = Sphere::new(Vec3::new(0, 0, -FX_ONE), -5, gray());
    assert_eq!(s.radius, 0);
    let r = Ray::new(Vec3::new(0, 0, 0), Vec3::new(0, 0, -FX_ONE));
    let mut rec = HitRecord::new();
    assert!(!s.hit(&r, Interval::new(64, 1 << 44), &mut rec));
}

#[test]
fn closest_hit_wins_in_either_order() {
    let near = Hittable::Sphere(Sphere::new(Vec3::new(0, 0, -FX_ONE), FX_ONE / 4, gray()));
    let far = Hittable::Sphere(Sphere::new(Vec3::new(0, 0, -2 * FX_ONE), FX_ONE / 4, gray()));
    let r = Ray::new(Vec3::new(0, 0, 0), Vec3::new(0, 0, -FX_ONE));
    let expected_t = 3 * FX_ONE / 4;

    let mut world = HittableList::new();
    world.add(near);
    world.add(far);
    let mut rec = HitRecord::new();
    assert!(world.hit(&r, Interval::new(64, 1 << 44), &mut rec));
    assert_eq!(rec.t, expected_t);

    let mut reversed = HittableList::new();
    reversed.add(far);
    reversed.add(near);
    let mut rec2 = HitRecord::new();
    assert!(reversed.hit(&r, Interval::new(64, 1 << 44), &mut rec2));
    assert_eq!(rec2.t, expected_t);
}

#[test]
fn adding_farther_object_does_not_change_result() {
    let near = Hittable::Sphere(Sphere::new(Vec3::new(0, 0, -FX_ONE), FX_ONE / 4, gray()));
    let far = Hittable::Sphere(Sphere::new(Vec3::new(0, 0, -2 * FX_ONE), FX_ONE / 4, gray()));
    let r = Ray::new(Vec3::new(0, 0, 0), Vec3::new(0, 0, -FX_ONE));

    let mut world = HittableList::new();
    world.add(near);
    let mut rec_before = HitRecord::new();
    assert!(world.hit(&r, Interval::new(64, 1 << 44), &mut rec_before));

    world.add(far);
    let mut rec_after = HitRecord::new();
    assert!(world.hit(&r, Interval::new(64, 1 << 44), &mut rec_after));
    assert_eq!(rec_before.t, rec_after.t);
    assert_eq!(rec_before.point, rec_after.point);
    assert_eq!(rec_before.normal, rec_after.normal);
}

#[test]
fn list_miss_reports_false() {
    let mut world = HittableList::new();
    world.add(Hittable::Sphere(Sphere::new(Vec3::new(0, 0, -2 * FX_ONE), FX_ONE / 4, gray())));
    let r = Ray::new(Vec3::new(0, 0, 0), Vec3::new(0, FX_ONE, 0));
    let mut rec = HitRecord::new();
    assert!(!world.hit(&r, Interval::new(64, 1 << 44), &mut rec));
}
