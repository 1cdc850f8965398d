use raytrace::fx::FX_ONE;
use raytrace::hittable::HitRecord;
use raytrace::material::{Dielectric, Lambertian, Material, Metal};
use raytrace::random::RandomGenerator;
use raytrace::util::{Ray, Vec3};

fn record_at(point: Vec3, normal: Vec3) -> HitRecord {
    let mut rec = HitRecord::new();
    rec.point = point;
    rec.normal = normal;
    rec.t = FX_ONE;
    rec.front_face = true;
    rec
}

#[test]
fn lambertian_scatters_from_hit_point_with_albedo() {
    let albedo = Vec3::new(FX_ONE / 2, FX_ONE / 4, FX_ONE / 8);
    let mat = Lambertian::new(albedo);
    let rec = record_at(Vec3::new(FX_ONE, 2 * FX_ONE, 3 * FX_ONE), Vec3::new(0, 0, FX_ONE));
    let ray_in = Ray::new(Vec3::new(0, 0, 0), Vec3::new(0, 0, -FX_ONE));
    for seed in 0..32u64 {
        let mut rand = RandomGenerator::from_seed(seed);
        let res = mat.scatter(&ray_in, &rec, &mut rand);
        let (scattered, attenuation) = res.expect("diffuse scatter always succeeds");
        assert_eq!(scattered.origin, rec.point);
        assert_eq!(attenuation, albedo);
    }
}

#[test]
fn metal_clamps_negative_fuzz() {
    let m = Metal::new(Vec3::new(FX_ONE, FX_ONE, FX_ONE), -3 * FX_ONE);
    assert_eq!(m.fuzz, 0);
}

#[test]
fn smooth_metal_reflects_exactly() {
    let mat = Metal::new(Vec3::new(FX_ONE, FX_ONE, FX_ONE), 0);
    let rec = record_at(Vec3::new(0, 0, -FX_ONE), Vec3::new(0, FX_ONE, 0));
    // Incoming at 45 degrees; the mirror image leaves at 45 degrees.
    let ray_in = Ray::new(Vec3::new(-FX_ONE, FX_ONE, 0), Vec3::new(FX_ONE, -FX_ONE, 0));
    let mut rand = RandomGenerator::from_seed(7);
    let (scattered, _) = mat.scatter(&ray_in, &rec, &mut rand).expect("mirror bounce");
    assert_eq!(scattered.origin, rec.point);
    // reflect((1,-1,0)/sqrt(2), (0,1,0)) points up at 45 degrees.
    assert!(scattered.direction.x > 0);
    assert!(scattered.direction.y > 0);
    assert_eq!(scattered.direction.z, 0);
}

#[test]
fn rough_metal_at_grazing_incidence_sometimes_absorbs() {
    // Near-grazing reflection plus a large fuzz factor: the perturbed
    // direction points into the surface for some draws and out for others.
    let mat = Metal::new(Vec3::new(FX_ONE, FX_ONE, FX_ONE), 16 * FX_ONE);
    let rec = record_at(Vec3::new(0, 0, 0), Vec3::new(0, 0, FX_ONE));
    let ray_in = Ray::new(Vec3::new(0, 0, 0), Vec3::new(FX_ONE, 0, -655));
    let mut absorbed = 0u32;
    let mut bounced = 0u32;
    for seed in 0..64u64 {
        let mut rand = RandomGenerator::from_seed(seed);
        match mat.scatter(&ray_in, &rec, &mut rand) {
            None => absorbed += 1,
            Some(_) => bounced += 1,
        }
    }
    assert!(absorbed > 0);
    assert!(bounced > 0);
}

#[test]
fn dielectric_attenuation_is_fixed_white() {
    // The refractive material deliberately ignores its stored albedo.
    let mat = Dielectric::new(Vec3::new(FX_ONE / 8, FX_ONE / 8, FX_ONE / 8), 3 * FX_ONE / 2);
    let rec = record_at(Vec3::new(0, 0, -FX_ONE), Vec3::new(0, 0, FX_ONE));
    let ray_in = Ray::new(Vec3::new(0, 0, 0), Vec3::new(0, 0, -FX_ONE));
    for seed in 0..16u64 {
        let mut rand = RandomGenerator::from_seed(seed);
        let (scattered, attenuation) = mat.scatter(&ray_in, &rec, &mut rand).expect(
            "refractive scatter succeeds on a measurable ray",
        );
        assert_eq!(attenuation, Vec3::new(FX_ONE, FX_ONE, FX_ONE));
        assert_eq!(scattered.origin, rec.point);
    }
}

#[test]
fn dielectric_head_on_refracts_straight_through() {
    let mat = Dielectric::new(Vec3::new(FX_ONE, FX_ONE, FX_ONE), 3 * FX_ONE / 2);
    let rec = record_at(Vec3::new(0, 0, -FX_ONE), Vec3::new(0, 0, FX_ONE));
    let ray_in = Ray::new(Vec3::new(0, 0, 0), Vec3::new(0, 0, -FX_ONE));
    // Head on, both the refracted and the reflected direction lie on the
    // axis; nothing sideways ever comes out.
    for seed in 0..16u64 {
        let mut rand = RandomGenerator::from_seed(seed);
        let (scattered, _) = mat.scatter(&ray_in, &rec, &mut rand).expect("scatter");
        assert_eq!(scattered.direction.x, 0);
        assert_eq!(scattered.direction.y, 0);
        assert_eq!(scattered.direction.z.abs(), FX_ONE);
    }
}

#[test]
fn material_dispatch_matches_variant() {
    let albedo = Vec3::new(FX_ONE / 2, FX_ONE / 2, FX_ONE / 2);
    let m = Material::Lambertian(Lambertian::new(albedo));
    let rec = record_at(Vec3::new(0, 0, 0), Vec3::new(0, FX_ONE, 0));
    let ray_in = Ray::new(Vec3::new(0, 0, 0), Vec3::new(0, -FX_ONE, 0));
    let mut rand = RandomGenerator::from_seed(11);
    let (_, attenuation) = m.scatter(&ray_in, &rec, &mut rand).expect("diffuse");
    assert_eq!(attenuation, albedo);
}
