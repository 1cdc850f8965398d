//! Material scattering model.
//!
//! Three closed material kinds — diffuse, reflective and refractive —
//! dispatched through a tagged `Material` enumeration.  Each `scatter`
//! consumes randomness from the worker's generator and either yields a
//! scattered ray with an attenuation color or absorbs the ray.  The spec
//! mirrors (`*_scatter_s`) state the result and the generator state after the
//! call exactly, which is what makes seeded renders reproducible.

use vstd::prelude::*;

use crate::fx::{abs_i, fx_div, fx_mul, fx_sqrt, lemma_fx_div_bound, lemma_fx_mul_bound, FX_ONE};
use crate::hittable::{rec_wf, HitRecord};
use crate::random::{rf_range_s, ruv_s, RandomGenerator, REJECT_FUEL};
use crate::util::{
    min_i, v3_add, v3_dot, v3_in_bound, v3_near_zero, v3_reflect, v3_refract, v3_scale, v3_unit,
    ray_wf, Ray, Vec3, UNIT_LIMIT,
};

verus! {

/// Largest fuzz factor a metal accepts (sixteen units).
pub const FUZZ_LIMIT: i64 = 0x10_0000;

/// Smallest refractive index a dielectric accepts (1/64 unit).
pub const RI_MIN: i64 = 1024;

/// Largest refractive index a dielectric accepts (256 units).
pub const RI_MAX: i64 = 0x100_0000;

/// A color has channels within `[0, 1]`.
pub open spec fn color_wf(c: Vec3) -> bool {
    0 <= c.x <= FX_ONE && 0 <= c.y <= FX_ONE && 0 <= c.z <= FX_ONE
}

pub open spec fn white() -> Vec3 {
    Vec3 { x: FX_ONE, y: FX_ONE, z: FX_ONE }
}

#[derive(Clone, Copy, Debug)]
pub struct Lambertian {
    pub albedo: Vec3,
}

#[derive(Clone, Copy, Debug)]
pub struct Metal {
    pub albedo: Vec3,
    pub fuzz: i64,
}

#[derive(Clone, Copy, Debug)]
pub struct Dielectric {
    pub albedo: Vec3,
    pub refractive_index: i64,
}

#[derive(Clone, Copy, Debug)]
pub enum Material {
    Lambertian(Lambertian),
    Metal(Metal),
    Dielectric(Dielectric),
}

pub open spec fn material_wf(m: Material) -> bool {
    match m {
        Material::Lambertian(l) => color_wf(l.albedo),
        Material::Metal(mt) => color_wf(mt.albedo) && 0 <= mt.fuzz <= FUZZ_LIMIT,
        Material::Dielectric(d) => color_wf(d.albedo) && RI_MIN <= d.refractive_index <= RI_MAX,
    }
}

/// Diffuse scattering: the new direction is the surface normal plus a random
/// unit vector, falling back to the bare normal when that sum degenerates.
/// It always succeeds and attenuates by the albedo.
pub open spec fn lambertian_scatter_s(m: Lambertian, rec: HitRecord, s: u64) -> (Option<
    (Ray, Vec3),
>, u64) {
    let (ruv, s1) = ruv_s(s, REJECT_FUEL as nat);
    let d0 = v3_add(rec.normal, ruv);
    let dir = if v3_near_zero(d0) {
        rec.normal
    } else {
        d0
    };
    (Some((Ray { origin: rec.point, direction: dir }, m.albedo)), s1)
}

/// Specular scattering: mirror reflection perturbed by `fuzz` times a random
/// unit vector; the ray is absorbed when the perturbed direction points into
/// the surface, or when the reflection is too short to normalize.
pub open spec fn metal_scatter_s(m: Metal, ray_in: Ray, rec: HitRecord, s: u64) -> (Option<
    (Ray, Vec3),
>, u64) {
    let refl = v3_reflect(ray_in.direction, rec.normal);
    if v3_dot(refl, refl) < 1 {
        (None, s)
    } else {
        let (ruv, s1) = ruv_s(s, REJECT_FUEL as nat);
        let dir = v3_add(v3_unit(refl), v3_scale(ruv, m.fuzz as int));
        if v3_dot(dir, rec.normal) > 0 {
            (Some((Ray { origin: rec.point, direction: dir }, m.albedo)), s1)
        } else {
            (None, s1)
        }
    }
}

/// Schlick reflectance approximation.  The ratio passed by the caller feeds
/// the numerator while the stored index feeds the denominator; the mix is a
/// quirk of this model, kept because renders depend on it.
pub open spec fn reflectance_s(d: Dielectric, cosine: int, ri: int) -> int {
    let q = fx_div(FX_ONE - ri, FX_ONE + d.refractive_index);
    let r0 = fx_mul(q, q);
    let m = FX_ONE - cosine;
    let m2 = fx_mul(m, m);
    let m4 = fx_mul(m2, m2);
    let m5 = fx_mul(m4, m);
    r0 + fx_mul(FX_ONE - r0, m5)
}

/// Refractive scattering: refract unless total internal reflection or a
/// Schlick draw forces a mirror reflection.  The attenuation is fixed white:
/// the stored albedo is deliberately ignored, a known simplification of this
/// model.  A ray whose direction is too short to normalize is absorbed.
pub open spec fn dielectric_scatter_s(d: Dielectric, ray_in: Ray, rec: HitRecord, s: u64) -> (Option<
    (Ray, Vec3),
>, u64) {
    if v3_dot(ray_in.direction, ray_in.direction) < 1 {
        (None, s)
    } else {
        let ri = if rec.front_face {
            fx_div(FX_ONE as int, d.refractive_index as int)
        } else {
            d.refractive_index as int
        };
        let unit_direction = v3_scale(v3_unit(ray_in.direction), -(FX_ONE as int));
        let cos_theta = min_i(v3_dot(unit_direction, rec.normal), FX_ONE as int);
        let sin2 = FX_ONE - fx_mul(cos_theta, cos_theta);
        let sin_theta = fx_sqrt(
            if sin2 >= 0 {
                sin2
            } else {
                0
            },
        );
        if fx_mul(ri, sin_theta) > FX_ONE {
            (
                Some(
                    (
                        Ray { origin: rec.point, direction: v3_reflect(unit_direction, rec.normal) },
                        white(),
                    ),
                ),
                s,
            )
        } else {
            let (rnd, s1) = rf_range_s(s, 0, FX_ONE as int);
            let dir = if reflectance_s(d, cos_theta, ri) > rnd {
                v3_reflect(unit_direction, rec.normal)
            } else {
                v3_refract(unit_direction, rec.normal, ri)
            };
            (Some((Ray { origin: rec.point, direction: dir }, white())), s1)
        }
    }
}

pub open spec fn material_scatter_s(m: Material, ray_in: Ray, rec: HitRecord, s: u64) -> (Option<
    (Ray, Vec3),
>, u64) {
    match m {
        Material::Lambertian(l) => lambertian_scatter_s(l, rec, s),
        Material::Metal(mt) => metal_scatter_s(mt, ray_in, rec, s),
        Material::Dielectric(d) => dielectric_scatter_s(d, ray_in, rec, s),
    }
}

impl Lambertian {
    pub fn new(color: Vec3) -> (r: Self)
        requires
            color_wf(color),
        ensures
            r.albedo == color,
    {
        Lambertian { albedo: color }
    }

    pub fn scatter(&self, _ray_in: &Ray, rec: &HitRecord, rand: &mut RandomGenerator) -> (res:
        Option<(Ray, Vec3)>)
        requires
            rec_wf(*rec),
        ensures
            (res, final(rand).state) == lambertian_scatter_s(*self, *rec, old(rand).state),
            res is Some,
            res matches Some((sc, att)) ==> sc.origin == rec.point && att == self.albedo
                && v3_in_bound(sc.direction, 2 * UNIT_LIMIT as int),
    {
        let ruv = rand.random_unit_vector_on_sphere();
        let mut scatter_dir = rec.normal.add(&ruv);
        if scatter_dir.near_zero() {
            scatter_dir = rec.normal;
        }
        let scattered = Ray::new(rec.point, scatter_dir);
        let attenuation = self.albedo;
        Option::Some((scattered, attenuation))
    }
}

impl Metal {
    pub fn new(color: Vec3, fuzz: i64) -> (r: Self)
        requires
            color_wf(color),
            fuzz <= FUZZ_LIMIT,
        ensures
            r.albedo == color,
            r.fuzz == if fuzz < 0 {
                0
            } else {
                fuzz
            },
    {
        let f: i64 = if fuzz < 0 {
            0
        } else {
            fuzz
        };
        Metal { albedo: color, fuzz: f }
    }

    pub fn scatter(&self, ray_in: &Ray, rec: &HitRecord, rand: &mut RandomGenerator) -> (res:
        Option<(Ray, Vec3)>)
        requires
            rec_wf(*rec),
            ray_wf(*ray_in),
            0 <= self.fuzz <= FUZZ_LIMIT,
        ensures
            (res, final(rand).state) == metal_scatter_s(*self, *ray_in, *rec, old(rand).state),
    {
        let reflected = Vec3::reflect(ray_in.direction(), &rec.normal);
        let lsq = reflected.length_squared();
        if lsq < 1 {
            return Option::None;
        }
        let u = reflected.unit_vector();
        let ruv = rand.random_unit_vector_on_sphere();
        let fz = ruv.scale(self.fuzz);
        proof {
            lemma_fx_mul_bound(ruv.x as int, self.fuzz as int, UNIT_LIMIT as int, FUZZ_LIMIT as int);
            lemma_fx_mul_bound(ruv.y as int, self.fuzz as int, UNIT_LIMIT as int, FUZZ_LIMIT as int);
            lemma_fx_mul_bound(ruv.z as int, self.fuzz as int, UNIT_LIMIT as int, FUZZ_LIMIT as int);
        }
        let dir = u.add(&fz);
        let scattered = Ray::new(rec.point, dir);
        if Vec3::dot(scattered.direction(), &rec.normal) > 0 {
            Option::Some((scattered, self.albedo))
        } else {
            Option::None
        }
    }
}

impl Dielectric {
    pub fn new(color: Vec3, refractive_index: i64) -> (r: Self)
        requires
            color_wf(color),
            RI_MIN <= refractive_index <= RI_MAX,
        ensures
            r.albedo == color,
            r.refractive_index == refractive_index,
    {
        Dielectric { albedo: color, refractive_index }
    }

    /// Schlick reflectance, mixing the caller's ratio with the stored index
    /// exactly as the scattering model does.
    fn reflectance(&self, cosine: i64, refractive_index: i64) -> (r: i64)
        requires
            RI_MIN <= self.refractive_index <= RI_MAX,
            0 < refractive_index <= RI_MAX,
            abs_i(cosine as int) <= 0xC_0000,
            cosine <= FX_ONE,
        ensures
            r == reflectance_s(*self, cosine as int, refractive_index as int),
    {
        let num: i64 = FX_ONE - refractive_index;
        let den: i64 = FX_ONE + self.refractive_index;
        proof {
            lemma_fx_div_bound(num as int, den as int, 0x200_0000, FX_ONE as int);
            let qv: int = fx_div(num as int, den as int);
            lemma_fx_mul_bound(qv, qv, 0x200_0000, 0x200_0000);
            let mv: int = FX_ONE - cosine;
            lemma_fx_mul_bound(mv, mv, 0x20_0000, 0x20_0000);
            let m2v: int = fx_mul(mv, mv);
            lemma_fx_mul_bound(m2v, m2v, 0x400_0000, 0x400_0000);
            let m4v: int = fx_mul(m2v, m2v);
            lemma_fx_mul_bound(m4v, mv, 0x10_0000_0000, 0x20_0000);
            let m5v: int = fx_mul(m4v, mv);
            let r0v: int = fx_mul(qv, qv);
            lemma_fx_mul_bound(FX_ONE - r0v, m5v, 0x8_0000_0000, 0x200_0000_0000);
        }
        let q = crate::fx::fx_div_e(num, den);
        let r0 = crate::fx::fx_mul_e(q, q);
        let m: i64 = FX_ONE - cosine;
        let m2 = crate::fx::fx_mul_e(m, m);
        let m4 = crate::fx::fx_mul_e(m2, m2);
        let m5 = crate::fx::fx_mul_e(m4, m);
        r0 + crate::fx::fx_mul_e(FX_ONE - r0, m5)
    }

    pub fn scatter(&self, ray_in: &Ray, rec: &HitRecord, rand: &mut RandomGenerator) -> (res:
        Option<(Ray, Vec3)>)
        requires
            rec_wf(*rec),
            ray_wf(*ray_in),
            RI_MIN <= self.refractive_index <= RI_MAX,
        ensures
            (res, final(rand).state) == dielectric_scatter_s(*self, *ray_in, *rec, old(rand).state),
            res is Some <==> v3_dot(ray_in.direction, ray_in.direction) >= 1,
            res matches Some((sc, att)) ==> sc.origin == rec.point && att == white(),
    {
        let lsq = ray_in.direction.length_squared();
        if lsq < 1 {
            return Option::None;
        }
        let ri: i64 = if rec.front_face {
            proof {
                lemma_fx_div_bound(FX_ONE as int, self.refractive_index as int, FX_ONE as int, RI_MIN as int);
                vstd::arithmetic::div_mod::lemma_div_is_ordered(
                    self.refractive_index as int,
                    (FX_ONE as int) * (FX_ONE as int),
                    self.refractive_index as int,
                );
                vstd::arithmetic::div_mod::lemma_div_multiples_vanish(1, self.refractive_index as int);
            }
            crate::fx::fx_div_e(FX_ONE, self.refractive_index)
        } else {
            self.refractive_index
        };
        let unit0 = ray_in.direction().unit_vector();
        let unit_direction = unit0.scale(-FX_ONE);
        proof {
            lemma_fx_mul_bound(unit0.x as int, -FX_ONE as int, UNIT_LIMIT as int, FX_ONE as int);
            lemma_fx_mul_bound(unit0.y as int, -FX_ONE as int, UNIT_LIMIT as int, FX_ONE as int);
            lemma_fx_mul_bound(unit0.z as int, -FX_ONE as int, UNIT_LIMIT as int, FX_ONE as int);
        }
        let cos0 = Vec3::dot(&unit_direction, &rec.normal);
        proof {
            crate::util::lemma_v3_dot_bound(unit_direction, rec.normal, UNIT_LIMIT as int, UNIT_LIMIT as int);
        }
        let cos_theta: i64 = if cos0 <= FX_ONE {
            cos0
        } else {
            FX_ONE
        };
        proof {
            lemma_fx_mul_bound(cos_theta as int, cos_theta as int, 0xC_0000, 0xC_0000);
        }
        let c2 = crate::fx::fx_mul_e(cos_theta, cos_theta);
        let sin2: i64 = FX_ONE - c2;
        let sin_clamped: i64 = if sin2 >= 0 {
            sin2
        } else {
            0
        };
        let sin_theta = crate::fx::fx_sqrt_e(sin_clamped);
        proof {
            lemma_fx_mul_bound(ri as int, sin_theta as int, RI_MAX as int, 0x200_0000_0000);
        }
        let cannot_refract = crate::fx::fx_mul_e(ri, sin_theta) > FX_ONE;
        let dir: Vec3 = if cannot_refract {
            Vec3::reflect(&unit_direction, &rec.normal)
        } else {
            let rnd = rand.random_float_range(0, FX_ONE);
            if self.reflectance(cos_theta, ri) > rnd {
                Vec3::reflect(&unit_direction, &rec.normal)
            } else {
                Vec3::refract(&unit_direction, &rec.normal, ri)
            }
        };
        Option::Some((Ray::new(rec.point, dir), Vec3::new(FX_ONE, FX_ONE, FX_ONE)))
    }
}

/// A metal scatter declines exactly when the reflection is too short to
/// normalize or the fuzz-perturbed reflection points into or along the
/// surface; in every other case a ray is returned.
pub proof fn lemma_metal_absorbs_inward(m: Metal, ray_in: Ray, rec: HitRecord, s: u64)
    ensures
        ({
            let refl = v3_reflect(ray_in.direction, rec.normal);
            let (ruv, s1) = ruv_s(s, REJECT_FUEL as nat);
            let dir = v3_add(v3_unit(refl), v3_scale(ruv, m.fuzz as int));
            metal_scatter_s(m, ray_in, rec, s).0 is None <==> (v3_dot(refl, refl) < 1 || v3_dot(
                dir,
                rec.normal,
            ) <= 0)
        }),
{
}

impl Material {
    pub fn scatter(&self, ray_in: &Ray, rec: &HitRecord, rand: &mut RandomGenerator) -> (res:
        Option<(Ray, Vec3)>)
        requires
            rec_wf(*rec),
            ray_wf(*ray_in),
            material_wf(*self),
        ensures
            (res, final(rand).state) == material_scatter_s(*self, *ray_in, *rec, old(rand).state),
            res matches Some((sc, att)) ==> color_wf(att),
    {
        match self {
            Material::Lambertian(l) => l.scatter(ray_in, rec, rand),
            Material::Metal(m) => m.scatter(ray_in, rec, rand),
            Material::Dielectric(d) => d.scatter(ray_in, rec, rand),
        }
    }
}

} // verus!
