//! Camera, ray generation, recursive light transport, and the render
//! scheduler's computational core.
//!
//! A `Camera` is an immutable render configuration.  `get_ray` builds one
//! jittered primary ray, `ray_color` integrates light along it recursively,
//! `write_color` turns an averaged color into gamma-corrected bytes, and
//! `render_rows` computes a band of rows for one worker.  Every function has
//! an exact spec mirror, so a whole render is a stated function of the
//! camera, the scene and the seed.

use vstd::prelude::*;

use crate::fx::{
    abs_i, fx_div, fx_mul, lemma_abs_mul, lemma_fx_mul_bound, lemma_qtrunc_bound, fx_div_e,
    fx_mul_e, qtrunc, FX_ONE,
};
use crate::hittable::{
    clamp_s, list_hit_s, list_wf, lemma_list_hit_wf, HitRecord, HittableList, Hittable, Interval,
    T_LIMIT,
};
use crate::material::{material_scatter_s, white, Material};
use crate::random::{rod_s, rv3_square_s, RandomGenerator, REJECT_FUEL};
use crate::util::{
    gamma_s, in_bound, ray_wf, v3_add, v3_cross, v3_div, v3_dot, v3_in_bound, v3_mul, v3_scale,
    v3_sub, v3_unit, Ray, Vec3, DIR_LIMIT, POINT_LIMIT, UNIT_LIMIT,
};

verus! {

/// Lower end of the hit interval used by the integrator, kept off zero to
/// avoid self-intersection at the surface just left.
pub const EPS_T: i64 = 64;

/// Bound on every color channel the integrator can produce.
pub const COLOR_LIMIT: i64 = 0x8_0000;

/// Sky gradient factor (0.8).
pub const SKY_A: i64 = 52429;

/// Sky gradient blue channel endpoints: (0.4, 0.6, 1.0).
pub const SKY_R: i64 = 26214;

pub const SKY_G: i64 = 39322;

pub open spec fn black() -> Vec3 {
    Vec3 { x: 0, y: 0, z: 0 }
}

/// Sky color of a ray that escapes the scene: a vertical gradient between
/// white and a pale blue.  A ray too short to normalize yields black.
pub open spec fn sky_s(ray: Ray) -> Vec3 {
    if v3_dot(ray.direction, ray.direction) < 1 {
        black()
    } else {
        let unit = v3_unit(ray.direction);
        let a = fx_mul(SKY_A as int, unit.y + FX_ONE);
        v3_add(
            v3_scale(white(), FX_ONE - a),
            v3_scale(Vec3 { x: SKY_R, y: SKY_G, z: FX_ONE }, a),
        )
    }
}

pub struct Camera {
    /// Maximum depth of recursion for ray tracing.
    pub max_depth: u32,
    // Image constants
    pub img_width: u32,
    pub img_height: u32,
    pub samples_per_pixel: u32,
    pub pixel_sample_scale: i64,
    // Camera constants
    pub camera_center: Vec3,
    /// Horizontal and vertical delta vectors from pixel to pixel.
    pub pixel_delta_u: Vec3,
    pub pixel_delta_v: Vec3,
    /// Location of the upper left pixel.
    pub first_pixel_loc: Vec3,
    /// Variation angle of rays through each pixel.
    pub defocus_angle: i64,
    pub defocus_disk_u: Vec3,
    pub defocus_disk_v: Vec3,
}

/// A camera the ray generator can trust: resolutions and sample counts in
/// range, and every basis vector small enough that a sample point stays
/// within the representable scene.
pub open spec fn cam_wf(c: Camera) -> bool {
    &&& 1 <= c.img_width <= 2048
    &&& 1 <= c.img_height <= 2048
    &&& 1 <= c.samples_per_pixel <= 1024
    &&& c.max_depth <= 64
    &&& 0 <= c.pixel_sample_scale <= FX_ONE
    &&& v3_in_bound(c.camera_center, 0x200_0000)
    &&& v3_in_bound(c.first_pixel_loc, 0x400_0000)
    &&& delta_extent_ok(c.pixel_delta_u, c.img_width as int)
    &&& delta_extent_ok(c.pixel_delta_v, c.img_height as int)
    &&& v3_in_bound(c.defocus_disk_u, 0x100_0000)
    &&& v3_in_bound(c.defocus_disk_v, 0x100_0000)
}

/// A pixel delta is small enough that scaling it by any pixel index across
/// the image stays within a quarter of the point range.
pub open spec fn delta_extent_ok(d: Vec3, count: int) -> bool {
    &&& abs_i(d.x as int) * (count + 1) <= 0x200_0000
    &&& abs_i(d.y as int) * (count + 1) <= 0x200_0000
    &&& abs_i(d.z as int) * (count + 1) <= 0x200_0000
}

/// Origin of a defocused ray: a point on the aperture disk.
pub open spec fn defocus_sample_s(c: Camera, s: u64) -> (Vec3, u64) {
    let (p, s1) = rod_s(s, REJECT_FUEL as nat);
    (
        v3_add(
            v3_add(c.camera_center, v3_scale(c.defocus_disk_u, p.x as int)),
            v3_scale(c.defocus_disk_v, p.y as int),
        ),
        s1,
    )
}

/// One jittered primary ray for pixel coordinates scaled to fixed point.
pub open spec fn get_ray_s(c: Camera, i: int, j: int, s: u64) -> (Ray, u64) {
    let (off, s1) = rv3_square_s(s);
    let pixel_sample = v3_add(
        v3_add(c.first_pixel_loc, v3_scale(c.pixel_delta_u, i + off.x)),
        v3_scale(c.pixel_delta_v, j + off.y),
    );
    if c.defocus_angle <= 0 {
        (
            Ray { origin: c.camera_center, direction: v3_sub(pixel_sample, c.camera_center) },
            s1,
        )
    } else {
        let (origin, s2) = defocus_sample_s(c, s1);
        (Ray { origin, direction: v3_sub(pixel_sample, origin) }, s2)
    }
}

/// Recursive light transport: black at depth zero; otherwise scatter at the
/// closest hit and attenuate the recursive color, or fall back to the sky.
/// A scattered ray outside the representable scene is absorbed.
pub open spec fn ray_color_s(objs: Seq<Hittable>, ray: Ray, depth: u32, s: u64) -> (Vec3, u64)
    decreases depth,
{
    if depth == 0 {
        (black(), s)
    } else {
        match list_hit_s(objs, ray, EPS_T as int, T_LIMIT as int) {
            Some(rec) => {
                let (res, s1) = material_scatter_s(rec.material, ray, rec, s);
                match res {
                    Some((scattered, attenuation)) => if ray_wf(scattered) {
                        let (c, s2) = ray_color_s(objs, scattered, (depth - 1) as u32, s1);
                        (v3_mul(c, attenuation), s2)
                    } else {
                        (black(), s1)
                    },
                    None => (black(), s1),
                }
            },
            None => (sky_s(ray), s),
        }
    }
}

/// Scaling a pixel delta by an in-image coordinate keeps the product within
/// the delta's stated extent.
proof fn lemma_delta_scale(d: int, t: int, a: int, count: int)
    requires
        abs_i(d) <= a,
        0 <= a,
        1 <= count,
        abs_i(t) <= (count + 1) * FX_ONE,
        a * (count + 1) <= 0x200_0000,
    ensures
        abs_i(d * t) <= 0x200_0000 * FX_ONE,
        abs_i(fx_mul(d, t)) <= 0x200_0000,
        abs_i(d) <= 0x100_0000,
{
    assert(a <= 0x100_0000) by (nonlinear_arith)
        requires
            0 <= a,
            1 <= count,
            a * (count + 1) <= 0x200_0000,
    {
    }
    lemma_abs_mul(d, t, a, (count + 1) * FX_ONE);
    assert(a * ((count + 1) * 65536) == (a * (count + 1)) * 65536) by (nonlinear_arith);
    assert((a * (count + 1)) * 65536 <= 0x200_0000 * 65536) by (nonlinear_arith)
        requires
            a * (count + 1) <= 0x200_0000,
    {
    }
    lemma_qtrunc_bound(d * t, FX_ONE as int, 0x200_0000 * (FX_ONE as int));
    assert((0x200_0000 * (FX_ONE as int)) / (FX_ONE as int) == 0x200_0000) by {
        vstd::arithmetic::div_mod::lemma_div_multiples_vanish(0x200_0000, FX_ONE as int);
        assert((FX_ONE as int) * 0x200_0000 == 0x200_0000 * (FX_ONE as int));
    }
}

/// An executable test of `ray_wf`, used to discard scattered rays that left
/// the representable scene.
fn ray_in_limits(r: &Ray) -> (b: bool)
    ensures
        b == ray_wf(*r),
{
    let pl: i64 = POINT_LIMIT;
    let dl: i64 = DIR_LIMIT;
    -pl <= r.origin.x && r.origin.x <= pl && -pl <= r.origin.y && r.origin.y <= pl && -pl
        <= r.origin.z && r.origin.z <= pl && -dl <= r.direction.x && r.direction.x <= dl && -dl
        <= r.direction.y && r.direction.y <= dl && -dl <= r.direction.z && r.direction.z <= dl
}

impl Camera {
    /// A point sampled on the defocus disk, in camera coordinates.
    fn defocus_disk_sample(&self, rand: &mut RandomGenerator) -> (r: Vec3)
        requires
            cam_wf(*self),
        ensures
            (r, final(rand).state) == defocus_sample_s(*self, old(rand).state),
            v3_in_bound(r, 0x400_0000),
    {
        let p = rand.random_on_disk();
        proof {
            lemma_fx_mul_bound(self.defocus_disk_u.x as int, p.x as int, 0x100_0000, FX_ONE as int);
            lemma_fx_mul_bound(self.defocus_disk_u.y as int, p.x as int, 0x100_0000, FX_ONE as int);
            lemma_fx_mul_bound(self.defocus_disk_u.z as int, p.x as int, 0x100_0000, FX_ONE as int);
            lemma_fx_mul_bound(self.defocus_disk_v.x as int, p.y as int, 0x100_0000, FX_ONE as int);
            lemma_fx_mul_bound(self.defocus_disk_v.y as int, p.y as int, 0x100_0000, FX_ONE as int);
            lemma_fx_mul_bound(self.defocus_disk_v.z as int, p.y as int, 0x100_0000, FX_ONE as int);
        }
        let du = self.defocus_disk_u.scale(p.x);
        let dv = self.defocus_disk_v.scale(p.y);
        self.camera_center.add(&du).add(&dv)
    }

    /// One primary ray through pixel `(i, j)` (fixed-point pixel
    /// coordinates), jittered within the pixel and, with a positive defocus
    /// angle, originating on the aperture disk.
    pub fn get_ray(&self, i: i64, j: i64, rand: &mut RandomGenerator) -> (r: Ray)
        requires
            cam_wf(*self),
            0 <= i <= (self.img_width as int) * FX_ONE,
            0 <= j <= (self.img_height as int) * FX_ONE,
        ensures
            (r, final(rand).state) == get_ray_s(*self, i as int, j as int, old(rand).state),
            ray_wf(r),
    {
        let offset = rand.random_vec3_square();
        proof {
            lemma_delta_scale(
                self.pixel_delta_u.x as int,
                i + offset.x,
                abs_i(self.pixel_delta_u.x as int),
                self.img_width as int,
            );
            lemma_delta_scale(
                self.pixel_delta_u.y as int,
                i + offset.x,
                abs_i(self.pixel_delta_u.y as int),
                self.img_width as int,
            );
            lemma_delta_scale(
                self.pixel_delta_u.z as int,
                i + offset.x,
                abs_i(self.pixel_delta_u.z as int),
                self.img_width as int,
            );
            lemma_delta_scale(
                self.pixel_delta_v.x as int,
                j + offset.y,
                abs_i(self.pixel_delta_v.x as int),
                self.img_height as int,
            );
            lemma_delta_scale(
                self.pixel_delta_v.y as int,
                j + offset.y,
                abs_i(self.pixel_delta_v.y as int),
                self.img_height as int,
            );
            lemma_delta_scale(
                self.pixel_delta_v.z as int,
                j + offset.y,
                abs_i(self.pixel_delta_v.z as int),
                self.img_height as int,
            );
        }
        let su = self.pixel_delta_u.scale(i + offset.x);
        let sv = self.pixel_delta_v.scale(j + offset.y);
        let pixel_sample = self.first_pixel_loc.add(&su).add(&sv);

        let origin = if self.defocus_angle <= 0 {
            self.camera_center
        } else {
            self.defocus_disk_sample(rand)
        };
        let direction = pixel_sample.sub(&origin);
        Ray::new(origin, direction)
    }

    /// Light gathered along a ray, to the given recursion depth.
    #[verifier::rlimit(100)]
    pub fn ray_color(
        &self,
        ray: &Ray,
        world: &HittableList,
        depth: u32,
        rand: &mut RandomGenerator,
    ) -> (c: Vec3)
        requires
            list_wf(*world),
            ray_wf(*ray),
        ensures
            (c, final(rand).state) == ray_color_s(world.objects@, *ray, depth, old(rand).state),
            v3_in_bound(c, COLOR_LIMIT as int),
        decreases depth,
    {
        if depth == 0 {
            return Vec3::new(0, 0, 0);
        }
        let mut rec = HitRecord::new();
        if world.hit(ray, Interval::new(EPS_T, T_LIMIT), &mut rec) {
            proof {
                lemma_list_hit_wf(world.objects@, *ray, EPS_T as int, T_LIMIT as int, 0);
            }
            let res = rec.material.scatter(ray, &rec, rand);
            if res.is_some() {
                let (scattered, attenuation) = res.unwrap();
                if ray_in_limits(&scattered) {
                    let c = self.ray_color(&scattered, world, depth - 1, rand);
                    proof {
                        lemma_fx_mul_bound(c.x as int, attenuation.x as int, COLOR_LIMIT as int, FX_ONE as int);
                        lemma_fx_mul_bound(c.y as int, attenuation.y as int, COLOR_LIMIT as int, FX_ONE as int);
                        lemma_fx_mul_bound(c.z as int, attenuation.z as int, COLOR_LIMIT as int, FX_ONE as int);
                    }
                    return c.mul(&attenuation);
                }
                return Vec3::new(0, 0, 0);
            }
            return Vec3::new(0, 0, 0);
        }
        // Background color
        let lsq = ray.direction.length_squared();
        if lsq < 1 {
            return Vec3::new(0, 0, 0);
        }
        let unit_vec = ray.direction().unit_vector();
        proof {
            lemma_fx_mul_bound(SKY_A as int, unit_vec.y + FX_ONE, SKY_A as int, 3 * FX_ONE as int);
        }
        let a = fx_mul_e(SKY_A, unit_vec.y + FX_ONE);
        proof {
            lemma_fx_mul_bound(FX_ONE as int, FX_ONE - a, FX_ONE as int, 0x4_0000);
            lemma_fx_mul_bound(SKY_R as int, a as int, FX_ONE as int, 0x4_0000);
            lemma_fx_mul_bound(SKY_G as int, a as int, FX_ONE as int, 0x4_0000);
            lemma_fx_mul_bound(FX_ONE as int, a as int, FX_ONE as int, 0x4_0000);
        }
        let base = Vec3::new(FX_ONE, FX_ONE, FX_ONE).scale(FX_ONE - a);
        let tint = Vec3::new(SKY_R, SKY_G, FX_ONE).scale(a);
        base.add(&tint)
    }

    /// One channel quantized for the image sink: gamma correction, then a
    /// clamp just below one, then scaling into a byte — in that order.
    pub open spec fn byte_of(v: int) -> int {
        qtrunc(256 * clamp_s(Interval { min: 0, max: 65535 }, gamma_s(v)), FX_ONE as int)
    }

    /// Quantize an averaged color into the 8-bit RGB triple the image sink
    /// takes.
    pub fn write_color(color: Vec3) -> (rgb: (u8, u8, u8))
        ensures
            rgb.0 as int == Camera::byte_of(color.x as int),
            rgb.1 as int == Camera::byte_of(color.y as int),
            rgb.2 as int == Camera::byte_of(color.z as int),
    {
        let r = crate::util::linear_to_gamma(color.x);
        let g = crate::util::linear_to_gamma(color.y);
        let b = crate::util::linear_to_gamma(color.z);

        let intensity = Interval::new(0, 65535);
        let rbyte = Camera::quantize(intensity.clamp(r));
        let gbyte = Camera::quantize(intensity.clamp(g));
        let bbyte = Camera::quantize(intensity.clamp(b));
        (rbyte, gbyte, bbyte)
    }

    /// Scale a clamped channel into `[0, 256)` and truncate.
    fn quantize(c: i64) -> (b: u8)
        requires
            0 <= c <= 65535,
        ensures
            b as int == qtrunc(256 * c, FX_ONE as int),
    {
        proof {
            vstd::arithmetic::div_mod::lemma_div_denominator(256 * c, 256, 256);
            vstd::arithmetic::div_mod::lemma_div_multiples_vanish(c as int, 256);
            assert(256 * (c as int) == (c as int) * 256);
        }
        ((c as u64) / 256) as u8
    }
}

// ----------------------------------------------
// Camera construction --------------------------
// ----------------------------------------------

/// Degrees-to-radians factor in fixed point.
pub const PI_OVER_180: i64 = 1144;

/// Tangent of half an angle given in fixed-point degrees: convert to
/// radians, halve, and take a short series for sine over cosine.  Nothing is
/// returned when the cosine is too small for a meaningful ratio.
pub open spec fn tan_half_deg_s(angle: int) -> Option<int> {
    let rad = fx_mul(angle, PI_OVER_180 as int);
    let x = fx_mul(rad, 32768);
    let x2 = fx_mul(x, x);
    let x3 = fx_mul(x2, x);
    let x4 = fx_mul(x2, x2);
    let x5 = fx_mul(x4, x);
    let sinv = x - fx_div(x3, 6 * FX_ONE) + fx_div(x5, 120 * FX_ONE);
    let cosv = FX_ONE - fx_div(x2, 2 * FX_ONE) + fx_div(x4, 24 * FX_ONE);
    if cosv < 1 {
        None
    } else {
        Some(fx_div(sinv, cosv))
    }
}

fn tan_half_deg(angle: i64) -> (r: Option<i64>)
    requires
        0 <= angle <= 180 * FX_ONE,
    ensures
        match r {
            Some(t) => tan_half_deg_s(angle as int) == Some(t as int),
            None => tan_half_deg_s(angle as int) is None,
        },
{
    proof {
        lemma_fx_mul_bound(angle as int, PI_OVER_180 as int, 180 * FX_ONE as int, PI_OVER_180 as int);
        let radv: int = fx_mul(angle as int, PI_OVER_180 as int);
        lemma_fx_mul_bound(radv, 32768, 0x4_0000, 32768);
        let xv: int = fx_mul(radv, 32768);
        lemma_fx_mul_bound(xv, xv, 0x2_0000, 0x2_0000);
        let x2v: int = fx_mul(xv, xv);
        lemma_fx_mul_bound(x2v, xv, 0x4_0000, 0x2_0000);
        lemma_fx_mul_bound(x2v, x2v, 0x4_0000, 0x4_0000);
        let x3v: int = fx_mul(x2v, xv);
        let x4v: int = fx_mul(x2v, x2v);
        lemma_fx_mul_bound(x4v, xv, 0x10_0000, 0x2_0000);
    }
    let rad = fx_mul_e(angle, PI_OVER_180);
    let x = fx_mul_e(rad, 32768);
    let x2 = fx_mul_e(x, x);
    let x3 = fx_mul_e(x2, x);
    let x4 = fx_mul_e(x2, x2);
    let x5 = fx_mul_e(x4, x);
    let sinv = x - fx_div_e(x3, 6 * FX_ONE) + fx_div_e(x5, 120 * FX_ONE);
    let cosv = FX_ONE - fx_div_e(x2, 2 * FX_ONE) + fx_div_e(x4, 24 * FX_ONE);
    if cosv < 1 {
        return Option::None;
    }
    Option::Some(fx_div_e(sinv, cosv))
}

/// The world-up hint used to derive the camera frame.
pub open spec fn vup() -> Vec3 {
    Vec3 { x: 0, y: FX_ONE, z: 0 }
}

/// Full camera derivation.  Every range check mirrors the executable one, so
/// `None` says exactly which configurations the fixed-point viewport cannot
/// represent.
pub open spec fn camera_configure_s(
    fov: int,
    look_from: Vec3,
    look_at: Vec3,
    img_width: int,
    img_height: int,
    samples_per_pixel: int,
    max_depth: int,
    defocus_angle: int,
    focus_dist: int,
) -> Option<Camera> {
    match tan_half_deg_s(fov) {
        None => None,
        Some(h) => if !in_bound(h, 0x10_0000) {
            None
        } else {
            let viewport_height = fx_mul(2 * h, focus_dist);
            let ratio = fx_div(img_width * FX_ONE, img_height * FX_ONE);
            let viewport_width = fx_mul(viewport_height, ratio);
            if !(in_bound(viewport_height, 0x100_0000) && in_bound(ratio, 0x100_0000) && in_bound(
                viewport_width,
                0x100_0000,
            )) {
                None
            } else {
                let w0 = v3_sub(look_from, look_at);
                if v3_dot(w0, w0) < 1 {
                    None
                } else {
                    let w = v3_unit(w0);
                    let u0 = v3_cross(vup(), w);
                    if !(v3_in_bound(u0, 0x4_0000) && v3_dot(u0, u0) >= 1) {
                        None
                    } else {
                        let u = v3_unit(u0);
                        let v = v3_cross(w, u);
                        if !v3_in_bound(v, 0x4_0000) {
                            None
                        } else {
                            camera_assemble_s(
                                look_from,
                                img_width,
                                img_height,
                                samples_per_pixel,
                                max_depth,
                                defocus_angle,
                                focus_dist,
                                viewport_height,
                                viewport_width,
                                w,
                                u,
                                v,
                            )
                        }
                    }
                }
            }
        },
    }
}

/// Viewport vectors, pixel deltas and the defocus disk, assembled from the
/// camera frame; `None` when a derived quantity leaves its range.
pub open spec fn camera_assemble_s(
    look_from: Vec3,
    img_width: int,
    img_height: int,
    samples_per_pixel: int,
    max_depth: int,
    defocus_angle: int,
    focus_dist: int,
    viewport_height: int,
    viewport_width: int,
    w: Vec3,
    u: Vec3,
    v: Vec3,
) -> Option<Camera> {
    let viewport_u = v3_scale(u, viewport_width);
    let viewport_v = v3_scale(v, -viewport_height);
    let pixel_delta_u = v3_div(viewport_u, img_width * FX_ONE);
    let pixel_delta_v = v3_div(viewport_v, img_height * FX_ONE);
    let viewport_top_left = v3_sub(
        v3_sub(v3_sub(look_from, v3_scale(w, focus_dist)), v3_div(viewport_u, 2 * FX_ONE)),
        v3_div(viewport_v, 2 * FX_ONE),
    );
    let first_pixel_loc = v3_add(
        viewport_top_left,
        v3_scale(v3_add(v3_div(pixel_delta_u, 2 * FX_ONE), v3_div(pixel_delta_v, 2 * FX_ONE)), 32768),
    );
    match tan_half_deg_s(defocus_angle) {
        None => None,
        Some(td) => if !in_bound(td, 0x10_0000) {
            None
        } else {
            let defocus_rad = fx_mul(focus_dist, td);
            if !in_bound(defocus_rad, 0x40_0000) {
                None
            } else {
                let defocus_disk_u = v3_scale(u, defocus_rad);
                let defocus_disk_v = v3_scale(v, defocus_rad);
                let cam = Camera {
                    max_depth: max_depth as u32,
                    img_width: img_width as u32,
                    img_height: img_height as u32,
                    samples_per_pixel: samples_per_pixel as u32,
                    pixel_sample_scale: fx_div(FX_ONE as int, samples_per_pixel * FX_ONE) as i64,
                    camera_center: look_from,
                    pixel_delta_u,
                    pixel_delta_v,
                    first_pixel_loc,
                    defocus_angle: defocus_angle as i64,
                    defocus_disk_u,
                    defocus_disk_v,
                };
                if !(v3_in_bound(first_pixel_loc, 0x400_0000) && delta_extent_ok(
                    pixel_delta_u,
                    img_width,
                ) && delta_extent_ok(pixel_delta_v, img_height) && v3_in_bound(
                    defocus_disk_u,
                    0x100_0000,
                ) && v3_in_bound(defocus_disk_v, 0x100_0000)) {
                    None
                } else {
                    Some(cam)
                }
            }
        },
    }
}

/// An executable test of `v3_in_bound`.
fn v3_in_limits(v: &Vec3, b: i64) -> (r: bool)
    requires
        0 <= b,
    ensures
        r == v3_in_bound(*v, b as int),
{
    -b <= v.x && v.x <= b && -b <= v.y && v.y <= b && -b <= v.z && v.z <= b
}

/// An executable test of `delta_extent_ok`.
fn delta_extent_check(d: &Vec3, count: u32) -> (r: bool)
    ensures
        r == delta_extent_ok(*d, count as int),
{
    let ax: i128 = if d.x < 0 {
        -(d.x as i128)
    } else {
        d.x as i128
    };
    let ay: i128 = if d.y < 0 {
        -(d.y as i128)
    } else {
        d.y as i128
    };
    let az: i128 = if d.z < 0 {
        -(d.z as i128)
    } else {
        d.z as i128
    };
    let c: i128 = (count as i128) + 1;
    proof {
        assert(0 <= ax * c < 0x1_0000_0000_0000_0000_0000_0000int) by (nonlinear_arith)
            requires
                0 <= ax <= 0x8000_0000_0000_0000,
                0 <= c <= 0x1_0000_0001,
        {
        }
        assert(0 <= ay * c < 0x1_0000_0000_0000_0000_0000_0000int) by (nonlinear_arith)
            requires
                0 <= ay <= 0x8000_0000_0000_0000,
                0 <= c <= 0x1_0000_0001,
        {
        }
        assert(0 <= az * c < 0x1_0000_0000_0000_0000_0000_0000int) by (nonlinear_arith)
            requires
                0 <= az <= 0x8000_0000_0000_0000,
                0 <= c <= 0x1_0000_0001,
        {
        }
    }
    ax * c <= 0x200_0000 && ay * c <= 0x200_0000 && az * c <= 0x200_0000
}

impl Camera {
    /// Build a camera from an explicit configuration; `None` when the
    /// fixed-point viewport cannot represent it.
    #[verifier::rlimit(100)]
    pub fn configure(
        fov: i64,
        look_from: Vec3,
        look_at: Vec3,
        img_width: u32,
        img_height: u32,
        samples_per_pixel: u32,
        max_depth: u32,
        defocus_angle: i64,
        focus_dist: i64,
    ) -> (r: Option<Camera>)
        requires
            0 <= fov <= 179 * FX_ONE,
            v3_in_bound(look_from, 0x200_0000),
            v3_in_bound(look_at, 0x200_0000),
            1 <= img_width <= 2048,
            1 <= img_height <= 2048,
            1 <= samples_per_pixel <= 1024,
            max_depth <= 64,
            0 <= defocus_angle <= 179 * FX_ONE,
            0 < focus_dist <= 0x400_0000,
        ensures
            r == camera_configure_s(
                fov as int,
                look_from,
                look_at,
                img_width as int,
                img_height as int,
                samples_per_pixel as int,
                max_depth as int,
                defocus_angle as int,
                focus_dist as int,
            ),
            r matches Some(cam) ==> cam_wf(cam),
    {
        let th = tan_half_deg(fov);
        if th.is_none() {
            return Option::None;
        }
        let h = th.unwrap();
        if !(-0x10_0000 <= h && h <= 0x10_0000) {
            return Option::None;
        }
        proof {
            lemma_fx_mul_bound(2 * h as int, focus_dist as int, 0x20_0000, 0x400_0000);
        }
        let viewport_height = fx_mul_e(2 * h, focus_dist);
        let width_fx: i64 = (img_width as i64) * FX_ONE;
        let height_fx: i64 = (img_height as i64) * FX_ONE;
        let ratio = fx_div_e(width_fx, height_fx);
        if !(-0x100_0000 <= viewport_height && viewport_height <= 0x100_0000 && -0x100_0000
            <= ratio && ratio <= 0x100_0000) {
            return Option::None;
        }
        proof {
            lemma_fx_mul_bound(viewport_height as int, ratio as int, 0x100_0000, 0x100_0000);
        }
        let viewport_width = fx_mul_e(viewport_height, ratio);
        if !(-0x100_0000 <= viewport_width && viewport_width <= 0x100_0000) {
            return Option::None;
        }
        let w0 = look_from.sub(&look_at);
        if w0.length_squared() < 1 {
            return Option::None;
        }
        let w = w0.unit_vector();
        let vup_e = Vec3::new(0, FX_ONE, 0);
        let u0 = Vec3::cross(&vup_e, &w);
        if !(v3_in_limits(&u0, 0x4_0000) && u0.length_squared() >= 1) {
            return Option::None;
        }
        let u = u0.unit_vector();
        let v = Vec3::cross(&w, &u);
        if !v3_in_limits(&v, 0x4_0000) {
            return Option::None;
        }
        Camera::assemble(
            look_from,
            img_width,
            img_height,
            samples_per_pixel,
            max_depth,
            defocus_angle,
            focus_dist,
            viewport_height,
            viewport_width,
            w,
            u,
            v,
        )
    }

    #[verifier::rlimit(100)]
    fn assemble(
        look_from: Vec3,
        img_width: u32,
        img_height: u32,
        samples_per_pixel: u32,
        max_depth: u32,
        defocus_angle: i64,
        focus_dist: i64,
        viewport_height: i64,
        viewport_width: i64,
        w: Vec3,
        u: Vec3,
        v: Vec3,
    ) -> (r: Option<Camera>)
        requires
            v3_in_bound(look_from, 0x200_0000),
            1 <= img_width <= 2048,
            1 <= img_height <= 2048,
            1 <= samples_per_pixel <= 1024,
            max_depth <= 64,
            0 <= defocus_angle <= 179 * FX_ONE,
            0 < focus_dist <= 0x400_0000,
            in_bound(viewport_height as int, 0x100_0000),
            in_bound(viewport_width as int, 0x100_0000),
            v3_in_bound(w, UNIT_LIMIT as int),
            v3_in_bound(u, UNIT_LIMIT as int),
            v3_in_bound(v, 0x4_0000),
        ensures
            r == camera_assemble_s(
                look_from,
                img_width as int,
                img_height as int,
                samples_per_pixel as int,
                max_depth as int,
                defocus_angle as int,
                focus_dist as int,
                viewport_height as int,
                viewport_width as int,
                w,
                u,
                v,
            ),
            r matches Some(cam) ==> cam_wf(cam),
    {
        proof {
            lemma_fx_mul_bound(u.x as int, viewport_width as int, UNIT_LIMIT as int, 0x100_0000);
            lemma_fx_mul_bound(u.y as int, viewport_width as int, UNIT_LIMIT as int, 0x100_0000);
            lemma_fx_mul_bound(u.z as int, viewport_width as int, UNIT_LIMIT as int, 0x100_0000);
            lemma_fx_mul_bound(v.x as int, -viewport_height as int, 0x4_0000, 0x100_0000);
            lemma_fx_mul_bound(v.y as int, -viewport_height as int, 0x4_0000, 0x100_0000);
            lemma_fx_mul_bound(v.z as int, -viewport_height as int, 0x4_0000, 0x100_0000);
            lemma_fx_mul_bound(w.x as int, focus_dist as int, UNIT_LIMIT as int, 0x400_0000);
            lemma_fx_mul_bound(w.y as int, focus_dist as int, UNIT_LIMIT as int, 0x400_0000);
            lemma_fx_mul_bound(w.z as int, focus_dist as int, UNIT_LIMIT as int, 0x400_0000);
        }
        let viewport_u = u.scale(viewport_width);
        let viewport_v = v.scale(-viewport_height);
        let width_fx: i64 = (img_width as i64) * FX_ONE;
        let height_fx: i64 = (img_height as i64) * FX_ONE;
        let pixel_delta_u = viewport_u.div(width_fx);
        let pixel_delta_v = viewport_v.div(height_fx);
        proof {
            crate::fx::lemma_fx_div_bound(viewport_u.x as int, width_fx as int, 0x200_0000, FX_ONE as int);
            crate::fx::lemma_fx_div_bound(viewport_u.y as int, width_fx as int, 0x200_0000, FX_ONE as int);
            crate::fx::lemma_fx_div_bound(viewport_u.z as int, width_fx as int, 0x200_0000, FX_ONE as int);
            crate::fx::lemma_fx_div_bound(viewport_v.x as int, height_fx as int, 0x400_0000, FX_ONE as int);
            crate::fx::lemma_fx_div_bound(viewport_v.y as int, height_fx as int, 0x400_0000, FX_ONE as int);
            crate::fx::lemma_fx_div_bound(viewport_v.z as int, height_fx as int, 0x400_0000, FX_ONE as int);
        }
        let w_scaled = w.scale(focus_dist);
        let viewport_top_left = look_from.sub(&w_scaled).sub(&viewport_u.div(2 * FX_ONE)).sub(
            &viewport_v.div(2 * FX_ONE),
        );
        let half_u = pixel_delta_u.div(2 * FX_ONE);
        let half_v = pixel_delta_v.div(2 * FX_ONE);
        proof {
            crate::fx::lemma_fx_div_bound(pixel_delta_u.x as int, 2 * FX_ONE as int, 0x2000_0000, 2 * FX_ONE as int);
            crate::fx::lemma_fx_div_bound(pixel_delta_u.y as int, 2 * FX_ONE as int, 0x2000_0000, 2 * FX_ONE as int);
            crate::fx::lemma_fx_div_bound(pixel_delta_u.z as int, 2 * FX_ONE as int, 0x2000_0000, 2 * FX_ONE as int);
            crate::fx::lemma_fx_div_bound(pixel_delta_v.x as int, 2 * FX_ONE as int, 0x4000_0000, 2 * FX_ONE as int);
            crate::fx::lemma_fx_div_bound(pixel_delta_v.y as int, 2 * FX_ONE as int, 0x4000_0000, 2 * FX_ONE as int);
            crate::fx::lemma_fx_div_bound(pixel_delta_v.z as int, 2 * FX_ONE as int, 0x4000_0000, 2 * FX_ONE as int);
        }
        let half_sum = half_u.add(&half_v);
        proof {
            lemma_fx_mul_bound(half_sum.x as int, 32768, 0x3000_0000, 32768);
            lemma_fx_mul_bound(half_sum.y as int, 32768, 0x3000_0000, 32768);
            lemma_fx_mul_bound(half_sum.z as int, 32768, 0x3000_0000, 32768);
        }
        let first_pixel_loc = viewport_top_left.add(&half_sum.scale(32768));
        let td = tan_half_deg(defocus_angle);
        if td.is_none() {
            return Option::None;
        }
        let tdv = td.unwrap();
        if !(-0x10_0000 <= tdv && tdv <= 0x10_0000) {
            return Option::None;
        }
        proof {
            lemma_fx_mul_bound(focus_dist as int, tdv as int, 0x400_0000, 0x10_0000);
        }
        let defocus_rad = fx_mul_e(focus_dist, tdv);
        if !(-0x40_0000 <= defocus_rad && defocus_rad <= 0x40_0000) {
            return Option::None;
        }
        proof {
            lemma_fx_mul_bound(u.x as int, defocus_rad as int, UNIT_LIMIT as int, 0x40_0000);
            lemma_fx_mul_bound(u.y as int, defocus_rad as int, UNIT_LIMIT as int, 0x40_0000);
            lemma_fx_mul_bound(u.z as int, defocus_rad as int, UNIT_LIMIT as int, 0x40_0000);
            lemma_fx_mul_bound(v.x as int, defocus_rad as int, 0x4_0000, 0x40_0000);
            lemma_fx_mul_bound(v.y as int, defocus_rad as int, 0x4_0000, 0x40_0000);
            lemma_fx_mul_bound(v.z as int, defocus_rad as int, 0x4_0000, 0x40_0000);
        }
        let defocus_disk_u = u.scale(defocus_rad);
        let defocus_disk_v = v.scale(defocus_rad);
        let samples_fx: i64 = (samples_per_pixel as i64) * FX_ONE;
        proof {
            crate::fx::lemma_fx_div_bound(FX_ONE as int, samples_fx as int, FX_ONE as int, FX_ONE as int);
            vstd::arithmetic::div_mod::lemma_div_multiples_vanish(FX_ONE as int, FX_ONE as int);
        }
        let pixel_sample_scale = fx_div_e(FX_ONE, samples_fx);
        let cam = Camera {
            max_depth,
            img_width,
            img_height,
            samples_per_pixel,
            pixel_sample_scale,
            camera_center: look_from,
            pixel_delta_u,
            pixel_delta_v,
            first_pixel_loc,
            defocus_angle,
            defocus_disk_u,
            defocus_disk_v,
        };
        if !(v3_in_limits(&first_pixel_loc, 0x400_0000) && delta_extent_check(
            &pixel_delta_u,
            img_width,
        ) && delta_extent_check(&pixel_delta_v, img_height) && v3_in_limits(
            &defocus_disk_u,
            0x100_0000,
        ) && v3_in_limits(&defocus_disk_v, 0x100_0000)) {
            return Option::None;
        }
        Option::Some(cam)
    }

    /// The render configuration the program ships with: 512 by 288 pixels,
    /// fifty samples per pixel, depth ten, a three-degree aperture, and a
    /// focus distance of ten units.
    pub fn initialize(fov: i64, look_from: Vec3, look_at: Vec3) -> (r: Option<Camera>)
        requires
            0 <= fov <= 179 * FX_ONE,
            v3_in_bound(look_from, 0x200_0000),
            v3_in_bound(look_at, 0x200_0000),
        ensures
            r == camera_init_s(fov as int, look_from, look_at),
            r matches Some(cam) ==> cam_wf(cam),
    {
        Camera::configure(fov, look_from, look_at, 512, 288, 50, 10, 3 * FX_ONE, 10 * FX_ONE)
    }
}

/// `initialize` is `configure` with the shipped constants.
pub open spec fn camera_init_s(fov: int, look_from: Vec3, look_at: Vec3) -> Option<Camera> {
    camera_configure_s(
        fov,
        look_from,
        look_at,
        512,
        288,
        50,
        10,
        3 * FX_ONE,
        10 * FX_ONE,
    )
}

/// At recursion depth zero no light is gathered: the color is exactly black
/// and no randomness is consumed, whatever the ray and the scene hold.
pub proof fn lemma_ray_color_depth_zero(objs: Seq<Hittable>, ray: Ray, s: u64)
    ensures
        ray_color_s(objs, ray, 0, s) == (black(), s),
{
}

// ----------------------------------------------
// Render scheduler core ------------------------
// ----------------------------------------------

/// A worker-local result record: pixel coordinates and the averaged color.
#[derive(Clone, Copy, Debug)]
pub struct PixelData {
    pub loc: (u32, u32),
    pub color: Vec3,
}

/// Seed of the generator that renders row `y`.  Every row draws from its own
/// deterministic stream, so how rows are banded across workers cannot change
/// the image.
pub open spec fn row_seed_s(seed: u64, y: int) -> u64 {
    seed ^ ((y + 1) as u64).wrapping_mul(crate::random::SM_GAMMA)
}

/// Sum of the first `n` sample colors of pixel `(x, y)`.
pub open spec fn sample_sum_s(
    cam: Camera,
    objs: Seq<Hittable>,
    x: int,
    y: int,
    n: nat,
    s: u64,
) -> (Vec3, u64)
    decreases n,
{
    if n == 0 {
        (black(), s)
    } else {
        let (acc, s1) = sample_sum_s(cam, objs, x, y, (n - 1) as nat, s);
        let (ray, s2) = get_ray_s(cam, x * FX_ONE, y * FX_ONE, s1);
        let (c, s3) = ray_color_s(objs, ray, cam.max_depth, s2);
        (v3_add(acc, c), s3)
    }
}

/// Averaged color of pixel `(x, y)` from a generator state, with the state
/// left behind.
pub open spec fn pixel_color_s(cam: Camera, objs: Seq<Hittable>, x: int, y: int, s: u64) -> (
    Vec3,
    u64,
) {
    let (sum, s1) = sample_sum_s(cam, objs, x, y, cam.samples_per_pixel as nat, s);
    (v3_scale(sum, cam.pixel_sample_scale as int), s1)
}

/// Generator state on reaching pixel `x` of a row begun with `rowseed`.
pub open spec fn pixel_state_s(
    cam: Camera,
    objs: Seq<Hittable>,
    y: int,
    rowseed: u64,
    x: int,
) -> u64
    decreases x,
{
    if x <= 0 {
        rowseed
    } else {
        pixel_color_s(cam, objs, x - 1, y, pixel_state_s(cam, objs, y, rowseed, x - 1)).1
    }
}

/// The color of pixel `(x, y)` in a render begun with `seed`: a function of
/// camera, scene, seed and coordinates alone.
pub open spec fn pixel_value_s(cam: Camera, objs: Seq<Hittable>, seed: u64, x: int, y: int) -> Vec3 {
    pixel_color_s(cam, objs, x, y, pixel_state_s(cam, objs, y, row_seed_s(seed, y), x)).0
}

/// Entry `k` of a worker's buffer for the band starting at `row_start`.
pub open spec fn pixel_data_s(
    cam: Camera,
    objs: Seq<Hittable>,
    seed: u64,
    row_start: int,
    k: int,
) -> PixelData {
    let w = cam.img_width as int;
    let y = row_start + k / w;
    let x = k % w;
    PixelData { loc: (x as u32, y as u32), color: pixel_value_s(cam, objs, seed, x, y) }
}

/// The contiguous row band of one worker.  Integer division leaves the
/// remainder rows after the last full band unassigned: a deliberate,
/// documented choice of this scheduler, so callers wanting every row must
/// hand the tail to an extra worker.
pub fn band_rows(img_height: u32, workers: u32, index: u32) -> (r: (u32, u32))
    requires
        1 <= workers,
        index < workers,
    ensures
        r.0 as int == (index as int) * ((img_height as int) / (workers as int)),
        r.1 as int == (index as int + 1) * ((img_height as int) / (workers as int)),
        r.0 <= r.1 <= img_height,
{
    let rows_per_thread = img_height / workers;
    proof {
        let rpt: int = (img_height as int) / (workers as int);
        vstd::arithmetic::div_mod::lemma_fundamental_div_mod(img_height as int, workers as int);
        assert(rpt >= 0) by {
            vstd::arithmetic::div_mod::lemma_div_is_ordered(0, img_height as int, workers as int);
        }
        assert((index as int) * rpt <= (index as int + 1) * rpt <= (workers as int) * rpt)
            by (nonlinear_arith)
            requires
                0 <= rpt,
                0 <= index as int,
                index as int + 1 <= workers as int,
        {
        }
    }
    (index * rows_per_thread, (index + 1) * rows_per_thread)
}

impl Camera {
    /// Compute every pixel of the rows `[row_start, row_end)`, row-major.
    /// Each row draws from its own stream seeded by `row_seed_s`, so the
    /// result is a function of camera, scene, seed and coordinates alone.
    pub fn render_rows(
        &self,
        world: &HittableList,
        row_start: u32,
        row_end: u32,
        seed: u64,
    ) -> (out: Vec<PixelData>)
        requires
            cam_wf(*self),
            list_wf(*world),
            row_start <= row_end,
            row_end <= self.img_height,
        ensures
            out@.len() == (row_end - row_start) * (self.img_width as int),
            forall|k: int|
                0 <= k < out@.len() ==> #[trigger] out@[k] == pixel_data_s(
                    *self,
                    world.objects@,
                    seed,
                    row_start as int,
                    k,
                ),
    {
        let mut section: Vec<PixelData> = Vec::new();
        let mut y: u32 = row_start;
        while y < row_end
            invariant
                cam_wf(*self),
                list_wf(*world),
                row_start <= y <= row_end,
                row_end <= self.img_height,
                section@.len() == (y - row_start) * (self.img_width as int),
                forall|k: int|
                    0 <= k < section@.len() ==> #[trigger] section@[k] == pixel_data_s(
                        *self,
                        world.objects@,
                        seed,
                        row_start as int,
                        k,
                    ),
            decreases row_end - y,
        {
            let rs: u64 = seed ^ ((y as u64) + 1).wrapping_mul(crate::random::SM_GAMMA);
            let mut rand = RandomGenerator::from_seed(rs);
            let mut x: u32 = 0;
            while x < self.img_width
                invariant
                    cam_wf(*self),
                    list_wf(*world),
                    row_start <= y < row_end,
                    row_end <= self.img_height,
                    x <= self.img_width,
                    rs == row_seed_s(seed, y as int),
                    rand.state == pixel_state_s(
                        *self,
                        world.objects@,
                        y as int,
                        rs,
                        x as int,
                    ),
                    section@.len() == (y - row_start) * (self.img_width as int) + x,
                    forall|k: int|
                        0 <= k < section@.len() ==> #[trigger] section@[k] == pixel_data_s(
                            *self,
                            world.objects@,
                            seed,
                            row_start as int,
                            k,
                        ),
                decreases self.img_width - x,
            {
                let ghost s0 = rand.state;
                let mut pixel_color = Vec3::new(0, 0, 0);
                let mut sample: u32 = 0;
                while sample < self.samples_per_pixel
                    invariant
                        cam_wf(*self),
                        list_wf(*world),
                        x < self.img_width,
                        y < self.img_height,
                        sample <= self.samples_per_pixel,
                        pixel_color == sample_sum_s(
                            *self,
                            world.objects@,
                            x as int,
                            y as int,
                            sample as nat,
                            s0,
                        ).0,
                        rand.state == sample_sum_s(
                            *self,
                            world.objects@,
                            x as int,
                            y as int,
                            sample as nat,
                            s0,
                        ).1,
                        v3_in_bound(pixel_color, (sample as int) * (COLOR_LIMIT as int)),
                    decreases self.samples_per_pixel - sample,
                {
                    let r = self.get_ray((x as i64) * FX_ONE, (y as i64) * FX_ONE, &mut rand);
                    let c = self.ray_color(&r, world, self.max_depth, &mut rand);
                    pixel_color = pixel_color.add(&c);
                    sample = sample + 1;
                }
                let scaled = pixel_color.scale(self.pixel_sample_scale);
                proof {
                    let k: int = section@.len() as int;
                    vstd::arithmetic::div_mod::lemma_fundamental_div_mod_converse(
                        k,
                        self.img_width as int,
                        y - row_start,
                        x as int,
                    );
                }
                section.push(PixelData { loc: (x, y), color: scaled });
                x = x + 1;
            }
            proof {
                assert((y - row_start) * (self.img_width as int) + (self.img_width as int) == (y
                    + 1 - row_start) * (self.img_width as int)) by (nonlinear_arith);
            }
            y = y + 1;
        }
        section
    }
}

/// A seeded render is reproducible: two buffers that meet the render
/// contract for the same camera, scene, seed and band are identical.
pub proof fn lemma_render_reproducible(
    cam: Camera,
    objs: Seq<Hittable>,
    seed: u64,
    row_start: int,
    sa: Seq<PixelData>,
    sb: Seq<PixelData>,
    n: int,
)
    requires
        sa.len() == n,
        sb.len() == n,
        forall|k: int| 0 <= k < n ==> sa[k] == pixel_data_s(cam, objs, seed, row_start, k),
        forall|k: int| 0 <= k < n ==> sb[k] == pixel_data_s(cam, objs, seed, row_start, k),
    ensures
        sa == sb,
{
    assert(sa =~= sb);
}

/// How rows are banded across workers cannot change a pixel: two band
/// entries addressing the same pixel coordinates carry the same color,
/// because each row draws from its own seed.
pub proof fn lemma_banding_agrees(
    cam: Camera,
    objs: Seq<Hittable>,
    seed: u64,
    a_start: int,
    ka: int,
    b_start: int,
    kb: int,
)
    requires
        a_start + ka / (cam.img_width as int) == b_start + kb / (cam.img_width as int),
        ka % (cam.img_width as int) == kb % (cam.img_width as int),
    ensures
        pixel_data_s(cam, objs, seed, a_start, ka) == pixel_data_s(cam, objs, seed, b_start, kb),
{
}

} // verus!