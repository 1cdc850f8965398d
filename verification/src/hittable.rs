//! Scene intersection layer.
//!
//! A sphere primitive, a closed `Hittable` enumeration, and an aggregate list
//! searched linearly for the closest hit.  The quadratic solver works on
//! exact 128-bit intermediates and discards any hit whose record would leave
//! the representable range, so a successful query always yields a
//! well-formed record.

use vstd::prelude::*;

use crate::fx::{
    fx_div, fx_mul, isqrt, lemma_abs_mul, lemma_fx_mul_bound, lemma_fx_mul_sq_nonneg,
    lemma_qtrunc_bound, div_trunc, fx_div_e, fx_mul_e, qtrunc, sqrt_floor, FX_ONE,
};
use crate::material::{material_wf, white, Lambertian, Material};
use crate::util::{
    in_bound, ray_wf, v3_dot, v3_in_bound, v3_neg, v3_sub, Ray, Vec3, DIR_LIMIT, POINT_LIMIT,
    UNIT_LIMIT, VEC_LIMIT,
};

verus! {

/// Bound on ray-parameter values and interval ends (2^44).
pub const T_LIMIT: i64 = 0x1000_0000_0000;

/// Bound on sphere centers (2^26, or 1024 units).
pub const CENTER_LIMIT: i64 = 0x400_0000;

/// Bound on sphere radii (2^27, or 2048 units).
pub const RADIUS_LIMIT: i64 = 0x800_0000;

// ----------------------------------------------
// Interval -------------------------------------
// ----------------------------------------------

#[derive(Clone, Copy, Debug, PartialEq, Eq, Structural)]
pub struct Interval {
    pub min: i64,
    pub max: i64,
}

pub open spec fn interval_wf(i: Interval) -> bool {
    in_bound(i.min as int, T_LIMIT as int) && in_bound(i.max as int, T_LIMIT as int)
}

impl Interval {
    pub fn new(min: i64, max: i64) -> (r: Self)
        requires
            in_bound(min as int, T_LIMIT as int),
            in_bound(max as int, T_LIMIT as int),
        ensures
            r == (Interval { min, max }),
    {
        Interval { min, max }
    }

    pub fn size(&self) -> (r: i64)
        requires
            interval_wf(*self),
        ensures
            r == self.max - self.min,
    {
        self.max - self.min
    }

    pub fn contains(&self, value: i64) -> (r: bool)
        ensures
            r == (self.min <= value && value <= self.max),
    {
        self.min <= value && value <= self.max
    }

    pub fn surrounds(&self, value: i64) -> (r: bool)
        ensures
            r == (self.min < value && value < self.max),
    {
        self.min < value && value < self.max
    }

    /// Clamp a value into the interval; meaningless when the interval is
    /// empty, so the caller must pass an ordered one.
    pub fn clamp(&self, value: i64) -> (r: i64)
        requires
            self.min <= self.max,
        ensures
            r == clamp_s(*self, value as int),
    {
        if value < self.min {
            self.min
        } else if value > self.max {
            self.max
        } else {
            value
        }
    }

    /// The empty interval: its lower end sits above its upper end.
    pub fn empty() -> (r: Interval)
        ensures
            r.min == T_LIMIT && r.max == -T_LIMIT,
    {
        Interval { min: T_LIMIT, max: -T_LIMIT }
    }

    /// The interval of every representable parameter.
    pub fn universe() -> (r: Interval)
        ensures
            r.min == -T_LIMIT && r.max == T_LIMIT,
    {
        Interval { min: -T_LIMIT, max: T_LIMIT }
    }
}

pub open spec fn clamp_s(i: Interval, value: int) -> int {
    if value < i.min {
        i.min as int
    } else if value > i.max {
        i.max as int
    } else {
        value
    }
}

// ----------------------------------------------
// Hit record -----------------------------------
// ----------------------------------------------

#[derive(Clone, Copy, Debug)]
pub struct HitRecord {
    pub point: Vec3,
    pub normal: Vec3,
    pub t: i64,
    pub front_face: bool,
    pub material: Material,
}

/// Records produced by a successful intersection stay within the
/// representable scene, carry a nearly unit normal and a valid material.
pub open spec fn rec_wf(r: HitRecord) -> bool {
    v3_in_bound(r.point, POINT_LIMIT as int) && v3_in_bound(r.normal, UNIT_LIMIT as int)
        && in_bound(r.t as int, T_LIMIT as int) && material_wf(r.material)
}

pub open spec fn hr_default() -> HitRecord {
    HitRecord {
        point: Vec3 { x: 0, y: 0, z: 0 },
        normal: Vec3 { x: 0, y: 0, z: 0 },
        t: 0,
        front_face: false,
        material: Material::Lambertian(Lambertian { albedo: white() }),
    }
}

impl HitRecord {
    /// Orient the stored normal against the incoming ray, recording which
    /// face was struck.
    pub fn set_face_normal(&mut self, ray: &Ray, outward_normal: &Vec3)
        requires
            v3_in_bound(ray.direction, VEC_LIMIT as int),
            v3_in_bound(*outward_normal, VEC_LIMIT as int),
        ensures
            final(self).front_face == (v3_dot(ray.direction, *outward_normal) < 0),
            final(self).normal == if v3_dot(ray.direction, *outward_normal) < 0 {
                *outward_normal
            } else {
                v3_neg(*outward_normal)
            },
            final(self).point == old(self).point,
            final(self).t == old(self).t,
            final(self).material == old(self).material,
    {
        self.front_face = Vec3::dot(ray.direction(), outward_normal) < 0;
        self.normal = if self.front_face {
            *outward_normal
        } else {
            outward_normal.neg()
        };
    }

    pub fn new() -> (r: Self)
        ensures
            r == hr_default(),
            rec_wf(r),
    {
        HitRecord {
            point: Vec3::new(0, 0, 0),
            normal: Vec3::new(0, 0, 0),
            t: 0,
            front_face: false,
            material: Material::Lambertian(Lambertian::new(Vec3::new(FX_ONE, FX_ONE, FX_ONE))),
        }
    }
}

// ----------------------------------------------
// Sphere ---------------------------------------
// ----------------------------------------------

#[derive(Clone, Copy, Debug)]
pub struct Sphere {
    pub center: Vec3,
    pub radius: i64,
    pub material: Material,
}

pub open spec fn sphere_wf(s: Sphere) -> bool {
    v3_in_bound(s.center, CENTER_LIMIT as int) && 0 <= s.radius <= RADIUS_LIMIT && material_wf(
        s.material,
    )
}

impl Sphere {
    pub fn new(center: Vec3, radius: i64, material: Material) -> (r: Self)
        requires
            v3_in_bound(center, CENTER_LIMIT as int),
            radius <= RADIUS_LIMIT,
            material_wf(material),
        ensures
            r.center == center,
            r.material == material,
            r.radius == if radius < 0 {
                0
            } else {
                radius
            },
            sphere_wf(r),
    {
        let rad: i64 = if radius < 0 {
            0
        } else {
            radius
        };
        Sphere { center, radius: rad, material }
    }

    pub fn hit(&self, r: &Ray, interval: Interval, rec: &mut HitRecord) -> (hit: bool)
        requires
            sphere_wf(*self),
            ray_wf(*r),
            interval_wf(interval),
        ensures
            match sphere_hit_s(*self, *r, interval.min as int, interval.max as int) {
                Some(h) => hit && *final(rec) == h,
                None => !hit && *final(rec) == *old(rec),
            },
    {
        let oc = self.center.sub(&r.origin);
        let a = Vec3::dot(&r.direction, &r.direction);
        proof {
            lemma_fx_mul_sq_nonneg(r.direction.x as int);
            lemma_fx_mul_sq_nonneg(r.direction.y as int);
            lemma_fx_mul_sq_nonneg(r.direction.z as int);
            crate::util::lemma_v3_dot_bound(r.direction, r.direction, DIR_LIMIT as int, DIR_LIMIT as int);
            crate::util::lemma_v3_dot_bound(r.direction, oc, DIR_LIMIT as int, 0x1400_0000);
            crate::util::lemma_v3_dot_bound(oc, oc, 0x1400_0000, 0x1400_0000);
            lemma_fx_mul_bound(self.radius as int, self.radius as int, RADIUS_LIMIT as int, RADIUS_LIMIT as int);
        }
        let h = Vec3::dot(&r.direction, &oc);
        let c = Vec3::dot(&oc, &oc) - fx_mul_e(self.radius, self.radius);
        if self.radius <= 0 {
            return false;
        }
        if a == 0 {
            return false;
        }
        proof {
            lemma_abs_mul(h as int, h as int, 0x400_0000_0000, 0x400_0000_0000);
            lemma_abs_mul(a as int, c as int, 0x300_0000_0000, 0x800_0000_0000);
        }
        let discriminant: i128 = (h as i128) * (h as i128) - (a as i128) * (c as i128);
        if discriminant < 0 {
            return false;
        }
        let sq128: u128 = isqrt(discriminant as u128);
        proof {
            assert(sq128 <= 0x800_0000_0000u128) by (nonlinear_arith)
                requires
                    (sq128 as int) * (sq128 as int) <= discriminant as int,
                    discriminant as int <= 0x40_0000_0000_0000_0000_0000int,
            {
            }
        }
        let sq: i128 = sq128 as i128;
        let num1: i128 = ((h as i128) - sq) * 65536;
        let root1: i128 = div_trunc(num1, a as i128);
        let tmin: i128 = interval.min as i128;
        let tmax: i128 = interval.max as i128;
        let root: i128 = if tmin < root1 && root1 < tmax {
            root1
        } else {
            let num2: i128 = ((h as i128) + sq) * 65536;
            div_trunc(num2, a as i128)
        };
        if !(tmin < root && root < tmax) {
            return false;
        }
        let root64: i64 = root as i64;
        proof {
            lemma_abs_mul(r.direction.x as int, root as int, DIR_LIMIT as int, T_LIMIT as int);
            lemma_abs_mul(r.direction.y as int, root as int, DIR_LIMIT as int, T_LIMIT as int);
            lemma_abs_mul(r.direction.z as int, root as int, DIR_LIMIT as int, T_LIMIT as int);
            lemma_qtrunc_bound((r.direction.x as int) * (root as int), FX_ONE as int, 0x100_0000_0000_0000_0000);
            lemma_qtrunc_bound((r.direction.y as int) * (root as int), FX_ONE as int, 0x100_0000_0000_0000_0000);
            lemma_qtrunc_bound((r.direction.z as int) * (root as int), FX_ONE as int, 0x100_0000_0000_0000_0000);
        }
        let px: i128 = (r.origin.x as i128) + div_trunc((r.direction.x as i128) * root, 65536);
        let py: i128 = (r.origin.y as i128) + div_trunc((r.direction.y as i128) * root, 65536);
        let pz: i128 = (r.origin.z as i128) + div_trunc((r.direction.z as i128) * root, 65536);
        let pl: i128 = POINT_LIMIT as i128;
        if !(-pl <= px && px <= pl && -pl <= py && py <= pl && -pl <= pz && pz <= pl) {
            return false;
        }
        let point = Vec3::new(px as i64, py as i64, pz as i64);
        let nx: i64 = fx_div_e(point.x - self.center.x, self.radius);
        let ny: i64 = fx_div_e(point.y - self.center.y, self.radius);
        let nz: i64 = fx_div_e(point.z - self.center.z, self.radius);
        if !(-UNIT_LIMIT <= nx && nx <= UNIT_LIMIT && -UNIT_LIMIT <= ny && ny <= UNIT_LIMIT
            && -UNIT_LIMIT <= nz && nz <= UNIT_LIMIT) {
            return false;
        }
        let outward_normal = Vec3::new(nx, ny, nz);
        rec.t = root64;
        rec.point = point;
        rec.material = self.material;
        rec.set_face_normal(r, &outward_normal);
        true
    }
}

/// Mirror of the quadratic hit test: half-angle coefficients, the closer
/// admissible root, and the record built from it.
pub open spec fn sphere_hit_s(s: Sphere, r: Ray, tmin: int, tmax: int) -> Option<HitRecord> {
    let a = v3_dot(r.direction, r.direction);
    let oc = v3_sub(s.center, r.origin);
    let h = v3_dot(r.direction, oc);
    let c = v3_dot(oc, oc) - fx_mul(s.radius as int, s.radius as int);
    let disc = h * h - a * c;
    if s.radius <= 0 || a == 0 || disc < 0 {
        None
    } else {
        let sq = sqrt_floor(disc);
        let root1 = qtrunc((h - sq) * (FX_ONE as int), a);
        let root2 = qtrunc((h + sq) * (FX_ONE as int), a);
        let root = if tmin < root1 && root1 < tmax {
            root1
        } else {
            root2
        };
        if !(tmin < root && root < tmax) {
            None
        } else {
            sphere_record_s(s, r, root)
        }
    }
}

/// The record a root yields, or nothing when a field would leave the
/// representable range.
pub open spec fn sphere_record_s(s: Sphere, r: Ray, root: int) -> Option<HitRecord> {
    let px = r.origin.x + fx_mul(r.direction.x as int, root);
    let py = r.origin.y + fx_mul(r.direction.y as int, root);
    let pz = r.origin.z + fx_mul(r.direction.z as int, root);
    if !(in_bound(px, POINT_LIMIT as int) && in_bound(py, POINT_LIMIT as int) && in_bound(
        pz,
        POINT_LIMIT as int,
    )) {
        None
    } else {
        let point = Vec3 { x: px as i64, y: py as i64, z: pz as i64 };
        let nx = fx_div(px - s.center.x, s.radius as int);
        let ny = fx_div(py - s.center.y, s.radius as int);
        let nz = fx_div(pz - s.center.z, s.radius as int);
        if !(in_bound(nx, UNIT_LIMIT as int) && in_bound(ny, UNIT_LIMIT as int) && in_bound(
            nz,
            UNIT_LIMIT as int,
        )) {
            None
        } else {
            let outward = Vec3 { x: nx as i64, y: ny as i64, z: nz as i64 };
            let ff = v3_dot(r.direction, outward) < 0;
            Some(
                HitRecord {
                    point,
                    normal: if ff {
                        outward
                    } else {
                        v3_neg(outward)
                    },
                    t: root as i64,
                    front_face: ff,
                    material: s.material,
                },
            )
        }
    }
}

/// A successful sphere query yields a well-formed record whose parameter lies
/// strictly inside the interval.
pub proof fn lemma_sphere_hit_wf(s: Sphere, r: Ray, tmin: int, tmax: int)
    requires
        sphere_wf(s),
        -T_LIMIT <= tmin,
        tmax <= T_LIMIT,
    ensures
        match sphere_hit_s(s, r, tmin, tmax) {
            Some(h) => rec_wf(h) && tmin < h.t < tmax,
            None => true,
        },
{
}

// ----------------------------------------------
// Hittable objects -----------------------------
// ----------------------------------------------

#[derive(Clone, Copy, Debug)]
pub enum Hittable {
    Sphere(Sphere),
}

pub open spec fn hittable_wf(h: Hittable) -> bool {
    match h {
        Hittable::Sphere(s) => sphere_wf(s),
    }
}

pub open spec fn hittable_hit_s(h: Hittable, r: Ray, tmin: int, tmax: int) -> Option<HitRecord> {
    match h {
        Hittable::Sphere(s) => sphere_hit_s(s, r, tmin, tmax),
    }
}

impl Hittable {
    pub fn hit(&self, r: &Ray, interval: Interval, rec: &mut HitRecord) -> (hit: bool)
        requires
            hittable_wf(*self),
            ray_wf(*r),
            interval_wf(interval),
        ensures
            match hittable_hit_s(*self, *r, interval.min as int, interval.max as int) {
                Some(h) => hit && *final(rec) == h,
                None => !hit && *final(rec) == *old(rec),
            },
    {
        match self {
            Hittable::Sphere(s) => s.hit(r, interval, rec),
        }
    }
}

// ----------------------------------------------
// Hittable list --------------------------------
// ----------------------------------------------

pub struct HittableList {
    pub objects: Vec<Hittable>,
}

pub open spec fn list_wf(l: HittableList) -> bool {
    forall|i: int| 0 <= i < l.objects@.len() ==> hittable_wf(#[trigger] l.objects@[i])
}

/// The scan's remainder: the best hit among objects from index `i` on, given
/// that anything at parameter `bound` or beyond is already beaten.
pub open spec fn list_hit_after(
    objs: Seq<Hittable>,
    r: Ray,
    tmin: int,
    bound: int,
    i: int,
) -> Option<HitRecord>
    decreases objs.len() - i,
{
    if i < 0 || i >= objs.len() {
        None
    } else {
        match hittable_hit_s(objs[i], r, tmin, bound) {
            Some(h) => match list_hit_after(objs, r, tmin, h.t as int, i + 1) {
                Some(h2) => Some(h2),
                None => Some(h),
            },
            None => list_hit_after(objs, r, tmin, bound, i + 1),
        }
    }
}

/// Closest hit over the whole list.
pub open spec fn list_hit_s(objs: Seq<Hittable>, r: Ray, tmin: int, tmax: int) -> Option<
    HitRecord,
> {
    list_hit_after(objs, r, tmin, tmax, 0)
}

impl HittableList {
    pub fn new() -> (r: Self)
        ensures
            r.objects@ == Seq::<Hittable>::empty(),
    {
        HittableList { objects: Vec::new() }
    }

    pub fn add(&mut self, object: Hittable)
        requires
            hittable_wf(object),
        ensures
            final(self).objects@ == old(self).objects@.push(object),
    {
        self.objects.push(object);
    }

    /// Closest-hit linear scan: the search interval's upper bound shrinks to
    /// the best parameter found so far, so only strictly closer hits replace
    /// the record.
    pub fn hit(&self, r: &Ray, interval: Interval, rec: &mut HitRecord) -> (hit: bool)
        requires
            list_wf(*self),
            ray_wf(*r),
            interval_wf(interval),
        ensures
            match list_hit_s(self.objects@, *r, interval.min as int, interval.max as int) {
                Some(h) => hit && *final(rec) == h,
                None => !hit && *final(rec) == *old(rec),
            },
    {
        let ghost objs = self.objects@;
        let ghost tmin = interval.min as int;
        let ghost tmax = interval.max as int;
        let mut temp_rec = HitRecord::new();
        let mut hit_anything = false;
        let mut closest_so_far: i64 = interval.max;
        let mut idx: usize = 0;
        let n: usize = self.objects.len();
        while idx < n
            invariant
                n == objs.len(),
                0 <= idx <= n,
                objs == self.objects@,
                list_wf(*self),
                ray_wf(*r),
                interval_wf(interval),
                tmin == interval.min as int,
                tmax == interval.max as int,
                in_bound(closest_so_far as int, T_LIMIT as int),
                !hit_anything ==> closest_so_far == interval.max && *rec == *old(rec),
                list_hit_s(objs, *r, tmin, tmax) == (match list_hit_after(
                    objs,
                    *r,
                    tmin,
                    closest_so_far as int,
                    idx as int,
                ) {
                    Some(h) => Some(h),
                    None => if hit_anything {
                        Some(*rec)
                    } else {
                        None
                    },
                }),
            decreases n - idx,
        {
            let object = &self.objects[idx];
            let sub = Interval::new(interval.min, closest_so_far);
            let got = object.hit(r, sub, &mut temp_rec);
            if got {
                proof {
                    lemma_hittable_hit_wf(objs[idx as int], *r, tmin, closest_so_far as int);
                }
                hit_anything = true;
                closest_so_far = temp_rec.t;
                *rec = temp_rec;
            }
            idx = idx + 1;
        }
        hit_anything
    }
}

/// A successful query on any hittable yields a well-formed record inside the
/// interval.
pub proof fn lemma_hittable_hit_wf(o: Hittable, r: Ray, tmin: int, tmax: int)
    requires
        hittable_wf(o),
        -T_LIMIT <= tmin,
        tmax <= T_LIMIT,
    ensures
        match hittable_hit_s(o, r, tmin, tmax) {
            Some(h) => rec_wf(h) && tmin < h.t < tmax,
            None => true,
        },
{
    match o {
        Hittable::Sphere(s) => lemma_sphere_hit_wf(s, r, tmin, tmax),
    }
}

/// A ray whose origin lies outside a sphere and whose direction points away
/// from it never hits: "outside" is a positive centered quadratic constant
/// term, "away" a nonpositive half-angle coefficient.
pub proof fn lemma_sphere_missed_when_pointing_away(s: Sphere, r: Ray, tmin: int, tmax: int)
    requires
        tmin >= 0,
        v3_dot(r.direction, v3_sub(s.center, r.origin)) <= 0,
        v3_dot(v3_sub(s.center, r.origin), v3_sub(s.center, r.origin)) - fx_mul(
            s.radius as int,
            s.radius as int,
        ) > 0,
    ensures
        sphere_hit_s(s, r, tmin, tmax) is None,
{
    let a = v3_dot(r.direction, r.direction);
    let oc = v3_sub(s.center, r.origin);
    let h = v3_dot(r.direction, oc);
    let c = v3_dot(oc, oc) - fx_mul(s.radius as int, s.radius as int);
    let disc = h * h - a * c;
    if !(s.radius <= 0 || a == 0 || disc < 0) {
        lemma_fx_mul_sq_nonneg(r.direction.x as int);
        lemma_fx_mul_sq_nonneg(r.direction.y as int);
        lemma_fx_mul_sq_nonneg(r.direction.z as int);
        let sq = sqrt_floor(disc);
        crate::fx::lemma_sqrt_floor_bracket(disc);
        assert(sq <= -h) by (nonlinear_arith)
            requires
                sq >= 0,
                h <= 0,
                sq * sq <= h * h - a * c,
                a > 0,
                c > 0,
        {
        }
        crate::fx::lemma_qtrunc_nonpos((h - sq) * (FX_ONE as int), a);
        crate::fx::lemma_qtrunc_nonpos((h + sq) * (FX_ONE as int), a);
    }
}

/// Shrinking the upper bound of the search interval keeps a hit that is
/// strictly closer than the new bound and discards everything else.
pub proof fn lemma_sphere_shrink(s: Sphere, r: Ray, tmin: int, b1: int, b2: int)
    requires
        b2 <= b1,
        -T_LIMIT <= tmin,
        b1 <= T_LIMIT,
    ensures
        match sphere_hit_s(s, r, tmin, b1) {
            Some(h) => if h.t < b2 {
                sphere_hit_s(s, r, tmin, b2) == Some(h)
            } else {
                sphere_hit_s(s, r, tmin, b2) is None
            },
            None => sphere_hit_s(s, r, tmin, b2) is None,
        },
{
    let a = v3_dot(r.direction, r.direction);
    let oc = v3_sub(s.center, r.origin);
    let h = v3_dot(r.direction, oc);
    let c = v3_dot(oc, oc) - fx_mul(s.radius as int, s.radius as int);
    let disc = h * h - a * c;
    if !(s.radius <= 0 || a == 0 || disc < 0) {
        lemma_fx_mul_sq_nonneg(r.direction.x as int);
        lemma_fx_mul_sq_nonneg(r.direction.y as int);
        lemma_fx_mul_sq_nonneg(r.direction.z as int);
        let sq = sqrt_floor(disc);
        crate::fx::lemma_sqrt_floor_bracket(disc);
        crate::fx::lemma_qtrunc_mono((h - sq) * (FX_ONE as int), (h + sq) * (FX_ONE as int), a);
    }
}

/// The same shrink property, for any hittable object.
pub proof fn lemma_hittable_shrink(o: Hittable, r: Ray, tmin: int, b1: int, b2: int)
    requires
        b2 <= b1,
        -T_LIMIT <= tmin,
        b1 <= T_LIMIT,
    ensures
        match hittable_hit_s(o, r, tmin, b1) {
            Some(h) => if h.t < b2 {
                hittable_hit_s(o, r, tmin, b2) == Some(h)
            } else {
                hittable_hit_s(o, r, tmin, b2) is None
            },
            None => hittable_hit_s(o, r, tmin, b2) is None,
        },
{
    match o {
        Hittable::Sphere(s) => lemma_sphere_shrink(s, r, tmin, b1, b2),
    }
}

/// The scan from index `i` finds a hit at most as far as any hit that any
/// object at or after `i` reports over the same interval.
pub proof fn lemma_list_closest(
    objs: Seq<Hittable>,
    r: Ray,
    tmin: int,
    bound: int,
    i: int,
    k: int,
)
    requires
        forall|q: int| 0 <= q < objs.len() ==> hittable_wf(#[trigger] objs[q]),
        -T_LIMIT <= tmin,
        bound <= T_LIMIT,
        0 <= i <= k < objs.len(),
        hittable_hit_s(objs[k], r, tmin, bound) is Some,
    ensures
        list_hit_after(objs, r, tmin, bound, i) is Some,
        list_hit_after(objs, r, tmin, bound, i)->Some_0.t <= hittable_hit_s(
            objs[k],
            r,
            tmin,
            bound,
        )->Some_0.t,
    decreases k - i,
{
    let hk = hittable_hit_s(objs[k], r, tmin, bound)->Some_0;
    lemma_hittable_hit_wf(objs[k], r, tmin, bound);
    if i == k {
        lemma_list_hit_wf(objs, r, tmin, hk.t as int, i + 1);
    } else {
        match hittable_hit_s(objs[i], r, tmin, bound) {
            None => {
                lemma_list_closest(objs, r, tmin, bound, i + 1, k);
            },
            Some(hi) => {
                lemma_hittable_hit_wf(objs[i], r, tmin, bound);
                if hk.t < hi.t {
                    lemma_hittable_shrink(objs[k], r, tmin, bound, hi.t as int);
                    lemma_list_closest(objs, r, tmin, hi.t as int, i + 1, k);
                } else {
                    lemma_list_hit_wf(objs, r, tmin, hi.t as int, i + 1);
                }
            },
        }
    }
}

/// Closest-hit invariant: when two objects both report hits in the interval,
/// the scan's result is no farther than either of them.
pub proof fn lemma_closest_hit_wins(
    objs: Seq<Hittable>,
    r: Ray,
    tmin: int,
    tmax: int,
    i: int,
    j: int,
)
    requires
        forall|q: int| 0 <= q < objs.len() ==> hittable_wf(#[trigger] objs[q]),
        -T_LIMIT <= tmin,
        tmax <= T_LIMIT,
        0 <= i < objs.len(),
        0 <= j < objs.len(),
        hittable_hit_s(objs[i], r, tmin, tmax) is Some,
        hittable_hit_s(objs[j], r, tmin, tmax) is Some,
    ensures
        list_hit_s(objs, r, tmin, tmax) is Some,
        list_hit_s(objs, r, tmin, tmax)->Some_0.t <= hittable_hit_s(
            objs[i],
            r,
            tmin,
            tmax,
        )->Some_0.t,
        list_hit_s(objs, r, tmin, tmax)->Some_0.t <= hittable_hit_s(
            objs[j],
            r,
            tmin,
            tmax,
        )->Some_0.t,
{
    lemma_list_closest(objs, r, tmin, tmax, 0, i);
    lemma_list_closest(objs, r, tmin, tmax, 0, j);
}

/// Appending one object to the scene changes the scan's result only through
/// that object's own hit against the found parameter.
pub proof fn lemma_list_append(
    objs: Seq<Hittable>,
    r: Ray,
    tmin: int,
    bound: int,
    i: int,
    s: Hittable,
)
    requires
        0 <= i <= objs.len(),
    ensures
        list_hit_after(objs.push(s), r, tmin, bound, i) == (match list_hit_after(
            objs,
            r,
            tmin,
            bound,
            i,
        ) {
            Some(h) => match hittable_hit_s(s, r, tmin, h.t as int) {
                Some(h2) => Some(h2),
                None => Some(h),
            },
            None => hittable_hit_s(s, r, tmin, bound),
        }),
    decreases objs.len() - i,
{
    assert(objs.push(s).len() == objs.len() + 1);
    if i == objs.len() {
        assert(objs.push(s)[i] == s);
        assert(list_hit_after(objs.push(s), r, tmin, bound, i + 1) is None);
        match hittable_hit_s(s, r, tmin, bound) {
            Some(h2) => {
                assert(list_hit_after(objs.push(s), r, tmin, h2.t as int, i + 1) is None);
            },
            None => {},
        }
    } else {
        assert(objs.push(s)[i] == objs[i]);
        match hittable_hit_s(objs[i], r, tmin, bound) {
            Some(h) => {
                lemma_list_append(objs, r, tmin, h.t as int, i + 1, s);
            },
            None => {
                lemma_list_append(objs, r, tmin, bound, i + 1, s);
            },
        }
    }
}

/// Adding a farther object to a list never changes the result of a hit test
/// that already found a closer hit.
pub proof fn lemma_farther_object_no_change(
    objs: Seq<Hittable>,
    r: Ray,
    tmin: int,
    tmax: int,
    s: Hittable,
)
    requires
        list_hit_s(objs, r, tmin, tmax) is Some,
        hittable_hit_s(s, r, tmin, list_hit_s(objs, r, tmin, tmax)->Some_0.t as int) is None,
    ensures
        list_hit_s(objs.push(s), r, tmin, tmax) == list_hit_s(objs, r, tmin, tmax),
{
    lemma_list_append(objs, r, tmin, tmax, 0, s);
}

/// A successful list query yields a well-formed record inside the interval.
pub proof fn lemma_list_hit_wf(objs: Seq<Hittable>, r: Ray, tmin: int, bound: int, i: int)
    requires
        forall|k: int| 0 <= k < objs.len() ==> hittable_wf(#[trigger] objs[k]),
        -T_LIMIT <= tmin,
        bound <= T_LIMIT,
    ensures
        match list_hit_after(objs, r, tmin, bound, i) {
            Some(h) => rec_wf(h) && tmin < h.t < bound,
            None => true,
        },
    decreases objs.len() - i,
{
    if 0 <= i < objs.len() {
        lemma_hittable_hit_wf(objs[i], r, tmin, bound);
        match hittable_hit_s(objs[i], r, tmin, bound) {
            Some(h) => {
                lemma_list_hit_wf(objs, r, tmin, h.t as int, i + 1);
            },
            None => {
                lemma_list_hit_wf(objs, r, tmin, bound, i + 1);
            },
        }
    }
}

} // verus!
