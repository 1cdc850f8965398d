//! Three-component vector algebra and the parametric ray type.
//!
//! A `Vec3` serves interchangeably as point, direction and RGB color; every
//! component is a fixed-point scalar (see `fx`).  Each executable operation
//! has a spec mirror (`v3_add`, `v3_dot`, ...) so that contracts elsewhere in
//! the crate can state results exactly.

use vstd::prelude::*;

use crate::fx::{
    abs_i, fx_div, fx_mul, fx_sqrt, lemma_abs_mul, lemma_fx_mul_bound, lemma_fx_mul_sq_nonneg,
    lemma_qtrunc_bound, fx_div_e, fx_mul_e, fx_sqrt_e, qtrunc, FX_ONE,
};

verus! {

/// Largest component magnitude the vector operations accept (2^38).
pub const VEC_LIMIT: i64 = 0x40_0000_0000;

/// Component bound for ray origins and hit points (2^28, or 4096 units).
pub const POINT_LIMIT: i64 = 0x1000_0000;

/// Component bound for ray directions (2^28).
pub const DIR_LIMIT: i64 = 0x1000_0000;

/// Component bound for surface normals and unit vectors (two units).
pub const UNIT_LIMIT: i64 = 131072;

/// Threshold below which a vector counts as degenerate (2^-10 units).
pub const NEAR_ZERO_EPS: i64 = 64;

/// A scalar lies within `[-b, b]`.
pub open spec fn in_bound(c: int, b: int) -> bool {
    -b <= c <= b
}

#[derive(Clone, Copy, Debug, PartialEq, Eq, Structural)]
pub struct Vec3 {
    pub x: i64,
    pub y: i64,
    pub z: i64,
}

/// All three components lie within `[-b, b]`.
pub open spec fn v3_in_bound(v: Vec3, b: int) -> bool {
    in_bound(v.x as int, b) && in_bound(v.y as int, b) && in_bound(v.z as int, b)
}

pub open spec fn v3_add(u: Vec3, v: Vec3) -> Vec3 {
    Vec3 { x: (u.x + v.x) as i64, y: (u.y + v.y) as i64, z: (u.z + v.z) as i64 }
}

pub open spec fn v3_sub(u: Vec3, v: Vec3) -> Vec3 {
    Vec3 { x: (u.x - v.x) as i64, y: (u.y - v.y) as i64, z: (u.z - v.z) as i64 }
}

pub open spec fn v3_neg(v: Vec3) -> Vec3 {
    Vec3 { x: (-v.x) as i64, y: (-v.y) as i64, z: (-v.z) as i64 }
}

/// Scale every component by the fixed-point factor `k`.
pub open spec fn v3_scale(v: Vec3, k: int) -> Vec3 {
    Vec3 {
        x: fx_mul(v.x as int, k) as i64,
        y: fx_mul(v.y as int, k) as i64,
        z: fx_mul(v.z as int, k) as i64,
    }
}

/// Component-wise product of two vectors (used for color attenuation).
pub open spec fn v3_mul(u: Vec3, v: Vec3) -> Vec3 {
    Vec3 {
        x: fx_mul(u.x as int, v.x as int) as i64,
        y: fx_mul(u.y as int, v.y as int) as i64,
        z: fx_mul(u.z as int, v.z as int) as i64,
    }
}

/// Divide every component by the fixed-point scalar `k`.
pub open spec fn v3_div(v: Vec3, k: int) -> Vec3 {
    Vec3 {
        x: fx_div(v.x as int, k) as i64,
        y: fx_div(v.y as int, k) as i64,
        z: fx_div(v.z as int, k) as i64,
    }
}

/// Dot product as an unbounded integer (the executable result always fits).
pub open spec fn v3_dot(u: Vec3, v: Vec3) -> int {
    fx_mul(u.x as int, v.x as int) + fx_mul(u.y as int, v.y as int) + fx_mul(
        u.z as int,
        v.z as int,
    )
}

pub open spec fn v3_cross(u: Vec3, v: Vec3) -> Vec3 {
    Vec3 {
        x: (fx_mul(u.y as int, v.z as int) - fx_mul(u.z as int, v.y as int)) as i64,
        y: (fx_mul(u.z as int, v.x as int) - fx_mul(u.x as int, v.z as int)) as i64,
        z: (fx_mul(u.x as int, v.y as int) - fx_mul(u.y as int, v.x as int)) as i64,
    }
}

pub open spec fn v3_len(v: Vec3) -> int {
    fx_sqrt(v3_dot(v, v))
}

pub open spec fn v3_unit(v: Vec3) -> Vec3 {
    v3_div(v, v3_len(v))
}

pub open spec fn v3_near_zero(v: Vec3) -> bool {
    abs_i(v.x as int) < NEAR_ZERO_EPS && abs_i(v.y as int) < NEAR_ZERO_EPS && abs_i(
        v.z as int,
    ) < NEAR_ZERO_EPS
}

/// `v - 2 (v . n) n`, mirror reflection about the normal `n`.
pub open spec fn v3_reflect(v: Vec3, n: Vec3) -> Vec3 {
    v3_sub(v, v3_scale(v3_scale(n, v3_dot(v, n)), 2 * FX_ONE))
}

/// Snell refraction of the unit vector `uv` about `n` with index ratio
/// `ri`; the caller must already have ruled out total internal reflection.
pub open spec fn v3_refract(uv: Vec3, n: Vec3, ri: int) -> Vec3 {
    let cos_theta = min_i(v3_dot(v3_scale(uv, -FX_ONE as int), n), FX_ONE as int);
    let r_out_prep = v3_scale(v3_add(uv, v3_scale(n, cos_theta)), ri);
    let r_out_parallel = v3_scale(
        n,
        fx_sqrt(abs_i(FX_ONE - v3_dot(r_out_prep, r_out_prep))),
    );
    v3_add(r_out_prep, r_out_parallel)
}

pub open spec fn min_i(a: int, b: int) -> int {
    if a <= b {
        a
    } else {
        b
    }
}

impl Vec3 {
    pub fn new(x: i64, y: i64, z: i64) -> (r: Vec3)
        ensures
            r == (Vec3 { x, y, z }),
    {
        Vec3 { x, y, z }
    }

    pub fn add(&self, other: &Vec3) -> (r: Vec3)
        requires
            v3_in_bound(*self, 0x2000_0000_0000_0000),
            v3_in_bound(*other, 0x2000_0000_0000_0000),
        ensures
            r == v3_add(*self, *other),
    {
        Vec3 { x: self.x + other.x, y: self.y + other.y, z: self.z + other.z }
    }

    pub fn sub(&self, other: &Vec3) -> (r: Vec3)
        requires
            v3_in_bound(*self, 0x2000_0000_0000_0000),
            v3_in_bound(*other, 0x2000_0000_0000_0000),
        ensures
            r == v3_sub(*self, *other),
    {
        Vec3 { x: self.x - other.x, y: self.y - other.y, z: self.z - other.z }
    }

    pub fn neg(&self) -> (r: Vec3)
        requires
            v3_in_bound(*self, 0x2000_0000_0000_0000),
        ensures
            r == v3_neg(*self),
    {
        Vec3 { x: -self.x, y: -self.y, z: -self.z }
    }

    /// Scale by a fixed-point factor (`v * k` on scalars).
    pub fn scale(&self, k: i64) -> (r: Vec3)
        requires
            v3_in_bound(*self, VEC_LIMIT as int),
            in_bound(k as int, VEC_LIMIT as int),
        ensures
            r == v3_scale(*self, k as int),
            v3_in_bound(r, abs_i(k as int) * 0x40_0000),
    {
        proof {
            lemma_fx_mul_bound(self.x as int, k as int, VEC_LIMIT as int, abs_i(k as int));
            lemma_fx_mul_bound(self.y as int, k as int, VEC_LIMIT as int, abs_i(k as int));
            lemma_fx_mul_bound(self.z as int, k as int, VEC_LIMIT as int, abs_i(k as int));
        }
        Vec3 { x: fx_mul_e(self.x, k), y: fx_mul_e(self.y, k), z: fx_mul_e(self.z, k) }
    }

    /// Component-wise product (`v * w`).
    pub fn mul(&self, other: &Vec3) -> (r: Vec3)
        requires
            v3_in_bound(*self, VEC_LIMIT as int),
            v3_in_bound(*other, VEC_LIMIT as int),
        ensures
            r == v3_mul(*self, *other),
    {
        proof {
            lemma_fx_mul_bound(self.x as int, other.x as int, VEC_LIMIT as int, VEC_LIMIT as int);
            lemma_fx_mul_bound(self.y as int, other.y as int, VEC_LIMIT as int, VEC_LIMIT as int);
            lemma_fx_mul_bound(self.z as int, other.z as int, VEC_LIMIT as int, VEC_LIMIT as int);
        }
        Vec3 {
            x: fx_mul_e(self.x, other.x),
            y: fx_mul_e(self.y, other.y),
            z: fx_mul_e(self.z, other.z),
        }
    }

    /// Divide every component by the fixed-point scalar `k` (`v / k`).
    pub fn div(&self, k: i64) -> (r: Vec3)
        requires
            v3_in_bound(*self, 0x4000_0000_0000),
            k != 0,
        ensures
            r == v3_div(*self, k as int),
            abs_i(r.x as int) <= abs_i(self.x as int) * FX_ONE,
            abs_i(r.y as int) <= abs_i(self.y as int) * FX_ONE,
            abs_i(r.z as int) <= abs_i(self.z as int) * FX_ONE,
    {
        Vec3 { x: fx_div_e(self.x, k), y: fx_div_e(self.y, k), z: fx_div_e(self.z, k) }
    }

    pub fn dot(u: &Vec3, v: &Vec3) -> (r: i64)
        requires
            v3_in_bound(*u, VEC_LIMIT as int),
            v3_in_bound(*v, VEC_LIMIT as int),
        ensures
            r == v3_dot(*u, *v),
            abs_i(r as int) <= 0x3000_0000_0000_0000,
    {
        proof {
            lemma_fx_mul_bound(u.x as int, v.x as int, VEC_LIMIT as int, VEC_LIMIT as int);
            lemma_fx_mul_bound(u.y as int, v.y as int, VEC_LIMIT as int, VEC_LIMIT as int);
            lemma_fx_mul_bound(u.z as int, v.z as int, VEC_LIMIT as int, VEC_LIMIT as int);
        }
        fx_mul_e(u.x, v.x) + fx_mul_e(u.y, v.y) + fx_mul_e(u.z, v.z)
    }

    pub fn cross(u: &Vec3, v: &Vec3) -> (r: Vec3)
        requires
            v3_in_bound(*u, VEC_LIMIT as int),
            v3_in_bound(*v, VEC_LIMIT as int),
        ensures
            r == v3_cross(*u, *v),
            v3_in_bound(r, 0x2000_0000_0000_0000),
    {
        proof {
            lemma_fx_mul_bound(u.y as int, v.z as int, VEC_LIMIT as int, VEC_LIMIT as int);
            lemma_fx_mul_bound(u.z as int, v.y as int, VEC_LIMIT as int, VEC_LIMIT as int);
            lemma_fx_mul_bound(u.z as int, v.x as int, VEC_LIMIT as int, VEC_LIMIT as int);
            lemma_fx_mul_bound(u.x as int, v.z as int, VEC_LIMIT as int, VEC_LIMIT as int);
            lemma_fx_mul_bound(u.x as int, v.y as int, VEC_LIMIT as int, VEC_LIMIT as int);
            lemma_fx_mul_bound(u.y as int, v.x as int, VEC_LIMIT as int, VEC_LIMIT as int);
        }
        Vec3 {
            x: fx_mul_e(u.y, v.z) - fx_mul_e(u.z, v.y),
            y: fx_mul_e(u.z, v.x) - fx_mul_e(u.x, v.z),
            z: fx_mul_e(u.x, v.y) - fx_mul_e(u.y, v.x),
        }
    }

    pub fn length_squared(&self) -> (r: i64)
        requires
            v3_in_bound(*self, VEC_LIMIT as int),
        ensures
            r == v3_dot(*self, *self),
            0 <= r <= 0x3000_0000_0000_0000,
    {
        proof {
            lemma_fx_mul_sq_nonneg(self.x as int);
            lemma_fx_mul_sq_nonneg(self.y as int);
            lemma_fx_mul_sq_nonneg(self.z as int);
        }
        Vec3::dot(self, self)
    }

    pub fn length(&self) -> (r: i64)
        requires
            v3_in_bound(*self, VEC_LIMIT as int),
        ensures
            r == v3_len(*self),
            0 <= r,
    {
        let ls = self.length_squared();
        fx_sqrt_e(ls)
    }

    /// Normalize; the caller must guarantee a measurable length, as dividing a
    /// degenerate vector is meaningless in fixed-point form.
    pub fn unit_vector(&self) -> (r: Vec3)
        requires
            v3_in_bound(*self, VEC_LIMIT as int),
            v3_dot(*self, *self) >= 1,
        ensures
            r == v3_unit(*self),
            v3_in_bound(r, UNIT_LIMIT as int),
    {
        let ls = self.length_squared();
        let len = fx_sqrt_e(ls);
        proof {
            lemma_fx_mul_sq_nonneg(self.x as int);
            lemma_fx_mul_sq_nonneg(self.y as int);
            lemma_fx_mul_sq_nonneg(self.z as int);
            lemma_len_lower(ls as int, len as int);
            lemma_unit_comp(self.x as int, ls as int, len as int);
            lemma_unit_comp(self.y as int, ls as int, len as int);
            lemma_unit_comp(self.z as int, ls as int, len as int);
        }
        Vec3 { x: fx_div_e(self.x, len), y: fx_div_e(self.y, len), z: fx_div_e(self.z, len) }
    }

    pub fn near_zero(&self) -> (r: bool)
        ensures
            r == v3_near_zero(*self),
    {
        let s: i64 = NEAR_ZERO_EPS;
        (-s < self.x && self.x < s) && (-s < self.y && self.y < s) && (-s < self.z && self.z < s)
    }

    pub fn reflect(v: &Vec3, n: &Vec3) -> (r: Vec3)
        requires
            v3_in_bound(*v, DIR_LIMIT as int),
            v3_in_bound(*n, UNIT_LIMIT as int),
        ensures
            r == v3_reflect(*v, *n),
            v3_in_bound(r, 0x8_0000_0000),
    {
        let d = Vec3::dot(v, n);
        proof {
            lemma_v3_dot_bound(*v, *n, DIR_LIMIT as int, UNIT_LIMIT as int);
        }
        let nd = n.scale(d);
        proof {
            lemma_fx_mul_bound(n.x as int, d as int, UNIT_LIMIT as int, 0x6000_0000);
            lemma_fx_mul_bound(n.y as int, d as int, UNIT_LIMIT as int, 0x6000_0000);
            lemma_fx_mul_bound(n.z as int, d as int, UNIT_LIMIT as int, 0x6000_0000);
        }
        let nd2 = nd.scale(2 * FX_ONE);
        proof {
            lemma_fx_mul_bound(nd.x as int, 2 * FX_ONE as int, 0xC000_0000, 0x2_0000);
            lemma_fx_mul_bound(nd.y as int, 2 * FX_ONE as int, 0xC000_0000, 0x2_0000);
            lemma_fx_mul_bound(nd.z as int, 2 * FX_ONE as int, 0xC000_0000, 0x2_0000);
        }
        v.sub(&nd2)
    }

    /// Snell refraction; callers must already have excluded total internal
    /// reflection, exactly as the scattering model does.
    pub fn refract(uv: &Vec3, n: &Vec3, ri: i64) -> (r: Vec3)
        requires
            v3_in_bound(*uv, UNIT_LIMIT as int),
            v3_in_bound(*n, UNIT_LIMIT as int),
            0 < ri <= 0x100_0000,
        ensures
            r == v3_refract(*uv, *n, ri as int),
            v3_in_bound(r, 0x4_0000_0000),
    {
        let neg_uv = uv.scale(-FX_ONE);
        proof {
            lemma_fx_mul_bound(uv.x as int, -FX_ONE as int, UNIT_LIMIT as int, FX_ONE as int);
            lemma_fx_mul_bound(uv.y as int, -FX_ONE as int, UNIT_LIMIT as int, FX_ONE as int);
            lemma_fx_mul_bound(uv.z as int, -FX_ONE as int, UNIT_LIMIT as int, FX_ONE as int);
        }
        let cos0 = Vec3::dot(&neg_uv, n);
        proof {
            lemma_v3_dot_bound(neg_uv, *n, UNIT_LIMIT as int, UNIT_LIMIT as int);
        }
        let cos_theta: i64 = if cos0 <= FX_ONE {
            cos0
        } else {
            FX_ONE
        };
        let n_cos = n.scale(cos_theta);
        proof {
            lemma_fx_mul_bound(n.x as int, cos_theta as int, UNIT_LIMIT as int, 0xC_0000);
            lemma_fx_mul_bound(n.y as int, cos_theta as int, UNIT_LIMIT as int, 0xC_0000);
            lemma_fx_mul_bound(n.z as int, cos_theta as int, UNIT_LIMIT as int, 0xC_0000);
        }
        let prep0 = uv.add(&n_cos);
        let r_out_prep = prep0.scale(ri);
        proof {
            lemma_fx_mul_bound(prep0.x as int, ri as int, 0x1A_0000, 0x100_0000);
            lemma_fx_mul_bound(prep0.y as int, ri as int, 0x1A_0000, 0x100_0000);
            lemma_fx_mul_bound(prep0.z as int, ri as int, 0x1A_0000, 0x100_0000);
        }
        let pls = r_out_prep.length_squared();
        proof {
            lemma_v3_dot_bound(r_out_prep, r_out_prep, 0x1A00_0000, 0x1A00_0000);
        }
        let gap: i64 = if FX_ONE - pls >= 0 {
            FX_ONE - pls
        } else {
            -(FX_ONE - pls)
        };
        let par_len = fx_sqrt_e(gap);
        proof {
            assert(par_len <= 0x8000_0000) by (nonlinear_arith)
                requires
                    0 <= par_len,
                    par_len * par_len <= gap * 65536,
                    gap <= 0x2000_0000_0000,
            {
            }
        }
        let r_out_parallel = n.scale(par_len);
        proof {
            lemma_fx_mul_bound(n.x as int, par_len as int, UNIT_LIMIT as int, 0x8000_0000);
            lemma_fx_mul_bound(n.y as int, par_len as int, UNIT_LIMIT as int, 0x8000_0000);
            lemma_fx_mul_bound(n.z as int, par_len as int, UNIT_LIMIT as int, 0x8000_0000);
        }
        r_out_prep.add(&r_out_parallel)
    }
}

/// A unit-scale squared length forces a length of at least 2^-8 units.
proof fn lemma_len_lower(ls: int, len: int)
    requires
        ls >= 1,
        len >= 0,
        len * len <= ls * FX_ONE,
        ls * FX_ONE < (len + 1) * (len + 1),
    ensures
        len >= 256,
{
    assert(len >= 256) by (nonlinear_arith)
        requires
            ls >= 1,
            len >= 0,
            ls * 65536 < (len + 1) * (len + 1),
    {
    }
}

/// Each component of a normalized vector stays within two units.
proof fn lemma_unit_comp(c: int, ls: int, len: int)
    requires
        ls >= 1,
        len >= 256,
        fx_mul(c, c) <= ls,
        fx_mul(c, c) >= 0,
        ls * FX_ONE < (len + 1) * (len + 1),
        in_bound(c, VEC_LIMIT as int),
    ensures
        abs_i(fx_div(c, len)) <= UNIT_LIMIT as int,
{
    let cc = abs_i(c);
    assert(cc * cc == c * c) by (nonlinear_arith)
        requires
            cc == c || cc == -c,
    {
    }
    vstd::arithmetic::div_mod::lemma_fundamental_div_mod(c * c, FX_ONE as int);
    assert(c * c < (ls + 1) * FX_ONE) by {
        assert(qtrunc(c * c, FX_ONE as int) == (c * c) / (FX_ONE as int));
        assert((c * c) % (FX_ONE as int) < FX_ONE);
    }
    assert(cc <= 2 * len) by (nonlinear_arith)
        requires
            cc >= 0,
            len >= 256,
            ls >= 1,
            cc * cc < (ls + 1) * 65536,
            ls * 65536 < (len + 1) * (len + 1),
    {
    }
    lemma_abs_mul(c, FX_ONE as int, abs_i(c), FX_ONE as int);
    assert(abs_i(c * FX_ONE) <= 2 * len * FX_ONE) by (nonlinear_arith)
        requires
            abs_i(c) <= 2 * len,
            abs_i(c * FX_ONE) == abs_i(c) * 65536,
            FX_ONE == 65536,
    {
    }
    lemma_qtrunc_bound(c * FX_ONE, len, 2 * len * FX_ONE);
    assert((2 * len * FX_ONE) / len == 2 * FX_ONE) by {
        vstd::arithmetic::div_mod::lemma_div_multiples_vanish(2 * FX_ONE as int, len);
        assert(len * (2 * FX_ONE as int) == 2 * len * FX_ONE);
    }
}

/// Bound a dot product from bounds on its operands.
pub proof fn lemma_v3_dot_bound(u: Vec3, v: Vec3, uu: int, vv: int)
    requires
        v3_in_bound(u, uu),
        v3_in_bound(v, vv),
        0 <= uu,
        0 <= vv,
    ensures
        abs_i(v3_dot(u, v)) <= 3 * ((uu * vv) / (FX_ONE as int)),
{
    lemma_fx_mul_bound(u.x as int, v.x as int, uu, vv);
    lemma_fx_mul_bound(u.y as int, v.y as int, uu, vv);
    lemma_fx_mul_bound(u.z as int, v.z as int, uu, vv);
}

// ----------------------------------------------
// Ray definition -------------------------------
// ----------------------------------------------

#[derive(Clone, Copy, Debug, PartialEq, Eq, Structural)]
pub struct Ray {
    pub origin: Vec3,
    pub direction: Vec3,
}

/// Rays handed to the intersection layer stay within the representable scene.
pub open spec fn ray_wf(r: Ray) -> bool {
    v3_in_bound(r.origin, POINT_LIMIT as int) && v3_in_bound(r.direction, DIR_LIMIT as int)
}

/// `origin + direction * t`.
pub open spec fn ray_at(r: Ray, t: int) -> Vec3 {
    v3_add(r.origin, v3_scale(r.direction, t))
}

impl Ray {
    pub fn new(origin: Vec3, direction: Vec3) -> (r: Ray)
        ensures
            r == (Ray { origin, direction }),
    {
        Ray { origin, direction }
    }

    pub fn at(&self, t: i64) -> (p: Vec3)
        requires
            v3_in_bound(self.direction, VEC_LIMIT as int),
            v3_in_bound(self.origin, 0x1000_0000_0000_0000),
            in_bound(t as int, VEC_LIMIT as int),
            abs_i(t as int) * (VEC_LIMIT as int) <= 0x1000_0000_0000_0000 * 0x1_0000,
        ensures
            p == ray_at(*self, t as int),
    {
        proof {
            lemma_fx_mul_bound(self.direction.x as int, t as int, VEC_LIMIT as int, abs_i(t as int));
            lemma_fx_mul_bound(self.direction.y as int, t as int, VEC_LIMIT as int, abs_i(t as int));
            lemma_fx_mul_bound(self.direction.z as int, t as int, VEC_LIMIT as int, abs_i(t as int));
        }
        let d = self.direction.scale(t);
        self.origin.add(&d)
    }

    pub fn direction(&self) -> (d: &Vec3)
        ensures
            d == self.direction,
    {
        &self.direction
    }

    pub fn origin(&self) -> (o: &Vec3)
        ensures
            o == self.origin,
    {
        &self.origin
    }
}

/// Gamma correction: the square-root tone curve, with negative input clamped
/// to zero instead of producing an undefined root.
pub open spec fn gamma_s(v: int) -> int {
    if v > 0 {
        fx_sqrt(v)
    } else {
        0
    }
}

pub fn linear_to_gamma(value: i64) -> (r: i64)
    ensures
        r == gamma_s(value as int),
        0 <= r,
{
    if value > 0 {
        return fx_sqrt_e(value);
    }
    0
}

} // verus!
