//! Random sampling service.
//!
//! Each render worker owns one `RandomGenerator`, a SplitMix64 generator whose
//! whole behaviour is stated by the spec functions `sm_next` and `sm_mix`.
//! Determinism from an explicit seed is what makes renders reproducible, so
//! the stream is spelled out exactly rather than named abstractly; fresh
//! entropy for an unseeded generator is the one thing taken from outside.

use vstd::prelude::*;

use crate::fx::{fx_sqrt, FX_ONE};
use crate::util::{v3_div, v3_dot, v3_in_bound, Vec3, UNIT_LIMIT};

verus! {

/// SplitMix64 state increment.
pub const SM_GAMMA: u64 = 0x9E37_79B9_7F4A_7C15;

/// SplitMix64 mixing constants.
pub const SM_MIX_1: u64 = 0xBF58_476D_1CE4_E5B9;

pub const SM_MIX_2: u64 = 0x94D0_49BB_1331_11EB;

/// State after one SplitMix64 step.
pub open spec fn sm_next(s: u64) -> u64 {
    s.wrapping_add(SM_GAMMA)
}

/// Output word drawn from a SplitMix64 state.
pub open spec fn sm_mix(s: u64) -> u64 {
    let z1 = (s ^ (s >> 30)).wrapping_mul(SM_MIX_1);
    let z2 = (z1 ^ (z1 >> 27)).wrapping_mul(SM_MIX_2);
    z2 ^ (z2 >> 31)
}

/// Scalar drawn uniformly from `[min, max)` and the state that follows.
pub open spec fn rf_range_s(s: u64, min: int, max: int) -> (int, u64) {
    (min + (sm_mix(sm_next(s)) as int) % (max - min), sm_next(s))
}

/// Vector with three independently drawn components and the state that
/// follows.
pub open spec fn rv3_range_s(s: u64, min: int, max: int) -> (Vec3, u64) {
    let (x, s1) = rf_range_s(s, min, max);
    let (y, s2) = rf_range_s(s1, min, max);
    let (z, s3) = rf_range_s(s2, min, max);
    (Vec3 { x: x as i64, y: y as i64, z: z as i64 }, s3)
}

/// Jitter vector on the pixel plane: two components in `[-1/2, 1/2)`, third
/// zero.
pub open spec fn rv3_square_s(s: u64) -> (Vec3, u64) {
    let (x, s1) = rf_range_s(s, -(FX_ONE as int) / 2, (FX_ONE as int) / 2);
    let (y, s2) = rf_range_s(s1, -(FX_ONE as int) / 2, (FX_ONE as int) / 2);
    (Vec3 { x: x as i64, y: y as i64, z: 0 }, s2)
}

/// Unit vector drawn by rejection from the cube, with bounded retries; after
/// the retry budget is spent the positive x axis stands in.
pub open spec fn ruv_s(s: u64, fuel: nat) -> (Vec3, u64)
    decreases fuel,
{
    if fuel == 0 {
        (Vec3 { x: FX_ONE, y: 0, z: 0 }, s)
    } else {
        let (v, s1) = rv3_range_s(s, -FX_ONE as int, FX_ONE as int);
        let lq = v3_dot(v, v);
        if 1 <= lq && lq < FX_ONE {
            (v3_div(v, fx_sqrt(lq)), s1)
        } else {
            ruv_s(s1, (fuel - 1) as nat)
        }
    }
}

/// Point drawn by rejection from the unit disk in the xy-plane, with bounded
/// retries; after the retry budget is spent the origin stands in.
pub open spec fn rod_s(s: u64, fuel: nat) -> (Vec3, u64)
    decreases fuel,
{
    if fuel == 0 {
        (Vec3 { x: 0, y: 0, z: 0 }, s)
    } else {
        let (v, s1) = rv3_range_s(s, -FX_ONE as int, FX_ONE as int);
        let p = Vec3 { x: v.x, y: v.y, z: 0 };
        let lq = v3_dot(p, p);
        if lq < FX_ONE {
            (p, s1)
        } else {
            rod_s(s1, (fuel - 1) as nat)
        }
    }
}

/// Retry budget for the rejection samplers.
pub const REJECT_FUEL: u32 = 64;

/// Relies on rand::random: one word of operating-system entropy; nothing can
/// be promised of its value.
#[verifier::external_body]
fn entropy_seed() -> (r: u64) {
    rand::random::<u64>()
}

/// Relies on rand_distr::Alphanumeric with rand's SampleString: a string of
/// exactly `len` characters, each a single-byte ASCII letter or digit.
#[verifier::external_body]
fn alnum_string(len: usize) -> (r: String)
    ensures
        r@.len() == len as int,
{
    rand::distr::SampleString::sample_string(&rand_distr::Alphanumeric, &mut rand::rng(), len)
}

#[derive(Clone, Copy, Debug)]
pub struct RandomGenerator {
    pub state: u64,
}

impl RandomGenerator {
    /// A generator seeded from operating-system entropy.
    pub fn new() -> Self {
        RandomGenerator { state: entropy_seed() }
    }

    /// A generator with an explicit seed; two generators with the same seed
    /// produce the same stream.
    pub fn from_seed(seed: u64) -> (r: Self)
        ensures
            r.state == seed,
    {
        RandomGenerator { state: seed }
    }

    /// One raw SplitMix64 output word.
    fn next_raw(&mut self) -> (r: u64)
        ensures
            final(self).state == sm_next(old(self).state),
            r == sm_mix(sm_next(old(self).state)),
    {
        self.state = self.state.wrapping_add(SM_GAMMA);
        let z0: u64 = self.state;
        let z1: u64 = (z0 ^ (z0 >> 30)).wrapping_mul(SM_MIX_1);
        let z2: u64 = (z1 ^ (z1 >> 27)).wrapping_mul(SM_MIX_2);
        z2 ^ (z2 >> 31)
    }

    /// Uniform scalar in `[0, 1)`.
    pub fn random_float(&mut self) -> (r: i64)
        ensures
            (r as int, final(self).state) == rf_range_s(old(self).state, 0, FX_ONE as int),
            0 <= r < FX_ONE,
    {
        self.random_float_range(0, FX_ONE)
    }

    /// Uniform scalar in `[min, max)`.
    pub fn random_float_range(&mut self, min: i64, max: i64) -> (r: i64)
        requires
            min < max,
            max - min <= i64::MAX,
        ensures
            (r as int, final(self).state) == rf_range_s(old(self).state, min as int, max as int),
            min <= r < max,
    {
        let span: u64 = (max - min) as u64;
        let z: u64 = self.next_raw();
        let off: u64 = z % span;
        min + (off as i64)
    }

    /// Vector whose three components are drawn independently from
    /// `[min, max)`.
    pub fn random_vec3_range(&mut self, min: i64, max: i64) -> (r: Vec3)
        requires
            min < max,
            max - min <= i64::MAX,
        ensures
            (r, final(self).state) == rv3_range_s(old(self).state, min as int, max as int),
            v3_in_bound(r, if -min >= max { -min as int } else { max as int }),
    {
        let x = self.random_float_range(min, max);
        let y = self.random_float_range(min, max);
        let z = self.random_float_range(min, max);
        Vec3 { x, y, z }
    }

    /// Jitter vector on the pixel plane: two components in `[-1/2, 1/2)`,
    /// third zero.
    pub fn random_vec3_square(&mut self) -> (r: Vec3)
        ensures
            (r, final(self).state) == rv3_square_s(old(self).state),
            v3_in_bound(r, (FX_ONE as int) / 2),
    {
        let half: i64 = FX_ONE / 2;
        let x = self.random_float_range(-half, half);
        let y = self.random_float_range(-half, half);
        Vec3 { x, y, z: 0 }
    }

    /// Unit vector distributed over the sphere surface, by rejection
    /// sampling.
    pub fn random_unit_vector_on_sphere(&mut self) -> (r: Vec3)
        ensures
            (r, final(self).state) == ruv_s(old(self).state, REJECT_FUEL as nat),
            v3_in_bound(r, UNIT_LIMIT as int),
    {
        self.ruv_rec(REJECT_FUEL)
    }

    fn ruv_rec(&mut self, fuel: u32) -> (r: Vec3)
        ensures
            (r, final(self).state) == ruv_s(old(self).state, fuel as nat),
            v3_in_bound(r, UNIT_LIMIT as int),
        decreases fuel,
    {
        if fuel == 0 {
            return Vec3 { x: FX_ONE, y: 0, z: 0 };
        }
        let vec = self.random_vec3_range(-FX_ONE, FX_ONE);
        let len_q = vec.length_squared();
        if 1 <= len_q && len_q < FX_ONE {
            vec.unit_vector()
        } else {
            self.ruv_rec(fuel - 1)
        }
    }

    /// Point on the unit disk in the xy-plane, by rejection sampling.
    pub fn random_on_disk(&mut self) -> (r: Vec3)
        ensures
            (r, final(self).state) == rod_s(old(self).state, REJECT_FUEL as nat),
            v3_in_bound(r, FX_ONE as int),
            r.z == 0,
    {
        self.rod_rec(REJECT_FUEL)
    }

    fn rod_rec(&mut self, fuel: u32) -> (r: Vec3)
        ensures
            (r, final(self).state) == rod_s(old(self).state, fuel as nat),
            v3_in_bound(r, FX_ONE as int),
            r.z == 0,
        decreases fuel,
    {
        if fuel == 0 {
            return Vec3 { x: 0, y: 0, z: 0 };
        }
        let mut p = self.random_vec3_range(-FX_ONE, FX_ONE);
        p.z = 0;
        let len_q = p.length_squared();
        if len_q < FX_ONE {
            p
        } else {
            self.rod_rec(fuel - 1)
        }
    }

    /// A short alphanumeric string, for callers naming output files.
    pub fn random_chars(&mut self, len: usize) -> (r: String)
        ensures
            r@.len() == len as int,
    {
        alnum_string(len)
    }
}

} // verus!
