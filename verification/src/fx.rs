//! Fixed-point scalar arithmetic.
//!
//! Every scalar in this crate is an `i64` holding the real value scaled by
//! `FX_ONE` (2^16).  Products and quotients are rounded toward zero, and the
//! square root rounds down; the spec functions here give those roundings an
//! exact mathematical statement that the rest of the crate's contracts are
//! written against.

use vstd::prelude::*;

verus! {

/// Scale factor: one whole unit in fixed-point form.
pub const FX_ONE: i64 = 65536;

/// Largest product magnitude the fixed-point multiplier accepts (2^78).
pub const FX_MUL_LIMIT: i128 = 0x4000_0000_0000_0000_0000;

/// Largest dividend magnitude the fixed-point divider accepts (2^46).
pub const FX_DIV_LIMIT: i64 = 0x4000_0000_0000;

/// Magnitude of an integer.
pub open spec fn abs_i(n: int) -> int {
    if n >= 0 {
        n
    } else {
        -n
    }
}

/// Quotient rounded toward zero, the rounding rule of every fixed-point
/// operation in this crate.
pub open spec fn qtrunc(n: int, d: int) -> int {
    if (n >= 0) == (d >= 0) {
        abs_i(n) / abs_i(d)
    } else {
        -(abs_i(n) / abs_i(d))
    }
}

/// Fixed-point product: the scaled product of two scalars, rounded toward zero.
pub open spec fn fx_mul(a: int, b: int) -> int {
    qtrunc(a * b, FX_ONE as int)
}

/// Fixed-point quotient: the scaled ratio of two scalars, rounded toward zero.
pub open spec fn fx_div(a: int, b: int) -> int {
    qtrunc(a * FX_ONE, b)
}

/// The magnitude of a product is the product of the magnitudes, and is
/// monotone in bounds on the factors.
pub proof fn lemma_abs_mul(a: int, b: int, aa: int, bb: int)
    by (nonlinear_arith)
    requires
        abs_i(a) <= aa,
        abs_i(b) <= bb,
    ensures
        abs_i(a * b) == abs_i(a) * abs_i(b),
        abs_i(a * b) <= aa * bb,
{
}

/// A truncated quotient never exceeds the dividend's magnitude divided by the
/// divisor's, so bounds on the operands bound the quotient.
pub proof fn lemma_qtrunc_bound(n: int, d: int, nn: int)
    requires
        d != 0,
        abs_i(n) <= nn,
    ensures
        abs_i(qtrunc(n, d)) == abs_i(n) / abs_i(d),
        abs_i(qtrunc(n, d)) <= nn / abs_i(d),
        abs_i(qtrunc(n, d)) <= nn,
{
    vstd::arithmetic::div_mod::lemma_div_is_ordered(abs_i(n), nn, abs_i(d));
    vstd::arithmetic::div_mod::lemma_div_is_ordered_by_denominator(nn, 1, abs_i(d));
    assert(nn / 1 == nn);
}

/// Bound on a fixed-point product from bounds on its factors.
pub proof fn lemma_fx_mul_bound(a: int, b: int, aa: int, bb: int)
    requires
        abs_i(a) <= aa,
        abs_i(b) <= bb,
    ensures
        abs_i(a * b) <= aa * bb,
        abs_i(fx_mul(a, b)) <= (aa * bb) / (FX_ONE as int),
        abs_i(fx_mul(a, b)) <= aa * bb,
{
    lemma_abs_mul(a, b, aa, bb);
    lemma_qtrunc_bound(a * b, FX_ONE as int, aa * bb);
}

/// Bound on a fixed-point quotient from a bound on the dividend and a lower
/// bound on the divisor's magnitude.
pub proof fn lemma_fx_div_bound(a: int, b: int, aa: int, bmin: int)
    requires
        abs_i(a) <= aa,
        abs_i(b) >= bmin,
        bmin >= 1,
    ensures
        abs_i(fx_div(a, b)) <= (aa * FX_ONE) / bmin,
{
    lemma_abs_mul(a, FX_ONE as int, aa, FX_ONE as int);
    lemma_qtrunc_bound(a * FX_ONE, b, aa * FX_ONE);
    vstd::arithmetic::div_mod::lemma_div_is_ordered_by_denominator(
        aa * (FX_ONE as int),
        bmin,
        abs_i(b),
    );
}

/// A truncated quotient of a nonpositive value by a positive one is
/// nonpositive.
pub proof fn lemma_qtrunc_nonpos(n: int, d: int)
    requires
        n <= 0,
        d > 0,
    ensures
        qtrunc(n, d) <= 0,
{
    vstd::arithmetic::div_mod::lemma_div_pos_is_pos(abs_i(n), d);
}

/// Truncated division by a positive divisor is monotone in the dividend.
pub proof fn lemma_qtrunc_mono(n1: int, n2: int, d: int)
    requires
        n1 <= n2,
        d > 0,
    ensures
        qtrunc(n1, d) <= qtrunc(n2, d),
{
    if n1 >= 0 {
        vstd::arithmetic::div_mod::lemma_div_is_ordered(n1, n2, d);
    } else if n2 < 0 {
        vstd::arithmetic::div_mod::lemma_div_is_ordered(-n2, -n1, d);
    } else {
        vstd::arithmetic::div_mod::lemma_div_pos_is_pos(abs_i(n1), d);
        vstd::arithmetic::div_mod::lemma_div_pos_is_pos(abs_i(n2), d);
    }
}

/// A fixed-point square is never negative.
pub proof fn lemma_fx_mul_sq_nonneg(a: int)
    ensures
        a * a >= 0,
        fx_mul(a, a) >= 0,
{
    assert(a * a >= 0) by (nonlinear_arith);
    vstd::arithmetic::div_mod::lemma_div_is_ordered(0, a * a, FX_ONE as int);
}

/// Truncating division on `i128`, the executable form of `qtrunc`.
pub fn div_trunc(n: i128, d: i128) -> (q: i128)
    requires
        d != 0,
        n > i128::MIN,
        d > i128::MIN,
    ensures
        q == qtrunc(n as int, d as int),
{
    let nm: u128 = if n < 0 {
        (-n) as u128
    } else {
        n as u128
    };
    let dm: u128 = if d < 0 {
        (-d) as u128
    } else {
        d as u128
    };
    assert(nm == abs_i(n as int));
    assert(dm == abs_i(d as int));
    let qm: u128 = nm / dm;
    proof {
        vstd::arithmetic::div_mod::lemma_div_is_ordered_by_denominator(nm as int, 1, dm as int);
    }
    if (n < 0) != (d < 0) {
        -(qm as i128)
    } else {
        qm as i128
    }
}

/// Fixed-point multiplication; the product is formed exactly in `i128` and
/// then scaled back with truncation.
pub fn fx_mul_e(a: i64, b: i64) -> (r: i64)
    requires
        abs_i(a as int * b as int) <= FX_MUL_LIMIT,
    ensures
        r == fx_mul(a as int, b as int),
{
    let p: i128 = (a as i128) * (b as i128);
    proof {
        lemma_qtrunc_bound(p as int, FX_ONE as int, FX_MUL_LIMIT as int);
        assert((0x4000_0000_0000_0000_0000int) / 65536int == 0x4000_0000_0000_0000int) by {
            vstd::arithmetic::div_mod::lemma_div_multiples_vanish(
                0x4000_0000_0000_0000int,
                65536int,
            );
        }
    }
    let q: i128 = div_trunc(p, 65536);
    q as i64
}

/// Fixed-point division; the scaled dividend is formed exactly in `i128` and
/// divided with truncation.
pub fn fx_div_e(a: i64, b: i64) -> (r: i64)
    requires
        b != 0,
        abs_i(a as int) <= FX_DIV_LIMIT,
    ensures
        r == fx_div(a as int, b as int),
        abs_i(r as int) <= abs_i(a as int) * FX_ONE,
{
    let p: i128 = (a as i128) * 65536;
    proof {
        lemma_abs_mul(a as int, FX_ONE as int, abs_i(a as int), FX_ONE as int);
        lemma_qtrunc_bound(p as int, b as int, abs_i(a as int) * (FX_ONE as int));
    }
    let q: i128 = div_trunc(p, b as i128);
    q as i64
}

/// Integer square root, rounded down, defined by counting up; executable code
/// meets it through `lemma_sqrt_floor_unique`.
pub open spec fn sqrt_floor(n: int) -> int
    decreases n,
{
    if n <= 0 {
        0
    } else {
        let s = sqrt_floor(n - 1);
        if (s + 1) * (s + 1) <= n {
            s + 1
        } else {
            s
        }
    }
}

/// `sqrt_floor(n)` is the integer whose square brackets `n`.
pub proof fn lemma_sqrt_floor_bracket(n: int)
    requires
        n >= 0,
    ensures
        sqrt_floor(n) >= 0,
        sqrt_floor(n) * sqrt_floor(n) <= n,
        n < (sqrt_floor(n) + 1) * (sqrt_floor(n) + 1),
    decreases n,
{
    if n > 0 {
        lemma_sqrt_floor_bracket(n - 1);
        let s = sqrt_floor(n - 1);
        if (s + 1) * (s + 1) <= n {
            assert((s + 2) * (s + 2) > n) by (nonlinear_arith)
                requires
                    n - 1 < (s + 1) * (s + 1),
                    (s + 1) * (s + 1) <= n,
                    s >= 0,
            {
            }
        }
    }
}

/// Any nonnegative integer whose square brackets `n` is `sqrt_floor(n)`.
pub proof fn lemma_sqrt_floor_unique(n: int, r: int)
    requires
        n >= 0,
        r >= 0,
        r * r <= n,
        n < (r + 1) * (r + 1),
    ensures
        r == sqrt_floor(n),
{
    lemma_sqrt_floor_bracket(n);
    let s = sqrt_floor(n);
    assert(r == s) by (nonlinear_arith)
        requires
            r >= 0,
            s >= 0,
            r * r <= n,
            n < (r + 1) * (r + 1),
            s * s <= n,
            n < (s + 1) * (s + 1),
    {
    }
}

/// Integer square root of a `u128`, by binary search.
pub fn isqrt(n: u128) -> (r: u128)
    requires
        n < 0x4000_0000_0000_0000_0000_0000_0000_0000u128,
    ensures
        r * r <= n,
        n < (r + 1) * (r + 1),
        r == sqrt_floor(n as int),
{
    let mut lo: u128 = 0;
    let mut hi: u128 = 0x8000_0000_0000_0000;
    proof {
        assert(hi * hi == 0x4000_0000_0000_0000_0000_0000_0000_0000u128);
    }
    while lo + 1 < hi
        invariant
            lo < hi,
            hi <= 0x8000_0000_0000_0000,
            lo * lo <= n,
            n < hi * hi,
        decreases hi - lo,
    {
        let mid: u128 = lo + (hi - lo) / 2;
        proof {
            assert(mid * mid < 0x8000_0000_0000_0000_0000_0000_0000_0000u128) by (nonlinear_arith)
                requires
                    mid < 0x8000_0000_0000_0000u128,
            {
            }
        }
        if mid * mid <= n {
            lo = mid;
        } else {
            hi = mid;
        }
    }
    proof {
        lemma_sqrt_floor_unique(n as int, lo as int);
    }
    lo
}

/// Fixed-point square root: the scaled root of a nonnegative scalar, rounded
/// down.
pub open spec fn fx_sqrt(x: int) -> int {
    sqrt_floor(x * FX_ONE)
}

/// Executable fixed-point square root.
pub fn fx_sqrt_e(x: i64) -> (r: i64)
    requires
        0 <= x,
    ensures
        r == fx_sqrt(x as int),
        0 <= r,
        r * r <= x * FX_ONE,
        x * FX_ONE < (r + 1) * (r + 1),
        r <= 0x200_0000_0000,
{
    let n: u128 = (x as u128) * 65536;
    let s: u128 = isqrt(n);
    proof {
        assert(s <= 0x200_0000_0000) by (nonlinear_arith)
            requires
                s * s <= n,
                n <= 0x8000_0000_0000_0000_0000u128,
        {
        }
    }
    s as i64
}

} // verus!
