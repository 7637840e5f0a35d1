//! Fixed-point scalar arithmetic: rounded division, truncated division,
//! clamping, and exponential smoothing steps, with exact specifications.

use vstd::prelude::*;
use vstd::arithmetic::div_mod::{
    lemma_fundamental_div_mod, lemma_fundamental_div_mod_converse,
};
use vstd::arithmetic::mul::{
    lemma_mul_is_associative, lemma_mul_is_commutative, lemma_mul_strict_inequality,
};

verus! {

/// Subunits per world unit: all coordinates, zoom factors and colors are
/// integers counting these subunits.
pub const UNIT: i64 = 1_000_000;

/// A two-dimensional point or vector in fixed-point subunits.
#[derive(Clone, Copy, PartialEq, Eq, Structural, Debug)]
pub struct Vec2 {
    pub x: i64,
    pub y: i64,
}

/// Magnitude of an integer.
pub open spec fn mag(a: int) -> int {
    if a >= 0 {
        a
    } else {
        -a
    }
}

/// Division rounded to the nearest integer, ties toward positive
/// infinity.
pub open spec fn div_round(a: int, b: int) -> int
    recommends
        b > 0,
{
    (2 * a + b) / (2 * b)
}

/// Division truncated toward zero, as machine division of signed integers.
pub open spec fn div_trunc(a: int, b: int) -> int
    recommends
        b > 0,
{
    if a >= 0 {
        a / b
    } else {
        -((-a) / b)
    }
}

/// Clamping as the composition "minimum with `hi`, then maximum with `lo`".
pub open spec fn clamped(v: int, lo: int, hi: int) -> int {
    let capped = if v > hi {
        hi
    } else {
        v
    };
    if capped < lo {
        lo
    } else {
        capped
    }
}

/// One smoothing step: keep `keep / den` of the distance from `desired`
/// to `current`, truncating toward `desired`.
pub open spec fn retain_spec(current: int, desired: int, keep: int, den: int) -> int
    recommends
        0 <= keep < den,
{
    desired + div_trunc(keep * (current - desired), den)
}

/// The rounded quotient multiplied back differs from the dividend by at
/// most half the divisor.
pub proof fn lemma_div_round_err(a: int, b: int)
    requires
        b > 0,
    ensures
        2 * mag(div_round(a, b) * b - a) <= b,
{
    let q = (2 * a + b) / (2 * b);
    let r = (2 * a + b) % (2 * b);
    lemma_fundamental_div_mod(2 * a + b, 2 * b);
    assert(2 * a + b == (2 * b) * q + r);
    lemma_mul_is_associative(2, b, q);
    lemma_mul_is_commutative(b, q);
    assert((2 * b) * q == 2 * (q * b));
    assert(2 * (q * b - a) == b - r);
    assert(0 <= r < 2 * b);
}

/// A rounded quotient of a dividend no larger than `m * b` has magnitude
/// at most `m`.
pub proof fn lemma_div_round_mag(a: int, b: int, m: int)
    requires
        b > 0,
        m >= 0,
        mag(a) <= m * b,
    ensures
        mag(div_round(a, b)) <= m,
{
    let q = div_round(a, b);
    lemma_div_round_err(a, b);
    assert(2 * mag(q * b - a) <= b);
    assert(mag(q) <= m) by (nonlinear_arith)
        requires
            b > 0,
            m >= 0,
            mag(a) <= m * b,
            2 * mag(q * b - a) <= b,
    {
    }
}

/// Truncating a fraction `keep / den < 1` of a distance moves strictly
/// toward zero and never past it.
pub proof fn lemma_div_trunc_contracts(d: int, keep: int, den: int)
    requires
        0 <= keep < den,
    ensures
        d == 0 ==> div_trunc(keep * d, den) == 0,
        d > 0 ==> 0 <= div_trunc(keep * d, den) < d,
        d < 0 ==> d < div_trunc(keep * d, den) <= 0,
{
    if d == 0 {
        assert(keep * d == 0) by (nonlinear_arith)
            requires
                d == 0,
        {
        }
        assert(0int / den == 0) by {
            lemma_fundamental_div_mod_converse(0, den, 0, 0);
        }
    } else if d > 0 {
        assert(keep * d >= 0) by (nonlinear_arith)
            requires
                keep >= 0,
                d > 0,
        {
        }
        lemma_div_pos_nonneg(keep * d, den);
        lemma_mul_strict_inequality(keep, den, d);
        assert(keep * d < den * d);
        lemma_div_below(keep * d, d, den);
    } else {
        let e = -d;
        assert(keep * e >= 0) by (nonlinear_arith)
            requires
                keep >= 0,
                e > 0,
        {
        }
        assert(keep * d == -(keep * e)) by (nonlinear_arith)
            requires
                e == -d,
        {
        }
        lemma_div_pos_nonneg(keep * e, den);
        lemma_mul_strict_inequality(keep, den, e);
        assert(keep * e < den * e);
        lemma_div_below(keep * e, e, den);
    }
}

/// A nonnegative value divided by a positive one yields a nonnegative
/// quotient no larger than the dividend.
pub proof fn lemma_div_pos_nonneg(a: int, b: int)
    requires
        a >= 0,
        b > 0,
    ensures
        0 <= a / b <= a,
{
    lemma_fundamental_div_mod(a, b);
    let q = a / b;
    let r = a % b;
    assert(0 <= r < b);
    assert(a == b * q + r);
    if q < 0 {
        assert(b * q <= -b) by (nonlinear_arith)
            requires
                b > 0,
                q <= -1,
        {
        }
        assert(false);
    }
    assert(b * q >= q) by (nonlinear_arith)
        requires
            b >= 1,
            q >= 0,
    {
    }
}

/// If `a < c * b` with everything nonnegative, then `a / b < c`.
pub proof fn lemma_div_below(a: int, c: int, b: int)
    requires
        0 <= a,
        b > 0,
        a < c * b,
    ensures
        a / b < c,
{
    lemma_fundamental_div_mod(a, b);
    let q = a / b;
    let r = a % b;
    assert(0 <= r < b);
    assert(a == b * q + r);
    if q >= c {
        assert(b * q >= b * c) by (nonlinear_arith)
            requires
                b > 0,
                q >= c,
        {
        }
        lemma_mul_is_commutative(b, c);
        assert(false);
    }
}

/// Rounded division of `a` by positive `b`, on wide integers.
pub fn div_round_i128(a: i128, b: i128) -> (q: i128)
    requires
        0 < b <= 1_000_000_000_000_000_000_000i128,
        -40_000_000_000_000_000_000_000_000_000_000_000_000i128 <= a
            <= 40_000_000_000_000_000_000_000_000_000_000_000_000i128,
    ensures
        q == div_round(a as int, b as int),
{
    let t: i128 = 2 * a + b;
    let m: i128 = 2 * b;
    if t >= 0 {
        let q0: u128 = (t as u128) / (m as u128);
        proof {
            lemma_div_pos_nonneg(t as int, m as int);
        }
        q0 as i128
    } else {
        let tt: u128 = (-t) as u128;
        let mm: u128 = m as u128;
        let q0: u128 = (tt + (mm - 1)) / mm;
        proof {
            lemma_div_pos_nonneg(tt as int + (mm - 1) as int, mm as int);
            lemma_neg_div_as_ceil(tt as int, mm as int);
        }
        -(q0 as i128)
    }
}

/// For positive `y` and nonnegative `x`: `(-x) / y == -((x + y - 1) / y)`.
pub proof fn lemma_neg_div_as_ceil(x: int, y: int)
    requires
        x >= 0,
        y > 0,
    ensures
        (-x) / y == -((x + y - 1) / y),
{
    let qc = (x + y - 1) / y;
    lemma_fundamental_div_mod(x + y - 1, y);
    let rc = (x + y - 1) % y;
    assert(0 <= rc < y);
    assert(x + y - 1 == y * qc + rc);
    let r = y * qc - x;
    assert(0 <= r < y);
    assert(-x == y * (-qc) + r) by (nonlinear_arith)
        requires
            r == y * qc - x,
    {
    }
    lemma_fundamental_div_mod_converse(-x, y, -qc, r);
}

/// Rounded division for narrow integers.
pub fn div_round_i64(a: i64, b: i64) -> (q: i64)
    requires
        0 < b,
        mag(div_round(a as int, b as int)) <= i64::MAX,
    ensures
        q == div_round(a as int, b as int),
{
    let wide: i128 = div_round_i128(a as i128, b as i128);
    proof {
        lemma_div_round_err(a as int, b as int);
    }
    wide as i64
}

/// Clamp `v` to `[lo, hi]` by taking the minimum with `hi`, then the
/// maximum with `lo`.
pub fn clamp_i64(v: i64, lo: i64, hi: i64) -> (r: i64)
    ensures
        r == clamped(v as int, lo as int, hi as int),
{
    let capped: i64 = if v > hi {
        hi
    } else {
        v
    };
    if capped < lo {
        lo
    } else {
        capped
    }
}

/// One smoothing step toward `desired`, keeping `keep / den` of the
/// current distance (truncated toward `desired`).
pub fn retain_toward(current: i64, desired: i64, keep: i64, den: i64) -> (r: i64)
    requires
        0 <= keep < den,
        den <= 16,
        -4_000_000_000_000_000i64 <= current <= 4_000_000_000_000_000i64,
        -4_000_000_000_000_000i64 <= desired <= 4_000_000_000_000_000i64,
    ensures
        r == retain_spec(current as int, desired as int, keep as int, den as int),
        current == desired ==> r == desired,
        current > desired ==> desired <= r < current,
        current < desired ==> current < r <= desired,
{
    proof {
        lemma_div_trunc_contracts(current - desired, keep as int, den as int);
    }
    let d: i64 = current - desired;
    if d >= 0 {
        proof {
            assert(0 <= keep * d <= 128_000_000_000_000_000) by (nonlinear_arith)
                requires
                    0 <= keep <= 16,
                    0 <= d <= 8_000_000_000_000_000,
            {
            }
        }
        let prod: i64 = keep * d;
        let q: u64 = (prod as u64) / (den as u64);
        proof {
            lemma_div_pos_nonneg(prod as int, den as int);
        }
        desired + (q as i64)
    } else {
        let e: i64 = -d;
        proof {
            assert(0 <= keep * e <= 128_000_000_000_000_000) by (nonlinear_arith)
                requires
                    0 <= keep <= 16,
                    0 <= e <= 8_000_000_000_000_000,
            {
            }
        }
        let prod: i64 = keep * e;
        let q: u64 = (prod as u64) / (den as u64);
        proof {
            lemma_div_pos_nonneg(prod as int, den as int);
            assert(keep * (current - desired) == -(prod as int)) by (nonlinear_arith)
                requires
                    e == -(current - desired),
                    prod == keep * e,
            {
            }
        }
        desired - (q as i64)
    }
}

} // verus!
