//! Fixed-point sine and cosine on `[0, 2*pi)`.
//!
//! The angle is reduced to a quadrant of `[0, pi/2)` and then folded onto
//! `[0, pi/4]`, where a Taylor polynomial in fixed-point arithmetic gives the
//! value. The mirror spec functions describe the computed value exactly; it
//! approximates the real sine and cosine to a few millionths, which the tests
//! check numerically.

use vstd::prelude::*;

verus! {

use crate::fixed::{
    fx_mul, lemma_fx_mul_bounded, lemma_fx_mul_nonneg, lemma_fx_mul_unit, spec_fx_mul, FX_HALF,
    FX_HALF_PI, FX_ONE, FX_QUARTER_PI, FX_TWO_PI,
};
use vstd::arithmetic::div_mod::{
    lemma_div_is_ordered, lemma_div_pos_is_pos, lemma_fundamental_div_mod,
    lemma_mod_division_less_than_divisor, lemma_multiply_divide_lt,
};

/// Largest value `fx_mul(x, x) + FX_HALF` rounds to for `x` in the folded
/// quarter-turn domain.
pub const FX_QSQ_LIMIT: i64 = 646815;

/// The degree-eight Taylor polynomial of the cosine, in fixed point, for
/// arguments in `[0, FX_QUARTER_PI]`.
pub open spec fn spec_cos_poly(x: int) -> int {
    let x2 = spec_fx_mul(x, x);
    let t1 = FX_ONE - x2 / 56;
    let t2 = FX_ONE - spec_fx_mul(x2, t1) / 30;
    let t3 = FX_ONE - spec_fx_mul(x2, t2) / 12;
    FX_ONE - spec_fx_mul(x2, t3) / 2
}

/// The degree-nine Taylor polynomial of the sine, in fixed point, for
/// arguments in `[0, FX_QUARTER_PI]`.
pub open spec fn spec_sin_poly(x: int) -> int {
    let x2 = spec_fx_mul(x, x);
    let u3 = FX_ONE - x2 / 42;
    let u2 = FX_ONE - spec_fx_mul(x2, u3) / 20;
    let u1 = FX_ONE - spec_fx_mul(x2, u2) / 6;
    spec_fx_mul(x, u1)
}

/// Cosine on a reduced angle `r` in `[0, FX_HALF_PI)`, folded onto the
/// quarter turn.
pub open spec fn spec_quarter_cos(r: int) -> int {
    if r <= FX_QUARTER_PI {
        spec_cos_poly(r)
    } else {
        spec_sin_poly(FX_HALF_PI - r)
    }
}

/// Sine on a reduced angle `r` in `[0, FX_HALF_PI)`, folded onto the quarter
/// turn.
pub open spec fn spec_quarter_sin(r: int) -> int {
    if r <= FX_QUARTER_PI {
        spec_sin_poly(r)
    } else {
        spec_cos_poly(FX_HALF_PI - r)
    }
}

/// The fixed-point cosine of an angle in `[0, FX_TWO_PI)`.
pub open spec fn spec_cos_fx(a: int) -> int {
    let k = (a / (FX_HALF_PI as int)) % 4;
    let r = a % (FX_HALF_PI as int);
    if k == 0 {
        spec_quarter_cos(r)
    } else if k == 1 {
        -spec_quarter_sin(r)
    } else if k == 2 {
        -spec_quarter_cos(r)
    } else {
        spec_quarter_sin(r)
    }
}

/// The fixed-point sine of an angle in `[0, FX_TWO_PI)`.
pub open spec fn spec_sin_fx(a: int) -> int {
    let k = (a / (FX_HALF_PI as int)) % 4;
    let r = a % (FX_HALF_PI as int);
    if k == 0 {
        spec_quarter_sin(r)
    } else if k == 1 {
        spec_quarter_cos(r)
    } else if k == 2 {
        -spec_quarter_sin(r)
    } else {
        -spec_quarter_cos(r)
    }
}

/// Division of a small nonnegative value by a positive constant.
fn small_div(a: i64, d: i64) -> (r: i64)
    requires
        0 <= a,
        1 <= d,
    ensures
        r == a as int / d as int,
        0 <= r <= a,
{
    proof {
        lemma_div_pos_is_pos(a as int, d as int);
        assert(a < d * (a + 1)) by (nonlinear_arith)
            requires
                0 <= a,
                1 <= d,
        ;
        lemma_multiply_divide_lt(a as int, d as int, a + 1);
    }
    ((a as u64) / (d as u64)) as i64
}

/// The square of a folded angle, with its range.
fn quarter_square(x: i64) -> (r: i64)
    requires
        0 <= x <= FX_QUARTER_PI,
    ensures
        r == spec_fx_mul(x as int, x as int),
        0 <= r <= FX_QSQ_LIMIT,
{
    proof {
        lemma_fx_mul_bounded(x as int, x as int, FX_QUARTER_PI as int, FX_QUARTER_PI as int);
        lemma_fx_mul_nonneg(x as int, x as int);
        assert(FX_QUARTER_PI * FX_QUARTER_PI == 678234602500) by (nonlinear_arith);
        assert((678234602500 + FX_HALF) / (FX_ONE as int) == FX_QSQ_LIMIT);
    }
    fx_mul(x, x)
}

/// The cosine polynomial on the folded quarter turn.
fn cos_poly(x: i64) -> (r: i64)
    requires
        0 <= x <= FX_QUARTER_PI,
    ensures
        r == spec_cos_poly(x as int),
        0 <= r <= FX_ONE,
{
    let x2 = quarter_square(x);
    let t1 = FX_ONE - small_div(x2, 56);
    proof {
        lemma_fx_mul_unit(x2 as int, t1 as int, FX_QSQ_LIMIT as int);
        lemma_fx_mul_nonneg(x2 as int, t1 as int);
    }
    let m1 = fx_mul(x2, t1);
    let t2 = FX_ONE - small_div(m1, 30);
    proof {
        lemma_fx_mul_unit(x2 as int, t2 as int, FX_QSQ_LIMIT as int);
        lemma_fx_mul_nonneg(x2 as int, t2 as int);
    }
    let m2 = fx_mul(x2, t2);
    let t3 = FX_ONE - small_div(m2, 12);
    proof {
        lemma_fx_mul_unit(x2 as int, t3 as int, FX_QSQ_LIMIT as int);
        lemma_fx_mul_nonneg(x2 as int, t3 as int);
    }
    let m3 = fx_mul(x2, t3);
    FX_ONE - small_div(m3, 2)
}

/// The sine polynomial on the folded quarter turn.
fn sin_poly(x: i64) -> (r: i64)
    requires
        0 <= x <= FX_QUARTER_PI,
    ensures
        r == spec_sin_poly(x as int),
        0 <= r <= FX_ONE,
{
    let x2 = quarter_square(x);
    let u3 = FX_ONE - small_div(x2, 42);
    proof {
        lemma_fx_mul_unit(x2 as int, u3 as int, FX_QSQ_LIMIT as int);
        lemma_fx_mul_nonneg(x2 as int, u3 as int);
    }
    let m1 = fx_mul(x2, u3);
    let u2 = FX_ONE - small_div(m1, 20);
    proof {
        lemma_fx_mul_unit(x2 as int, u2 as int, FX_QSQ_LIMIT as int);
        lemma_fx_mul_nonneg(x2 as int, u2 as int);
    }
    let m2 = fx_mul(x2, u2);
    let u1 = FX_ONE - small_div(m2, 6);
    proof {
        lemma_fx_mul_unit(x as int, u1 as int, FX_QUARTER_PI as int);
        lemma_fx_mul_nonneg(x as int, u1 as int);
    }
    fx_mul(x, u1)
}

/// The fixed-point cosine and sine of an angle in `[0, 2*pi)`, returned as
/// the pair `(cos, sin)`.
pub fn sin_cos_fx(a: i64) -> (cs: (i64, i64))
    requires
        0 <= a < FX_TWO_PI,
    ensures
        cs.0 == spec_cos_fx(a as int),
        cs.1 == spec_sin_fx(a as int),
        -FX_ONE <= cs.0 <= FX_ONE,
        -FX_ONE <= cs.1 <= FX_ONE,
{
    proof {
        lemma_fundamental_div_mod(a as int, FX_HALF_PI as int);
        lemma_mod_division_less_than_divisor(a as int, FX_HALF_PI as int);
        lemma_div_pos_is_pos(a as int, FX_HALF_PI as int);
        lemma_div_is_ordered(a as int, FX_TWO_PI - 1, FX_HALF_PI as int);
    }
    let ku: u64 = (a as u64) / (FX_HALF_PI as u64);
    let r: i64 = a - (ku as i64) * FX_HALF_PI;
    let k: u64 = ku % 4;
    let (qc, qs) = if r <= FX_QUARTER_PI {
        (cos_poly(r), sin_poly(r))
    } else {
        (sin_poly(FX_HALF_PI - r), cos_poly(FX_HALF_PI - r))
    };
    if k == 0 {
        (qc, qs)
    } else if k == 1 {
        (-qs, qc)
    } else if k == 2 {
        (-qc, -qs)
    } else {
        (qs, -qc)
    }
}

} // verus!
