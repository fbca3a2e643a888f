//! Signed fixed-point arithmetic with 2^20 fractional scaling.
//!
//! A fixed-point value `v` stands for the real number `v / FX_ONE`.
//! Multiplication and division round as specified by the mirror spec
//! functions below, so every arithmetic step of the renderer has an exact
//! integer description.

use vstd::prelude::*;

verus! {

use vstd::arithmetic::div_mod::{
    lemma_div_is_ordered, lemma_div_multiples_vanish, lemma_div_pos_is_pos,
    lemma_multiply_divide_lt,
};

/// The fixed-point unit: 2^20.
pub const FX_ONE: i64 = 1048576;

/// Half of the unit, used for rounding to nearest.
pub const FX_HALF: i64 = 524288;

/// 2 * pi scaled by `FX_ONE`, rounded to nearest.
pub const FX_TWO_PI: i64 = 6588397;

/// pi scaled by `FX_ONE`, rounded to nearest.
pub const FX_PI: i64 = 3294199;

/// pi / 2 scaled by `FX_ONE`, rounded to nearest.
pub const FX_HALF_PI: i64 = 1647099;

/// pi / 4 scaled by `FX_ONE`, rounded to nearest.
pub const FX_QUARTER_PI: i64 = 823550;

/// Largest magnitude either factor of `fx_mul` may have (2^31): the product
/// of two such factors still fits comfortably in an `i64`.
pub const FX_FACTOR_LIMIT: i64 = 2147483648;

/// Largest magnitude the numerator of `fx_div` may have: scaled by `FX_ONE`
/// it still fits in an `i64`.
pub const FX_DIV_ARG_LIMIT: i64 = 7000000000000;

/// Rounding of a raw double-scale product back to single scale: divide by
/// `FX_ONE`, rounding to the nearest integer, halves away from zero.
pub open spec fn spec_fx_round(p: int) -> int {
    if p >= 0 {
        (p + FX_HALF) / (FX_ONE as int)
    } else {
        -(((-p) + FX_HALF) / (FX_ONE as int))
    }
}

/// Fixed-point product: the real product of the two operands, rounded to the
/// nearest representable value.
pub open spec fn spec_fx_mul(a: int, b: int) -> int {
    spec_fx_round(a * b)
}

/// Fixed-point quotient `a / b` for a positive divisor, truncated toward
/// zero (the numerator is brought to double scale first).
pub open spec fn spec_fx_div(a: int, b: int) -> int {
    if a >= 0 {
        (a * (FX_ONE as int)) / b
    } else {
        -(((-a) * (FX_ONE as int)) / b)
    }
}

/// Truncation of a fixed-point value to a whole number of units, toward
/// zero, as a float-to-integer cast would do.
pub open spec fn spec_fx_to_int(a: int) -> int {
    if a >= 0 {
        a / (FX_ONE as int)
    } else {
        -((-a) / (FX_ONE as int))
    }
}

/// Dividing a nonnegative number by a divisor of at least one cannot grow it.
pub proof fn lemma_div_le_self(x: int, d: int)
    requires
        0 <= x,
        1 <= d,
    ensures
        0 <= x / d <= x,
{
    lemma_div_pos_is_pos(x, d);
    assert(x < d * (x + 1)) by (nonlinear_arith)
        requires
            0 <= x,
            1 <= d,
    ;
    lemma_multiply_divide_lt(x, d, x + 1);
}

/// The rounding step is bounded by the rounding of any bound on the raw
/// product.
pub proof fn lemma_fx_round_abs(p: int, m: int)
    requires
        -m <= p <= m,
        0 <= m,
    ensures
        -((m + FX_HALF) / (FX_ONE as int)) <= spec_fx_round(p) <= (m + FX_HALF) / (FX_ONE as int),
{
    if p >= 0 {
        lemma_div_is_ordered(p + FX_HALF, m + FX_HALF, FX_ONE as int);
        lemma_div_pos_is_pos(p + FX_HALF, FX_ONE as int);
        lemma_div_pos_is_pos(m + FX_HALF, FX_ONE as int);
    } else {
        lemma_div_is_ordered((-p) + FX_HALF, m + FX_HALF, FX_ONE as int);
        lemma_div_pos_is_pos((-p) + FX_HALF, FX_ONE as int);
        lemma_div_pos_is_pos(m + FX_HALF, FX_ONE as int);
    }
}

/// Operand bounds carry over to the fixed-point product.
pub proof fn lemma_fx_mul_bounded(a: int, b: int, ba: int, bb: int)
    requires
        -ba <= a <= ba,
        -bb <= b <= bb,
        0 <= ba,
        0 <= bb,
    ensures
        -(ba * bb) <= a * b <= ba * bb,
        -((ba * bb + FX_HALF) / (FX_ONE as int)) <= spec_fx_mul(a, b)
            <= (ba * bb + FX_HALF) / (FX_ONE as int),
{
    assert(-(ba * bb) <= a * b <= ba * bb) by (nonlinear_arith)
        requires
            -ba <= a <= ba,
            -bb <= b <= bb,
            0 <= ba,
            0 <= bb,
    ;
    lemma_fx_round_abs(a * b, ba * bb);
}

/// A factor of magnitude at most one unit cannot grow the other factor:
/// `|fx_mul(a, b)| <= |a|` whenever `|b| <= FX_ONE`.
pub proof fn lemma_fx_mul_unit(a: int, b: int, ba: int)
    requires
        -ba <= a <= ba,
        0 <= ba,
        -FX_ONE <= b <= FX_ONE,
    ensures
        -ba <= spec_fx_mul(a, b) <= ba,
{
    lemma_fx_mul_bounded(a, b, ba, FX_ONE as int);
    assert(ba * FX_ONE + FX_HALF < (FX_ONE as int) * (ba + 1)) by (nonlinear_arith)
        requires
            0 <= ba,
    ;
    lemma_multiply_divide_lt(ba * FX_ONE + FX_HALF, FX_ONE as int, ba + 1);
}

/// A nonnegative product rounds to a nonnegative value.
pub proof fn lemma_fx_mul_nonneg(a: int, b: int)
    requires
        0 <= a,
        0 <= b,
    ensures
        0 <= spec_fx_mul(a, b),
{
    assert(0 <= a * b) by (nonlinear_arith)
        requires
            0 <= a,
            0 <= b,
    ;
    lemma_div_pos_is_pos(a * b + FX_HALF, FX_ONE as int);
}

/// A bound on the numerator carries over to the fixed-point quotient, for
/// any positive divisor.
pub proof fn lemma_fx_div_bound(a: int, b: int, ba: int)
    requires
        1 <= b,
        -ba <= a <= ba,
        0 <= ba,
    ensures
        -(ba * (FX_ONE as int)) <= spec_fx_div(a, b) <= ba * (FX_ONE as int),
        a >= 0 ==> 0 <= spec_fx_div(a, b),
{
    if a >= 0 {
        assert(0 <= a * FX_ONE <= ba * FX_ONE) by (nonlinear_arith)
            requires
                0 <= a <= ba,
        ;
        lemma_div_le_self(a * FX_ONE, b);
    } else {
        assert(0 <= (-a) * FX_ONE <= ba * FX_ONE) by (nonlinear_arith)
            requires
                0 <= -a <= ba,
        ;
        lemma_div_le_self((-a) * FX_ONE, b);
    }
}

/// Truncating to whole units brings a value bounded by `ba * FX_ONE` down to
/// a value bounded by `ba`.
pub proof fn lemma_fx_to_int_shrink(a: int, ba: int)
    requires
        -(ba * FX_ONE) <= a <= ba * FX_ONE,
        0 <= ba,
    ensures
        -ba <= spec_fx_to_int(a) <= ba,
{
    lemma_div_multiples_vanish(ba, FX_ONE as int);
    assert(ba * FX_ONE == (FX_ONE as int) * ba) by (nonlinear_arith);
    if a >= 0 {
        lemma_div_is_ordered(a, ba * FX_ONE, FX_ONE as int);
        lemma_div_pos_is_pos(a, FX_ONE as int);
    } else {
        lemma_div_is_ordered(-a, ba * FX_ONE, FX_ONE as int);
        lemma_div_pos_is_pos(-a, FX_ONE as int);
    }
}

/// A square rounds to a nonnegative value.
pub proof fn lemma_fx_mul_square_nonneg(a: int)
    ensures
        0 <= spec_fx_mul(a, a),
{
    assert(0 <= a * a) by (nonlinear_arith);
    lemma_div_pos_is_pos(a * a + FX_HALF, FX_ONE as int);
}

/// Fixed-point multiplication, rounding to nearest.
pub fn fx_mul(a: i64, b: i64) -> (r: i64)
    requires
        -FX_FACTOR_LIMIT <= a <= FX_FACTOR_LIMIT,
        -FX_FACTOR_LIMIT <= b <= FX_FACTOR_LIMIT,
    ensures
        r == spec_fx_mul(a as int, b as int),
{
    proof {
        lemma_fx_mul_bounded(a as int, b as int, FX_FACTOR_LIMIT as int, FX_FACTOR_LIMIT as int);
    }
    let p: i64 = a * b;
    if p >= 0 {
        let q: u64 = ((p as u64) + (FX_HALF as u64)) / (FX_ONE as u64);
        proof {
            lemma_div_le_self(p + FX_HALF, FX_ONE as int);
        }
        q as i64
    } else {
        let m: u64 = (-p) as u64;
        let q: u64 = (m + (FX_HALF as u64)) / (FX_ONE as u64);
        proof {
            lemma_div_le_self((-p) + FX_HALF, FX_ONE as int);
        }
        -(q as i64)
    }
}

/// Fixed-point division by a positive divisor, truncating toward zero.
pub fn fx_div(a: i64, b: i64) -> (r: i64)
    requires
        1 <= b,
        -FX_DIV_ARG_LIMIT <= a <= FX_DIV_ARG_LIMIT,
    ensures
        r == spec_fx_div(a as int, b as int),
{
    if a >= 0 {
        proof {
            assert(a * FX_ONE <= FX_DIV_ARG_LIMIT * FX_ONE) by (nonlinear_arith)
                requires
                    0 <= a <= FX_DIV_ARG_LIMIT,
            ;
            lemma_div_le_self(a * FX_ONE, b as int);
        }
        let n: u64 = (a as u64) * (FX_ONE as u64);
        let q: u64 = n / (b as u64);
        q as i64
    } else {
        proof {
            assert((-a) * FX_ONE <= FX_DIV_ARG_LIMIT * FX_ONE) by (nonlinear_arith)
                requires
                    0 < -a <= FX_DIV_ARG_LIMIT,
            ;
            lemma_div_le_self((-a) * FX_ONE, b as int);
        }
        let n: u64 = ((-a) as u64) * (FX_ONE as u64);
        let q: u64 = n / (b as u64);
        -(q as i64)
    }
}

/// Truncation of a fixed-point value to whole units, toward zero.
pub fn fx_to_int(a: i64) -> (r: i64)
    requires
        -FX_DIV_ARG_LIMIT * FX_ONE <= a,
    ensures
        r == spec_fx_to_int(a as int),
{
    if a >= 0 {
        let q: u64 = (a as u64) / (FX_ONE as u64);
        proof {
            lemma_div_le_self(a as int, FX_ONE as int);
        }
        q as i64
    } else {
        let q: u64 = ((-a) as u64) / (FX_ONE as u64);
        proof {
            lemma_div_le_self(-(a as int), FX_ONE as int);
        }
        -(q as i64)
    }
}

/// The integer square root, by definition: the largest `r` with `r * r <= x`.
pub open spec fn spec_isqrt(x: nat) -> nat
    decreases x,
{
    if x == 0 {
        0
    } else {
        let p = spec_isqrt((x - 1) as nat);
        if (p + 1) * (p + 1) <= x {
            p + 1
        } else {
            p
        }
    }
}

/// The defining property of `spec_isqrt`.
pub proof fn lemma_isqrt_props(x: nat)
    ensures
        spec_isqrt(x) * spec_isqrt(x) <= x,
        x < (spec_isqrt(x) + 1) * (spec_isqrt(x) + 1),
    decreases x,
{
    if x == 0 {
        assert(spec_isqrt(0) == 0);
        assert(x < (spec_isqrt(x) + 1) * (spec_isqrt(x) + 1)) by (nonlinear_arith)
            requires
                x == 0,
                spec_isqrt(x) == 0,
        ;
    } else {
        lemma_isqrt_props((x - 1) as nat);
        let p = spec_isqrt((x - 1) as nat);
        assert(p * p <= x - 1);
        assert(x - 1 < (p + 1) * (p + 1));
        if (p + 1) * (p + 1) <= x {
            assert(spec_isqrt(x) == p + 1);
            assert(x == (p + 1) * (p + 1));
            assert((p + 1) * (p + 1) < (p + 2) * (p + 2)) by (nonlinear_arith)
                requires
                    0 <= p,
            ;
        } else {
            assert(spec_isqrt(x) == p);
        }
    }
}

/// Any root with the bracketing property is the integer square root.
pub proof fn lemma_isqrt_unique(x: nat, r: nat)
    requires
        r * r <= x,
        x < (r + 1) * (r + 1),
    ensures
        r == spec_isqrt(x),
{
    let s = spec_isqrt(x);
    lemma_isqrt_props(x);
    if r < s {
        assert((r + 1) * (r + 1) <= s * s) by (nonlinear_arith)
            requires
                r + 1 <= s,
        ;
    }
    if s < r {
        assert((s + 1) * (s + 1) <= r * r) by (nonlinear_arith)
            requires
                s + 1 <= r,
        ;
    }
}

/// Integer square root by bisection.
pub fn isqrt(x: u64) -> (r: u64)
    ensures
        r == spec_isqrt(x as nat),
        r * r <= x,
        x < (r + 1) * (r + 1),
        r <= 4294967295,
{
    let mut lo: u64 = 0;
    let mut hi: u64 = 4294967296;
    proof {
        assert((4294967296 as int) * (4294967296 as int) > u64::MAX) by (nonlinear_arith);
    }
    while lo + 1 < hi
        invariant
            lo < hi <= 4294967296,
            lo * lo <= x,
            x < hi * hi,
        decreases hi - lo,
    {
        proof {
            lemma_div_le_self((hi - lo) as int, 2);
            assert(((hi - lo) as int) / 2 < (hi - lo) as int) by (nonlinear_arith)
                requires
                    2 <= hi - lo,
            ;
            lemma_div_is_ordered(2, (hi - lo) as int, 2);
        }
        let mid: u64 = lo + (hi - lo) / 2;
        proof {
            assert(mid * mid <= (4294967295 as int) * (4294967295 as int)) by (nonlinear_arith)
                requires
                    0 <= mid <= 4294967295,
            ;
        }
        if mid * mid <= x {
            lo = mid;
        } else {
            hi = mid;
        }
    }
    proof {
        lemma_isqrt_unique(x as nat, lo as nat);
    }
    lo
}

} // verus!
