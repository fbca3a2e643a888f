//! Three-component fixed-point vectors: subtraction, dot product and
//! Euclidean norm, each with an exact integer contract.

use vstd::prelude::*;

verus! {

use crate::fixed::{
    fx_mul, isqrt, lemma_fx_mul_bounded, lemma_fx_mul_square_nonneg, spec_fx_mul, spec_isqrt,
    FX_HALF, FX_ONE,
};

/// Largest component magnitude `dot`, `norm_sq` and `norm` accept: all the
/// intermediate products then stay inside `i64`/`u64` ranges.
pub const VEC_NORM_LIMIT: i64 = 1500000000;

/// A 3D vector of fixed-point components.
#[derive(Clone, Copy, Debug, PartialEq, Eq, Structural)]
pub struct Vec3 {
    pub x: i64,
    pub y: i64,
    pub z: i64,
}

/// All three components are bounded by `m` in magnitude.
pub open spec fn vec_in_range(v: Vec3, m: int) -> bool {
    &&& -m <= v.x <= m
    &&& -m <= v.y <= m
    &&& -m <= v.z <= m
}

/// The fixed-point dot product.
pub open spec fn spec_dot(a: Vec3, b: Vec3) -> int {
    spec_fx_mul(a.x as int, b.x as int) + spec_fx_mul(a.y as int, b.y as int) + spec_fx_mul(
        a.z as int,
        b.z as int,
    )
}

/// The fixed-point squared norm.
pub open spec fn spec_norm_sq(v: Vec3) -> int {
    spec_dot(v, v)
}

/// The fixed-point Euclidean norm: the integer square root of the squared
/// norm brought back to single scale.
pub open spec fn spec_norm(v: Vec3) -> int {
    spec_isqrt((spec_norm_sq(v) * FX_ONE) as nat) as int
}

/// Componentwise bound on each addend of a dot product of vectors in range.
proof fn lemma_dot_bounds(a: Vec3, b: Vec3, m: int)
    requires
        vec_in_range(a, m),
        vec_in_range(b, m),
        0 <= m <= VEC_NORM_LIMIT,
    ensures
        -(3 * ((m * m + FX_HALF) / (FX_ONE as int))) <= spec_dot(a, b)
            <= 3 * ((m * m + FX_HALF) / (FX_ONE as int)),
        -(3 * ((VEC_NORM_LIMIT * VEC_NORM_LIMIT + FX_HALF) / (FX_ONE as int))) <= spec_dot(a, b)
            <= 3 * ((VEC_NORM_LIMIT * VEC_NORM_LIMIT + FX_HALF) / (FX_ONE as int)),
{
    lemma_fx_mul_bounded(a.x as int, b.x as int, m, m);
    lemma_fx_mul_bounded(a.y as int, b.y as int, m, m);
    lemma_fx_mul_bounded(a.z as int, b.z as int, m, m);
    assert(m * m <= VEC_NORM_LIMIT * VEC_NORM_LIMIT) by (nonlinear_arith)
        requires
            0 <= m <= VEC_NORM_LIMIT,
    ;
    vstd::arithmetic::div_mod::lemma_div_is_ordered(
        m * m + FX_HALF,
        VEC_NORM_LIMIT * VEC_NORM_LIMIT + FX_HALF,
        FX_ONE as int,
    );
}

impl Vec3 {
    /// A vector from its three components.
    pub fn new(x: i64, y: i64, z: i64) -> (v: Vec3)
        ensures
            v == (Vec3 { x, y, z }),
    {
        Vec3 { x, y, z }
    }

    /// Componentwise subtraction.
    pub fn sub(&self, other: &Vec3) -> (r: Vec3)
        requires
            i64::MIN <= self.x - other.x <= i64::MAX,
            i64::MIN <= self.y - other.y <= i64::MAX,
            i64::MIN <= self.z - other.z <= i64::MAX,
        ensures
            r.x == self.x - other.x,
            r.y == self.y - other.y,
            r.z == self.z - other.z,
    {
        Vec3 { x: self.x - other.x, y: self.y - other.y, z: self.z - other.z }
    }

    /// The fixed-point dot product of two vectors.
    pub fn dot(&self, other: &Vec3) -> (r: i64)
        requires
            vec_in_range(*self, VEC_NORM_LIMIT as int),
            vec_in_range(*other, VEC_NORM_LIMIT as int),
        ensures
            r == spec_dot(*self, *other),
            -6437301635742 <= r <= 6437301635742,
    {
        proof {
            lemma_dot_bounds(*self, *other, VEC_NORM_LIMIT as int);
            assert(VEC_NORM_LIMIT * VEC_NORM_LIMIT == 2250000000000000000) by (nonlinear_arith);
            lemma_fx_mul_bounded(self.x as int, other.x as int, VEC_NORM_LIMIT as int, VEC_NORM_LIMIT as int);
            lemma_fx_mul_bounded(self.y as int, other.y as int, VEC_NORM_LIMIT as int, VEC_NORM_LIMIT as int);
            lemma_fx_mul_bounded(self.z as int, other.z as int, VEC_NORM_LIMIT as int, VEC_NORM_LIMIT as int);
        }
        fx_mul(self.x, other.x) + fx_mul(self.y, other.y) + fx_mul(self.z, other.z)
    }

    /// The fixed-point squared norm.
    pub fn norm_sq(&self) -> (r: i64)
        requires
            vec_in_range(*self, VEC_NORM_LIMIT as int),
        ensures
            r == spec_norm_sq(*self),
            0 <= r <= 6437301635742,
    {
        proof {
            lemma_fx_mul_square_nonneg(self.x as int);
            lemma_fx_mul_square_nonneg(self.y as int);
            lemma_fx_mul_square_nonneg(self.z as int);
        }
        self.dot(self)
    }

    /// The fixed-point Euclidean norm.
    pub fn norm(&self) -> (r: i64)
        requires
            vec_in_range(*self, VEC_NORM_LIMIT as int),
        ensures
            r == spec_norm(*self),
            0 <= r <= 4294967295,
    {
        let q = self.norm_sq();
        proof {
            assert(q * FX_ONE <= 6437301635742 * FX_ONE) by (nonlinear_arith)
                requires
                    0 <= q <= 6437301635742,
            ;
            assert(0 <= q * FX_ONE) by (nonlinear_arith)
                requires
                    0 <= q,
            ;
        }
        let scaled: u64 = (q as u64) * (FX_ONE as u64);
        isqrt(scaled) as i64
    }
}

} // verus!
