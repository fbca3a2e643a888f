//! Rigid rotations as 3x3 fixed-point matrices.
//!
//! A rotation is built either from three Euler angles (applied in the order
//! roll about x, then pitch about y, then yaw about z) or from a unit axis
//! and an angle (the Rodrigues form), and is applied to a vector by the
//! usual matrix product.

use vstd::prelude::*;

verus! {

use crate::fixed::{
    fx_mul, lemma_fx_mul_bounded, lemma_fx_mul_unit, spec_fx_mul, FX_ONE, FX_TWO_PI,
};
use crate::trig::{sin_cos_fx, spec_cos_fx, spec_sin_fx};
use crate::vec3::{vec_in_range, Vec3};

/// Every matrix entry of a well-formed rotation is bounded by this: a sum of
/// at most three products of values of magnitude at most one unit.
pub const ROT_ENTRY_LIMIT: i64 = 3145731;

/// Largest component magnitude `Rotation::apply` accepts (2^27).
pub const ROT_APPLY_LIMIT: i64 = 134217728;

/// Bound on every component that `Rotation::apply` returns.
pub const ROT_RESULT_LIMIT: i64 = 1207960704;

/// A 3x3 fixed-point matrix, row major: `m_rc` is row `r`, column `c`.
#[derive(Clone, Copy, Debug, PartialEq, Eq, Structural)]
pub struct Rotation {
    pub m00: i64,
    pub m01: i64,
    pub m02: i64,
    pub m10: i64,
    pub m11: i64,
    pub m12: i64,
    pub m20: i64,
    pub m21: i64,
    pub m22: i64,
}

/// Every entry is within the well-formedness bound.
pub open spec fn rot_wf(r: Rotation) -> bool {
    &&& -ROT_ENTRY_LIMIT <= r.m00 <= ROT_ENTRY_LIMIT
    &&& -ROT_ENTRY_LIMIT <= r.m01 <= ROT_ENTRY_LIMIT
    &&& -ROT_ENTRY_LIMIT <= r.m02 <= ROT_ENTRY_LIMIT
    &&& -ROT_ENTRY_LIMIT <= r.m10 <= ROT_ENTRY_LIMIT
    &&& -ROT_ENTRY_LIMIT <= r.m11 <= ROT_ENTRY_LIMIT
    &&& -ROT_ENTRY_LIMIT <= r.m12 <= ROT_ENTRY_LIMIT
    &&& -ROT_ENTRY_LIMIT <= r.m20 <= ROT_ENTRY_LIMIT
    &&& -ROT_ENTRY_LIMIT <= r.m21 <= ROT_ENTRY_LIMIT
    &&& -ROT_ENTRY_LIMIT <= r.m22 <= ROT_ENTRY_LIMIT
}

/// The rotation matrix of the Euler angles `(ax, ay, az)`: the product
/// `Rz(az) * Ry(ay) * Rx(ax)`, so the x rotation is applied first.
pub open spec fn spec_rot_from_euler(ax: int, ay: int, az: int) -> Rotation {
    let cx = spec_cos_fx(ax);
    let sx = spec_sin_fx(ax);
    let cy = spec_cos_fx(ay);
    let sy = spec_sin_fx(ay);
    let cz = spec_cos_fx(az);
    let sz = spec_sin_fx(az);
    Rotation {
        m00: spec_fx_mul(cy, cz) as i64,
        m01: (spec_fx_mul(spec_fx_mul(sx, sy), cz) - spec_fx_mul(cx, sz)) as i64,
        m02: (spec_fx_mul(spec_fx_mul(cx, sy), cz) + spec_fx_mul(sx, sz)) as i64,
        m10: spec_fx_mul(cy, sz) as i64,
        m11: (spec_fx_mul(spec_fx_mul(sx, sy), sz) + spec_fx_mul(cx, cz)) as i64,
        m12: (spec_fx_mul(spec_fx_mul(cx, sy), sz) - spec_fx_mul(sx, cz)) as i64,
        m20: (-sy) as i64,
        m21: spec_fx_mul(sx, cy) as i64,
        m22: spec_fx_mul(cx, cy) as i64,
    }
}

/// The rotation matrix of the Rodrigues form for a unit `axis` and `angle`:
/// `R = c * I + s * K + (1 - c) * (axis * axis^T)` with `K` the cross-product
/// matrix of the axis.
pub open spec fn spec_rot_from_axis_angle(axis: Vec3, angle: int) -> Rotation {
    let c = spec_cos_fx(angle);
    let s = spec_sin_fx(angle);
    let t = FX_ONE - c;
    let x = axis.x as int;
    let y = axis.y as int;
    let z = axis.z as int;
    Rotation {
        m00: (c + spec_fx_mul(t, spec_fx_mul(x, x))) as i64,
        m01: (spec_fx_mul(t, spec_fx_mul(x, y)) - spec_fx_mul(s, z)) as i64,
        m02: (spec_fx_mul(t, spec_fx_mul(x, z)) + spec_fx_mul(s, y)) as i64,
        m10: (spec_fx_mul(t, spec_fx_mul(x, y)) + spec_fx_mul(s, z)) as i64,
        m11: (c + spec_fx_mul(t, spec_fx_mul(y, y))) as i64,
        m12: (spec_fx_mul(t, spec_fx_mul(y, z)) - spec_fx_mul(s, x)) as i64,
        m20: (spec_fx_mul(t, spec_fx_mul(x, z)) - spec_fx_mul(s, y)) as i64,
        m21: (spec_fx_mul(t, spec_fx_mul(y, z)) + spec_fx_mul(s, x)) as i64,
        m22: (c + spec_fx_mul(t, spec_fx_mul(z, z))) as i64,
    }
}

/// The matrix product `r * v`.
pub open spec fn spec_rot_apply(r: Rotation, v: Vec3) -> Vec3 {
    Vec3 {
        x: (spec_fx_mul(r.m00 as int, v.x as int) + spec_fx_mul(r.m01 as int, v.y as int)
            + spec_fx_mul(r.m02 as int, v.z as int)) as i64,
        y: (spec_fx_mul(r.m10 as int, v.x as int) + spec_fx_mul(r.m11 as int, v.y as int)
            + spec_fx_mul(r.m12 as int, v.z as int)) as i64,
        z: (spec_fx_mul(r.m20 as int, v.x as int) + spec_fx_mul(r.m21 as int, v.y as int)
            + spec_fx_mul(r.m22 as int, v.z as int)) as i64,
    }
}

/// One row of the matrix product, with its range.
fn apply_row(m0: i64, m1: i64, m2: i64, v: &Vec3) -> (r: i64)
    requires
        -ROT_ENTRY_LIMIT <= m0 <= ROT_ENTRY_LIMIT,
        -ROT_ENTRY_LIMIT <= m1 <= ROT_ENTRY_LIMIT,
        -ROT_ENTRY_LIMIT <= m2 <= ROT_ENTRY_LIMIT,
        vec_in_range(*v, ROT_APPLY_LIMIT as int),
    ensures
        r == spec_fx_mul(m0 as int, v.x as int) + spec_fx_mul(m1 as int, v.y as int)
            + spec_fx_mul(m2 as int, v.z as int),
        -ROT_RESULT_LIMIT <= r <= ROT_RESULT_LIMIT,
{
    proof {
        lemma_fx_mul_bounded(m0 as int, v.x as int, ROT_ENTRY_LIMIT as int, ROT_APPLY_LIMIT as int);
        lemma_fx_mul_bounded(m1 as int, v.y as int, ROT_ENTRY_LIMIT as int, ROT_APPLY_LIMIT as int);
        lemma_fx_mul_bounded(m2 as int, v.z as int, ROT_ENTRY_LIMIT as int, ROT_APPLY_LIMIT as int);
        assert(ROT_ENTRY_LIMIT * ROT_APPLY_LIMIT == 422212867719168) by (nonlinear_arith);
        assert((422212867719168 + 524288int) / 1048576int == 402653568);
    }
    fx_mul(m0, v.x) + fx_mul(m1, v.y) + fx_mul(m2, v.z)
}

impl Rotation {
    /// The rotation of the three Euler angles, x roll applied first, then y
    /// pitch, then z yaw.
    pub fn from_euler_angles(ax: i64, ay: i64, az: i64) -> (r: Rotation)
        requires
            0 <= ax < FX_TWO_PI,
            0 <= ay < FX_TWO_PI,
            0 <= az < FX_TWO_PI,
        ensures
            r == spec_rot_from_euler(ax as int, ay as int, az as int),
            rot_wf(r),
    {
        let (cx, sx) = sin_cos_fx(ax);
        let (cy, sy) = sin_cos_fx(ay);
        let (cz, sz) = sin_cos_fx(az);
        proof {
            lemma_fx_mul_unit(sx as int, sy as int, FX_ONE as int);
            lemma_fx_mul_unit(cx as int, sy as int, FX_ONE as int);
            lemma_fx_mul_unit(cy as int, cz as int, FX_ONE as int);
            lemma_fx_mul_unit(cy as int, sz as int, FX_ONE as int);
            lemma_fx_mul_unit(cx as int, sz as int, FX_ONE as int);
            lemma_fx_mul_unit(cx as int, cz as int, FX_ONE as int);
            lemma_fx_mul_unit(sx as int, sz as int, FX_ONE as int);
            lemma_fx_mul_unit(sx as int, cz as int, FX_ONE as int);
            lemma_fx_mul_unit(sx as int, cy as int, FX_ONE as int);
            lemma_fx_mul_unit(cx as int, cy as int, FX_ONE as int);
            lemma_fx_mul_unit(spec_fx_mul(sx as int, sy as int), cz as int, FX_ONE as int);
            lemma_fx_mul_unit(spec_fx_mul(sx as int, sy as int), sz as int, FX_ONE as int);
            lemma_fx_mul_unit(spec_fx_mul(cx as int, sy as int), cz as int, FX_ONE as int);
            lemma_fx_mul_unit(spec_fx_mul(cx as int, sy as int), sz as int, FX_ONE as int);
        }
        let sxsy = fx_mul(sx, sy);
        let cxsy = fx_mul(cx, sy);
        Rotation {
            m00: fx_mul(cy, cz),
            m01: fx_mul(sxsy, cz) - fx_mul(cx, sz),
            m02: fx_mul(cxsy, cz) + fx_mul(sx, sz),
            m10: fx_mul(cy, sz),
            m11: fx_mul(sxsy, sz) + fx_mul(cx, cz),
            m12: fx_mul(cxsy, sz) - fx_mul(sx, cz),
            m20: -sy,
            m21: fx_mul(sx, cy),
            m22: fx_mul(cx, cy),
        }
    }

    /// The rotation of `angle` about the unit vector `axis` (Rodrigues
    /// form). The axis components must be at most one unit in magnitude;
    /// the caller supplies an axis of unit norm for a true rotation.
    pub fn from_axis_angle(axis: Vec3, angle: i64) -> (r: Rotation)
        requires
            vec_in_range(axis, FX_ONE as int),
            0 <= angle < FX_TWO_PI,
        ensures
            r == spec_rot_from_axis_angle(axis, angle as int),
            rot_wf(r),
    {
        let (c, s) = sin_cos_fx(angle);
        let t = FX_ONE - c;
        proof {
            lemma_fx_mul_unit(axis.x as int, axis.x as int, FX_ONE as int);
            lemma_fx_mul_unit(axis.x as int, axis.y as int, FX_ONE as int);
            lemma_fx_mul_unit(axis.x as int, axis.z as int, FX_ONE as int);
            lemma_fx_mul_unit(axis.y as int, axis.y as int, FX_ONE as int);
            lemma_fx_mul_unit(axis.y as int, axis.z as int, FX_ONE as int);
            lemma_fx_mul_unit(axis.z as int, axis.z as int, FX_ONE as int);
            lemma_fx_mul_unit(s as int, axis.x as int, FX_ONE as int);
            lemma_fx_mul_unit(s as int, axis.y as int, FX_ONE as int);
            lemma_fx_mul_unit(s as int, axis.z as int, FX_ONE as int);
            lemma_fx_mul_bounded(t as int, spec_fx_mul(axis.x as int, axis.x as int), 2 * FX_ONE, FX_ONE as int);
            lemma_fx_mul_bounded(t as int, spec_fx_mul(axis.x as int, axis.y as int), 2 * FX_ONE, FX_ONE as int);
            lemma_fx_mul_bounded(t as int, spec_fx_mul(axis.x as int, axis.z as int), 2 * FX_ONE, FX_ONE as int);
            lemma_fx_mul_bounded(t as int, spec_fx_mul(axis.y as int, axis.y as int), 2 * FX_ONE, FX_ONE as int);
            lemma_fx_mul_bounded(t as int, spec_fx_mul(axis.y as int, axis.z as int), 2 * FX_ONE, FX_ONE as int);
            lemma_fx_mul_bounded(t as int, spec_fx_mul(axis.z as int, axis.z as int), 2 * FX_ONE, FX_ONE as int);
            assert((2 * FX_ONE) * FX_ONE == 2199023255552) by (nonlinear_arith);
            assert((2199023255552 + 524288int) / 1048576int == 2097152);
        }
        let xx = fx_mul(axis.x, axis.x);
        let xy = fx_mul(axis.x, axis.y);
        let xz = fx_mul(axis.x, axis.z);
        let yy = fx_mul(axis.y, axis.y);
        let yz = fx_mul(axis.y, axis.z);
        let zz = fx_mul(axis.z, axis.z);
        Rotation {
            m00: c + fx_mul(t, xx),
            m01: fx_mul(t, xy) - fx_mul(s, axis.z),
            m02: fx_mul(t, xz) + fx_mul(s, axis.y),
            m10: fx_mul(t, xy) + fx_mul(s, axis.z),
            m11: c + fx_mul(t, yy),
            m12: fx_mul(t, yz) - fx_mul(s, axis.x),
            m20: fx_mul(t, xz) - fx_mul(s, axis.y),
            m21: fx_mul(t, yz) + fx_mul(s, axis.x),
            m22: c + fx_mul(t, zz),
        }
    }

    /// The rotated vector `self * v`.
    pub fn apply(&self, v: &Vec3) -> (r: Vec3)
        requires
            rot_wf(*self),
            vec_in_range(*v, ROT_APPLY_LIMIT as int),
        ensures
            r == spec_rot_apply(*self, *v),
            vec_in_range(r, ROT_RESULT_LIMIT as int),
    {
        Vec3 {
            x: apply_row(self.m00, self.m01, self.m02, v),
            y: apply_row(self.m10, self.m11, self.m12, v),
            z: apply_row(self.m20, self.m21, self.m22, v),
        }
    }
}

} // verus!
