//! Shape generators: a point cloud with paired surface normals.
//!
//! The torus generator samples both parameter angles at a common angular
//! increment of a full turn over the precision; the cube generator lays an
//! even grid over each of the six faces. Every generated point carries the
//! outward unit normal of its surface patch, in the same fixed-point scale
//! as the positions.

use vstd::prelude::*;

verus! {

use crate::fixed::{
    fx_mul, lemma_div_le_self, lemma_fx_mul_unit, spec_fx_mul, FX_ONE, FX_TWO_PI,
};
use crate::rot::{rot_wf, spec_rot_apply, Rotation, ROT_APPLY_LIMIT, ROT_RESULT_LIMIT};
use crate::trig::{sin_cos_fx, spec_cos_fx, spec_sin_fx};
use crate::vec3::{vec_in_range, Vec3};
use vstd::arithmetic::div_mod::{
    lemma_div_is_ordered_by_denominator, lemma_div_pos_is_pos, lemma_fundamental_div_mod,
    lemma_mod_division_less_than_divisor,
};

/// Largest coordinate magnitude a generated shape may hold (2^27): such a
/// shape can be rotated without leaving the verified ranges.
pub const SHAPE_COORD_LIMIT: i64 = 134217728;

/// Largest accepted sampling precision.
pub const SHAPE_PRECISION_LIMIT: usize = 4096;

/// A sampled surface position with its outward surface normal.
#[derive(Clone, Copy, Debug, PartialEq, Eq, Structural)]
pub struct PointNormal {
    pub pos: Vec3,
    pub normal: Vec3,
}

/// Positions stay within the shape coordinate range and normals within two
/// units.
pub open spec fn pn_wf(p: PointNormal) -> bool {
    &&& vec_in_range(p.pos, SHAPE_COORD_LIMIT as int)
    &&& vec_in_range(p.normal, 2 * FX_ONE)
}

/// An ordered collection of point-normal pairs.
#[derive(Debug)]
pub struct Shape {
    pub points: Vec<PointNormal>,
}

/// Every stored pair is well formed.
pub open spec fn shape_wf(s: Shape) -> bool {
    forall|k: int| 0 <= k < s.points@.len() ==> pn_wf(#[trigger] s.points@[k])
}

/// The common angular increment of the torus sampling: a full turn divided
/// by the precision.
pub open spec fn spec_torus_increment(precision: int) -> int {
    (FX_TWO_PI as int) / precision
}

/// A torus sample from the minor radius `r1`, major radius `r2` and the
/// cosine and sine of the azimuthal angle (`ct`, `st`) and of the tube angle
/// (`cp`, `sp`).
pub open spec fn spec_torus_point(r1: int, r2: int, ct: int, st: int, cp: int, sp: int) -> PointNormal {
    let ring = r2 + spec_fx_mul(r1, cp);
    PointNormal {
        pos: Vec3 {
            x: spec_fx_mul(ring, ct) as i64,
            y: spec_fx_mul(ring, st) as i64,
            z: spec_fx_mul(r1, sp) as i64,
        },
        normal: Vec3 {
            x: spec_fx_mul(cp, ct) as i64,
            y: spec_fx_mul(cp, st) as i64,
            z: sp as i64,
        },
    }
}

/// The torus sample of grid indices `(i, j)` at the given precision.
pub open spec fn spec_torus_pn(r1: int, r2: int, precision: int, i: int, j: int) -> PointNormal {
    let inc = spec_torus_increment(precision);
    spec_torus_point(
        r1,
        r2,
        spec_cos_fx(inc * i),
        spec_sin_fx(inc * i),
        spec_cos_fx(inc * j),
        spec_sin_fx(inc * j),
    )
}

/// A cube sample on face `f` (0 to 5: the -x, -y, -z, +x, +y and +z faces in
/// emission order) at half edge `half` and in-face offsets `dd1`, `dd2`.
pub open spec fn spec_cube_face_point(half: int, dd1: int, dd2: int, f: int) -> PointNormal {
    if f == 0 {
        PointNormal {
            pos: Vec3 { x: (-half) as i64, y: dd1 as i64, z: dd2 as i64 },
            normal: Vec3 { x: (-FX_ONE) as i64, y: 0, z: 0 },
        }
    } else if f == 1 {
        PointNormal {
            pos: Vec3 { x: dd1 as i64, y: (-half) as i64, z: dd2 as i64 },
            normal: Vec3 { x: 0, y: (-FX_ONE) as i64, z: 0 },
        }
    } else if f == 2 {
        PointNormal {
            pos: Vec3 { x: dd1 as i64, y: dd2 as i64, z: (-half) as i64 },
            normal: Vec3 { x: 0, y: 0, z: (-FX_ONE) as i64 },
        }
    } else if f == 3 {
        PointNormal {
            pos: Vec3 { x: half as i64, y: dd1 as i64, z: dd2 as i64 },
            normal: Vec3 { x: FX_ONE, y: 0, z: 0 },
        }
    } else if f == 4 {
        PointNormal {
            pos: Vec3 { x: dd1 as i64, y: half as i64, z: dd2 as i64 },
            normal: Vec3 { x: 0, y: FX_ONE, z: 0 },
        }
    } else {
        PointNormal {
            pos: Vec3 { x: dd1 as i64, y: dd2 as i64, z: half as i64 },
            normal: Vec3 { x: 0, y: 0, z: FX_ONE },
        }
    }
}

/// The cube sample of grid indices `(d1, d2)` and face `f` for edge length
/// `length` at the given precision.
pub open spec fn spec_cube_pn(length: int, precision: int, d1: int, d2: int, f: int) -> PointNormal {
    let inc = length / precision;
    let half = length / 2;
    spec_cube_face_point(half, -half + d1 * inc, -half + d2 * inc, f)
}

/// The point lies exactly on one of the six planes at distance `half` from
/// the center.
pub open spec fn cube_on_face(p: PointNormal, half: int) -> bool {
    ||| p.pos.x == half
    ||| p.pos.x == -half
    ||| p.pos.y == half
    ||| p.pos.y == -half
    ||| p.pos.z == half
    ||| p.pos.z == -half
}

impl Shape {
    /// An empty shape.
    pub fn new() -> (s: Shape)
        ensures
            s.points@.len() == 0,
            shape_wf(s),
    {
        Shape { points: Vec::new() }
    }

    /// Fills the shape with the torus point cloud: `precision * precision`
    /// samples of the surface of the torus of minor radius `r1` and major
    /// radius `r2`, each with its outward unit normal.
    pub fn initialize_donut(&mut self, r1: i64, r2: i64, precision: usize)
        requires
            0 <= r1,
            0 <= r2,
            r1 + r2 <= SHAPE_COORD_LIMIT,
            1 <= precision <= SHAPE_PRECISION_LIMIT,
        ensures
            final(self).points@.len() == precision * precision,
            forall|i: int, j: int|
                0 <= i < precision && 0 <= j < precision ==> final(self).points@[i * (precision as int) + j]
                    == spec_torus_pn(r1 as int, r2 as int, precision as int, i, j),
            shape_wf(*final(self)),
            forall|k: int|
                0 <= k < final(self).points@.len() ==> vec_in_range(
                    (#[trigger] final(self).points@[k]).normal,
                    FX_ONE as int,
                ),
            forall|k: int|
                0 <= k < final(self).points@.len() ==> vec_in_range(
                    (#[trigger] final(self).points@[k]).pos,
                    r1 + r2,
                ),
    {
        let n: usize = precision;
        let ghost n_int: int = n as int;
        self.points = Vec::new();
        proof {
            lemma_div_pos_is_pos(FX_TWO_PI as int, n_int);
            lemma_div_le_self(FX_TWO_PI as int, n_int);
            lemma_fundamental_div_mod(FX_TWO_PI as int, n_int);
            lemma_mod_division_less_than_divisor(FX_TWO_PI as int, n_int);
            lemma_div_is_ordered_by_denominator(FX_TWO_PI as int, n_int, SHAPE_PRECISION_LIMIT as int);
        }
        let inc: i64 = ((FX_TWO_PI as u64) / (n as u64)) as i64;
        proof {
            assert(inc >= FX_TWO_PI as int / (SHAPE_PRECISION_LIMIT as int));
            assert(FX_TWO_PI as int / 4096 == 1608);
        }
        let mut i: usize = 0;
        while i < n
            invariant
                1 <= n <= SHAPE_PRECISION_LIMIT,
                n_int == n as int,
                0 <= r1,
                0 <= r2,
                r1 + r2 <= SHAPE_COORD_LIMIT,
                inc == spec_torus_increment(n_int),
                1 <= inc <= FX_TWO_PI,
                n_int * inc <= FX_TWO_PI,
                i <= n,
                self.points@.len() == i * n_int,
                forall|a: int, b: int|
                    0 <= a < i && 0 <= b < n_int ==> self.points@[a * n_int + b] == spec_torus_pn(
                        r1 as int,
                        r2 as int,
                        n_int,
                        a,
                        b,
                    ),
                forall|k: int| 0 <= k < self.points@.len() ==> pn_wf(#[trigger] self.points@[k]),
                forall|k: int|
                    0 <= k < self.points@.len() ==> vec_in_range(
                        (#[trigger] self.points@[k]).normal,
                        FX_ONE as int,
                    ),
                forall|k: int|
                    0 <= k < self.points@.len() ==> vec_in_range(
                        (#[trigger] self.points@[k]).pos,
                        r1 + r2,
                    ),
            decreases n - i,
        {
            proof {
                assert(inc * i <= inc * (n_int - 1) && 0 <= inc * i) by (nonlinear_arith)
                    requires
                        0 <= inc,
                        0 <= i <= n_int - 1,
                ;
                assert(inc * (n_int - 1) == n_int * inc - inc) by (nonlinear_arith);
            }
            let theta: i64 = inc * (i as i64);
            let (ct, st) = sin_cos_fx(theta);
            let mut j: usize = 0;
            while j < n
                invariant
                    1 <= n <= SHAPE_PRECISION_LIMIT,
                    n_int == n as int,
                    0 <= r1,
                    0 <= r2,
                    r1 + r2 <= SHAPE_COORD_LIMIT,
                    inc == spec_torus_increment(n_int),
                    1 <= inc <= FX_TWO_PI,
                    n_int * inc <= FX_TWO_PI,
                    i < n,
                    j <= n,
                    theta == inc * (i as int),
                    ct == spec_cos_fx(theta as int),
                    st == spec_sin_fx(theta as int),
                    -FX_ONE <= ct <= FX_ONE,
                    -FX_ONE <= st <= FX_ONE,
                    self.points@.len() == i * n_int + j,
                    forall|a: int, b: int|
                        0 <= a < i && 0 <= b < n_int ==> self.points@[a * n_int + b]
                            == spec_torus_pn(r1 as int, r2 as int, n_int, a, b),
                    forall|b: int|
                        0 <= b < j ==> self.points@[i * n_int + b] == spec_torus_pn(
                            r1 as int,
                            r2 as int,
                            n_int,
                            i as int,
                            b,
                        ),
                    forall|k: int| 0 <= k < self.points@.len() ==> pn_wf(#[trigger] self.points@[k]),
                    forall|k: int|
                        0 <= k < self.points@.len() ==> vec_in_range(
                            (#[trigger] self.points@[k]).normal,
                            FX_ONE as int,
                        ),
                    forall|k: int|
                        0 <= k < self.points@.len() ==> vec_in_range(
                            (#[trigger] self.points@[k]).pos,
                            r1 + r2,
                        ),
                decreases n - j,
            {
                proof {
                    assert(inc * j <= inc * (n_int - 1) && 0 <= inc * j) by (nonlinear_arith)
                        requires
                            0 <= inc,
                            0 <= j <= n_int - 1,
                    ;
                    assert(inc * (n_int - 1) == n_int * inc - inc) by (nonlinear_arith);
                }
                let phi: i64 = inc * (j as i64);
                let (cp, sp) = sin_cos_fx(phi);
                proof {
                    lemma_fx_mul_unit(r1 as int, cp as int, r1 as int);
                }
                let ring = r2 + fx_mul(r1, cp);
                proof {
                    lemma_fx_mul_unit(ring as int, ct as int, (r1 + r2) as int);
                    lemma_fx_mul_unit(ring as int, st as int, (r1 + r2) as int);
                    lemma_fx_mul_unit(r1 as int, sp as int, r1 as int);
                    lemma_fx_mul_unit(cp as int, ct as int, FX_ONE as int);
                    lemma_fx_mul_unit(cp as int, st as int, FX_ONE as int);
                }
                let pn = PointNormal {
                    pos: Vec3 { x: fx_mul(ring, ct), y: fx_mul(ring, st), z: fx_mul(r1, sp) },
                    normal: Vec3 { x: fx_mul(cp, ct), y: fx_mul(cp, st), z: sp },
                };
                proof {
                    assert(pn == spec_torus_pn(r1 as int, r2 as int, n_int, i as int, j as int));
                }
                self.points.push(pn);
                proof {
                    assert forall|a: int, b: int| 0 <= a < i && 0 <= b < n_int implies self.points@[
                        a * n_int + b
                    ] == spec_torus_pn(r1 as int, r2 as int, n_int, a, b) by {
                        assert(0 <= a * n_int + b && a * n_int + b < i * n_int) by (nonlinear_arith)
                            requires
                                0 <= a,
                                a < i,
                                0 <= b,
                                b < n_int,
                        ;
                    }
                }
                j += 1;
            }
            proof {
                assert((i + 1) * n_int == i * n_int + n_int) by (nonlinear_arith);
            }
            i += 1;
        }
        proof {
            assert(i * n_int == n_int * n_int) by (nonlinear_arith)
                requires
                    i == n_int,
            ;
            assert(n_int * n_int == (precision * precision) as int) by (nonlinear_arith)
                requires
                    n_int == precision as int,
                    precision <= 4096,
            ;
        }
    }

    /// Fills the shape with the cube point cloud: an even grid of
    /// `precision * precision` samples on each of the six faces of the cube
    /// of the given edge length, each sample with the unit normal of its
    /// face.
    pub fn initialize_cube(&mut self, length: i64, precision: usize)
        requires
            0 <= length <= SHAPE_COORD_LIMIT,
            1 <= precision <= SHAPE_PRECISION_LIMIT,
        ensures
            final(self).points@.len() == 6 * precision * precision,
            forall|d1: int, d2: int, f: int|
                0 <= d1 < precision && 0 <= d2 < precision && 0 <= f < 6 ==> final(self).points@[(d1
                    * (precision as int) + d2) * 6 + f] == spec_cube_pn(
                    length as int,
                    precision as int,
                    d1,
                    d2,
                    f,
                ),
            shape_wf(*final(self)),
            forall|k: int|
                0 <= k < final(self).points@.len() ==> cube_on_face(
                    #[trigger] final(self).points@[k],
                    (length as int) / 2,
                ),
    {
        let n: usize = precision;
        let ghost n_int: int = n as int;
        self.points = Vec::new();
        proof {
            lemma_div_pos_is_pos(length as int, n_int);
            lemma_div_le_self(length as int, n_int);
            lemma_fundamental_div_mod(length as int, n_int);
            lemma_mod_division_less_than_divisor(length as int, n_int);
            lemma_div_pos_is_pos(length as int, 2);
            lemma_div_le_self(length as int, 2);
            lemma_fundamental_div_mod(length as int, 2);
            lemma_mod_division_less_than_divisor(length as int, 2);
        }
        let inc: i64 = ((length as u64) / (n as u64)) as i64;
        let half: i64 = ((length as u64) / 2) as i64;
        let mut d1: usize = 0;
        while d1 < n
            invariant
                1 <= n <= SHAPE_PRECISION_LIMIT,
                n_int == n as int,
                0 <= length <= SHAPE_COORD_LIMIT,
                inc == length as int / n_int,
                half == length as int / 2,
                0 <= inc <= length,
                0 <= half <= length,
                n_int * inc <= length,
                2 * half <= length,
                d1 <= n,
                self.points@.len() == d1 * n_int * 6,
                forall|a: int, b: int, f: int|
                    0 <= a < d1 && 0 <= b < n_int && 0 <= f < 6 ==> self.points@[(a * n_int + b) * 6
                        + f] == spec_cube_pn(length as int, n_int, a, b, f),
                forall|k: int| 0 <= k < self.points@.len() ==> pn_wf(#[trigger] self.points@[k]),
                forall|k: int|
                    0 <= k < self.points@.len() ==> cube_on_face(
                        #[trigger] self.points@[k],
                        (length as int) / 2,
                    ),
            decreases n - d1,
        {
            proof {
                assert(0 <= d1 * inc <= (n_int - 1) * inc) by (nonlinear_arith)
                    requires
                        0 <= inc,
                        0 <= d1 <= n_int - 1,
                ;
                assert((n_int - 1) * inc == n_int * inc - inc) by (nonlinear_arith);
            }
            let dd1: i64 = -half + (d1 as i64) * inc;
            let mut d2: usize = 0;
            while d2 < n
                invariant
                    1 <= n <= SHAPE_PRECISION_LIMIT,
                    n_int == n as int,
                    0 <= length <= SHAPE_COORD_LIMIT,
                    inc == length as int / n_int,
                    half == length as int / 2,
                    0 <= inc <= length,
                    0 <= half <= length,
                    n_int * inc <= length,
                    2 * half <= length,
                    d1 < n,
                    d2 <= n,
                    dd1 == -(half as int) + d1 * inc,
                    -(half as int) <= dd1 <= length,
                    self.points@.len() == (d1 * n_int + d2) * 6,
                    forall|a: int, b: int, f: int|
                        0 <= a < d1 && 0 <= b < n_int && 0 <= f < 6 ==> self.points@[(a * n_int + b)
                            * 6 + f] == spec_cube_pn(length as int, n_int, a, b, f),
                    forall|b: int, f: int|
                        0 <= b < d2 && 0 <= f < 6 ==> self.points@[((d1 as int) * n_int + b) * 6 + f]
                            == spec_cube_pn(length as int, n_int, d1 as int, b, f),
                    forall|k: int| 0 <= k < self.points@.len() ==> pn_wf(#[trigger] self.points@[k]),
                    forall|k: int|
                        0 <= k < self.points@.len() ==> cube_on_face(
                            #[trigger] self.points@[k],
                            (length as int) / 2,
                        ),
                decreases n - d2,
            {
                proof {
                    assert(0 <= d2 * inc <= (n_int - 1) * inc) by (nonlinear_arith)
                        requires
                            0 <= inc,
                            0 <= d2 <= n_int - 1,
                    ;
                    assert((n_int - 1) * inc == n_int * inc - inc) by (nonlinear_arith);
                }
                let dd2: i64 = -half + (d2 as i64) * inc;
                let ghost base: int = self.points@.len() as int;
                let ghost before: Seq<PointNormal> = self.points@;
                proof {
                    assert((d1 * n_int + d2) * 6 + 6 == (d1 * n_int + d2 + 1) * 6)
                        by (nonlinear_arith);
                }
                self.points.push(
                    PointNormal {
                        pos: Vec3 { x: -half, y: dd1, z: dd2 },
                        normal: Vec3 { x: -FX_ONE, y: 0, z: 0 },
                    },
                );
                self.points.push(
                    PointNormal {
                        pos: Vec3 { x: dd1, y: -half, z: dd2 },
                        normal: Vec3 { x: 0, y: -FX_ONE, z: 0 },
                    },
                );
                self.points.push(
                    PointNormal {
                        pos: Vec3 { x: dd1, y: dd2, z: -half },
                        normal: Vec3 { x: 0, y: 0, z: -FX_ONE },
                    },
                );
                self.points.push(
                    PointNormal {
                        pos: Vec3 { x: half, y: dd1, z: dd2 },
                        normal: Vec3 { x: FX_ONE, y: 0, z: 0 },
                    },
                );
                self.points.push(
                    PointNormal {
                        pos: Vec3 { x: dd1, y: half, z: dd2 },
                        normal: Vec3 { x: 0, y: FX_ONE, z: 0 },
                    },
                );
                self.points.push(
                    PointNormal {
                        pos: Vec3 { x: dd1, y: dd2, z: half },
                        normal: Vec3 { x: 0, y: 0, z: FX_ONE },
                    },
                );
                proof {
                    assert(forall|q: int| 0 <= q < base ==> self.points@[q] == before[q]);
                    assert forall|a: int, b: int, f: int|
                        0 <= a < d1 && 0 <= b < n_int && 0 <= f < 6 implies self.points@[(a * n_int
                        + b) * 6 + f] == spec_cube_pn(length as int, n_int, a, b, f) by {
                        assert(0 <= (a * n_int + b) * 6 + f && (a * n_int + b) * 6 + f < (d1 * n_int
                            + d2) * 6) by (nonlinear_arith)
                            requires
                                0 <= a,
                                a < d1,
                                0 <= b,
                                b < n_int,
                                0 <= f,
                                f < 6,
                                0 <= d2,
                        ;
                    }
                    assert forall|b: int, f: int| 0 <= b < d2 && 0 <= f < 6 implies self.points@[((
                    d1 as int) * n_int + b) * 6 + f] == spec_cube_pn(
                        length as int,
                        n_int,
                        d1 as int,
                        b,
                        f,
                    ) by {
                        assert(0 <= ((d1 as int) * n_int + b) * 6 + f && ((d1 as int) * n_int + b)
                            * 6 + f < ((d1 as int) * n_int + d2) * 6) by (nonlinear_arith)
                            requires
                                0 <= b,
                                b < d2,
                                0 <= f,
                                f < 6,
                                0 <= d1,
                                0 <= n_int,
                        ;
                    }
                    assert(self.points@[base + 0] == spec_cube_pn(length as int, n_int, d1 as int, d2 as int, 0));
                    assert(self.points@[base + 1] == spec_cube_pn(length as int, n_int, d1 as int, d2 as int, 1));
                    assert(self.points@[base + 2] == spec_cube_pn(length as int, n_int, d1 as int, d2 as int, 2));
                    assert(self.points@[base + 3] == spec_cube_pn(length as int, n_int, d1 as int, d2 as int, 3));
                    assert(self.points@[base + 4] == spec_cube_pn(length as int, n_int, d1 as int, d2 as int, 4));
                    assert(self.points@[base + 5] == spec_cube_pn(length as int, n_int, d1 as int, d2 as int, 5));
                }
                d2 += 1;
            }
            proof {
                assert((d1 * n_int + n_int) * 6 == ((d1 + 1) * n_int) * 6) by (nonlinear_arith);
            }
            d1 += 1;
        }
        proof {
            assert(d1 * n_int * 6 == (6 * precision * precision) as int) by (nonlinear_arith)
                requires
                    d1 == n_int,
                    n_int == precision as int,
                    precision <= 4096,
            ;
        }
    }

    /// Overwrites every point and normal with its rotated value: the
    /// cumulative-rotation pattern, which compounds across calls.
    pub fn rotate(&mut self, rot: &Rotation)
        requires
            rot_wf(*rot),
            shape_wf(*old(self)),
        ensures
            final(self).points@.len() == old(self).points@.len(),
            forall|k: int|
                0 <= k < final(self).points@.len() ==> #[trigger] final(self).points@[k] == (PointNormal {
                    pos: spec_rot_apply(*rot, old(self).points@[k].pos),
                    normal: spec_rot_apply(*rot, old(self).points@[k].normal),
                }),
            forall|k: int|
                0 <= k < final(self).points@.len() ==> vec_in_range(
                    (#[trigger] final(self).points@[k]).pos,
                    ROT_RESULT_LIMIT as int,
                ) && vec_in_range(final(self).points@[k].normal, ROT_RESULT_LIMIT as int),
    {
        let len = self.points.len();
        let mut k: usize = 0;
        while k < len
            invariant
                rot_wf(*rot),
                shape_wf(*old(self)),
                len == old(self).points@.len(),
                self.points@.len() == len,
                k <= len,
                forall|q: int| k <= q < len ==> self.points@[q] == old(self).points@[q],
                forall|q: int|
                    0 <= q < k ==> #[trigger] self.points@[q] == (PointNormal {
                        pos: spec_rot_apply(*rot, old(self).points@[q].pos),
                        normal: spec_rot_apply(*rot, old(self).points@[q].normal),
                    }),
                forall|q: int|
                    0 <= q < k ==> vec_in_range(
                        (#[trigger] self.points@[q]).pos,
                        ROT_RESULT_LIMIT as int,
                    ) && vec_in_range(self.points@[q].normal, ROT_RESULT_LIMIT as int),
            decreases len - k,
        {
            let p = self.points[k];
            let np = PointNormal { pos: rot.apply(&p.pos), normal: rot.apply(&p.normal) };
            self.points.set(k, np);
            k += 1;
        }
    }
}

} // verus!
