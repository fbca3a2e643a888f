use donut::fixed::FX_ONE;
use donut::shape::Shape;

fn fx(v: i64) -> f64 {
    v as f64 / FX_ONE as f64
}

fn units(u: i64) -> i64 {
    u * FX_ONE
}

#[test]
fn torus_point_count_small() {
    let mut shape = Shape::new();
    shape.initialize_donut(units(10), units(25), 1);
    assert_eq!(shape.points.len(), 1);
    shape.initialize_donut(units(10), units(25), 5);
    assert_eq!(shape.points.len(), 25);
}

#[test]
fn torus_point_count_primary() {
    let mut shape = Shape::new();
    shape.initialize_donut(units(10), units(25), 80);
    assert_eq!(shape.points.len(), 6400);
}

#[test]
fn torus_normals_unit_length() {
    for &(r1, r2, n) in &[(10i64, 25i64, 16usize), (2, 7, 7), (10, 20, 33)] {
        let mut shape = Shape::new();
        shape.initialize_donut(units(r1), units(r2), n);
        for pn in &shape.points {
            let norm = (fx(pn.normal.x).powi(2) + fx(pn.normal.y).powi(2)
                + fx(pn.normal.z).powi(2))
                .sqrt();
            assert!(
                (norm - 1.0).abs() < 1e-5,
                "normal norm {} for r1={} r2={} n={}",
                norm,
                r1,
                r2,
                n
            );
        }
    }
}

#[test]
fn torus_points_within_radius_band() {
    let r1: i64 = 10;
    let r2: i64 = 25;
    let mut shape = Shape::new();
    shape.initialize_donut(units(r1), units(r2), 24);
    for pn in &shape.points {
        let xy = (fx(pn.pos.x).powi(2) + fx(pn.pos.y).powi(2)).sqrt();
        assert!(xy >= (r2 - r1) as f64 - 1e-3, "xy distance {} below band", xy);
        assert!(xy <= (r2 + r1) as f64 + 1e-3, "xy distance {} above band", xy);
    }
}

#[test]
fn torus_z_within_minor_radius() {
    let mut shape = Shape::new();
    shape.initialize_donut(units(10), units(25), 19);
    for pn in &shape.points {
        assert!(fx(pn.pos.z).abs() <= 10.0 + 1e-3);
    }
}

#[test]
fn cube_point_count_and_planes() {
    let length: i64 = units(40);
    let n: usize = 8;
    let mut shape = Shape::new();
    shape.initialize_cube(length, n);
    assert_eq!(shape.points.len(), 6 * n * n);
    let half = length / 2;
    for pn in &shape.points {
        let on_plane = pn.pos.x == half
            || pn.pos.x == -half
            || pn.pos.y == half
            || pn.pos.y == -half
            || pn.pos.z == half
            || pn.pos.z == -half;
        assert!(on_plane, "point ({}, {}, {}) is on no face plane", pn.pos.x, pn.pos.y, pn.pos.z);
    }
}

#[test]
fn cube_normals_are_unit_axes() {
    let mut shape = Shape::new();
    shape.initialize_cube(units(4), 3);
    for pn in &shape.points {
        let comps = [pn.normal.x, pn.normal.y, pn.normal.z];
        let ones = comps.iter().filter(|&&c| c == FX_ONE || c == -FX_ONE).count();
        let zeros = comps.iter().filter(|&&c| c == 0).count();
        assert_eq!(ones, 1);
        assert_eq!(zeros, 2);
    }
}

#[test]
fn cube_offsets_cover_grid() {
    // with n = 2 and edge 4, the offsets are -2 and 0 in each in-face axis
    let mut shape = Shape::new();
    shape.initialize_cube(units(4), 2);
    assert_eq!(shape.points.len(), 24);
    // the first emitted point is the -x face at the lowest grid corner
    let first = &shape.points[0];
    assert_eq!(first.pos.x, -units(2));
    assert_eq!(first.pos.y, -units(2));
    assert_eq!(first.pos.z, -units(2));
    assert_eq!(first.normal.x, -FX_ONE);
}

#[test]
fn torus_points_match_parametric_formula() {
    let r1: f64 = 10.0;
    let r2: f64 = 25.0;
    let n: usize = 16;
    let mut shape = Shape::new();
    shape.initialize_donut(units(10), units(25), n);
    // the generator walks both angles at the fixed-point increment, so the
    // reference uses the same quantized increment
    let inc = fx(donut::fixed::FX_TWO_PI / n as i64);
    for i in 0..n {
        for j in 0..n {
            let theta = inc * i as f64;
            let phi = inc * j as f64;
            let pn = &shape.points[i * n + j];
            let ring = r2 + r1 * phi.cos();
            assert!((fx(pn.pos.x) - ring * theta.cos()).abs() < 1e-4);
            assert!((fx(pn.pos.y) - ring * theta.sin()).abs() < 1e-4);
            assert!((fx(pn.pos.z) - r1 * phi.sin()).abs() < 1e-4);
            assert!((fx(pn.normal.x) - phi.cos() * theta.cos()).abs() < 1e-4);
            assert!((fx(pn.normal.y) - phi.cos() * theta.sin()).abs() < 1e-4);
            assert!((fx(pn.normal.z) - phi.sin()).abs() < 1e-4);
        }
    }
}

#[test]
fn cube_points_match_grid_formula() {
    let length: i64 = units(40);
    let n: usize = 5;
    let mut shape = Shape::new();
    shape.initialize_cube(length, n);
    let inc = length / n as i64;
    let half = length / 2;
    for d1 in 0..n {
        let dd1 = -half + d1 as i64 * inc;
        for d2 in 0..n {
            let dd2 = -half + d2 as i64 * inc;
            let base = (d1 * n + d2) * 6;
            let expected = [
                ((-half, dd1, dd2), (-FX_ONE, 0, 0)),
                ((dd1, -half, dd2), (0, -FX_ONE, 0)),
                ((dd1, dd2, -half), (0, 0, -FX_ONE)),
                ((half, dd1, dd2), (FX_ONE, 0, 0)),
                ((dd1, half, dd2), (0, FX_ONE, 0)),
                ((dd1, dd2, half), (0, 0, FX_ONE)),
            ];
            for (f, &((px, py, pz), (nx, ny, nz))) in expected.iter().enumerate() {
                let pn = &shape.points[base + f];
                assert_eq!((pn.pos.x, pn.pos.y, pn.pos.z), (px, py, pz));
                assert_eq!((pn.normal.x, pn.normal.y, pn.normal.z), (nx, ny, nz));
            }
        }
    }
}

#[test]
fn empty_shape_from_new() {
    let shape = Shape::new();
    assert_eq!(shape.points.len(), 0);
}
