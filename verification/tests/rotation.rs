use donut::fixed::{FX_HALF_PI, FX_ONE, FX_PI, FX_TWO_PI};
use donut::rot::Rotation;
use donut::shape::Shape;
use donut::trig::sin_cos_fx;
use donut::vec3::Vec3;

fn fx(v: i64) -> f64 {
    v as f64 / FX_ONE as f64
}

fn norm(v: &Vec3) -> f64 {
    (fx(v.x).powi(2) + fx(v.y).powi(2) + fx(v.z).powi(2)).sqrt()
}

fn units(u: i64) -> i64 {
    u * FX_ONE
}

#[test]
fn trig_matches_reference() {
    let n = 97usize;
    for k in 0..n {
        let a = (FX_TWO_PI / n as i64) * k as i64;
        let (c, s) = sin_cos_fx(a);
        let ar = fx(a);
        assert!((fx(c) - ar.cos()).abs() < 1e-5, "cos at {}", ar);
        assert!((fx(s) - ar.sin()).abs() < 1e-5, "sin at {}", ar);
    }
}

#[test]
fn trig_exact_at_zero() {
    let (c, s) = sin_cos_fx(0);
    assert_eq!(c, FX_ONE);
    assert_eq!(s, 0);
}

#[test]
fn euler_rotation_preserves_distances() {
    let points = [
        Vec3 { x: units(35), y: 0, z: 0 },
        Vec3 { x: units(3), y: units(-4), z: units(12) },
        Vec3 { x: units(-20), y: units(25), z: units(-10) },
    ];
    let angle_sets = [
        (0i64, 0i64, 0i64),
        (FX_HALF_PI, 0, 0),
        (1234567, 2345678, 3456789),
        (FX_PI, FX_HALF_PI, 123456),
    ];
    for &(ax, ay, az) in &angle_sets {
        let rot = Rotation::from_euler_angles(ax, ay, az);
        for p in &points {
            let r = rot.apply(p);
            let before = norm(p);
            let after = norm(&r);
            assert!(
                (after - before).abs() <= 1e-4 * before.max(1.0),
                "norm changed from {} to {} under angles ({}, {}, {})",
                before,
                after,
                ax,
                ay,
                az
            );
        }
    }
}

#[test]
fn axis_angle_rotation_preserves_distances() {
    let axes = [
        Vec3 { x: FX_ONE, y: 0, z: 0 },
        Vec3 { x: 0, y: 0, z: FX_ONE },
        // a unit axis along (1, 1, 1)
        Vec3 { x: 605395, y: 605395, z: 605395 },
    ];
    let points = [
        Vec3 { x: units(10), y: units(20), z: units(-5) },
        Vec3 { x: units(-7), y: units(1), z: units(30) },
    ];
    for axis in &axes {
        for &angle in &[123456i64, FX_HALF_PI, 4000000] {
            let rot = Rotation::from_axis_angle(*axis, angle);
            for p in &points {
                let r = rot.apply(p);
                let before = norm(p);
                let after = norm(&r);
                assert!(
                    (after - before).abs() <= 1e-4 * before.max(1.0),
                    "norm changed from {} to {}",
                    before,
                    after
                );
            }
        }
    }
}

#[test]
fn euler_identity_at_zero_angles() {
    let rot = Rotation::from_euler_angles(0, 0, 0);
    let p = Vec3 { x: units(12), y: units(-3), z: units(7) };
    let r = rot.apply(&p);
    assert_eq!(r, p);
}

#[test]
fn quarter_turn_about_z_swaps_axes() {
    // yaw of pi/2 sends x to y
    let rot = Rotation::from_euler_angles(0, 0, FX_HALF_PI);
    let r = rot.apply(&Vec3 { x: units(10), y: 0, z: 0 });
    assert!(fx(r.x).abs() < 1e-3);
    assert!((fx(r.y) - 10.0).abs() < 1e-3);
    assert!(fx(r.z).abs() < 1e-3);
}

#[test]
fn shape_rotate_in_place_matches_apply() {
    let mut shape = Shape::new();
    shape.initialize_donut(units(10), units(25), 6);
    let rot = Rotation::from_euler_angles(123456, 654321, 0);
    let expected: Vec<_> = shape
        .points
        .iter()
        .map(|pn| (rot.apply(&pn.pos), rot.apply(&pn.normal)))
        .collect();
    shape.rotate(&rot);
    for (pn, want) in shape.points.iter().zip(expected.iter()) {
        assert_eq!(pn.pos, want.0);
        assert_eq!(pn.normal, want.1);
    }
}
