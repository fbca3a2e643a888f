use donut::fixed::{FX_ONE, FX_TWO_PI};
use donut::render::{
    level_char, render_frame, shade_level, AnimState, Frame, LightMode, RenderConfig,
};
use donut::shape::{PointNormal, Shape};
use donut::vec3::Vec3;

fn units(u: i64) -> i64 {
    u * FX_ONE
}

fn single_point_shape(pos: Vec3, normal: Vec3) -> Shape {
    Shape { points: vec![PointNormal { pos, normal }] }
}

#[test]
fn shading_levels_stay_in_range() {
    let samples = [
        Vec3 { x: 0, y: 0, z: FX_ONE },
        Vec3 { x: 1, y: 0, z: 0 },
        Vec3 { x: -1, y: 1, z: -1 },
        Vec3 { x: units(100), y: units(-100), z: units(100) },
        Vec3 { x: 0, y: -FX_ONE, z: FX_ONE },
        Vec3 { x: -units(1000), y: 3, z: 17 },
    ];
    for n in &samples {
        for l in &samples {
            let level = shade_level(n, l);
            assert!(level <= 12, "level {} out of range", level);
        }
    }
}

#[test]
fn shading_opposed_vectors_is_dark() {
    // a normal facing away from a much stronger light: the level clamps to 0
    let n = Vec3 { x: 0, y: 0, z: -FX_ONE };
    let l = Vec3 { x: 0, y: 0, z: units(100) };
    assert_eq!(shade_level(&n, &l), 0);
}

#[test]
fn shading_aligned_vectors_is_bright() {
    let n = Vec3 { x: 0, y: 0, z: FX_ONE };
    let l = Vec3 { x: 0, y: 0, z: units(100) };
    // ratio near +1: level (1 + 100/101) * 6 truncates to 11
    assert_eq!(shade_level(&n, &l), 11);
}

#[test]
fn shading_exact_example() {
    // normal (0, 0, 1), light (0, -1, 1):
    // level = trunc((1 + 1 / (1 + sqrt(2))) * 6) = trunc(8.485...) = 8
    let n = Vec3 { x: 0, y: 0, z: FX_ONE };
    let l = Vec3 { x: 0, y: -FX_ONE, z: FX_ONE };
    assert_eq!(shade_level(&n, &l), 8);
}

#[test]
fn angle_wraparound_resets_to_exact_zero() {
    // y speed 0.06 in fixed point; the angle must reset to exactly 0 on the
    // frame where the accumulated value reaches or passes a full turn
    let speed: i64 = 62915;
    let mut state = AnimState::new();
    let mut frames: i64 = 0;
    loop {
        let before = state.y_angle;
        state.advance(0, speed, 0);
        frames += 1;
        if before + speed >= FX_TWO_PI {
            assert_eq!(state.y_angle, 0, "no exact reset after {} frames", frames);
            break;
        } else {
            assert_eq!(state.y_angle, before + speed);
        }
        assert!(frames < 1000, "wraparound never reached");
    }
    assert_eq!(frames, (FX_TWO_PI + speed - 1) / speed);
}

#[test]
fn angle_wraparound_at_exact_boundary() {
    let mut state = AnimState::new();
    // a speed that lands exactly on the boundary resets to 0, not to 2*pi
    state.advance(FX_TWO_PI, 0, 0);
    assert_eq!(state.x_angle, 0);
}

#[test]
fn depth_intensity_conjunction_first_writer_wins() {
    let mut frame = Frame::new(4, 4);
    let idx = 5usize;
    // first point: dim but near
    frame.plot(idx, 3, 1000);
    assert_eq!(frame.levels[idx], 3);
    assert_eq!(frame.depth[idx], 1000);
    // second point: brighter but farther; it does not dominate on both axes
    frame.plot(idx, 9, 500);
    assert_eq!(frame.levels[idx], 3, "non-dominating point must not replace the first");
    assert_eq!(frame.depth[idx], 1000);
    // a point that dominates on both axes does replace it
    frame.plot(idx, 9, 2000);
    assert_eq!(frame.levels[idx], 9);
    assert_eq!(frame.depth[idx], 2000);
    // equal depth never replaces
    frame.plot(idx, 12, 2000);
    assert_eq!(frame.levels[idx], 9);
}

#[test]
fn zero_level_point_is_culled_without_depth_write() {
    let cfg = RenderConfig {
        width: 60,
        height: 40,
        viewer_distance: units(50),
        screen_distance: units(20),
        light: LightMode::Directional(Vec3 { x: 0, y: 0, z: units(100) }),
    };
    // normal opposed to a strong light: shading level 0 (see the shading
    // tests), projecting to the center cell
    let pn = PointNormal {
        pos: Vec3 { x: 0, y: 0, z: 0 },
        normal: Vec3 { x: 0, y: 0, z: -FX_ONE },
    };
    let rot = donut::rot::Rotation::from_euler_angles(0, 0, 0);
    let mut frame = Frame::new(60, 40);
    let idx = 20 * 60 + 30;
    frame.plot(idx, 5, 777);
    frame.render_point(&cfg, &rot, &pn);
    assert_eq!(frame.depth[idx], 777, "culled point must not touch the depth buffer");
    assert_eq!(frame.levels[idx], 5);
}

#[test]
fn end_to_end_single_point_frame() {
    // a single point at the origin with normal (0, 0, 1) under the constant
    // light direction (0, -1, 1): level 8, drawn at row 20, column 30 as '!'
    let cfg = RenderConfig {
        width: 60,
        height: 40,
        viewer_distance: units(50),
        screen_distance: units(20),
        light: LightMode::Directional(Vec3 { x: 0, y: -FX_ONE, z: FX_ONE }),
    };
    let shape = single_point_shape(
        Vec3 { x: 0, y: 0, z: 0 },
        Vec3 { x: 0, y: 0, z: FX_ONE },
    );
    let frame = render_frame(&shape, &cfg, 0, 0, 0);
    assert_eq!(frame.levels[20 * 60 + 30], 8);
    assert_eq!(frame.cell_char(20, 30), '!');
    let row = frame.row_chars(20);
    assert_eq!(row.len(), 60);
    assert_eq!(row[30], '!');
    assert_eq!(row[0], ' ');
    // nothing else was drawn
    let drawn = frame.levels.iter().filter(|&&l| l != 0).count();
    assert_eq!(drawn, 1);
}

#[test]
fn primary_torus_frame_draws_points() {
    let cfg = RenderConfig::primary();
    let mut shape = Shape::new();
    shape.initialize_donut(units(10), units(25), 40);
    let frame = render_frame(&shape, &cfg, 0, 0, 0);
    let drawn = frame.levels.iter().filter(|&&l| l != 0).count();
    assert!(drawn > 100, "only {} cells drawn", drawn);
    for &l in frame.levels.iter() {
        assert!(l <= 12);
    }
    for &d in frame.depth.iter() {
        assert!(d >= 0);
    }
}

#[test]
fn point_behind_viewer_is_discarded() {
    let cfg = RenderConfig {
        width: 60,
        height: 40,
        viewer_distance: units(50),
        screen_distance: units(20),
        light: LightMode::Directional(Vec3 { x: 0, y: -FX_ONE, z: FX_ONE }),
    };
    let shape = single_point_shape(
        Vec3 { x: 0, y: 0, z: units(60) },
        Vec3 { x: 0, y: 0, z: FX_ONE },
    );
    let frame = render_frame(&shape, &cfg, 0, 0, 0);
    let drawn = frame.levels.iter().filter(|&&l| l != 0).count();
    assert_eq!(drawn, 0);
}

#[test]
fn projection_formula_matches_reference() {
    let v = Vec3 { x: units(10), y: units(-5), z: units(15) };
    let r = donut::render::project(&v, units(50), units(20));
    let (px, py, _inv) = r.expect("point ahead of the viewer must project");
    // x * 20 / (50 - 15) = 5.71 -> 5; y * 20 / 35 = -2.857 -> -2
    assert_eq!(px, 5);
    assert_eq!(py, -2);
}

#[test]
fn bounded_run_matches_manual_frames() {
    let cfg = RenderConfig::primary();
    let mut shape = Shape::new();
    shape.initialize_donut(units(10), units(25), 12);
    let (xs, ys, zs) = (0i64, 62915i64, 20972i64);

    let mut manual_state = AnimState::new();
    let mut manual_last = None;
    for _ in 0..3 {
        manual_last = Some(render_frame(
            &shape,
            &cfg,
            manual_state.x_angle,
            manual_state.y_angle,
            manual_state.z_angle,
        ));
        manual_state.advance(xs, ys, zs);
    }

    let mut state = AnimState::new();
    let last = donut::render::run_frames(&shape, &cfg, &mut state, xs, ys, zs, 3)
        .expect("three frames yield a last frame");
    assert_eq!(state, manual_state);
    let manual = manual_last.unwrap();
    assert_eq!(last.levels, manual.levels);
    assert_eq!(last.depth, manual.depth);

    let mut zero_state = AnimState::new();
    assert!(donut::render::run_frames(&shape, &cfg, &mut zero_state, xs, ys, zs, 0).is_none());
}

#[test]
fn glyph_table_matches_levels() {
    let glyphs = [' ', '.', ',', '-', '~', ':', ';', '=', '!', '*', '#', '$', '@'];
    for (level, &want) in glyphs.iter().enumerate() {
        assert_eq!(level_char(level as u8), want);
    }
}
