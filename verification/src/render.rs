//! The per-frame rendering pipeline: shading, perspective projection,
//! depth-buffered rasterization into a character grid, and the animation
//! state with its angle wraparound.
//!
//! Screen mapping convention: the projected y component gives the row offset
//! upward from the middle row, the projected x component the column offset
//! rightward from the middle column.

use vstd::prelude::*;

verus! {

use crate::fixed::{
    fx_div, fx_mul, fx_to_int, lemma_fx_div_bound, lemma_fx_mul_bounded, lemma_fx_to_int_shrink,
    spec_fx_div, spec_fx_mul, spec_fx_to_int, FX_ONE, FX_TWO_PI,
};
use crate::rot::{rot_wf, spec_rot_apply, spec_rot_from_euler, Rotation, ROT_RESULT_LIMIT};
use crate::shape::{pn_wf, shape_wf, PointNormal, Shape};
use crate::vec3::{spec_dot, spec_norm, vec_in_range, Vec3, VEC_NORM_LIMIT};
use vstd::arithmetic::div_mod::{lemma_div_pos_is_pos, lemma_multiply_divide_lt};

/// Largest magnitude of the camera distances and of the light coordinates
/// (2^27).
pub const CONFIG_LIMIT: i64 = 134217728;

/// Largest accepted screen dimension, in character cells.
pub const SCREEN_DIM_LIMIT: usize = 1024;

/// Bound on the projected screen offsets that `project` can return.
pub const PROJ_COORD_LIMIT: i64 = 154618970112;

/// How the light vector of a point is found.
#[derive(Clone, Copy, Debug, PartialEq, Eq, Structural)]
pub enum LightMode {
    /// A light at a fixed position: the light vector is the position minus
    /// the rotated point.
    PointSource(Vec3),
    /// A fixed direction used for every point alike.
    Directional(Vec3),
}

/// The fixed parameters of a rendering run.
#[derive(Clone, Copy, Debug, PartialEq, Eq, Structural)]
pub struct RenderConfig {
    /// Screen width in character cells.
    pub width: usize,
    /// Screen height in character cells.
    pub height: usize,
    /// Distance from the viewer to the origin along the view axis.
    pub viewer_distance: i64,
    /// Distance from the viewer to the projection plane.
    pub screen_distance: i64,
    /// The lighting form.
    pub light: LightMode,
}

/// The light coordinates of a mode.
pub open spec fn light_coords(l: LightMode) -> Vec3 {
    match l {
        LightMode::PointSource(s) => s,
        LightMode::Directional(d) => d,
    }
}

/// All configuration values are within the verified ranges.
pub open spec fn config_wf(c: RenderConfig) -> bool {
    &&& 1 <= c.width <= SCREEN_DIM_LIMIT
    &&& 1 <= c.height <= SCREEN_DIM_LIMIT
    &&& -CONFIG_LIMIT <= c.viewer_distance <= CONFIG_LIMIT
    &&& -CONFIG_LIMIT <= c.screen_distance <= CONFIG_LIMIT
    &&& vec_in_range(light_coords(c.light), CONFIG_LIMIT as int)
}

/// The two per-frame buffers: a shading level and a winning inverse depth
/// for every screen cell, row major.
#[derive(Debug)]
pub struct Frame {
    /// Screen width in character cells.
    pub width: usize,
    /// Screen height in character cells.
    pub height: usize,
    /// The shading level of each cell, 0 to 12.
    pub levels: Vec<u8>,
    /// The inverse depth that won each cell, 0 where no point was drawn.
    pub depth: Vec<i64>,
}

/// Both buffers cover every cell; levels stay in the glyph range and depths
/// nonnegative.
pub open spec fn frame_wf(f: Frame) -> bool {
    &&& 1 <= f.width <= SCREEN_DIM_LIMIT
    &&& 1 <= f.height <= SCREEN_DIM_LIMIT
    &&& f.levels@.len() == f.width * f.height
    &&& f.depth@.len() == f.width * f.height
    &&& forall|k: int| 0 <= k < f.levels@.len() ==> #[trigger] f.levels@[k] <= 12
    &&& forall|k: int| 0 <= k < f.depth@.len() ==> #[trigger] f.depth@[k] >= 0
}

/// The zeroed level buffer of a screen.
pub open spec fn spec_zero_levels(width: int, height: int) -> Seq<u8> {
    Seq::new((width * height) as nat, |k: int| 0u8)
}

/// The zeroed depth buffer of a screen.
pub open spec fn spec_zero_depth(width: int, height: int) -> Seq<i64> {
    Seq::new((width * height) as nat, |k: int| 0i64)
}

/// The shading level of a surface normal and a light vector: the dot product
/// over the sum of the two norms, shifted from `[-1, 1]` onto `[0, 2]`,
/// scaled by six and clamped onto the thirteen glyph levels. When both norms
/// are zero the ratio is taken as zero, giving the middle level six.
pub open spec fn spec_shade_level(n: Vec3, l: Vec3) -> int {
    let d = spec_dot(n, l);
    let den = spec_norm(n) + spec_norm(l);
    if den == 0 {
        6
    } else {
        let val = FX_ONE + spec_fx_div(d, den);
        if val <= 0 {
            0
        } else if val >= 2 * FX_ONE {
            12
        } else {
            (val * 6) / (FX_ONE as int)
        }
    }
}

/// The shading level, always one of the thirteen glyph levels.
pub fn shade_level(n: &Vec3, l: &Vec3) -> (r: u8)
    requires
        vec_in_range(*n, VEC_NORM_LIMIT as int),
        vec_in_range(*l, VEC_NORM_LIMIT as int),
    ensures
        r == spec_shade_level(*n, *l),
        0 <= r <= 12,
{
    let d = n.dot(l);
    let nn = n.norm();
    let ln = l.norm();
    let den = nn + ln;
    if den == 0 {
        6
    } else {
        proof {
            lemma_fx_div_bound(d as int, den as int, 6437301635742);
        }
        let ratio = fx_div(d, den);
        let val = FX_ONE + ratio;
        if val <= 0 {
            0
        } else if val >= 2 * FX_ONE {
            12
        } else {
            proof {
                lemma_div_pos_is_pos(val * 6, FX_ONE as int);
                assert(val * 6 < (FX_ONE as int) * 12) by (nonlinear_arith)
                    requires
                        val < 2 * FX_ONE,
                        FX_ONE == 1048576,
                ;
                lemma_multiply_divide_lt(val * 6, FX_ONE as int, 12);
            }
            (((val as u64) * 6) / (FX_ONE as u64)) as u8
        }
    }
}

/// The light vector of a rotated point under a light mode.
pub open spec fn spec_light_vec(light: LightMode, p: Vec3) -> Vec3 {
    match light {
        LightMode::PointSource(s) => Vec3 {
            x: (s.x - p.x) as i64,
            y: (s.y - p.y) as i64,
            z: (s.z - p.z) as i64,
        },
        LightMode::Directional(d) => d,
    }
}

/// The light vector of a rotated point.
pub fn light_vec(light: &LightMode, p: &Vec3) -> (r: Vec3)
    requires
        vec_in_range(light_coords(*light), CONFIG_LIMIT as int),
        vec_in_range(*p, ROT_RESULT_LIMIT as int),
    ensures
        r == spec_light_vec(*light, *p),
        vec_in_range(r, VEC_NORM_LIMIT as int),
{
    match light {
        LightMode::PointSource(s) => s.sub(p),
        LightMode::Directional(d) => *d,
    }
}

/// The perspective projection of a rotated point: the truncated screen x and
/// y offsets and the inverse depth, or nothing when the point lies at or
/// behind the viewer plane, where the perspective divisor is zero or
/// negative and the point could never win the depth test.
pub open spec fn spec_project(v: Vec3, viewer_distance: int, screen_distance: int) -> Option<
    (i64, i64, i64),
> {
    let den = viewer_distance - v.z;
    if den <= 0 {
        Option::None
    } else {
        let px = spec_fx_to_int(spec_fx_div(spec_fx_mul(v.x as int, screen_distance), den));
        let py = spec_fx_to_int(spec_fx_div(spec_fx_mul(v.y as int, screen_distance), den));
        let inv = spec_fx_div(FX_ONE as int, den);
        Option::Some((px as i64, py as i64, inv as i64))
    }
}

/// The projection of a rotated point to screen offsets and inverse depth.
pub fn project(v: &Vec3, viewer_distance: i64, screen_distance: i64) -> (r: Option<(i64, i64, i64)>)
    requires
        vec_in_range(*v, ROT_RESULT_LIMIT as int),
        -CONFIG_LIMIT <= viewer_distance <= CONFIG_LIMIT,
        -CONFIG_LIMIT <= screen_distance <= CONFIG_LIMIT,
    ensures
        r == spec_project(*v, viewer_distance as int, screen_distance as int),
        r matches Option::Some(p) ==> p.2 >= 0 && -PROJ_COORD_LIMIT <= p.0 <= PROJ_COORD_LIMIT
            && -PROJ_COORD_LIMIT <= p.1 <= PROJ_COORD_LIMIT,
{
    let den = viewer_distance - v.z;
    if den <= 0 {
        None
    } else {
        proof {
            lemma_fx_mul_bounded(v.x as int, screen_distance as int, ROT_RESULT_LIMIT as int, CONFIG_LIMIT as int);
            lemma_fx_mul_bounded(v.y as int, screen_distance as int, ROT_RESULT_LIMIT as int, CONFIG_LIMIT as int);
            assert(ROT_RESULT_LIMIT * CONFIG_LIMIT == 162129741204160512) by (nonlinear_arith);
            assert((162129741204160512 + 524288int) / 1048576int == PROJ_COORD_LIMIT);
            lemma_fx_div_bound(spec_fx_mul(v.x as int, screen_distance as int), den as int, PROJ_COORD_LIMIT as int);
            lemma_fx_div_bound(spec_fx_mul(v.y as int, screen_distance as int), den as int, PROJ_COORD_LIMIT as int);
            lemma_fx_to_int_shrink(
                spec_fx_div(spec_fx_mul(v.x as int, screen_distance as int), den as int),
                PROJ_COORD_LIMIT as int,
            );
            lemma_fx_to_int_shrink(
                spec_fx_div(spec_fx_mul(v.y as int, screen_distance as int), den as int),
                PROJ_COORD_LIMIT as int,
            );
            lemma_fx_div_bound(FX_ONE as int, den as int, FX_ONE as int);
        }
        let tx = fx_mul(v.x, screen_distance);
        let ty = fx_mul(v.y, screen_distance);
        let px = fx_to_int(fx_div(tx, den));
        let py = fx_to_int(fx_div(ty, den));
        let inv = fx_div(FX_ONE, den);
        Some((px, py, inv))
    }
}

/// The screen cell of projected offsets, or nothing when the point falls
/// outside the grid: the row is the middle row minus the y offset, the
/// column the middle column plus the x offset.
pub open spec fn spec_cell(px: int, py: int, width: int, height: int) -> Option<int> {
    let row = height / 2 - py;
    let col = width / 2 + px;
    if 0 <= row && row < height && 0 <= col && col < width {
        Option::Some(row * width + col)
    } else {
        Option::None
    }
}

/// One depth-buffered write: the cell takes the new level and inverse depth
/// only when the point is both strictly nearer and strictly brighter than
/// what the cell holds.
pub open spec fn spec_plot(
    levels: Seq<u8>,
    depth: Seq<i64>,
    idx: int,
    level: u8,
    inv_z: i64,
) -> (Seq<u8>, Seq<i64>) {
    if inv_z > depth[idx] && level > levels[idx] {
        (levels.update(idx, level), depth.update(idx, inv_z))
    } else {
        (levels, depth)
    }
}

/// The full treatment of one point: rotate the position and the normal,
/// shade, cull unlit points, project, map to a cell and resolve the depth
/// and intensity test.
pub open spec fn spec_render_point(
    levels: Seq<u8>,
    depth: Seq<i64>,
    cfg: RenderConfig,
    rot: Rotation,
    pn: PointNormal,
) -> (Seq<u8>, Seq<i64>) {
    let v = spec_rot_apply(rot, pn.pos);
    let nr = spec_rot_apply(rot, pn.normal);
    let lv = spec_light_vec(cfg.light, v);
    let level = spec_shade_level(nr, lv);
    if level == 0 {
        (levels, depth)
    } else {
        match spec_project(v, cfg.viewer_distance as int, cfg.screen_distance as int) {
            Option::None => (levels, depth),
            Option::Some(p) => match spec_cell(
                p.0 as int,
                p.1 as int,
                cfg.width as int,
                cfg.height as int,
            ) {
                Option::None => (levels, depth),
                Option::Some(idx) => spec_plot(levels, depth, idx, level as u8, p.2),
            },
        }
    }
}

/// The buffers after rendering the first `k` points of a sequence.
pub open spec fn spec_render_seq(
    levels: Seq<u8>,
    depth: Seq<i64>,
    cfg: RenderConfig,
    rot: Rotation,
    pts: Seq<PointNormal>,
    k: int,
) -> (Seq<u8>, Seq<i64>)
    decreases k,
{
    if k <= 0 {
        (levels, depth)
    } else {
        let prev = spec_render_seq(levels, depth, cfg, rot, pts, k - 1);
        spec_render_point(prev.0, prev.1, cfg, rot, pts[k - 1])
    }
}

impl Frame {
    /// A zeroed frame of the given screen size.
    pub fn new(width: usize, height: usize) -> (f: Frame)
        requires
            1 <= width <= SCREEN_DIM_LIMIT,
            1 <= height <= SCREEN_DIM_LIMIT,
        ensures
            f.width == width,
            f.height == height,
            frame_wf(f),
            f.levels@ == spec_zero_levels(width as int, height as int),
            f.depth@ == spec_zero_depth(width as int, height as int),
    {
        proof {
            assert(width * height <= SCREEN_DIM_LIMIT * SCREEN_DIM_LIMIT) by (nonlinear_arith)
                requires
                    1 <= width <= SCREEN_DIM_LIMIT,
                    1 <= height <= SCREEN_DIM_LIMIT,
            ;
            assert(SCREEN_DIM_LIMIT * SCREEN_DIM_LIMIT == 1048576) by (nonlinear_arith);
        }
        let count: usize = width * height;
        let mut levels: Vec<u8> = Vec::new();
        let mut depth: Vec<i64> = Vec::new();
        let mut k: usize = 0;
        while k < count
            invariant
                k <= count,
                levels@.len() == k,
                depth@.len() == k,
                forall|q: int| 0 <= q < k ==> #[trigger] levels@[q] == 0,
                forall|q: int| 0 <= q < k ==> #[trigger] depth@[q] == 0,
            decreases count - k,
        {
            levels.push(0);
            depth.push(0);
            k += 1;
        }
        proof {
            assert(levels@ =~= spec_zero_levels(width as int, height as int));
            assert(depth@ =~= spec_zero_depth(width as int, height as int));
        }
        Frame { width, height, levels, depth }
    }

    /// One depth-buffered write into the frame.
    pub fn plot(&mut self, idx: usize, level: u8, inv_z: i64)
        requires
            frame_wf(*old(self)),
            idx < old(self).levels@.len(),
            level <= 12,
            inv_z >= 0,
        ensures
            final(self).width == old(self).width,
            final(self).height == old(self).height,
            (final(self).levels@, final(self).depth@) == spec_plot(
                old(self).levels@,
                old(self).depth@,
                idx as int,
                level,
                inv_z,
            ),
            frame_wf(*final(self)),
    {
        if inv_z > self.depth[idx] && level > self.levels[idx] {
            self.levels.set(idx, level);
            self.depth.set(idx, inv_z);
        }
    }

    /// Renders one point-normal pair into the frame. A point whose shading
    /// level is zero is culled before the buffers are touched, so it never
    /// contests the depth test.
    pub fn render_point(&mut self, cfg: &RenderConfig, rot: &Rotation, pn: &PointNormal)
        requires
            frame_wf(*old(self)),
            old(self).width == cfg.width,
            old(self).height == cfg.height,
            config_wf(*cfg),
            rot_wf(*rot),
            pn_wf(*pn),
        ensures
            final(self).width == old(self).width,
            final(self).height == old(self).height,
            frame_wf(*final(self)),
            (final(self).levels@, final(self).depth@) == spec_render_point(
                old(self).levels@,
                old(self).depth@,
                *cfg,
                *rot,
                *pn,
            ),
            spec_shade_level(
                spec_rot_apply(*rot, pn.normal),
                spec_light_vec(cfg.light, spec_rot_apply(*rot, pn.pos)),
            ) == 0 ==> final(self).levels@ == old(self).levels@ && final(self).depth@ == old(
                self,
            ).depth@,
    {
        let v = rot.apply(&pn.pos);
        let nr = rot.apply(&pn.normal);
        let lv = light_vec(&cfg.light, &v);
        let level = shade_level(&nr, &lv);
        if level == 0 {
            return ;
        }
        match project(&v, cfg.viewer_distance, cfg.screen_distance) {
            None => {},
            Some((px, py, inv)) => {
                let h2: i64 = (cfg.height / 2) as i64;
                let w2: i64 = (cfg.width / 2) as i64;
                let row: i64 = h2 - py;
                let col: i64 = w2 + px;
                if 0 <= row && row < cfg.height as i64 && 0 <= col && col < cfg.width as i64 {
                    proof {
                        assert(row * cfg.width + col < cfg.width * cfg.height && 0 <= row
                            * cfg.width + col && cfg.width * cfg.height <= 1048576)
                            by (nonlinear_arith)
                            requires
                                0 <= row < cfg.height,
                                0 <= col < cfg.width,
                                1 <= cfg.width <= 1024,
                                1 <= cfg.height <= 1024,
                        ;
                    }
                    let idx: usize = (row as usize) * cfg.width + (col as usize);
                    self.plot(idx, level, inv);
                }
            },
        }
    }

    /// The rendered character of one cell: its level mapped through the
    /// glyph table.
    pub fn cell_char(&self, row: usize, col: usize) -> (c: char)
        requires
            frame_wf(*self),
            row < self.height,
            col < self.width,
        ensures
            c == spec_level_char(self.levels@[row * self.width + col]),
    {
        proof {
            assert(row * self.width + col < self.width * self.height && 0 <= row * self.width + col
                && self.width * self.height <= 1048576) by (nonlinear_arith)
                requires
                    0 <= row < self.height,
                    0 <= col < self.width,
                    1 <= self.width <= 1024,
                    1 <= self.height <= 1024,
            ;
        }
        let idx: usize = row * self.width + col;
        level_char(self.levels[idx])
    }

    /// One rendered screen row, left to right.
    pub fn row_chars(&self, row: usize) -> (r: Vec<char>)
        requires
            frame_wf(*self),
            row < self.height,
        ensures
            r@.len() == self.width,
            forall|c: int|
                0 <= c < self.width ==> #[trigger] r@[c] == spec_level_char(
                    self.levels@[row * self.width + c],
                ),
    {
        let mut out: Vec<char> = Vec::new();
        let mut col: usize = 0;
        while col < self.width
            invariant
                frame_wf(*self),
                row < self.height,
                col <= self.width,
                out@.len() == col,
                forall|c: int|
                    0 <= c < col ==> #[trigger] out@[c] == spec_level_char(
                        self.levels@[row * self.width + c],
                    ),
            decreases self.width - col,
        {
            let ch = self.cell_char(row, col);
            out.push(ch);
            col += 1;
        }
        out
    }
}

/// Renders a whole shape into a fresh frame: the frame a zeroed screen
/// receives from the shape's points in order, under the rotation of the
/// three Euler angles.
pub fn render_frame(shape: &Shape, cfg: &RenderConfig, ax: i64, ay: i64, az: i64) -> (f: Frame)
    requires
        shape_wf(*shape),
        config_wf(*cfg),
        0 <= ax < FX_TWO_PI,
        0 <= ay < FX_TWO_PI,
        0 <= az < FX_TWO_PI,
    ensures
        f.width == cfg.width,
        f.height == cfg.height,
        frame_wf(f),
        (f.levels@, f.depth@) == spec_render_seq(
            spec_zero_levels(cfg.width as int, cfg.height as int),
            spec_zero_depth(cfg.width as int, cfg.height as int),
            *cfg,
            spec_rot_from_euler(ax as int, ay as int, az as int),
            shape.points@,
            shape.points@.len() as int,
        ),
{
    let rot = Rotation::from_euler_angles(ax, ay, az);
    let mut f = Frame::new(cfg.width, cfg.height);
    let len = shape.points.len();
    let mut k: usize = 0;
    while k < len
        invariant
            shape_wf(*shape),
            config_wf(*cfg),
            rot == spec_rot_from_euler(ax as int, ay as int, az as int),
            rot_wf(rot),
            len == shape.points@.len(),
            k <= len,
            f.width == cfg.width,
            f.height == cfg.height,
            frame_wf(f),
            (f.levels@, f.depth@) == spec_render_seq(
                spec_zero_levels(cfg.width as int, cfg.height as int),
                spec_zero_depth(cfg.width as int, cfg.height as int),
                *cfg,
                rot,
                shape.points@,
                k as int,
            ),
        decreases len - k,
    {
        let pn = shape.points[k];
        f.render_point(cfg, &rot, &pn);
        k += 1;
    }
    f
}

/// The thirteen shading glyphs: level 0 is blank, level 12 the densest.
pub open spec fn spec_level_char(level: u8) -> char {
    if level == 0 {
        ' '
    } else if level == 1 {
        '.'
    } else if level == 2 {
        ','
    } else if level == 3 {
        '-'
    } else if level == 4 {
        '~'
    } else if level == 5 {
        ':'
    } else if level == 6 {
        ';'
    } else if level == 7 {
        '='
    } else if level == 8 {
        '!'
    } else if level == 9 {
        '*'
    } else if level == 10 {
        '#'
    } else if level == 11 {
        '$'
    } else {
        '@'
    }
}

/// The glyph of a shading level.
pub fn level_char(level: u8) -> (c: char)
    requires
        level <= 12,
    ensures
        c == spec_level_char(level),
{
    if level == 0 {
        ' '
    } else if level == 1 {
        '.'
    } else if level == 2 {
        ','
    } else if level == 3 {
        '-'
    } else if level == 4 {
        '~'
    } else if level == 5 {
        ':'
    } else if level == 6 {
        ';'
    } else if level == 7 {
        '='
    } else if level == 8 {
        '!'
    } else if level == 9 {
        '*'
    } else if level == 10 {
        '#'
    } else if level == 11 {
        '$'
    } else {
        '@'
    }
}

/// An angle advanced by a per-frame speed, reset to zero exactly when the
/// accumulated value reaches or passes a full turn.
pub open spec fn spec_advance(angle: int, speed: int) -> int {
    if angle + speed >= FX_TWO_PI {
        0
    } else {
        angle + speed
    }
}

/// The three accumulated animation angles, each kept in `[0, FX_TWO_PI)`.
#[derive(Clone, Copy, Debug, PartialEq, Eq, Structural)]
pub struct AnimState {
    pub x_angle: i64,
    pub y_angle: i64,
    pub z_angle: i64,
}

/// Every angle lies in `[0, FX_TWO_PI)`.
pub open spec fn anim_wf(a: AnimState) -> bool {
    &&& 0 <= a.x_angle < FX_TWO_PI
    &&& 0 <= a.y_angle < FX_TWO_PI
    &&& 0 <= a.z_angle < FX_TWO_PI
}

impl AnimState {
    /// The starting state: all angles zero.
    pub fn new() -> (a: AnimState)
        ensures
            a.x_angle == 0,
            a.y_angle == 0,
            a.z_angle == 0,
            anim_wf(a),
    {
        AnimState { x_angle: 0, y_angle: 0, z_angle: 0 }
    }

    /// Advances each angle by its per-frame speed, wrapping to exactly zero
    /// on the frame where the accumulated angle reaches or passes a full
    /// turn.
    pub fn advance(&mut self, x_speed: i64, y_speed: i64, z_speed: i64)
        requires
            anim_wf(*old(self)),
            0 <= x_speed <= FX_TWO_PI,
            0 <= y_speed <= FX_TWO_PI,
            0 <= z_speed <= FX_TWO_PI,
        ensures
            final(self).x_angle == spec_advance(old(self).x_angle as int, x_speed as int),
            final(self).y_angle == spec_advance(old(self).y_angle as int, y_speed as int),
            final(self).z_angle == spec_advance(old(self).z_angle as int, z_speed as int),
            anim_wf(*final(self)),
    {
        self.x_angle = self.x_angle + x_speed;
        self.y_angle = self.y_angle + y_speed;
        self.z_angle = self.z_angle + z_speed;
        if self.x_angle >= FX_TWO_PI {
            self.x_angle = 0;
        }
        if self.y_angle >= FX_TWO_PI {
            self.y_angle = 0;
        }
        if self.z_angle >= FX_TWO_PI {
            self.z_angle = 0;
        }
    }
}

/// The animation state after a number of frames, each advancing all three
/// angles by the per-frame speeds with wraparound.
pub open spec fn spec_anim_after(
    a: AnimState,
    x_speed: int,
    y_speed: int,
    z_speed: int,
    frames: int,
) -> AnimState
    decreases frames,
{
    if frames <= 0 {
        a
    } else {
        let p = spec_anim_after(a, x_speed, y_speed, z_speed, frames - 1);
        AnimState {
            x_angle: spec_advance(p.x_angle as int, x_speed) as i64,
            y_angle: spec_advance(p.y_angle as int, y_speed) as i64,
            z_angle: spec_advance(p.z_angle as int, z_speed) as i64,
        }
    }
}

/// Runs the animation for a bounded number of frames without output: each
/// frame renders the shape at the current angles and then advances the
/// angles. Returns the last rendered frame, or nothing for a zero-frame run.
/// The unbounded animation is this loop repeated without a limit, with each
/// frame printed as it is rendered.
pub fn run_frames(
    shape: &Shape,
    cfg: &RenderConfig,
    state: &mut AnimState,
    x_speed: i64,
    y_speed: i64,
    z_speed: i64,
    frames: usize,
) -> (last: Option<Frame>)
    requires
        shape_wf(*shape),
        config_wf(*cfg),
        anim_wf(*old(state)),
        0 <= x_speed <= FX_TWO_PI,
        0 <= y_speed <= FX_TWO_PI,
        0 <= z_speed <= FX_TWO_PI,
    ensures
        *final(state) == spec_anim_after(
            *old(state),
            x_speed as int,
            y_speed as int,
            z_speed as int,
            frames as int,
        ),
        anim_wf(*final(state)),
        (last is Some) == (frames > 0),
        last matches Option::Some(f) ==> {
            let at = spec_anim_after(
                *old(state),
                x_speed as int,
                y_speed as int,
                z_speed as int,
                frames - 1,
            );
            &&& f.width == cfg.width
            &&& f.height == cfg.height
            &&& frame_wf(f)
            &&& (f.levels@, f.depth@) == spec_render_seq(
                spec_zero_levels(cfg.width as int, cfg.height as int),
                spec_zero_depth(cfg.width as int, cfg.height as int),
                *cfg,
                spec_rot_from_euler(at.x_angle as int, at.y_angle as int, at.z_angle as int),
                shape.points@,
                shape.points@.len() as int,
            )
        },
{
    let mut last: Option<Frame> = None;
    let mut k: usize = 0;
    while k < frames
        invariant
            shape_wf(*shape),
            config_wf(*cfg),
            anim_wf(*old(state)),
            0 <= x_speed <= FX_TWO_PI,
            0 <= y_speed <= FX_TWO_PI,
            0 <= z_speed <= FX_TWO_PI,
            k <= frames,
            *state == spec_anim_after(
                *old(state),
                x_speed as int,
                y_speed as int,
                z_speed as int,
                k as int,
            ),
            anim_wf(*state),
            (last is Some) == (k > 0),
            last matches Option::Some(f) ==> {
                let at = spec_anim_after(
                    *old(state),
                    x_speed as int,
                    y_speed as int,
                    z_speed as int,
                    k - 1,
                );
                &&& f.width == cfg.width
                &&& f.height == cfg.height
                &&& frame_wf(f)
                &&& (f.levels@, f.depth@) == spec_render_seq(
                    spec_zero_levels(cfg.width as int, cfg.height as int),
                    spec_zero_depth(cfg.width as int, cfg.height as int),
                    *cfg,
                    spec_rot_from_euler(at.x_angle as int, at.y_angle as int, at.z_angle as int),
                    shape.points@,
                    shape.points@.len() as int,
                )
            },
        decreases frames - k,
    {
        let f = render_frame(shape, cfg, state.x_angle, state.y_angle, state.z_angle);
        last = Some(f);
        state.advance(x_speed, y_speed, z_speed);
        k += 1;
    }
    last
}

impl RenderConfig {
    /// The canonical configuration of the primary rendering run: a 60 by 40
    /// screen, viewer distance 50 and screen distance 20 in fixed-point
    /// units, and a point light at (-100, 100, 100) units.
    pub fn primary() -> (c: RenderConfig)
        ensures
            c.width == 60,
            c.height == 40,
            c.viewer_distance == 50 * FX_ONE,
            c.screen_distance == 20 * FX_ONE,
            c.light == LightMode::PointSource(
                Vec3 {
                    x: ((-100) * FX_ONE) as i64,
                    y: (100 * FX_ONE) as i64,
                    z: (100 * FX_ONE) as i64,
                },
            ),
            config_wf(c),
    {
        RenderConfig {
            width: 60,
            height: 40,
            viewer_distance: 50 * FX_ONE,
            screen_distance: 20 * FX_ONE,
            light: LightMode::PointSource(
                Vec3 { x: -100 * FX_ONE, y: 100 * FX_ONE, z: 100 * FX_ONE },
            ),
        }
    }
}

/// Law of the depth and intensity test: on a cell that starts empty, of two
/// competing writes the second replaces the first exactly when it is both
/// strictly nearer and strictly brighter; otherwise the first write stands,
/// whichever way each single comparison went.
pub proof fn lemma_depth_intensity_conjunction(
    levels: Seq<u8>,
    depth: Seq<i64>,
    idx: int,
    l1: u8,
    d1: i64,
    l2: u8,
    d2: i64,
)
    requires
        0 <= idx < levels.len(),
        depth.len() == levels.len(),
        levels[idx] == 0,
        depth[idx] == 0,
        l1 > 0,
        d1 > 0,
    ensures
        ({
            let first = spec_plot(levels, depth, idx, l1, d1);
            let second = spec_plot(first.0, first.1, idx, l2, d2);
            &&& second.0[idx] == if d2 > d1 && l2 > l1 {
                l2
            } else {
                l1
            }
            &&& second.1[idx] == if d2 > d1 && l2 > l1 {
                d2
            } else {
                d1
            }
        }),
{
    let first = spec_plot(levels, depth, idx, l1, d1);
    assert(first.0[idx] == l1);
    assert(first.1[idx] == d1);
}

} // verus!
