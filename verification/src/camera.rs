//! Smoothed pan/zoom camera over a 2D world, in fixed-point subunits.
//!
//! The camera keeps a visible `zoom` and `position2d` and their desired
//! targets; every frame `update` moves the visible values a fixed fraction
//! of the remaining distance toward the targets.

use vstd::prelude::*;
use crate::fixed::{
    clamp_i64, clamped, div_round, div_round_i128, lemma_div_round_err, lemma_div_round_mag, mag,
    retain_spec, retain_toward, Vec2, UNIT,
};
use vstd::arithmetic::div_mod::{
    lemma_div_by_self, lemma_div_is_ordered, lemma_fundamental_div_mod,
};
use vstd::arithmetic::mul::{lemma_mul_is_commutative, lemma_mul_is_distributive_sub_other_way};

verus! {

/// Largest zoom factor, in subunits.
pub const MAX_ZOOM: i64 = 100_000_000_000;

/// Zoom factor a camera starts aiming at, in subunits.
pub const INIT_ZOOM: i64 = 100_000;

/// Smallest zoom factor, in subunits.
pub const MIN_ZOOM: i64 = 1_000;

/// Largest world coordinate magnitude the camera handles, in subunits.
pub const COORD_LIMIT: i64 = 2_000_000_000_000_000;

/// Largest screen dimension the camera handles, in whole pixels.
pub const SCREEN_LIMIT: i64 = 1_000_000_000;

pub struct Camera {
    pub desired_position: Vec2,
    pub position2d: Vec2,
    pub desired_zoom: i64,
    pub zoom: i64,
}

impl Camera {
    /// Both zoom factors within their clamp range, both positions within
    /// the coordinate limit.
    pub open spec fn wf(self) -> bool {
        &&& MIN_ZOOM <= self.zoom <= MAX_ZOOM
        &&& MIN_ZOOM <= self.desired_zoom <= MAX_ZOOM
        &&& mag(self.position2d.x as int) <= COORD_LIMIT
        &&& mag(self.position2d.y as int) <= COORD_LIMIT
        &&& mag(self.desired_position.x as int) <= COORD_LIMIT
        &&& mag(self.desired_position.y as int) <= COORD_LIMIT
    }

    /// A camera at the world origin that starts at `min_zoom` and animates
    /// toward `init_zoom`.
    pub fn new(init_zoom: i64, min_zoom: i64) -> (r: Camera)
        requires
            MIN_ZOOM <= init_zoom <= MAX_ZOOM,
            MIN_ZOOM <= min_zoom <= MAX_ZOOM,
        ensures
            r.wf(),
            r.desired_zoom == init_zoom,
            r.zoom == min_zoom,
            r.position2d == (Vec2 { x: 0i64, y: 0i64 }),
            r.desired_position == (Vec2 { x: 0i64, y: 0i64 }),
    {
        Camera {
            desired_position: Vec2 { x: 0, y: 0 },
            position2d: Vec2 { x: 0, y: 0 },
            desired_zoom: init_zoom,
            zoom: min_zoom,
        }
    }

    /// One frame of exponential smoothing: the visible zoom moves 4/5 of
    /// its remaining distance to the target (keeps 1/5), the visible
    /// position moves 2/5 (keeps 3/5) — faster zoom convergence, slower
    /// pan.  Both distances shrink strictly until the targets are
    /// reached, and the visible values never overshoot their targets.
    pub fn update(&mut self)
        requires
            old(self).wf(),
        ensures
            final(self).wf(),
            final(self).desired_position == old(self).desired_position,
            final(self).desired_zoom == old(self).desired_zoom,
            final(self).zoom == retain_spec(
                old(self).zoom as int,
                old(self).desired_zoom as int,
                1,
                5,
            ),
            final(self).position2d.x == retain_spec(
                old(self).position2d.x as int,
                old(self).desired_position.x as int,
                3,
                5,
            ),
            final(self).position2d.y == retain_spec(
                old(self).position2d.y as int,
                old(self).desired_position.y as int,
                3,
                5,
            ),
            old(self).zoom != old(self).desired_zoom
                ==> mag(final(self).zoom - old(self).desired_zoom)
                    < mag(old(self).zoom - old(self).desired_zoom),
            old(self).zoom == old(self).desired_zoom
                ==> final(self).zoom == old(self).desired_zoom,
            old(self).zoom <= old(self).desired_zoom
                ==> old(self).zoom <= final(self).zoom <= old(self).desired_zoom,
            old(self).zoom >= old(self).desired_zoom
                ==> old(self).desired_zoom <= final(self).zoom <= old(self).zoom,
            old(self).position2d.x != old(self).desired_position.x
                ==> mag(final(self).position2d.x - old(self).desired_position.x)
                    < mag(old(self).position2d.x - old(self).desired_position.x),
            old(self).position2d.x == old(self).desired_position.x
                ==> final(self).position2d.x == old(self).desired_position.x,
            old(self).position2d.y != old(self).desired_position.y
                ==> mag(final(self).position2d.y - old(self).desired_position.y)
                    < mag(old(self).position2d.y - old(self).desired_position.y),
            old(self).position2d.y == old(self).desired_position.y
                ==> final(self).position2d.y == old(self).desired_position.y,
    {
        self.zoom = retain_toward(self.zoom, self.desired_zoom, 1, 5);
        self.position2d = Vec2 {
            x: retain_toward(self.position2d.x, self.desired_position.x, 3, 5),
            y: retain_toward(self.position2d.y, self.desired_position.y, 3, 5),
        };
    }

    /// Clamp the desired position to the square `[-map_size, map_size]`
    /// on both axes.
    fn position_restrictions(&mut self, map_size: i64)
        requires
            0 <= map_size <= COORD_LIMIT,
        ensures
            final(self).desired_position.x == clamped(
                old(self).desired_position.x as int,
                -map_size as int,
                map_size as int,
            ),
            final(self).desired_position.y == clamped(
                old(self).desired_position.y as int,
                -map_size as int,
                map_size as int,
            ),
            final(self).position2d == old(self).position2d,
            final(self).zoom == old(self).zoom,
            final(self).desired_zoom == old(self).desired_zoom,
    {
        self.desired_position = Vec2 {
            x: clamp_i64(self.desired_position.x, -map_size, map_size),
            y: clamp_i64(self.desired_position.y, -map_size, map_size),
        };
    }

    /// Aim the camera at `value`, kept within `[-map_size, map_size]` on
    /// both axes.
    pub fn position_set(&mut self, value: Vec2, map_size: i64)
        requires
            old(self).wf(),
            0 <= map_size <= COORD_LIMIT,
        ensures
            final(self).wf(),
            final(self).desired_position.x == clamped(
                value.x as int,
                -map_size as int,
                map_size as int,
            ),
            final(self).desired_position.y == clamped(
                value.y as int,
                -map_size as int,
                map_size as int,
            ),
            -map_size <= final(self).desired_position.x <= map_size,
            -map_size <= final(self).desired_position.y <= map_size,
            final(self).position2d == old(self).position2d,
            final(self).zoom == old(self).zoom,
            final(self).desired_zoom == old(self).desired_zoom,
    {
        self.desired_position = value;
        self.position_restrictions(map_size);
    }

    /// Move the camera's aim by `delta`, kept within
    /// `[-map_size, map_size]` on both axes.
    pub fn position_add(&mut self, delta: Vec2, map_size: i64)
        requires
            old(self).wf(),
            0 <= map_size <= COORD_LIMIT,
            mag(delta.x as int) <= COORD_LIMIT,
            mag(delta.y as int) <= COORD_LIMIT,
        ensures
            final(self).wf(),
            final(self).desired_position.x == clamped(
                old(self).desired_position.x + delta.x,
                -map_size as int,
                map_size as int,
            ),
            final(self).desired_position.y == clamped(
                old(self).desired_position.y + delta.y,
                -map_size as int,
                map_size as int,
            ),
            -map_size <= final(self).desired_position.x <= map_size,
            -map_size <= final(self).desired_position.y <= map_size,
            final(self).position2d == old(self).position2d,
            final(self).zoom == old(self).zoom,
            final(self).desired_zoom == old(self).desired_zoom,
    {
        self.desired_position = Vec2 {
            x: self.desired_position.x + delta.x,
            y: self.desired_position.y + delta.y,
        };
        self.position_restrictions(map_size);
    }

    /// Aim the zoom at `zoom`, clamped to `[MIN_ZOOM, MAX_ZOOM]`.
    pub fn zoom_set(&mut self, zoom: i64)
        requires
            old(self).wf(),
        ensures
            final(self).wf(),
            final(self).desired_zoom == clamped(zoom as int, MIN_ZOOM as int, MAX_ZOOM as int),
            MIN_ZOOM <= final(self).desired_zoom <= MAX_ZOOM,
            final(self).zoom == old(self).zoom,
            final(self).position2d == old(self).position2d,
            final(self).desired_position == old(self).desired_position,
    {
        self.desired_zoom = clamp_i64(zoom, MIN_ZOOM, MAX_ZOOM);
    }

    /// Scale the desired zoom one wheel step up (`y > 0`), down (`y < 0`)
    /// or not at all (`y == 0`), then clamp to `[MIN_ZOOM, MAX_ZOOM]`.
    pub fn zoom_wheel(&mut self, y: i64)
        requires
            old(self).wf(),
        ensures
            final(self).wf(),
            final(self).desired_zoom == clamped(
                wheel_target(old(self).desired_zoom as int, y as int),
                MIN_ZOOM as int,
                MAX_ZOOM as int,
            ),
            MIN_ZOOM <= final(self).desired_zoom <= MAX_ZOOM,
            final(self).zoom == old(self).zoom,
            final(self).position2d == old(self).position2d,
            final(self).desired_position == old(self).desired_position,
    {
        let target: i64 = if y > 0 {
            let scaled: u64 = (self.desired_zoom as u64) * 6 / 5;
            proof {
                crate::fixed::lemma_div_pos_nonneg(6 * old(self).desired_zoom, 5);
            }
            scaled as i64
        } else if y < 0 {
            let scaled: u64 = (self.desired_zoom as u64) * 5 / 6;
            proof {
                crate::fixed::lemma_div_pos_nonneg(5 * old(self).desired_zoom, 6);
            }
            scaled as i64
        } else {
            self.desired_zoom
        };
        self.desired_zoom = clamp_i64(target, MIN_ZOOM, MAX_ZOOM);
    }
}

impl Default for Camera {
    /// A camera at the world origin, at minimal zoom, aiming at the
    /// initial zoom.
    fn default() -> (r: Camera)
        ensures
            r.wf(),
            r.desired_zoom == INIT_ZOOM,
            r.zoom == MIN_ZOOM,
            r.position2d == (Vec2 { x: 0i64, y: 0i64 }),
            r.desired_position == (Vec2 { x: 0i64, y: 0i64 }),
    {
        Camera {
            desired_position: Vec2 { x: 0, y: 0 },
            position2d: Vec2 { x: 0, y: 0 },
            desired_zoom: INIT_ZOOM,
            zoom: MIN_ZOOM,
        }
    }
}

/// The unclamped wheel target: one factor-6/5 step up for a positive
/// scroll, one factor-5/6 step down for a negative one.
pub open spec fn wheel_target(z: int, y: int) -> int {
    if y > 0 {
        wheel_up(z)
    } else if y < 0 {
        wheel_down(z)
    } else {
        z
    }
}

/// One wheel step up: multiply by 6/5, truncated.
pub open spec fn wheel_up(z: int) -> int {
    6 * z / 5
}

/// One wheel step down: multiply by 5/6, truncated.
pub open spec fn wheel_down(z: int) -> int {
    5 * z / 6
}

/// The desired zoom after one wheel step up followed by one wheel step
/// down, clamping as `zoom_wheel` does after each step.
pub open spec fn wheel_round_trip(z: int) -> int {
    clamped(
        wheel_down(clamped(wheel_up(z), MIN_ZOOM as int, MAX_ZOOM as int)),
        MIN_ZOOM as int,
        MAX_ZOOM as int,
    )
}

/// The desired zoom after `k` up-then-down wheel pairs.
pub open spec fn wheel_round_trips(z: int, k: nat) -> int
    decreases k,
{
    if k == 0 {
        z
    } else {
        wheel_round_trips(wheel_round_trip(z), (k - 1) as nat)
    }
}

/// One wheel step up then one down lands within one subunit below the
/// starting zoom, provided the upward step is not clamped away.
pub proof fn lemma_zoom_wheel_round_trip(z: int)
    requires
        MIN_ZOOM <= z <= MAX_ZOOM,
        wheel_up(z) <= MAX_ZOOM,
    ensures
        z - 1 <= wheel_round_trip(z) <= z,
{
    let up = wheel_up(z);
    lemma_fundamental_div_mod(6 * z, 5);
    assert(6 * z == 5 * up + (6 * z) % 5);
    assert(0 <= (6 * z) % 5 < 5);
    assert(up >= z);
    assert(clamped(up, MIN_ZOOM as int, MAX_ZOOM as int) == up);
    let down = wheel_down(up);
    lemma_fundamental_div_mod(5 * up, 6);
    assert(5 * up == 6 * down + (5 * up) % 6);
    assert(0 <= (5 * up) % 6 < 6);
    assert(6 * (z - down) == (6 * z) % 5 + (5 * up) % 6);
    assert(0 <= z - down <= 1);
}

/// Repeated up-then-down wheel pairs drift by at most one subunit per
/// pair below the starting zoom, and never above it.
pub proof fn lemma_zoom_wheel_round_trips(z: int, k: nat)
    requires
        MIN_ZOOM <= z <= MAX_ZOOM,
        wheel_up(z) <= MAX_ZOOM,
    ensures
        z - k <= wheel_round_trips(z, k) <= z,
    decreases k,
{
    if k > 0 {
        lemma_zoom_wheel_round_trip(z);
        let z1 = wheel_round_trip(z);
        lemma_div_is_ordered(6 * z1, 6 * z, 5);
        lemma_zoom_wheel_round_trips(z1, (k - 1) as nat);
    }
}

/// Largest screen-space coordinate magnitude `unproject` handles, in
/// subunits of a pixel.
pub const SCREEN_COORD_LIMIT: i128 = 1_000_000_000_000_000_000_000_000_000_000;

/// The combined orthographic-projection and look-at matrix, reduced to
/// its four live entries (diagonal scales and translation), in subunits.
/// Normalized device coordinates of a world point `(x, y)` are
/// `(sx * x + tx * UNIT) / UNIT^2` and `(sy * y + ty * UNIT) / UNIT^2`.
#[derive(Clone, Copy, PartialEq, Eq, Structural, Debug)]
pub struct Mvp {
    pub sx: i128,
    pub sy: i128,
    pub tx: i128,
    pub ty: i128,
}

/// Screen x of a world x: normalized device x is `zoom` times the world
/// offset from the camera (orthographic half-extent `1 / zoom`), so the
/// screen offset from the horizontal center is half the width times
/// that, in subunits of a pixel.
pub open spec fn project_x(zoom: int, px: int, x: int, w: int) -> int {
    w * UNIT / 2 + div_round(zoom * (x - px) * w, 2 * UNIT)
}

/// Screen y of a world y: as `project_x`, but flipped (screen y grows
/// downward) and shifted to the screen's vertical center.
pub open spec fn project_y(zoom: int, py: int, y: int, w: int, h: int) -> int {
    h * UNIT / 2 - div_round(zoom * (y - py) * w, 2 * UNIT)
}

/// World x of a screen x: twice the offset from the screen's horizontal
/// center divided by `zoom * width`, from the camera position.
pub open spec fn unproject_x(zoom: int, px: int, sx: int, w: int) -> int {
    px + div_round(2 * UNIT * (sx - w * UNIT / 2), zoom * w)
}

/// World y of a screen y: as `unproject_x`, with the vertical flip
/// undone.
pub open spec fn unproject_y(zoom: int, py: int, sy: int, w: int, h: int) -> int {
    py + div_round(2 * UNIT * (h * UNIT / 2 - sy), zoom * w)
}

impl Camera {
    /// The view-projection matrix for the current position and zoom, for
    /// a screen whose aspect ratio (height over width) is `aspect`
    /// subunits.  With the aspect bounded by `2 * zoom * UNIT`, both
    /// diagonal scales are at least one subunit, so the map is
    /// invertible, as a positive zoom promises.
    pub fn get_mvp(&self, aspect: i64) -> (r: Mvp)
        requires
            self.wf(),
            1 <= aspect <= 1_000_000_000_000_000i64,
            aspect <= 2 * self.zoom * UNIT,
        ensures
            r.sx == self.zoom,
            r.sy == div_round(self.zoom * UNIT, aspect as int),
            r.tx == div_round(-(r.sx * self.position2d.x), UNIT as int),
            r.ty == div_round(-(r.sy * self.position2d.y), UNIT as int),
            r.sx >= 1,
            r.sy >= 1,
    {
        let sx: i128 = self.zoom as i128;
        let sy: i128 = div_round_i128(sx * (UNIT as i128), aspect as i128);
        proof {
            lemma_div_round_mag(
                sx * (UNIT as i128),
                aspect as int,
                1_000_000_000_000_000_000i128 as int,
            );
            let zs = self.zoom * UNIT;
            assert(2 * zs + aspect >= 2 * aspect);
            lemma_div_is_ordered(2 * aspect, 2 * zs + aspect, 2 * aspect);
            lemma_div_by_self(2 * aspect);
            assert(sy >= 1);
        }
        proof {
            assert(-400_000_000_000_000_000_000_000_000_000_000int <= sx * (
            self.position2d.x as i128) <= 400_000_000_000_000_000_000_000_000_000_000int)
                by (nonlinear_arith)
                requires
                    mag(sx as int) <= 200_000_000_000i128,
                    mag(self.position2d.x as int) <= COORD_LIMIT,
            {
            }
            assert(-400_000_000_000_000_000_000_000_000_000_000_000int <= sy * (
            self.position2d.y as i128) <= 400_000_000_000_000_000_000_000_000_000_000_000int)
                by (nonlinear_arith)
                requires
                    mag(sy as int) <= 1_000_000_000_000_000_000i128,
                    mag(self.position2d.y as int) <= COORD_LIMIT,
            {
            }
        }
        let tx: i128 = div_round_i128(-(sx * (self.position2d.x as i128)), UNIT as i128);
        let ty: i128 = div_round_i128(-(sy * (self.position2d.y as i128)), UNIT as i128);
        Mvp { sx, sy, tx, ty }
    }

    /// Map a world point to screen-pixel subunits: apply the
    /// view-projection transform, then scale normalized device
    /// coordinates to pixels, flipping y.
    pub fn project(&self, point: Vec2, width: i64, height: i64) -> (r: (i128, i128))
        requires
            self.wf(),
            mag(point.x as int) <= COORD_LIMIT,
            mag(point.y as int) <= COORD_LIMIT,
            1 <= width <= SCREEN_LIMIT,
            1 <= height <= SCREEN_LIMIT,
        ensures
            r.0 == project_x(
                self.zoom as int,
                self.position2d.x as int,
                point.x as int,
                width as int,
            ),
            r.1 == project_y(
                self.zoom as int,
                self.position2d.y as int,
                point.y as int,
                width as int,
                height as int,
            ),
    {
        let halfw: i128 = half_span(width);
        let halfh: i128 = half_span(height);
        let dx: i64 = point.x - self.position2d.x;
        let dy: i64 = point.y - self.position2d.y;
        proof {
            lemma_scaled_offset_bound(self.zoom as int, dx as int, width as int);
            lemma_scaled_offset_bound(self.zoom as int, dy as int, width as int);
        }
        let num_x: i128 = (self.zoom as i128) * (dx as i128) * (width as i128);
        let num_y: i128 = (self.zoom as i128) * (dy as i128) * (width as i128);
        let qx: i128 = div_round_i128(num_x, 2 * (UNIT as i128));
        let qy: i128 = div_round_i128(num_y, 2 * (UNIT as i128));
        proof {
            lemma_div_round_mag(
                num_x as int,
                2 * (UNIT as int),
                400_000_000_000_000_000_000_000_000_000int,
            );
            lemma_div_round_mag(
                num_y as int,
                2 * (UNIT as int),
                400_000_000_000_000_000_000_000_000_000int,
            );
        }
        (halfw + qx, halfh - qy)
    }

    /// Map a screen point in pixel subunits back to a world point: the
    /// inverse transform of `project`, up to rounding.
    pub fn unproject(&self, x: i128, y: i128, width: i64, height: i64) -> (r: (i128, i128))
        requires
            self.wf(),
            mag(x as int) <= SCREEN_COORD_LIMIT,
            mag(y as int) <= SCREEN_COORD_LIMIT,
            1 <= width <= SCREEN_LIMIT,
            1 <= height <= SCREEN_LIMIT,
        ensures
            r.0 == unproject_x(self.zoom as int, self.position2d.x as int, x as int, width as int),
            r.1 == unproject_y(
                self.zoom as int,
                self.position2d.y as int,
                y as int,
                width as int,
                height as int,
            ),
    {
        let halfw: i128 = half_span(width);
        let halfh: i128 = half_span(height);
        proof {
            assert(1_000 <= (self.zoom as i128) * (width as i128)
                <= 100_000_000_000_000_000_000i128) by (nonlinear_arith)
                requires
                    MIN_ZOOM <= self.zoom <= MAX_ZOOM,
                    1 <= width <= SCREEN_LIMIT,
            {
            }
        }
        let zw: i128 = (self.zoom as i128) * (width as i128);
        proof {
            lemma_unit_product_bound(x as int - halfw as int);
            lemma_unit_product_bound(halfh as int - y as int);
        }
        let ax: i128 = 2 * (UNIT as i128) * (x - halfw);
        let ay: i128 = 2 * (UNIT as i128) * (halfh - y);
        let qx: i128 = div_round_i128(ax, zw);
        let qy: i128 = div_round_i128(ay, zw);
        proof {
            lemma_div_round_mag(ax as int, zw as int, 4_000_000_000_000_000_000_000_000_000_000_000int);
            lemma_div_round_mag(ay as int, zw as int, 4_000_000_000_000_000_000_000_000_000_000_000int);
        }
        ((self.position2d.x as i128) + qx, (self.position2d.y as i128) + qy)
    }
}

/// Half of a screen span of `w` pixels, in subunits of a pixel.
fn half_span(w: i64) -> (h: i128)
    requires
        1 <= w <= SCREEN_LIMIT,
    ensures
        h == w * UNIT / 2,
{
    let wide: u128 = (w as u128) * (UNIT as u128);
    proof {
        crate::fixed::lemma_div_pos_nonneg(wide as int, 2);
    }
    (wide / 2) as i128
}

/// The product `zoom * d * w` stays within the range `div_round_i128`
/// accepts, for in-range zooms, offsets and widths.
proof fn lemma_scaled_offset_bound(zoom: int, d: int, w: int)
    requires
        MIN_ZOOM <= zoom <= MAX_ZOOM,
        mag(d) <= 2 * COORD_LIMIT,
        1 <= w <= SCREEN_LIMIT,
    ensures
        mag(zoom * d) <= 400_000_000_000_000_000_000_000_000int,
        mag(zoom * d * w) <= 400_000_000_000_000_000_000_000_000_000_000_000int,
{
    assert(mag(zoom * d) <= 400_000_000_000_000_000_000_000_000int && mag(zoom * d * w)
        <= 400_000_000_000_000_000_000_000_000_000_000_000int) by (nonlinear_arith)
        requires
            1_000 <= zoom <= 100_000_000_000int,
            mag(d) <= 4_000_000_000_000_000int,
            1 <= w <= 1_000_000_000int,
    {
    }
}

/// The product `2 * UNIT * s` stays within the range `div_round_i128`
/// accepts, for screen offsets within the screen-coordinate limit.
proof fn lemma_unit_product_bound(s: int)
    requires
        mag(s) <= SCREEN_COORD_LIMIT + 1_000_000_000_000_000int,
    ensures
        mag(2 * UNIT * s) <= 4_000_000_000_000_000_000_000_000_000_000_000_000int,
{
    assert(mag(2 * UNIT * s) <= 4_000_000_000_000_000_000_000_000_000_000_000_000int)
        by (nonlinear_arith)
        requires
            UNIT == 1_000_000i64,
            mag(s) <= 2_000_000_000_000_000_000_000_000_000_000int,
    {
    }
}

/// Scaling a world offset down by `s` and back up, rounding both ways,
/// moves it by at most half of `s` plus half of `zw`, measured at the
/// scale `zw`: the composed rounding error is at most `(s + zw)` over
/// `(2 * zw)`.
proof fn lemma_round_trip_core(d: int, zw: int, s: int)
    requires
        zw >= 1,
        s >= 1,
    ensures
        2 * zw * mag(div_round(s * div_round(d * zw, s), zw) - d) <= s + zw,
{
    let r1 = div_round(d * zw, s);
    lemma_div_round_err(d * zw, s);
    let e1 = r1 * s - d * zw;
    let q2 = div_round(s * r1, zw);
    lemma_div_round_err(s * r1, zw);
    let e2 = q2 * zw - s * r1;
    lemma_mul_is_commutative(r1, s);
    assert(q2 * zw - d * zw == e1 + e2);
    lemma_mul_is_distributive_sub_other_way(zw, q2, d);
    assert((q2 - d) * zw == e1 + e2);
    assert(mag((q2 - d) * zw) == mag(q2 - d) * zw) by (nonlinear_arith)
        requires
            zw >= 1,
    {
    }
    assert(2 * (mag(q2 - d) * zw) <= s + zw);
    assert(2 * zw * mag(q2 - d) == 2 * (mag(q2 - d) * zw)) by (nonlinear_arith);
}

/// Unprojecting the projection of a world x recovers it up to a bounded
/// rounding error; once `zoom * width` reaches `UNIT` (one world unit per
/// screen pixel or finer), the error is at most one subunit.
pub proof fn lemma_unproject_inverts_project_x(zoom: int, px: int, x: int, w: int)
    requires
        MIN_ZOOM <= zoom,
        1 <= w,
    ensures
        2 * (zoom * w) * mag(
            unproject_x(zoom, px, project_x(zoom, px, x, w), w) - x,
        ) <= 2 * UNIT + zoom * w,
        zoom * w >= UNIT ==> mag(unproject_x(zoom, px, project_x(zoom, px, x, w), w) - x) <= 1,
{
    let d = x - px;
    assert(zoom * (x - px) * w == d * (zoom * w)) by (nonlinear_arith)
        requires
            d == x - px,
    {
    }
    assert(zoom * w >= 1_000) by (nonlinear_arith)
        requires
            zoom >= 1_000,
            w >= 1,
    {
    }
    lemma_round_trip_core(d, zoom * w, 2 * UNIT);
    let res = unproject_x(zoom, px, project_x(zoom, px, x, w), w);
    assert(res - x == div_round(2 * UNIT * div_round(d * (zoom * w), 2 * UNIT), zoom * w) - d);
    if zoom * w >= UNIT {
        let m = mag(res - x);
        assert(m <= 1) by (nonlinear_arith)
            requires
                2 * (zoom * w) * m <= 2 * UNIT + zoom * w,
                zoom * w >= UNIT,
                UNIT > 0,
                m >= 0,
        {
        }
    }
}

/// Unprojecting the projection of a world point recovers it, per axis,
/// up to a rounding error bounded by `(2 * UNIT + zoom * width)` over
/// `2 * zoom * width`; at one world unit per screen pixel or finer, the
/// point comes back within one subunit on each axis.
pub proof fn lemma_unproject_inverts_project(cam: Camera, point: Vec2, w: int, h: int)
    requires
        cam.wf(),
        1 <= w,
    ensures
        2 * (cam.zoom * w) * mag(
            unproject_x(
                cam.zoom as int,
                cam.position2d.x as int,
                project_x(cam.zoom as int, cam.position2d.x as int, point.x as int, w),
                w,
            ) - point.x,
        ) <= 2 * UNIT + cam.zoom * w,
        2 * (cam.zoom * w) * mag(
            unproject_y(
                cam.zoom as int,
                cam.position2d.y as int,
                project_y(cam.zoom as int, cam.position2d.y as int, point.y as int, w, h),
                w,
                h,
            ) - point.y,
        ) <= 2 * UNIT + cam.zoom * w,
        cam.zoom * w >= UNIT ==> mag(
            unproject_x(
                cam.zoom as int,
                cam.position2d.x as int,
                project_x(cam.zoom as int, cam.position2d.x as int, point.x as int, w),
                w,
            ) - point.x,
        ) <= 1 && mag(
            unproject_y(
                cam.zoom as int,
                cam.position2d.y as int,
                project_y(cam.zoom as int, cam.position2d.y as int, point.y as int, w, h),
                w,
                h,
            ) - point.y,
        ) <= 1,
{
    lemma_unproject_inverts_project_x(cam.zoom as int, cam.position2d.x as int, point.x as int, w);
    lemma_unproject_inverts_project_y(
        cam.zoom as int,
        cam.position2d.y as int,
        point.y as int,
        w,
        h,
    );
}

/// Unprojecting the projection of a world y recovers it up to the same
/// bounded rounding error as on the x axis.
pub proof fn lemma_unproject_inverts_project_y(zoom: int, py: int, y: int, w: int, h: int)
    requires
        MIN_ZOOM <= zoom,
        1 <= w,
    ensures
        2 * (zoom * w) * mag(
            unproject_y(zoom, py, project_y(zoom, py, y, w, h), w, h) - y,
        ) <= 2 * UNIT + zoom * w,
        zoom * w >= UNIT ==> mag(
            unproject_y(zoom, py, project_y(zoom, py, y, w, h), w, h) - y,
        ) <= 1,
{
    let d = y - py;
    assert(zoom * (y - py) * w == d * (zoom * w)) by (nonlinear_arith)
        requires
            d == y - py,
    {
    }
    assert(zoom * w >= 1_000) by (nonlinear_arith)
        requires
            zoom >= 1_000,
            w >= 1,
    {
    }
    lemma_round_trip_core(d, zoom * w, 2 * UNIT);
    let sy = project_y(zoom, py, y, w, h);
    assert(h * UNIT / 2 - sy == div_round(d * (zoom * w), 2 * UNIT));
    let res = unproject_y(zoom, py, sy, w, h);
    assert(res - y == div_round(2 * UNIT * div_round(d * (zoom * w), 2 * UNIT), zoom * w) - d);
    if zoom * w >= UNIT {
        let m = mag(res - y);
        assert(m <= 1) by (nonlinear_arith)
            requires
                2 * (zoom * w) * m <= 2 * UNIT + zoom * w,
                zoom * w >= UNIT,
                UNIT > 0,
                m >= 0,
        {
        }
    }
}

/// World-space pan for a drag of `dx` along x: the pixel delta is
/// divided by the zoom, negated, and normalized by the screen width.
pub open spec fn pan_delta_x(zoom: int, dx: int, w: int) -> int {
    div_round(-(UNIT * dx), zoom * w)
}

/// World-space pan for a drag of `dy` along y: the pixel delta is
/// divided by the zoom, normalized by the screen height, and halved.
pub open spec fn pan_delta_y(zoom: int, dy: int, h: int) -> int {
    div_round(UNIT * dy, 2 * (zoom * h))
}

/// Turn a pointer drag of `(dx, dy)` pixel subunits into a world-space
/// pan to hand to `position_add`.
pub fn pan_delta(dx: i64, dy: i64, zoom: i64, width: i64, height: i64) -> (d: Vec2)
    requires
        MIN_ZOOM <= zoom <= MAX_ZOOM,
        1 <= width <= SCREEN_LIMIT,
        1 <= height <= SCREEN_LIMIT,
        mag(dx as int) <= SCREEN_LIMIT * UNIT,
        mag(dy as int) <= SCREEN_LIMIT * UNIT,
    ensures
        d.x == pan_delta_x(zoom as int, dx as int, width as int),
        d.y == pan_delta_y(zoom as int, dy as int, height as int),
{
    proof {
        assert(1_000 <= (zoom as i128) * (width as i128) <= 100_000_000_000_000_000_000i128
            && 1_000 <= (zoom as i128) * (height as i128) <= 100_000_000_000_000_000_000i128)
            by (nonlinear_arith)
            requires
                MIN_ZOOM <= zoom <= MAX_ZOOM,
                1 <= width <= SCREEN_LIMIT,
                1 <= height <= SCREEN_LIMIT,
        {
        }
        lemma_unit_pan_bound(dx as int);
        lemma_unit_pan_bound(dy as int);
    }
    let zw: i128 = (zoom as i128) * (width as i128);
    let zh2: i128 = 2 * ((zoom as i128) * (height as i128));
    let nx: i128 = -((UNIT as i128) * (dx as i128));
    let ny: i128 = (UNIT as i128) * (dy as i128);
    let qx: i128 = div_round_i128(nx, zw);
    let qy: i128 = div_round_i128(ny, zh2);
    proof {
        lemma_div_round_mag(nx as int, zw as int, 1_000_000_000_000_000_000int);
        lemma_div_round_mag(ny as int, zh2 as int, 1_000_000_000_000_000_000int);
    }
    Vec2 { x: qx as i64, y: qy as i64 }
}

/// The product `UNIT * d` of a pan delta stays within the range
/// `div_round_i128` accepts.
proof fn lemma_unit_pan_bound(d: int)
    requires
        mag(d) <= SCREEN_LIMIT * UNIT,
    ensures
        mag(UNIT * d) <= 1_000_000_000_000_000_000_000int,
{
    assert(mag(UNIT * d) <= 1_000_000_000_000_000_000_000int) by (nonlinear_arith)
        requires
            UNIT == 1_000_000i64,
            mag(d) <= 1_000_000_000_000_000int,
    {
    }
}

} // verus!
