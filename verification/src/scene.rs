//! Demo-scene generation: a random polyline batch and its centroid, the
//! computation the application performs at startup before the first
//! frame.

use vstd::prelude::*;
use crate::camera::COORD_LIMIT;
use crate::draw_lines::{Color, Line, Lines, SegmentType};
use crate::fixed::{div_round, div_round_i128, lemma_div_round_mag, mag, Vec2, UNIT};
use vstd::arithmetic::mul::lemma_mul_is_commutative;

verus! {

/// Half-extent of the map, in world units.
pub const MAP_SIZE: i64 = 11;

/// Half-extent of the square the demo scene's random points fall in, in
/// subunits.
pub const SCENE_SPAN: i64 = 100_000_000;

/// Largest magnitude handed to `random_between`: far below the range
/// where quad_rand's double-precision scaling could round past a bound.
pub const RANDOM_LIMIT: i64 = 1_000_000_000_000;

/// Relies on quad_rand::gen_range: it returns `low` plus the span
/// `high - low` scaled by a random fraction below one, truncated toward
/// zero, which stays within the inclusive bounds.
#[verifier::external_body]
fn random_between(low: i64, high: i64) -> (r: i64)
    requires
        low <= high,
        -RANDOM_LIMIT <= low,
        high <= RANDOM_LIMIT,
    ensures
        low <= r <= high,
{
    quad_rand::gen_range(low, high)
}

/// A random coordinate within the demo scene's square.
pub fn random_coord() -> (r: i64)
    ensures
        mag(r as int) <= SCENE_SPAN,
{
    random_between(-SCENE_SPAN, SCENE_SPAN)
}

/// A random point within the demo scene's square.
pub fn random_point() -> (p: Vec2)
    ensures
        mag(p.x as int) <= SCENE_SPAN,
        mag(p.y as int) <= SCENE_SPAN,
{
    Vec2 { x: random_coord(), y: random_coord() }
}

/// A random stroke color: red at least half intensity, green and blue
/// anywhere up to full intensity.
pub fn random_color() -> (c: Color)
    ensures
        UNIT / 2 <= c.r <= UNIT,
        0 <= c.g <= UNIT,
        0 <= c.b <= UNIT,
{
    Color {
        r: random_between(500_000, 1_000_000),
        g: random_between(0, 1_000_000),
        b: random_between(0, 1_000_000),
    }
}

/// `n` random points within the demo scene's square.
pub fn random_points(n: usize) -> (v: Vec<Vec2>)
    ensures
        v@.len() == n,
        forall|i: int|
            0 <= i < n ==> mag(v@[i].x as int) <= SCENE_SPAN && mag(v@[i].y as int) <= SCENE_SPAN,
{
    let mut v: Vec<Vec2> = Vec::with_capacity(n);
    let mut i: usize = 0;
    while i < n
        invariant
            i <= n,
            v@.len() == i,
            forall|j: int|
                0 <= j < i ==> mag(v@[j].x as int) <= SCENE_SPAN && mag(v@[j].y as int)
                    <= SCENE_SPAN,
        decreases n - i,
    {
        v.push(random_point());
        i = i + 1;
    }
    v
}

/// Where the polyline segment ending at `points[i]` starts: the previous
/// point, or the world origin for the first segment.
pub open spec fn polyline_start(points: Seq<Vec2>, i: int) -> Vec2 {
    if i == 0 {
        Vec2 { x: 0i64, y: 0i64 }
    } else {
        points[i - 1]
    }
}

/// The cap tag of the polyline segment ending at `points[i]`: every
/// segment after the first suppresses the cap at its start, so interior
/// joints render seamlessly.
pub open spec fn polyline_tag(i: int) -> SegmentType {
    if i == 0 {
        SegmentType::All
    } else {
        SegmentType::NoFirst
    }
}

/// Connect the origin and `points` into one polyline of line instances:
/// one segment per point, each starting where the previous one ended.
pub fn polyline_to_lines(points: &Vec<Vec2>, thickness: i64, color: Color) -> (r: Lines)
    requires
        forall|i: int|
            0 <= i < points@.len() ==> mag(points@[i].x as int) <= COORD_LIMIT && mag(
                points@[i].y as int,
            ) <= COORD_LIMIT,
    ensures
        r@.len() == points@.len(),
        forall|i: int|
            0 <= i < points@.len() ==> r@[i] == Line::new_spec(
                polyline_tag(i),
                polyline_start(points@, i),
                points@[i],
                thickness,
                color,
            ),
{
    let mut lines: Lines = Lines::default();
    let mut prev: Vec2 = Vec2 { x: 0, y: 0 };
    let mut i: usize = 0;
    while i < points.len()
        invariant
            i <= points@.len(),
            lines@.len() == i,
            prev == polyline_start(points@, i as int),
            mag(prev.x as int) <= COORD_LIMIT,
            mag(prev.y as int) <= COORD_LIMIT,
            forall|k: int|
                0 <= k < points@.len() ==> mag(points@[k].x as int) <= COORD_LIMIT && mag(
                    points@[k].y as int,
                ) <= COORD_LIMIT,
            forall|j: int|
                0 <= j < i ==> lines@[j] == Line::new_spec(
                    polyline_tag(j),
                    polyline_start(points@, j),
                    points@[j],
                    thickness,
                    color,
                ),
        decreases points@.len() - i,
    {
        let point = points[i];
        let tag = if i == 0 {
            SegmentType::All
        } else {
            SegmentType::NoFirst
        };
        lines.add(Line::new(tag, prev, point, thickness, color));
        prev = point;
        i = i + 1;
    }
    lines
}

/// Sum of the x coordinates of a point sequence.
pub open spec fn sum_x(points: Seq<Vec2>) -> int
    decreases points.len(),
{
    if points.len() == 0 {
        0
    } else {
        sum_x(points.drop_last()) + points.last().x
    }
}

/// Sum of the y coordinates of a point sequence.
pub open spec fn sum_y(points: Seq<Vec2>) -> int
    decreases points.len(),
{
    if points.len() == 0 {
        0
    } else {
        sum_y(points.drop_last()) + points.last().y
    }
}

/// Coordinate sums of a sequence of points from a bounded square are
/// bounded by the point count times the bound.
pub proof fn lemma_sum_mag(points: Seq<Vec2>, bound: int)
    requires
        bound >= 0,
        forall|i: int|
            0 <= i < points.len() ==> mag(points[i].x as int) <= bound && mag(points[i].y as int)
                <= bound,
    ensures
        mag(sum_x(points)) <= points.len() * bound,
        mag(sum_y(points)) <= points.len() * bound,
    decreases points.len(),
{
    if points.len() > 0 {
        lemma_sum_mag(points.drop_last(), bound);
        assert((points.len() - 1) * bound + bound == points.len() * bound) by (nonlinear_arith);
    }
}

/// The average of `points`, rounded to the nearest subunit per axis.
pub fn centroid(points: &Vec<Vec2>) -> (c: Vec2)
    requires
        points@.len() >= 1,
        forall|i: int|
            0 <= i < points@.len() ==> mag(points@[i].x as int) <= COORD_LIMIT && mag(
                points@[i].y as int,
            ) <= COORD_LIMIT,
    ensures
        c.x == div_round(sum_x(points@), points@.len() as int),
        c.y == div_round(sum_y(points@), points@.len() as int),
        mag(c.x as int) <= COORD_LIMIT,
        mag(c.y as int) <= COORD_LIMIT,
{
    let n: usize = points.len();
    let mut sx: i128 = 0;
    let mut sy: i128 = 0;
    let mut i: usize = 0;
    while i < n
        invariant
            i <= n,
            n == points@.len(),
            sx == sum_x(points@.subrange(0, i as int)),
            sy == sum_y(points@.subrange(0, i as int)),
            mag(sx as int) <= i * COORD_LIMIT,
            mag(sy as int) <= i * COORD_LIMIT,
            forall|k: int|
                0 <= k < points@.len() ==> mag(points@[k].x as int) <= COORD_LIMIT && mag(
                    points@[k].y as int,
                ) <= COORD_LIMIT,
        decreases n - i,
    {
        let p = points[i];
        proof {
            let pre = points@.subrange(0, i as int);
            let post = points@.subrange(0, i + 1);
            assert(post.drop_last() == pre);
            assert(post.last() == points@[i as int]);
            assert((i as int) * COORD_LIMIT + COORD_LIMIT == (i + 1) * COORD_LIMIT)
                by (nonlinear_arith);
            assert(i * COORD_LIMIT <= n * COORD_LIMIT) by (nonlinear_arith)
                requires
                    0 <= i < n,
                    COORD_LIMIT > 0,
            {
            }
        }
        sx = sx + (p.x as i128);
        sy = sy + (p.y as i128);
        i = i + 1;
    }
    proof {
        assert(points@.subrange(0, n as int) == points@);
        assert(n * COORD_LIMIT <= 40_000_000_000_000_000_000_000_000_000_000_000int)
            by (nonlinear_arith)
            requires
                0 <= n <= 20_000_000_000_000_000_000u128,
                COORD_LIMIT == 2_000_000_000_000_000i64,
        {
        }
        lemma_mul_is_commutative(n as int, COORD_LIMIT as int);
        lemma_div_round_mag(sx as int, n as int, COORD_LIMIT as int);
        lemma_div_round_mag(sy as int, n as int, COORD_LIMIT as int);
    }
    let cx: i128 = div_round_i128(sx, n as i128);
    let cy: i128 = div_round_i128(sy, n as i128);
    Vec2 { x: cx as i64, y: cy as i64 }
}

/// One scene drawn from `points` in `color`: the batch is the polyline
/// through the points and the center their rounded average.
pub open spec fn scene_of(
    lines: Seq<Line>,
    center: Vec2,
    points: Seq<Vec2>,
    thickness: i64,
    color: Color,
) -> bool {
    &&& lines.len() == points.len()
    &&& (forall|i: int|
        0 <= i < points.len() ==> lines[i] == Line::new_spec(
            polyline_tag(i),
            polyline_start(points, i),
            points[i],
            thickness,
            color,
        ))
    &&& center.x == div_round(sum_x(points), points.len() as int)
    &&& center.y == div_round(sum_y(points), points.len() as int)
}

/// The demo scene the application shows when no map data is loaded: one
/// polyline through `n` random points, in one random color, together
/// with the centroid of those same points for the camera to aim at.
pub fn random_scene(n: usize, thickness: i64) -> (r: (Lines, Vec2))
    requires
        n >= 1,
    ensures
        r.0@.len() == n,
        forall|i: int| 0 <= i < n ==> (#[trigger] r.0@[i]).segment_type == polyline_tag(i),
        forall|i: int| 0 <= i < n ==> (#[trigger] r.0@[i]).thickness == thickness,
        mag(r.1.x as int) <= SCENE_SPAN,
        mag(r.1.y as int) <= SCENE_SPAN,
        exists|points: Seq<Vec2>, color: Color|
            {
                &&& #[trigger] scene_of(r.0@, r.1, points, thickness, color)
                &&& points.len() == n
                &&& (forall|i: int|
                    0 <= i < points.len() ==> mag(points[i].x as int) <= SCENE_SPAN && mag(
                        points[i].y as int,
                    ) <= SCENE_SPAN)
                &&& UNIT / 2 <= color.r <= UNIT
                &&& 0 <= color.g <= UNIT
                &&& 0 <= color.b <= UNIT
            },
{
    let points = random_points(n);
    let color = random_color();
    let lines = polyline_to_lines(&points, thickness, color);
    let center = centroid(&points);
    proof {
        lemma_sum_mag(points@, SCENE_SPAN as int);
        lemma_mul_is_commutative(points@.len() as int, SCENE_SPAN as int);
        lemma_div_round_mag(sum_x(points@), points@.len() as int, SCENE_SPAN as int);
        lemma_div_round_mag(sum_y(points@), points@.len() as int, SCENE_SPAN as int);
        assert(scene_of(lines@, center, points@, thickness, color));
    }
    (lines, center)
}

} // verus!
