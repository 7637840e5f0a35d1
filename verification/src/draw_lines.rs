//! Line batches and the instanced line renderer's bookkeeping.
//!
//! A `Lines` batch accumulates per-segment instance records; the
//! `LinesRenderer` owns the batch mirrored into a fixed-capacity GPU
//! instance pool and refuses to grow past that capacity.  The GPU
//! resources themselves (buffers, shader, draw submission) live with the
//! application loop, which consumes the `DrawCall` computed here.

use vstd::prelude::*;
use crate::camera::{Camera, Mvp, COORD_LIMIT, SCREEN_LIMIT};
use crate::fixed::{div_round, div_round_i128, div_round_i64, mag, Vec2, UNIT};
use vstd::arithmetic::div_mod::{lemma_div_by_self, lemma_div_is_ordered};

verus! {

/// Which rounded end caps of a segment's quad the fragment stage keeps:
/// interior joints of a polyline suppress the cap facing the previous
/// (`NoFirst`), the next (`NoSecond`) or both (`NoAll`) segments, so that
/// consecutive segments render as one continuous stroke.
#[derive(Clone, Copy, PartialEq, Eq, Structural, Debug)]
pub enum SegmentType {
    All,
    NoFirst,
    NoSecond,
    NoAll,
}

impl SegmentType {
    /// The numeric tag handed to the vertex stream.
    pub open spec fn code_spec(self) -> u8 {
        match self {
            SegmentType::All => 0,
            SegmentType::NoFirst => 1,
            SegmentType::NoSecond => 2,
            SegmentType::NoAll => 3,
        }
    }

    /// The numeric tag handed to the vertex stream.
    pub fn code(self) -> (r: u8)
        ensures
            r == self.code_spec(),
    {
        match self {
            SegmentType::All => 0,
            SegmentType::NoFirst => 1,
            SegmentType::NoSecond => 2,
            SegmentType::NoAll => 3,
        }
    }
}

/// An RGB color with each channel in subunits (`UNIT` is full
/// intensity).
#[derive(Clone, Copy, PartialEq, Eq, Structural, Debug)]
pub struct Color {
    pub r: i64,
    pub g: i64,
    pub b: i64,
}

/// One line-segment instance: midpoint, direction (end minus start),
/// half-thickness, color and cap tag, all in subunits.
#[derive(Clone, Copy, PartialEq, Eq, Structural, Debug)]
pub struct Line {
    pub segment_type: SegmentType,
    pub position: Vec2,
    pub thickness: i64,
    pub dir: Vec2,
    pub color: Color,
}

impl Line {
    /// The instance record for a segment from `from` to `to`: direction
    /// is the endpoint difference, position the rounded midpoint.
    pub open spec fn new_spec(
        segment_type: SegmentType,
        from: Vec2,
        to: Vec2,
        thickness: i64,
        color: Color,
    ) -> Line {
        Line {
            segment_type,
            position: Vec2 {
                x: div_round(from.x + to.x, 2) as i64,
                y: div_round(from.y + to.y, 2) as i64,
            },
            thickness,
            dir: Vec2 { x: (to.x - from.x) as i64, y: (to.y - from.y) as i64 },
            color,
        }
    }

    /// Build the instance record for a segment from `from` to `to`.
    pub fn new(
        segment_type: SegmentType,
        from: Vec2,
        to: Vec2,
        thickness: i64,
        color: Color,
    ) -> (r: Line)
        requires
            mag(from.x as int) <= COORD_LIMIT,
            mag(from.y as int) <= COORD_LIMIT,
            mag(to.x as int) <= COORD_LIMIT,
            mag(to.y as int) <= COORD_LIMIT,
        ensures
            r == Line::new_spec(segment_type, from, to, thickness, color),
    {
        let dir = Vec2 { x: to.x - from.x, y: to.y - from.y };
        let position = Vec2 {
            x: div_round_i64(from.x + to.x, 2),
            y: div_round_i64(from.y + to.y, 2),
        };
        proof {
            crate::fixed::lemma_div_round_mag(from.x + to.x, 2, 2 * COORD_LIMIT);
            crate::fixed::lemma_div_round_mag(from.y + to.y, 2, 2 * COORD_LIMIT);
        }
        Line { segment_type, position, thickness, dir, color }
    }
}

/// An ordered, append-only batch of line instances, rebuilt every frame.
#[derive(Debug)]
pub struct Lines(Vec<Line>);

impl Clone for Lines {
    /// A batch holding the same instances.
    fn clone(&self) -> (r: Lines)
        ensures
            r@ == self@,
    {
        let copy = Lines(self.0.clone());
        proof {
            assert(copy.0@ =~= self.0@);
        }
        copy
    }
}

impl View for Lines {
    type V = Seq<Line>;

    closed spec fn view(&self) -> Seq<Line> {
        self.0@
    }
}

impl Default for Lines {
    /// An empty batch.
    fn default() -> (r: Lines)
        ensures
            r@ == Seq::<Line>::empty(),
    {
        Lines(Vec::new())
    }
}

impl Lines {
    /// An empty batch pre-sized for the renderer's instance pool, so
    /// that accumulation does not reallocate mid-frame.
    fn new_gpu_backed(max_lines_num: usize) -> (r: Lines)
        ensures
            r@ == Seq::<Line>::empty(),
    {
        Lines(Vec::with_capacity(max_lines_num))
    }

    /// Drop all instances (reserved storage is kept).
    pub fn clear(&mut self)
        ensures
            final(self)@ == Seq::<Line>::empty(),
    {
        self.0.clear();
    }

    /// Append one instance.
    pub fn add(&mut self, line: Line)
        ensures
            final(self)@ == old(self)@.push(line),
    {
        self.0.push(line);
    }

    /// Append another batch's instances, in order.
    pub fn extend(&mut self, segments: &Lines)
        ensures
            final(self)@ == old(self)@ + segments@,
    {
        let n: usize = segments.0.len();
        let mut i: usize = 0;
        while i < n
            invariant
                i <= n,
                n == segments@.len(),
                self@ == old(self)@ + segments@.subrange(0, i as int),
            decreases n - i,
        {
            self.0.push(segments.0[i]);
            proof {
                assert(segments@.subrange(0, i + 1) == segments@.subrange(0, i as int).push(
                    segments@[i as int],
                ));
            }
            i = i + 1;
        }
        proof {
            assert(segments@.subrange(0, n as int) == segments@);
        }
    }

    /// Number of instances in the batch.
    pub fn len(&self) -> (n: usize)
        ensures
            n == self@.len(),
    {
        self.0.len()
    }

    /// The instance at index `i`.
    pub fn get(&self, i: usize) -> (r: Line)
        requires
            i < self@.len(),
        ensures
            r == self@[i as int],
    {
        self.0[i]
    }
}

/// Appending past the renderer's preallocated instance pool.
#[derive(Clone, Copy, PartialEq, Eq, Structural, Debug)]
pub struct CapacityError;

/// One instanced draw submission: the camera matrix, the number of
/// indices of the shared quad template (four triangles fanned from its
/// center vertex) and the number of instances to render.
#[derive(Clone, Copy, PartialEq, Eq, Structural, Debug)]
pub struct DrawCall {
    pub mvp: Mvp,
    pub num_elements: usize,
    pub num_instances: usize,
}

/// The screen's aspect ratio (height over width) in subunits.
pub open spec fn aspect_of(w: int, h: int) -> int {
    div_round(h * UNIT, w)
}

/// The renderer's accumulation batch, mirrored into a GPU instance pool
/// of fixed capacity `max_lines_num`.
pub struct LinesRenderer {
    pub lines: Lines,
    pub max_lines_num: usize,
}

impl LinesRenderer {
    /// The accumulated batch never exceeds the instance pool.
    pub open spec fn wf(self) -> bool {
        self.lines@.len() <= self.max_lines_num
    }

    /// A renderer whose instance pool holds at most `max_lines_num`
    /// instances.
    pub fn new(max_lines_num: usize) -> (r: LinesRenderer)
        ensures
            r.wf(),
            r.lines@ == Seq::<Line>::empty(),
            r.max_lines_num == max_lines_num,
    {
        LinesRenderer { lines: Lines::new_gpu_backed(max_lines_num), max_lines_num }
    }

    /// An empty batch pre-sized to this renderer's capacity.
    pub fn create_lines(&self) -> (r: Lines)
        ensures
            r@ == Seq::<Line>::empty(),
    {
        Lines::new_gpu_backed(self.max_lines_num)
    }

    /// Empty the accumulation batch for the next frame.
    pub fn clear_buffers(&mut self)
        ensures
            final(self).wf(),
            final(self).lines@ == Seq::<Line>::empty(),
            final(self).max_lines_num == old(self).max_lines_num,
    {
        self.lines.clear();
    }

    /// Append `segments` to the accumulation batch, refusing (and
    /// leaving the batch untouched) when the result would overrun the
    /// instance pool.  On success the caller uploads the whole batch to
    /// the GPU buffer in one write.
    pub fn push_segments(&mut self, segments: &Lines) -> (r: Result<(), CapacityError>)
        requires
            old(self).wf(),
        ensures
            final(self).wf(),
            final(self).max_lines_num == old(self).max_lines_num,
            r is Ok <==> old(self).lines@.len() + segments@.len() <= old(self).max_lines_num,
            r is Ok ==> final(self).lines@ == old(self).lines@ + segments@,
            r is Err ==> final(self).lines@ == old(self).lines@,
    {
        if segments.len() > self.max_lines_num - self.lines.len() {
            Err(CapacityError)
        } else {
            self.lines.extend(segments);
            Ok(())
        }
    }

    /// The draw submission for the current batch: the camera matrix for
    /// this screen, the quad template's twelve indices, and one rendered
    /// quad per accumulated instance.  The screen-shape bounds keep the
    /// subunit aspect ratio at least one and small enough for the
    /// camera's zoom, so both matrix scales are nonzero and the matrix
    /// invertible.
    pub fn draw(&self, camera: &Camera, width: i64, height: i64) -> (r: DrawCall)
        requires
            camera.wf(),
            1 <= width <= SCREEN_LIMIT,
            1 <= height <= SCREEN_LIMIT,
            width <= UNIT * height,
            height <= 2 * camera.zoom * width,
        ensures
            r.num_elements == 12,
            r.num_instances == self.lines@.len(),
            r.mvp.sx == camera.zoom,
            r.mvp.sy == div_round(camera.zoom * UNIT, aspect_of(width as int, height as int)),
            r.mvp.tx == div_round(-(r.mvp.sx * camera.position2d.x), UNIT as int),
            r.mvp.ty == div_round(-(r.mvp.sy * camera.position2d.y), UNIT as int),
            r.mvp.sx >= 1,
            r.mvp.sy >= 1,
    {
        proof {
            lemma_aspect_in_range(width as int, height as int);
            lemma_aspect_fits_zoom(width as int, height as int, camera.zoom as int);
        }
        let aspect_wide: i128 = div_round_i128((height as i128) * (UNIT as i128), width as i128);
        let aspect: i64 = aspect_wide as i64;
        let mvp = camera.get_mvp(aspect);
        DrawCall { mvp, num_elements: 12, num_instances: self.lines.len() }
    }
}

/// For screens no wider than `UNIT` times their height, the subunit
/// aspect ratio is at least one and no larger than the tallest screen's
/// span.
proof fn lemma_aspect_in_range(w: int, h: int)
    requires
        1 <= w <= SCREEN_LIMIT,
        1 <= h <= SCREEN_LIMIT,
        w <= UNIT * h,
    ensures
        1 <= aspect_of(w, h) <= 1_000_000_000_000_000int,
{
    let a = h * UNIT;
    assert(UNIT * h == h * UNIT) by (nonlinear_arith);
    assert(a <= 1_000_000_000_000_000int) by (nonlinear_arith)
        requires
            1 <= h <= SCREEN_LIMIT,
            UNIT == 1_000_000i64,
            a == h * UNIT,
    {
    }
    assert(2 * a + w >= 2 * w) by {
        assert(a >= w);
    }
    lemma_div_is_ordered(2 * w, 2 * a + w, 2 * w);
    lemma_div_by_self(2 * w);
    assert(aspect_of(w, h) >= 1);
    assert(mag(a) <= a * w) by (nonlinear_arith)
        requires
            a >= 1,
            w >= 1,
    {
    }
    crate::fixed::lemma_div_round_mag(a, w, a);
}

/// For screens no taller than `2 * zoom` times their width, the subunit
/// aspect ratio stays below twice the zoom's subunit scale, so the
/// vertical matrix scale stays at least one.
proof fn lemma_aspect_fits_zoom(w: int, h: int, zoom: int)
    requires
        1 <= w,
        1 <= h,
        zoom >= 1,
        h <= 2 * zoom * w,
    ensures
        aspect_of(w, h) <= 2 * zoom * UNIT,
{
    assert(mag(h * UNIT) <= (2 * zoom * UNIT) * w) by (nonlinear_arith)
        requires
            1 <= w,
            1 <= h,
            zoom >= 1,
            h <= 2 * zoom * w,
            UNIT == 1_000_000i64,
    {
    }
    crate::fixed::lemma_div_round_mag(h * UNIT, w, 2 * zoom * UNIT);
}

} // verus!
