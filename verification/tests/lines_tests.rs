use line_view::camera::Camera;
use line_view::draw_lines::{
    CapacityError, Color, Line, Lines, LinesRenderer, SegmentType,
};
use line_view::fixed::Vec2;

fn red() -> Color {
    Color { r: 1_000_000, g: 0, b: 0 }
}

#[test]
fn line_new_takes_midpoint_and_direction() {
    let line = Line::new(
        SegmentType::All,
        Vec2 { x: 0, y: 0 },
        Vec2 { x: 2_000_000, y: 1_000_000 },
        5_000,
        red(),
    );
    assert_eq!(line.dir, Vec2 { x: 2_000_000, y: 1_000_000 });
    assert_eq!(line.position, Vec2 { x: 1_000_000, y: 500_000 });
    assert_eq!(line.thickness, 5_000);
    assert_eq!(line.color, red());
    assert_eq!(line.segment_type, SegmentType::All);
}

#[test]
fn line_midpoint_rounds_ties_up() {
    let up = Line::new(SegmentType::All, Vec2 { x: 0, y: 0 }, Vec2 { x: 1, y: 1 }, 1, red());
    assert_eq!(up.position, Vec2 { x: 1, y: 1 });
    let down = Line::new(SegmentType::All, Vec2 { x: 0, y: 0 }, Vec2 { x: -1, y: -1 }, 1, red());
    assert_eq!(down.position, Vec2 { x: 0, y: 0 });
}

#[test]
fn segment_type_codes() {
    assert_eq!(SegmentType::All.code(), 0);
    assert_eq!(SegmentType::NoFirst.code(), 1);
    assert_eq!(SegmentType::NoSecond.code(), 2);
    assert_eq!(SegmentType::NoAll.code(), 3);
}

#[test]
fn batch_add_then_clear_is_empty() {
    let mut batch = Lines::default();
    let line = Line::new(SegmentType::All, Vec2 { x: 0, y: 0 }, Vec2 { x: 1, y: 0 }, 1, red());
    batch.add(line);
    batch.add(line);
    batch.add(line);
    assert_eq!(batch.len(), 3);
    batch.clear();
    assert_eq!(batch.len(), 0);
}

#[test]
fn extend_concatenates_in_order() {
    let mut a = Lines::default();
    let mut b = Lines::default();
    let mk = |x: i64| {
        Line::new(SegmentType::All, Vec2 { x: 0, y: 0 }, Vec2 { x, y: 0 }, 1, red())
    };
    a.add(mk(2));
    a.add(mk(4));
    b.add(mk(6));
    b.add(mk(8));
    b.add(mk(10));
    a.extend(&b);
    assert_eq!(a.len(), 5);
    assert_eq!(b.len(), 3);
    assert_eq!(a.get(0).dir.x, 2);
    assert_eq!(a.get(1).dir.x, 4);
    assert_eq!(a.get(2).dir.x, 6);
    assert_eq!(a.get(3).dir.x, 8);
    assert_eq!(a.get(4).dir.x, 10);
}

#[test]
fn renderer_starts_empty() {
    let renderer = LinesRenderer::new(16);
    assert_eq!(renderer.lines.len(), 0);
    assert_eq!(renderer.max_lines_num, 16);
    let fresh = renderer.create_lines();
    assert_eq!(fresh.len(), 0);
}

#[test]
fn push_segments_past_capacity_is_refused() {
    let mut renderer = LinesRenderer::new(1);
    let mut batch = Lines::default();
    let line = Line::new(SegmentType::All, Vec2 { x: 0, y: 0 }, Vec2 { x: 1, y: 0 }, 1, red());
    batch.add(line);
    batch.add(line);
    assert_eq!(renderer.push_segments(&batch), Err(CapacityError));
    assert_eq!(renderer.lines.len(), 0);
    let mut small = Lines::default();
    small.add(line);
    assert_eq!(renderer.push_segments(&small), Ok(()));
    assert_eq!(renderer.lines.len(), 1);
    assert_eq!(renderer.push_segments(&small), Err(CapacityError));
    assert_eq!(renderer.lines.len(), 1);
}

#[test]
fn clear_buffers_resets_accumulation() {
    let mut renderer = LinesRenderer::new(4);
    let mut batch = Lines::default();
    batch.add(Line::new(SegmentType::All, Vec2 { x: 0, y: 0 }, Vec2 { x: 1, y: 0 }, 1, red()));
    assert_eq!(renderer.push_segments(&batch), Ok(()));
    assert_eq!(renderer.lines.len(), 1);
    renderer.clear_buffers();
    assert_eq!(renderer.lines.len(), 0);
    assert_eq!(renderer.max_lines_num, 4);
}

#[test]
fn two_segment_frame_draws_two_instances_with_joint_cap_suppressed() {
    let mut renderer = LinesRenderer::new(3);
    let mut batch = renderer.create_lines();
    batch.add(Line::new(
        SegmentType::All,
        Vec2 { x: 0, y: 0 },
        Vec2 { x: 1_000_000, y: 0 },
        10_000,
        red(),
    ));
    batch.add(Line::new(
        SegmentType::NoFirst,
        Vec2 { x: 1_000_000, y: 0 },
        Vec2 { x: 1_000_000, y: 1_000_000 },
        10_000,
        red(),
    ));
    assert_eq!(renderer.push_segments(&batch), Ok(()));
    assert!(renderer.lines.len() <= renderer.max_lines_num);

    let camera = Camera::default();
    let call = renderer.draw(&camera, 800, 600);
    assert_eq!(call.num_instances, 2);
    assert_eq!(call.num_elements, 12);
    // the matrix reflects the camera's zoom and centered position
    assert_eq!(call.mvp.sx, 1_000);
    assert_eq!(call.mvp.sy, 1_333);
    assert_eq!(call.mvp.tx, 0);
    assert_eq!(call.mvp.ty, 0);

    // the second instance starts at the shared joint (1, 0) and carries
    // the tag that makes the fragment stage drop the cap there
    let second = renderer.lines.get(1);
    assert_eq!(second.segment_type, SegmentType::NoFirst);
    assert_eq!(second.segment_type.code(), 1);
}
