use line_view::draw_lines::{Color, SegmentType};
use line_view::fixed::Vec2;
use line_view::scene::{
    centroid, polyline_to_lines, random_color, random_coord, random_points, random_scene,
    SCENE_SPAN,
};

#[test]
fn random_coord_stays_in_scene_square() {
    for _ in 0..200 {
        let c = random_coord();
        assert!(-SCENE_SPAN <= c && c <= SCENE_SPAN);
    }
}

#[test]
fn random_coord_varies() {
    let first = random_coord();
    let mut all_equal = true;
    for _ in 0..50 {
        if random_coord() != first {
            all_equal = false;
        }
    }
    assert!(!all_equal);
}

#[test]
fn random_color_channels_in_range() {
    for _ in 0..100 {
        let c = random_color();
        assert!(500_000 <= c.r && c.r <= 1_000_000);
        assert!(0 <= c.g && c.g <= 1_000_000);
        assert!(0 <= c.b && c.b <= 1_000_000);
    }
}

#[test]
fn random_points_has_requested_length() {
    let pts = random_points(37);
    assert_eq!(pts.len(), 37);
    for p in &pts {
        assert!(p.x.abs() <= SCENE_SPAN);
        assert!(p.y.abs() <= SCENE_SPAN);
    }
}

#[test]
fn polyline_connects_consecutive_points() {
    let points = vec![Vec2 { x: 2_000_000, y: 0 }, Vec2 { x: 4_000_000, y: 2_000_000 }];
    let color = Color { r: 600_000, g: 200_000, b: 100_000 };
    let lines = polyline_to_lines(&points, 1_000_000, color);
    assert_eq!(lines.len(), 2);

    let first = lines.get(0);
    assert_eq!(first.segment_type, SegmentType::All);
    assert_eq!(first.dir, Vec2 { x: 2_000_000, y: 0 });
    assert_eq!(first.position, Vec2 { x: 1_000_000, y: 0 });
    assert_eq!(first.thickness, 1_000_000);
    assert_eq!(first.color, color);

    let second = lines.get(1);
    assert_eq!(second.segment_type, SegmentType::NoFirst);
    assert_eq!(second.dir, Vec2 { x: 2_000_000, y: 2_000_000 });
    assert_eq!(second.position, Vec2 { x: 3_000_000, y: 1_000_000 });
}

#[test]
fn polyline_of_no_points_is_empty() {
    let points: Vec<Vec2> = Vec::new();
    let lines = polyline_to_lines(&points, 1, Color { r: 0, g: 0, b: 0 });
    assert_eq!(lines.len(), 0);
}

#[test]
fn centroid_averages_exactly() {
    let points = vec![Vec2 { x: 2_000_000, y: 0 }, Vec2 { x: 4_000_000, y: 2_000_000 }];
    assert_eq!(centroid(&points), Vec2 { x: 3_000_000, y: 1_000_000 });
}

#[test]
fn centroid_rounds_to_nearest() {
    let points = vec![Vec2 { x: 0, y: 2 }, Vec2 { x: 1, y: 2 }, Vec2 { x: 0, y: 2 }];
    // x: 1/3 rounds to 0; y: exact 2
    assert_eq!(centroid(&points), Vec2 { x: 0, y: 2 });
}

#[test]
fn random_scene_builds_one_polyline_of_n_segments() {
    let (lines, center) = random_scene(100, 1_000_000);
    assert_eq!(lines.len(), 100);
    assert_eq!(lines.get(0).segment_type, SegmentType::All);
    for i in 1..100 {
        assert_eq!(lines.get(i).segment_type, SegmentType::NoFirst);
        assert_eq!(lines.get(i).thickness, 1_000_000);
    }
    assert!(center.x.abs() <= SCENE_SPAN);
    assert!(center.y.abs() <= SCENE_SPAN);
}
