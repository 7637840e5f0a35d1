use line_view::camera::{
    pan_delta, Camera, INIT_ZOOM, MAX_ZOOM, MIN_ZOOM,
};
use line_view::fixed::{Vec2, UNIT};

#[test]
fn new_starts_at_min_and_aims_at_init() {
    let cam = Camera::new(INIT_ZOOM, MIN_ZOOM);
    assert_eq!(cam.zoom, 1_000);
    assert_eq!(cam.desired_zoom, 100_000);
    assert_eq!(cam.position2d, Vec2 { x: 0, y: 0 });
    assert_eq!(cam.desired_position, Vec2 { x: 0, y: 0 });
}

#[test]
fn default_matches_new_with_init_constants() {
    let cam = Camera::default();
    assert_eq!(cam.zoom, MIN_ZOOM);
    assert_eq!(cam.desired_zoom, INIT_ZOOM);
    assert_eq!(cam.desired_position, Vec2 { x: 0, y: 0 });
}

#[test]
fn update_moves_zoom_four_fifths_of_the_gap() {
    let mut cam = Camera::new(INIT_ZOOM, MIN_ZOOM);
    cam.update();
    // 100_000 + trunc(1 * (1_000 - 100_000) / 5) = 100_000 - 19_800
    assert_eq!(cam.zoom, 80_200);
}

#[test]
fn update_moves_position_two_fifths_of_the_gap() {
    let mut cam = Camera::default();
    cam.position_set(Vec2 { x: 1_000, y: -1_000 }, 220 * UNIT);
    cam.update();
    // 1_000 + trunc(3 * (0 - 1_000) / 5) = 1_000 - 600
    assert_eq!(cam.position2d, Vec2 { x: 400, y: -400 });
}

#[test]
fn update_approaches_target_zoom_monotonically() {
    let mut cam = Camera::new(INIT_ZOOM, MIN_ZOOM);
    let mut prev = cam.zoom;
    for _ in 0..200 {
        cam.update();
        assert!(cam.zoom >= prev);
        assert!(cam.zoom <= INIT_ZOOM);
        prev = cam.zoom;
    }
    assert_eq!(cam.zoom, INIT_ZOOM);
}

#[test]
fn position_set_clamps_to_map() {
    let mut cam = Camera::default();
    cam.position_set(Vec2 { x: 500_000_000, y: -999_000_000 }, 220_000_000);
    assert_eq!(cam.desired_position, Vec2 { x: 220_000_000, y: -220_000_000 });
    cam.position_set(Vec2 { x: 7, y: 9 }, 220_000_000);
    assert_eq!(cam.desired_position, Vec2 { x: 7, y: 9 });
}

#[test]
fn position_add_accumulates_and_clamps() {
    let mut cam = Camera::default();
    cam.position_add(Vec2 { x: -300_000_000, y: 10 }, 220_000_000);
    assert_eq!(cam.desired_position, Vec2 { x: -220_000_000, y: 10 });
    cam.position_add(Vec2 { x: 5, y: -15 }, 220_000_000);
    assert_eq!(cam.desired_position, Vec2 { x: -219_999_995, y: -5 });
}

#[test]
fn zoom_set_clamps_to_range() {
    let mut cam = Camera::default();
    cam.zoom_set(0);
    assert_eq!(cam.desired_zoom, MIN_ZOOM);
    cam.zoom_set(i64::MAX);
    assert_eq!(cam.desired_zoom, MAX_ZOOM);
    cam.zoom_set(5_000_000);
    assert_eq!(cam.desired_zoom, 5_000_000);
}

#[test]
fn zoom_wheel_up_then_down_returns_exactly_here() {
    let mut cam = Camera::default();
    assert_eq!(cam.desired_zoom, 100_000);
    cam.zoom_wheel(1);
    assert_eq!(cam.desired_zoom, 120_000);
    cam.zoom_wheel(-1);
    assert_eq!(cam.desired_zoom, 100_000);
}

#[test]
fn zoom_wheel_zero_is_a_no_op() {
    let mut cam = Camera::default();
    cam.zoom_wheel(0);
    assert_eq!(cam.desired_zoom, 100_000);
}

#[test]
fn zoom_wheel_stays_within_bounds() {
    let mut cam = Camera::default();
    for _ in 0..120 {
        cam.zoom_wheel(3);
        assert!(cam.desired_zoom >= MIN_ZOOM);
        assert!(cam.desired_zoom <= MAX_ZOOM);
    }
    assert_eq!(cam.desired_zoom, MAX_ZOOM);
    for _ in 0..200 {
        cam.zoom_wheel(-2);
        assert!(cam.desired_zoom >= MIN_ZOOM);
        assert!(cam.desired_zoom <= MAX_ZOOM);
    }
    assert_eq!(cam.desired_zoom, MIN_ZOOM);
}

#[test]
fn project_maps_world_to_screen_subpixels() {
    let cam = Camera {
        desired_position: Vec2 { x: 3_000_000, y: -2_000_000 },
        position2d: Vec2 { x: 3_000_000, y: -2_000_000 },
        desired_zoom: 1_000_000,
        zoom: 1_000_000,
    };
    let (sx, sy) = cam.project(Vec2 { x: 10_000_000, y: 5_000_000 }, 800, 600);
    // 7 world units right of center at zoom 1.0: NDC 7, so 7 * 400 px
    assert_eq!(sx, 3_200_000_000);
    assert_eq!(sy, -2_500_000_000);
}

#[test]
fn unproject_inverts_project_exactly_at_unit_zoom() {
    let cam = Camera {
        desired_position: Vec2 { x: 3_000_000, y: -2_000_000 },
        position2d: Vec2 { x: 3_000_000, y: -2_000_000 },
        desired_zoom: 1_000_000,
        zoom: 1_000_000,
    };
    let point = Vec2 { x: 10_000_000, y: 5_000_000 };
    let (sx, sy) = cam.project(point, 800, 600);
    let (wx, wy) = cam.unproject(sx, sy, 800, 600);
    assert_eq!(wx, point.x as i128);
    assert_eq!(wy, point.y as i128);
}

#[test]
fn unproject_inverts_project_within_tolerance_at_min_zoom() {
    let cam = Camera {
        desired_position: Vec2 { x: 0, y: 0 },
        position2d: Vec2 { x: 0, y: 0 },
        desired_zoom: MIN_ZOOM,
        zoom: MIN_ZOOM,
    };
    let point = Vec2 { x: 123_457, y: -987_654 };
    let (sx, sy) = cam.project(point, 800, 600);
    let (wx, wy) = cam.unproject(sx, sy, 800, 600);
    assert!((wx - point.x as i128).abs() <= 2);
    assert!((wy - point.y as i128).abs() <= 2);
}

#[test]
fn get_mvp_builds_scales_and_translation() {
    let cam = Camera {
        desired_position: Vec2 { x: 1_000_000, y: -1_000_000 },
        position2d: Vec2 { x: 1_000_000, y: -1_000_000 },
        desired_zoom: 2_000_000,
        zoom: 2_000_000,
    };
    let mvp = cam.get_mvp(750_000);
    assert_eq!(mvp.sx, 2_000_000);
    assert_eq!(mvp.sy, 2_666_667);
    assert_eq!(mvp.tx, -2_000_000);
    assert_eq!(mvp.ty, 2_666_667);
}

#[test]
fn pan_delta_scales_negates_and_halves() {
    // one full screen width of drag at zoom 1.0 pans one world unit left
    let d = pan_delta(800_000_000, 600_000_000, 1_000_000, 800, 600);
    assert_eq!(d.x, -1_000_000);
    assert_eq!(d.y, 500_000);
}
