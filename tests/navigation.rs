use rustywasm::geometry::{bounding_box, Coord, Rect, ScreenPoint, WorldPoint};
use rustywasm::projection::{Heading, Projection, HEADING_UNIT, SUBPIXEL};
use rustywasm::render::{
    apply_gesture, cartograph, compass, frame_rotation, render_frame, viewport_rect, Color,
    Gesture, Shape, Viewport, HALF_SUBPIXEL,
};
use rustywasm::road_index::RoadIndex;
use rustywasm::state::State;
use rustywasm::transform::{Transform, DEF_SCALE, MAX_SCALE, MIN_SCALE, UNIT_SCALE};

fn c(x: i32, y: i32) -> Coord {
    Coord::new(x, y)
}

fn diagonal() -> Heading {
    Heading { cos: 11585, sin: 11585 }
}

#[test]
fn new_transform_is_default() {
    let t = Transform::new();
    assert_eq!(t.get_rotation(), 0);
    assert_eq!(t.get_scale(), DEF_SCALE);
    assert_eq!(t.get_translation(), (0, 0));
    assert_eq!(MIN_SCALE * 10, DEF_SCALE);
    assert_eq!(DEF_SCALE * 10, MAX_SCALE);
}

#[test]
fn round_trip_under_default_view() {
    let t = Transform::new();
    let p = Projection::new(&t, Heading::north(), c(570_000_000, 99_000_000), ScreenPoint { x: 0, y: 0 });
    for q in [c(570_000_000, 99_000_000), c(570_001_234, 98_999_000), c(-5, 7), c(i32::MAX, i32::MIN)] {
        assert_eq!(p.invert(&p.apply(&q)), q.to_world());
    }
}

#[test]
fn round_trip_after_gestures() {
    let mut t = Transform::new();
    t.scale(3, 2);
    t.rotate(785_398);
    t.translate(-40, 17);
    let p = Projection::new(&t, diagonal(), c(10, 20), ScreenPoint { x: 640 * HALF_SUBPIXEL, y: 480 * HALF_SUBPIXEL });
    for q in [c(10, 20), c(11, 20), c(-1_000_000, 3), c(123_456_789, -987_654_321)] {
        assert_eq!(p.invert(&p.apply(&q)), q.to_world());
    }
}

#[test]
fn apply_exact_value() {
    let t = Transform::new();
    let p = Projection::new(&t, Heading::north(), c(0, 0), ScreenPoint { x: 5, y: 7 });
    let s = p.apply(&c(2, -3));
    let a = DEF_SCALE as i128 * HEADING_UNIT as i128;
    assert_eq!(s, ScreenPoint { x: 2 * a + 5, y: -3 * a + 7 });
    // a tenth of a degree east is 10_000 pixels at the default zoom
    let e = p.apply(&c(1_000_000, 0));
    assert_eq!(e.x - 5, 10_000 * SUBPIXEL);
}

#[test]
fn scale_clamps_at_max() {
    let mut t = Transform::new();
    for _ in 0..5 {
        t.scale(10, 1);
        assert!(t.get_scale() <= MAX_SCALE);
    }
    assert_eq!(t.get_scale(), MAX_SCALE);
}

#[test]
fn scale_clamps_at_min() {
    let mut t = Transform::new();
    for _ in 0..5 {
        t.scale(1, 10);
        assert!(t.get_scale() >= MIN_SCALE);
    }
    assert_eq!(t.get_scale(), MIN_SCALE);
}

#[test]
fn scale_by_one_is_noop_and_fraction_rounds_down() {
    let mut t = Transform::new();
    t.scale(1, 1);
    assert_eq!(t.get_scale(), DEF_SCALE);
    t.scale(3, 7);
    assert_eq!(t.get_scale(), 42_857);
}

#[test]
fn reset_rotation_after_rotations() {
    let mut t = Transform::new();
    t.rotate(1_000_000);
    t.rotate(-250_000);
    t.rotate(7_000_000);
    assert_eq!(t.get_rotation(), 7_750_000);
    t.reset_rotation();
    assert_eq!(t.get_rotation(), 0);
    t.rotate(i64::MIN);
    t.rotate(-1);
    assert_eq!(t.get_rotation(), i64::MIN);
    t.reset_rotation();
    assert_eq!(t.get_rotation(), 0);
}

#[test]
fn reset_scale_restores_unit_multiplier() {
    let mut t = Transform::new();
    t.scale(2, 1);
    t.reset_scale();
    assert_eq!(t.get_scale(), UNIT_SCALE);
    assert_eq!(t.get_scale(), 1);
    t.scale(10, 1);
    assert_eq!(t.get_scale(), MIN_SCALE);
}

#[test]
fn translate_adds_pan() {
    let mut t = Transform::new();
    t.translate(3, -4);
    t.translate(10, 10);
    assert_eq!(t.get_translation(), (13, 6));
}

#[test]
fn trail_and_timestamps_stay_paired() {
    let mut s = State::new_session(RoadIndex::new());
    assert!(!s.take_repaint_request());
    s.add_point(1, 2, 100);
    s.add_point(3, 4, 200);
    s.add_point(5, 6, 300);
    assert_eq!(s.user_location().len(), s.location_timestamp().len());
    assert_eq!(s.user_location(), &vec![c(1, 2), c(3, 4), c(5, 6)]);
    assert_eq!(s.location_timestamp(), &vec![100, 200, 300]);
    assert_eq!(s.current(), Some(c(5, 6)));
    assert!(s.take_repaint_request());
    assert!(!s.take_repaint_request());
}

#[test]
fn sample_session_has_one_road() {
    let s = State::new();
    assert_eq!(s.roads().len(), 1);
    assert_eq!(s.roads().geometry(0).len(), 3);
    assert_eq!(s.current(), None);
    assert_eq!(s.transform().get_scale(), DEF_SCALE);
}

#[test]
fn bounding_box_of_road() {
    let b = bounding_box(&vec![c(3, -1), c(-2, 8), c(5, 4)]);
    assert_eq!(b, Rect { min_x: -2, min_y: -1, max_x: 5, max_y: 8 });
}

#[test]
fn query_finds_exactly_intersecting_roads() {
    let mut idx = RoadIndex::new();
    let a = idx.insert(vec![c(0, 0), c(10, 0), c(10, 10)]);
    let b = idx.insert(vec![c(100, 100), c(120, 130)]);
    assert_eq!((a, b), (0, 1));
    let r = idx.query(&Rect { min_x: 5, min_y: 5, max_x: 6, max_y: 6 });
    assert_eq!(r, vec![0]);
    // touching the border counts
    let r = idx.query(&Rect { min_x: 10, min_y: 10, max_x: 100, max_y: 100 });
    let mut r = r;
    r.sort();
    assert_eq!(r, vec![0, 1]);
    let r = idx.query(&Rect { min_x: 11, min_y: 11, max_x: 99, max_y: 99 });
    assert!(r.is_empty());
    let r = idx.query(&Rect { min_x: -50, min_y: -50, max_x: -1, max_y: 500 });
    assert!(r.is_empty());
}

#[test]
fn query_is_repeatable() {
    let mut idx = RoadIndex::new();
    for i in 0..50 {
        idx.insert(vec![c(i * 10, 0), c(i * 10 + 5, 5)]);
    }
    let q = Rect { min_x: 95, min_y: 0, max_x: 205, max_y: 1 };
    let mut r1 = idx.query(&q);
    let mut r2 = idx.query(&q);
    r1.sort();
    r2.sort();
    assert_eq!(r1, r2);
    assert_eq!(r1, (9..=20).collect::<Vec<usize>>());
}

#[test]
fn viewport_rect_identity_zoom() {
    let mut t = Transform::new();
    t.reset_scale();
    let vp = Viewport { left: -100, top: -50, right: 100, bottom: 50 };
    let p = Projection::new(&t, Heading::north(), c(0, 0), vp.center());
    let r = viewport_rect(&p, &vp);
    assert_eq!(r, Rect { min_x: -1_000_000_000, min_y: -500_000_000, max_x: 1_000_000_000, max_y: 500_000_000 });
    let corners = [
        ScreenPoint { x: -100 * SUBPIXEL, y: -50 * SUBPIXEL },
        ScreenPoint { x: 100 * SUBPIXEL, y: 50 * SUBPIXEL },
    ];
    let w0: WorldPoint = p.invert(&corners[0]);
    let w1: WorldPoint = p.invert(&corners[1]);
    assert_eq!(Rect::from_corners(w1, w0), r);
}

#[test]
fn viewport_rect_default_zoom() {
    let t = Transform::new();
    let vp = Viewport { left: 0, top: 0, right: 200, bottom: 100 };
    let p = Projection::new(&t, Heading::north(), c(0, 0), vp.center());
    let r = viewport_rect(&p, &vp);
    assert_eq!(r, Rect { min_x: -10_000, min_y: -5_000, max_x: 10_000, max_y: 5_000 });
}

#[test]
fn viewport_rect_rotated_quarter_turn() {
    let t = Transform::new();
    let vp = Viewport { left: 0, top: 0, right: 200, bottom: 100 };
    let p = Projection::new(&t, Heading { cos: 0, sin: HEADING_UNIT }, c(0, 0), vp.center());
    let r = viewport_rect(&p, &vp);
    assert_eq!(r, Rect { min_x: -5_000, min_y: -10_000, max_x: 5_000, max_y: 10_000 });
}

#[test]
fn cartograph_skips_without_fix_or_area() {
    let s = State::new();
    let vp = Viewport { left: 0, top: 0, right: 100, bottom: 100 };
    assert!(cartograph(&s, Heading::north(), &vp).is_none());
    let mut s = State::new();
    s.add_point(0, 0, 1);
    let flat = Viewport { left: 0, top: 0, right: 100, bottom: 0 };
    assert!(cartograph(&s, Heading::north(), &flat).is_none());
    assert!(cartograph(&s, Heading::north(), &vp).is_some());
}

#[test]
fn scenario_road_in_and_out_of_view() {
    let mut idx = RoadIndex::new();
    idx.insert(vec![c(0, 0), c(10, 0), c(10, 10)]);
    let mut s = State::new_session(idx);
    let mut t = s.transform();
    t.scale(10, 1);
    s.set_transform(t);
    s.add_point(5, 5, 1);
    let vp = Viewport { left: 0, top: 0, right: 100, bottom: 100 };
    let f = cartograph(&s, Heading::north(), &vp).unwrap();
    assert_eq!(f.roads, vec![0]);
    // position marker and the road; one fix draws no trail
    assert_eq!(f.shapes.len(), 2);
    match &f.shapes[0] {
        Shape::Circle { center, radius, fill } => {
            assert_eq!(*center, vp.center());
            assert_eq!(*radius, 10 * SUBPIXEL);
            assert_eq!(*fill, Color::Gold);
        }
        _ => panic!("position marker expected"),
    }
    match &f.shapes[1] {
        Shape::Path { points, width, stroke } => {
            assert_eq!(points.len(), 3);
            assert_eq!(points[0], f.projection.apply(&c(0, 0)));
            assert_eq!(*width, 1);
            assert_eq!(*stroke, Color::Red);
        }
        _ => panic!("road path expected"),
    }
    s.add_point(1000, 1000, 2);
    let f = cartograph(&s, Heading::north(), &vp).unwrap();
    assert!(f.roads.is_empty());
    // position marker and the two-fix trail
    assert_eq!(f.shapes.len(), 2);
    match &f.shapes[1] {
        Shape::Path { points, width, stroke } => {
            assert_eq!(points.len(), 2);
            assert_eq!(*width, 3);
            assert_eq!(*stroke, Color::Blue);
        }
        _ => panic!("trail path expected"),
    }
}

#[test]
fn gesture_zooms_then_rotates() {
    let mut s = State::new();
    apply_gesture(&mut s, &Gesture { zoom_num: 2, zoom_den: 1, rotation: 500_000 });
    assert_eq!(s.transform().get_scale(), 2 * DEF_SCALE);
    assert_eq!(s.transform().get_rotation(), 500_000);
    apply_gesture(&mut s, &Gesture { zoom_num: 1000, zoom_den: 1, rotation: 0 });
    assert_eq!(s.transform().get_scale(), MAX_SCALE);
}

#[test]
fn compass_points_up_unrotated() {
    let vp = Viewport { left: 0, top: 0, right: 40, bottom: 40 };
    let shapes = compass(Heading::north(), &vp);
    assert_eq!(shapes.len(), 3);
    let center = ScreenPoint { x: 20 * SUBPIXEL, y: 20 * SUBPIXEL };
    match &shapes[0] {
        Shape::Circle { center: cc, radius, fill } => {
            assert_eq!(*cc, center);
            assert_eq!(*radius, 20 * SUBPIXEL);
            assert_eq!(*fill, Color::DarkBlue);
        }
        _ => panic!("disk expected"),
    }
    match &shapes[1] {
        Shape::Polygon { points, fill } => {
            assert_eq!(points[0], ScreenPoint { x: center.x, y: center.y - 20 * SUBPIXEL });
            assert_eq!(points[2], ScreenPoint { x: center.x, y: center.y + 10 * SUBPIXEL });
            assert_eq!(*fill, Color::Red);
        }
        _ => panic!("arrow expected"),
    }
    assert!(compass(Heading::north(), &Viewport { left: 0, top: 0, right: 0, bottom: 0 }).is_empty());
}

#[test]
fn compass_follows_heading() {
    let vp = Viewport { left: 0, top: 0, right: 40, bottom: 40 };
    let shapes = compass(Heading { cos: 0, sin: HEADING_UNIT }, &vp);
    match &shapes[1] {
        Shape::Polygon { points, .. } => {
            // a quarter turn moves the tip from up to the right
            assert_eq!(points[0], ScreenPoint { x: 20 * SUBPIXEL + 20 * SUBPIXEL, y: 20 * SUBPIXEL });
        }
        _ => panic!("arrow expected"),
    }
}

#[test]
fn query_matches_brute_force() {
    let mut idx = RoadIndex::new();
    let mut roads: Vec<Vec<Coord>> = Vec::new();
    let mut seed: i64 = 12345;
    for _ in 0..200 {
        let mut road = Vec::new();
        for _ in 0..3 {
            seed = (seed * 1103515245 + 12345) % 2147483648;
            let x = (seed % 2000) as i32 - 1000;
            seed = (seed * 1103515245 + 12345) % 2147483648;
            let y = (seed % 2000) as i32 - 1000;
            road.push(c(x, y));
        }
        roads.push(road.clone());
        idx.insert(road);
    }
    let queries = [
        Rect { min_x: -100, min_y: -100, max_x: 100, max_y: 100 },
        Rect { min_x: 900, min_y: 900, max_x: 2000, max_y: 2000 },
        Rect { min_x: -5000, min_y: -5000, max_x: -1001, max_y: 5000 },
        Rect { min_x: 0, min_y: 0, max_x: 0, max_y: 0 },
    ];
    for q in queries {
        let mut got = idx.query(&q);
        got.sort();
        let want: Vec<usize> = (0..roads.len()).filter(|i| bounding_box(&roads[*i]).intersects(&q)).collect();
        assert_eq!(got, want);
    }
}

#[test]
fn unit_factor_keeps_reset_zoom() {
    let mut t = Transform::new();
    t.reset_scale();
    t.scale(1, 1);
    assert_eq!(t.get_scale(), UNIT_SCALE);
    t.scale(7, 7);
    assert_eq!(t.get_scale(), UNIT_SCALE);
}

#[test]
fn render_frame_applies_gesture_without_fix() {
    let mut s = State::new();
    let vp = Viewport { left: 0, top: 0, right: 100, bottom: 100 };
    let g = Some(Gesture { zoom_num: 2, zoom_den: 1, rotation: 250_000 });
    assert_eq!(frame_rotation(&s, g), 250_000);
    assert!(render_frame(&mut s, g, Heading::north(), &vp).is_none());
    assert_eq!(s.transform().get_scale(), 2 * DEF_SCALE);
    assert_eq!(s.transform().get_rotation(), 250_000);
    assert!(s.user_location().is_empty());
}

#[test]
fn render_frame_plans_like_cartograph() {
    let mut idx = RoadIndex::new();
    idx.insert(vec![c(0, 0), c(10, 0), c(10, 10)]);
    let mut s = State::new_session(idx);
    s.add_point(5, 5, 1);
    let vp = Viewport { left: 0, top: 0, right: 100, bottom: 100 };
    let f = render_frame(&mut s, None, Heading::north(), &vp).unwrap();
    assert_eq!(f.roads, vec![0]);
    assert_eq!(s.transform().get_scale(), DEF_SCALE);
    let g = Some(Gesture { zoom_num: 10, zoom_den: 1, rotation: 0 });
    let f = render_frame(&mut s, g, Heading::north(), &vp).unwrap();
    assert_eq!(f.query, Rect { min_x: -495, min_y: -495, max_x: 505, max_y: 505 });
}

#[test]
fn rotation_after_saturates() {
    let mut t = Transform::new();
    t.rotate(i64::MAX);
    assert_eq!(t.rotation_after(5), i64::MAX);
    assert_eq!(t.rotation_after(-5), i64::MAX - 5);
    assert_eq!(t.get_rotation(), i64::MAX);
}

#[test]
fn viewport_points_fall_inside_query_rotated() {
    let t = Transform::new();
    let vp = Viewport { left: 0, top: 0, right: 200, bottom: 100 };
    let p = Projection::new(&t, Heading { cos: 11585, sin: 11585 }, c(0, 0), vp.center());
    let r = viewport_rect(&p, &vp);
    for px in [0i128, 37, 100, 163, 200] {
        for py in [0i128, 13, 50, 99, 100] {
            let w = p.invert(&ScreenPoint { x: px * SUBPIXEL, y: py * SUBPIXEL });
            assert!(r.min_x <= w.x && w.x <= r.max_x && r.min_y <= w.y && w.y <= r.max_y);
        }
    }
}
