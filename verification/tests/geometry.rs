use risk_map::geometry::{point_in_polygon, Point};
use risk_map::territory::{DisplayColor, Territory};

fn pt(x: i32, y: i32) -> Point {
    Point { x, y }
}

fn unit_square() -> Vec<Point> {
    vec![pt(0, 0), pt(10, 0), pt(10, 10), pt(0, 10)]
}

/// A plus-shaped (non-convex, simple) polygon centered on (6, 6).
fn plus_shape() -> Vec<Point> {
    vec![
        pt(4, 0),
        pt(8, 0),
        pt(8, 4),
        pt(12, 4),
        pt(12, 8),
        pt(8, 8),
        pt(8, 12),
        pt(4, 12),
        pt(4, 8),
        pt(0, 8),
        pt(0, 4),
        pt(4, 4),
    ]
}

#[test]
fn square_center_inside() {
    let vs = unit_square();
    assert!(point_in_polygon(&vs, pt(5, 5)));
}

#[test]
fn square_point_right_outside() {
    let vs = unit_square();
    assert!(!point_in_polygon(&vs, pt(15, 5)));
}

#[test]
fn square_boundary_consistent() {
    // a point exactly on an edge gets an implementation-defined
    // classification, but repeated calls must agree
    let vs = unit_square();
    let first = point_in_polygon(&vs, pt(0, 5));
    for _ in 0..10 {
        assert_eq!(point_in_polygon(&vs, pt(0, 5)), first);
    }
}

#[test]
fn convex_centroid_inside() {
    let triangle = vec![pt(0, 0), pt(9, 0), pt(0, 9)];
    assert!(point_in_polygon(&triangle, pt(3, 3)));
    let vs = unit_square();
    assert!(point_in_polygon(&vs, pt(5, 5)));
}

#[test]
fn nonconvex_centroid_inside() {
    let vs = plus_shape();
    assert!(point_in_polygon(&vs, pt(6, 6)));
}

#[test]
fn far_outside_bounding_box() {
    let vs = plus_shape();
    assert!(!point_in_polygon(&vs, pt(100, 6)));
    assert!(!point_in_polygon(&vs, pt(-100, 6)));
    assert!(!point_in_polygon(&vs, pt(6, 100)));
    assert!(!point_in_polygon(&vs, pt(6, -100)));
    let triangle = vec![pt(0, 0), pt(9, 0), pt(0, 9)];
    assert!(!point_in_polygon(&triangle, pt(50, -50)));
}

#[test]
fn contains_deterministic() {
    let vs = plus_shape();
    for p in [pt(6, 6), pt(1, 1), pt(11, 11), pt(0, 4), pt(-3, 7)] {
        let first = point_in_polygon(&vs, p);
        for _ in 0..5 {
            assert_eq!(point_in_polygon(&vs, p), first);
        }
    }
}

#[test]
fn territory_contains_matches_polygon() {
    let t = Territory::new(String::from("Alpha"), unit_square(), 0, 3);
    assert!(t.contains(pt(5, 5)));
    assert!(!t.contains(pt(15, 5)));
}

#[test]
fn display_color_by_owner_and_selection() {
    let mut t = Territory::new(String::from("Alpha"), unit_square(), 0, 3);
    assert_eq!(t.display_color(), DisplayColor::Blue);
    t.owner = 1;
    assert_eq!(t.display_color(), DisplayColor::Green);
    t.owner = 7;
    assert_eq!(t.display_color(), DisplayColor::Gray);
    t.selected = true;
    assert_eq!(t.display_color(), DisplayColor::Yellow);
    t.owner = 0;
    assert_eq!(t.display_color(), DisplayColor::Yellow);
}
