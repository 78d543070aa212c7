use sierpinski::geometry::{Point, Triangle};

#[test]
fn point_new_holds_coordinates() {
    let p = Point::new(7, -3);
    assert_eq!(p.x, 7);
    assert_eq!(p.y, -3);
}

#[test]
fn midpoint_is_exact_mean_on_even_sums() {
    let a = Point::new(0, 0);
    let b = Point::new(10, 20);
    assert_eq!(a.midpoint(&b), Point::new(5, 10));
}

#[test]
fn midpoint_truncates_toward_zero() {
    let a = Point::new(0, 0);
    let b = Point::new(3, -3);
    assert_eq!(a.midpoint(&b), Point::new(1, -1));
}

#[test]
fn midpoint_is_symmetric() {
    let pairs = [
        (Point::new(1, 2), Point::new(3, 4)),
        (Point::new(-5, 9), Point::new(8, -1)),
        (Point::new(0, 0), Point::new(-7, -7)),
        (Point::new(400, 100), Point::new(700, 619)),
    ];
    for (a, b) in pairs {
        assert_eq!(a.midpoint(&b), b.midpoint(&a));
    }
}

#[test]
fn equilateral_scenario_subpixel_scale() {
    // One surface pixel is 1_000_000 units: apex (400, 100), side 600.
    let t = Triangle::equilateral(Point::new(400_000_000, 100_000_000), 600_000_000);
    assert_eq!(t.p1, Point::new(400_000_000, 100_000_000));
    // 100 + 600 * 0.866025403 = 619.615241... pixels.
    assert_eq!(t.p2, Point::new(100_000_000, 619_615_241));
    assert_eq!(t.p3, Point::new(700_000_000, 619_615_241));
}

#[test]
fn equilateral_scenario_unit_scale() {
    let t = Triangle::equilateral(Point::new(400, 100), 600);
    assert_eq!(t.p1, Point::new(400, 100));
    assert_eq!(t.p2, Point::new(100, 619));
    assert_eq!(t.p3, Point::new(700, 619));
}

#[test]
fn equilateral_base_vertices_equidistant_from_apex() {
    let top = Point::new(400_000_000, 100_000_000);
    let t = Triangle::equilateral(top, 600_000_000);
    assert_eq!(t.p2.y, t.p3.y);
    assert_eq!(t.p2.y, top.y + 600_000_000 * 866_025_403 / 1_000_000_000);
    let d2 = (top.x - t.p2.x) * (top.x - t.p2.x) + (top.y - t.p2.y) * (top.y - t.p2.y);
    let d3 = (top.x - t.p3.x) * (top.x - t.p3.x) + (top.y - t.p3.y) * (top.y - t.p3.y);
    assert_eq!(d2, d3);
}

#[test]
fn equilateral_with_zero_side_is_degenerate() {
    let top = Point::new(250, 250);
    let t = Triangle::equilateral(top, 0);
    assert_eq!(t.p1, top);
    assert_eq!(t.p2, top);
    assert_eq!(t.p3, top);
}
