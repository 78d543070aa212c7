use sierpinski::geometry::{Point, Triangle};
use sierpinski::sierpinski::{sierpinski_leaves, subdivide};

fn doubled_area(t: &Triangle) -> i64 {
    (t.p2.x - t.p1.x) * (t.p3.y - t.p1.y) - (t.p3.x - t.p1.x) * (t.p2.y - t.p1.y)
}

#[test]
fn level_zero_keeps_the_triangle() {
    let p1 = Point::new(13, -4);
    let p2 = Point::new(90, 17);
    let p3 = Point::new(55, 120);
    let leaves = subdivide(p1, p2, p3, 0);
    assert_eq!(leaves.len(), 1);
    assert_eq!(leaves[0], Triangle { p1, p2, p3 });
}

#[test]
fn level_one_yields_the_three_corner_triangles() {
    let p1 = Point::new(0, 0);
    let p2 = Point::new(8, 0);
    let p3 = Point::new(4, 8);
    let leaves = subdivide(p1, p2, p3, 1);
    assert_eq!(leaves.len(), 3);
    let m12 = Point::new(4, 0);
    let m23 = Point::new(6, 4);
    let m31 = Point::new(2, 4);
    assert_eq!(leaves[0], Triangle { p1, p2: m12, p3: m31 });
    assert_eq!(leaves[1], Triangle { p1: m12, p2, p3: m23 });
    assert_eq!(leaves[2], Triangle { p1: m31, p2: m23, p3 });
}

#[test]
fn leaf_count_is_three_to_the_level() {
    let p1 = Point::new(0, 0);
    let p2 = Point::new(640, 0);
    let p3 = Point::new(320, 640);
    let mut expected: usize = 1;
    for level in 0..6u32 {
        assert_eq!(subdivide(p1, p2, p3, level).len(), expected);
        expected *= 3;
    }
}

#[test]
fn level_one_covers_three_quarters_of_the_area() {
    let p1 = Point::new(0, 0);
    let p2 = Point::new(8, 0);
    let p3 = Point::new(4, 8);
    let whole = doubled_area(&Triangle { p1, p2, p3 });
    assert_eq!(whole, 64);
    let leaves = subdivide(p1, p2, p3, 1);
    let covered: i64 = leaves.iter().map(doubled_area).sum();
    assert_eq!(covered, 48);
    assert_eq!(4 * covered, 3 * whole);
}

#[test]
fn whole_fractal_keeps_its_outer_corners() {
    let top = Point::new(400, 100);
    let leaves = sierpinski_leaves(top, 600, 2);
    assert_eq!(leaves.len(), 9);
    // The first leaf of every level hugs the apex; the last hugs the
    // right base vertex.
    assert_eq!(leaves[0].p1, top);
    assert_eq!(leaves[8].p3, Point::new(700, 619));
}

#[test]
fn fractal_at_level_zero_is_the_equilateral_triangle() {
    let top = Point::new(400, 100);
    let leaves = sierpinski_leaves(top, 600, 0);
    assert_eq!(leaves.len(), 1);
    assert_eq!(leaves[0], Triangle::equilateral(top, 600));
}
