//! Points, triangles, midpoints and the equilateral construction.
//!
//! Coordinates are `i64` values in subpixel units. All operations are exact
//! integer arithmetic: halving truncates toward zero, exactly as the host
//! language's integer division does, and every contract states the result
//! in those terms.

use vstd::prelude::*;

verus! {

/// Largest coordinate magnitude the library accepts. Keeping coordinates
/// within this bound lets every intermediate sum and difference fit in `i64`.
pub const COORD_LIMIT: i64 = 0x2000_0000_0000_0000;

/// Largest side length `equilateral` accepts; chosen so that
/// `side * HEIGHT_NUM` cannot overflow an `i64`.
pub const SIDE_LIMIT: i64 = 10_000_000_000;

/// Numerator of the rational approximation of sqrt(3)/2 used for the
/// height of an equilateral triangle.
pub const HEIGHT_NUM: i64 = 866_025_403;

/// Denominator of the rational approximation of sqrt(3)/2.
pub const HEIGHT_DEN: i64 = 1_000_000_000;

/// A point of the drawing surface, in subpixel units.
#[derive(Clone, Copy, PartialEq, Eq, Structural, Debug)]
pub struct Point {
    pub x: i64,
    pub y: i64,
}

/// An ordered triple of points; drawn as a closed path visiting the three
/// points in order. Degenerate (collinear) triples are allowed and simply
/// describe a zero-area path.
#[derive(Clone, Copy, PartialEq, Eq, Structural, Debug)]
pub struct Triangle {
    pub p1: Point,
    pub p2: Point,
    pub p3: Point,
}

/// Halving that truncates toward zero, matching executable `i64` division.
pub open spec fn half_toward_zero(s: int) -> int {
    if s >= 0 {
        s / 2
    } else {
        -((-s) / 2)
    }
}

/// The arithmetic mean of two coordinates, truncated toward zero.
pub open spec fn mid_coord(a: int, b: int) -> int {
    half_toward_zero(a + b)
}

/// The midpoint of two points, coordinate by coordinate.
pub open spec fn midpoint_spec(a: Point, b: Point) -> Point {
    Point { x: mid_coord(a.x as int, b.x as int) as i64, y: mid_coord(a.y as int, b.y as int) as i64 }
}

pub open spec fn coord_in_range(c: int) -> bool {
    -COORD_LIMIT <= c <= COORD_LIMIT
}

pub open spec fn point_in_range(p: Point) -> bool {
    coord_in_range(p.x as int) && coord_in_range(p.y as int)
}

pub open spec fn triangle_in_range(t: Triangle) -> bool {
    point_in_range(t.p1) && point_in_range(t.p2) && point_in_range(t.p3)
}

/// The height of an equilateral triangle of the given side length:
/// `side * sqrt(3)/2`, computed with the rational approximation
/// `HEIGHT_NUM / HEIGHT_DEN` and truncated to a whole subpixel.
pub open spec fn height_of(side: int) -> int {
    (side * HEIGHT_NUM) / (HEIGHT_DEN as int)
}

/// The equilateral triangle with apex `top`: the two base vertices sit at
/// `top.y + height_of(side)`, offset by half the side length on each side.
pub open spec fn equilateral_spec(top: Point, side: int) -> Triangle {
    Triangle {
        p1: top,
        p2: Point { x: (top.x - side / 2) as i64, y: (top.y + height_of(side)) as i64 },
        p3: Point { x: (top.x + side / 2) as i64, y: (top.y + height_of(side)) as i64 },
    }
}

/// Squared Euclidean distance between two points.
pub open spec fn dist_sq(a: Point, b: Point) -> int {
    (a.x - b.x) * (a.x - b.x) + (a.y - b.y) * (a.y - b.y)
}

/// Twice the signed area of a triangle (the cross product of two of its
/// edge vectors). Its sign records orientation; its magnitude is twice the
/// enclosed area.
pub open spec fn area2(t: Triangle) -> int {
    (t.p2.x - t.p1.x) * (t.p3.y - t.p1.y) - (t.p3.x - t.p1.x) * (t.p2.y - t.p1.y)
}

/// For a non-negative side the computed height is non-negative and never
/// exceeds the side itself (the approximation factor is below one).
pub proof fn lemma_height_bounds(side: int)
    requires
        0 <= side,
    ensures
        0 <= height_of(side) <= side,
{
    assert(0 <= side * HEIGHT_NUM <= side * HEIGHT_DEN) by (nonlinear_arith)
        requires
            0 <= side,
    ;
    vstd::arithmetic::div_mod::lemma_div_is_ordered(0, side * HEIGHT_NUM, HEIGHT_DEN as int);
    vstd::arithmetic::div_mod::lemma_div_is_ordered(
        side * HEIGHT_NUM,
        side * HEIGHT_DEN,
        HEIGHT_DEN as int,
    );
    vstd::arithmetic::div_mod::lemma_div_multiples_vanish(side, HEIGHT_DEN as int);
    assert(side * HEIGHT_DEN == (HEIGHT_DEN as int) * side);
}

/// Taking the midpoint is symmetric in its two arguments.
pub proof fn lemma_midpoint_symmetric(a: Point, b: Point)
    ensures
        midpoint_spec(a, b) == midpoint_spec(b, a),
{
}

/// The two base vertices of an equilateral triangle share their
/// y-coordinate, `top.y + height_of(side)`, and lie at the same squared
/// distance from the apex: half the side length out, the height down.
pub proof fn lemma_equilateral_base(top: Point, side: int)
    requires
        0 <= side <= SIDE_LIMIT,
        coord_in_range(top.x as int),
        coord_in_range(top.y as int),
    ensures
        equilateral_spec(top, side).p2.y == top.y + height_of(side),
        equilateral_spec(top, side).p3.y == top.y + height_of(side),
        dist_sq(equilateral_spec(top, side).p1, equilateral_spec(top, side).p2) == (side / 2) * (
        side / 2) + height_of(side) * height_of(side),
        dist_sq(equilateral_spec(top, side).p1, equilateral_spec(top, side).p3) == (side / 2) * (
        side / 2) + height_of(side) * height_of(side),
{
    lemma_height_bounds(side);
    vstd::arithmetic::div_mod::lemma_div_is_ordered(0, side, 2);
    vstd::arithmetic::div_mod::lemma_div_nonincreasing(side, 2);
    let h = side / 2;
    let d = height_of(side);
    assert(h * h == (-h) * (-h)) by (nonlinear_arith);
    assert(d * d == (-d) * (-d)) by (nonlinear_arith);
}

impl Point {
    /// Builds the point with the given coordinates.
    pub fn new(x: i64, y: i64) -> (r: Point)
        ensures
            r == (Point { x, y }),
    {
        Point { x, y }
    }

    /// The arithmetic mean of `self` and `other`, coordinate by coordinate,
    /// truncated toward zero.
    pub fn midpoint(&self, other: &Point) -> (r: Point)
        requires
            point_in_range(*self),
            point_in_range(*other),
        ensures
            r == midpoint_spec(*self, *other),
            point_in_range(r),
    {
        proof {
            lemma_mid_coord_in_range(self.x as int, other.x as int);
            lemma_mid_coord_in_range(self.y as int, other.y as int);
        }
        Point { x: half_i64(self.x + other.x), y: half_i64(self.y + other.y) }
    }
}

/// The midpoint of two in-range coordinates is in range: truncated halving
/// never increases the magnitude of the sum's half.
pub proof fn lemma_mid_coord_in_range(a: int, b: int)
    requires
        coord_in_range(a),
        coord_in_range(b),
    ensures
        coord_in_range(mid_coord(a, b)),
{
    let s = a + b;
    if s >= 0 {
        vstd::arithmetic::div_mod::lemma_div_is_ordered(s, 2 * COORD_LIMIT, 2);
        vstd::arithmetic::div_mod::lemma_div_multiples_vanish(COORD_LIMIT as int, 2);
        vstd::arithmetic::div_mod::lemma_div_is_ordered(0, s, 2);
    } else {
        vstd::arithmetic::div_mod::lemma_div_is_ordered(-s, 2 * COORD_LIMIT, 2);
        vstd::arithmetic::div_mod::lemma_div_multiples_vanish(COORD_LIMIT as int, 2);
        vstd::arithmetic::div_mod::lemma_div_is_ordered(0, -s, 2);
    }
}

/// Halves an `i64` sum, truncating toward zero.
fn half_i64(s: i64) -> (r: i64)
    requires
        -2 * COORD_LIMIT <= s <= 2 * COORD_LIMIT,
    ensures
        r == half_toward_zero(s as int),
{
    if s >= 0 {
        s / 2
    } else {
        -((-s) / 2)
    }
}

impl Triangle {
    /// The equilateral triangle with apex `top` and the given side length.
    /// The height is `side_length * HEIGHT_NUM / HEIGHT_DEN` subpixels, the
    /// integer approximation of `side_length * sqrt(3)/2`.
    pub fn equilateral(top: Point, side_length: i64) -> (r: Triangle)
        requires
            0 <= side_length <= SIDE_LIMIT,
            point_in_range(top),
            -COORD_LIMIT <= top.x - side_length,
            top.x + side_length <= COORD_LIMIT,
            top.y + side_length <= COORD_LIMIT,
        ensures
            r == equilateral_spec(top, side_length as int),
            triangle_in_range(r),
    {
        proof {
            lemma_height_bounds(side_length as int);
            vstd::arithmetic::div_mod::lemma_div_is_ordered(0, side_length as int, 2);
            vstd::arithmetic::div_mod::lemma_div_is_ordered(
                side_length as int,
                2 * COORD_LIMIT,
                2,
            );
            vstd::arithmetic::div_mod::lemma_div_multiples_vanish(COORD_LIMIT as int, 2);
        }
        let half: i64 = side_length / 2;
        let height: i64 = (side_length * HEIGHT_NUM) / HEIGHT_DEN;
        Triangle {
            p1: top,
            p2: Point { x: top.x - half, y: top.y + height },
            p3: Point { x: top.x + half, y: top.y + height },
        }
    }
}

} // verus!
