//! Midpoint subdivision of a triangle into the leaf triangles of the
//! Sierpinski construction.
//!
//! Level 0 keeps the triangle itself; level `n` splits it at its three edge
//! midpoints and recurses into the three corner triangles at level `n - 1`,
//! never visiting the central inverted triangle. `subdivide` returns the
//! leaves in order, and the lemmas here pin down their number, the base
//! case, and how one subdivision step distributes the triangle's area.

use vstd::prelude::*;

use crate::geometry::{
    area2, equilateral_spec, half_toward_zero, lemma_mid_coord_in_range, midpoint_spec,
    point_in_range, triangle_in_range, Point, Triangle, COORD_LIMIT, SIDE_LIMIT,
};

verus! {

/// Three raised to the given power: the leaf count at each depth.
pub open spec fn pow3(n: nat) -> nat
    decreases n,
{
    if n == 0 {
        1
    } else {
        3 * pow3((n - 1) as nat)
    }
}

/// The leaf triangles of the Sierpinski construction on `(p1, p2, p3)` at
/// the given depth, in the order the recursion visits them: the corner at
/// `p1`, then the corner at `p2`, then the corner at `p3`.
pub open spec fn leaves_of(p1: Point, p2: Point, p3: Point, level: nat) -> Seq<Triangle>
    decreases level,
{
    if level == 0 {
        seq![Triangle { p1, p2, p3 }]
    } else {
        let m12 = midpoint_spec(p1, p2);
        let m23 = midpoint_spec(p2, p3);
        let m31 = midpoint_spec(p3, p1);
        leaves_of(p1, m12, m31, (level - 1) as nat) + leaves_of(
            m12,
            p2,
            m23,
            (level - 1) as nat,
        ) + leaves_of(m31, m23, p3, (level - 1) as nat)
    }
}

/// The number of leaf triangles at depth `level` is exactly `3^level`.
pub proof fn lemma_leaf_count(p1: Point, p2: Point, p3: Point, level: nat)
    ensures
        leaves_of(p1, p2, p3, level).len() == pow3(level),
    decreases level,
{
    if level > 0 {
        let m12 = midpoint_spec(p1, p2);
        let m23 = midpoint_spec(p2, p3);
        let m31 = midpoint_spec(p3, p1);
        lemma_leaf_count(p1, m12, m31, (level - 1) as nat);
        lemma_leaf_count(m12, p2, m23, (level - 1) as nat);
        lemma_leaf_count(m31, m23, p3, (level - 1) as nat);
    }
}

/// Depth 0 is the base case: the triangle itself is the one leaf, with no
/// further subdivision.
pub proof fn lemma_base_case(p1: Point, p2: Point, p3: Point)
    ensures
        leaves_of(p1, p2, p3, 0) =~= seq![Triangle { p1, p2, p3 }],
{
}

/// Halving an even number toward zero is exact.
proof fn lemma_even_half(s: int)
    requires
        s % 2 == 0,
    ensures
        2 * half_toward_zero(s) == s,
{
    vstd::arithmetic::div_mod::lemma_fundamental_div_mod(s, 2);
    if s < 0 {
        let k = s / 2;
        assert(-s == 2 * (-k));
        vstd::arithmetic::div_mod::lemma_div_multiples_vanish(-k, 2);
    }
}

/// A sum of two multiples of two, less another multiple of two, is even.
proof fn lemma_even_combination(a: int, b: int, c: int)
    requires
        a % 2 == 0,
        b % 2 == 0,
    ensures
        (a + b - 2 * c) % 2 == 0,
{
    vstd::arithmetic::div_mod::lemma_fundamental_div_mod(a, 2);
    vstd::arithmetic::div_mod::lemma_fundamental_div_mod(b, 2);
    vstd::arithmetic::div_mod::lemma_mod_multiples_basic(a / 2 + b / 2 - c, 2);
}

/// One subdivision step distributes area exactly: when the three vertices
/// agree in parity coordinate-wise (so that every edge midpoint is exact),
/// each of the three leaves of depth 1 covers one quarter of the
/// triangle's area, and together they cover three quarters; the central
/// inverted triangle is the quarter left undrawn.
pub proof fn lemma_subdivision_area(p1: Point, p2: Point, p3: Point)
    requires
        triangle_in_range(Triangle { p1, p2, p3 }),
        (p1.x + p2.x) % 2 == 0,
        (p1.x + p3.x) % 2 == 0,
        (p1.y + p2.y) % 2 == 0,
        (p1.y + p3.y) % 2 == 0,
    ensures
        leaves_of(p1, p2, p3, 1).len() == 3,
        4 * area2(leaves_of(p1, p2, p3, 1)[0]) == area2(Triangle { p1, p2, p3 }),
        4 * area2(leaves_of(p1, p2, p3, 1)[1]) == area2(Triangle { p1, p2, p3 }),
        4 * area2(leaves_of(p1, p2, p3, 1)[2]) == area2(Triangle { p1, p2, p3 }),
        4 * (area2(leaves_of(p1, p2, p3, 1)[0]) + area2(leaves_of(p1, p2, p3, 1)[1]) + area2(
            leaves_of(p1, p2, p3, 1)[2],
        )) == 3 * area2(Triangle { p1, p2, p3 }),
{
    let m12 = midpoint_spec(p1, p2);
    let m23 = midpoint_spec(p2, p3);
    let m31 = midpoint_spec(p3, p1);
    let l = leaves_of(p1, p2, p3, 1);
    reveal_with_fuel(leaves_of, 2);
    assert(l =~= seq![
        Triangle { p1, p2: m12, p3: m31 },
        Triangle { p1: m12, p2, p3: m23 },
        Triangle { p1: m31, p2: m23, p3 },
    ]);
    lemma_mid_coord_in_range(p1.x as int, p2.x as int);
    lemma_mid_coord_in_range(p1.y as int, p2.y as int);
    lemma_mid_coord_in_range(p2.x as int, p3.x as int);
    lemma_mid_coord_in_range(p2.y as int, p3.y as int);
    lemma_mid_coord_in_range(p3.x as int, p1.x as int);
    lemma_mid_coord_in_range(p3.y as int, p1.y as int);
    lemma_even_combination(p1.x + p2.x, p1.x + p3.x, p1.x as int);
    lemma_even_combination(p1.y + p2.y, p1.y + p3.y, p1.y as int);
    assert((p2.x + p3.x) % 2 == 0);
    assert((p2.y + p3.y) % 2 == 0);
    lemma_even_half(p1.x + p2.x);
    lemma_even_half(p1.y + p2.y);
    lemma_even_half(p2.x + p3.x);
    lemma_even_half(p2.y + p3.y);
    lemma_even_half(p3.x + p1.x);
    lemma_even_half(p3.y + p1.y);
    assert(2 * m12.x == p1.x + p2.x);
    assert(2 * m12.y == p1.y + p2.y);
    assert(2 * m23.x == p2.x + p3.x);
    assert(2 * m23.y == p2.y + p3.y);
    assert(2 * m31.x == p3.x + p1.x);
    assert(2 * m31.y == p3.y + p1.y);
    assert(4 * ((m12.x - p1.x) * (m31.y - p1.y) - (m31.x - p1.x) * (m12.y - p1.y)) == (p2.x
        - p1.x) * (p3.y - p1.y) - (p3.x - p1.x) * (p2.y - p1.y)) by (nonlinear_arith)
        requires
            2 * m12.x == p1.x + p2.x,
            2 * m12.y == p1.y + p2.y,
            2 * m31.x == p3.x + p1.x,
            2 * m31.y == p3.y + p1.y,
    ;
    assert(4 * ((p2.x - m12.x) * (m23.y - m12.y) - (m23.x - m12.x) * (p2.y - m12.y)) == (p2.x
        - p1.x) * (p3.y - p1.y) - (p3.x - p1.x) * (p2.y - p1.y)) by (nonlinear_arith)
        requires
            2 * m12.x == p1.x + p2.x,
            2 * m12.y == p1.y + p2.y,
            2 * m23.x == p2.x + p3.x,
            2 * m23.y == p2.y + p3.y,
    ;
    assert(4 * ((m23.x - m31.x) * (p3.y - m31.y) - (p3.x - m31.x) * (m23.y - m31.y)) == (p2.x
        - p1.x) * (p3.y - p1.y) - (p3.x - p1.x) * (p2.y - p1.y)) by (nonlinear_arith)
        requires
            2 * m23.x == p2.x + p3.x,
            2 * m23.y == p2.y + p3.y,
            2 * m31.x == p3.x + p1.x,
            2 * m31.y == p3.y + p1.y,
    ;
}

/// Enumerates the leaf triangles of the Sierpinski construction on
/// `(p1, p2, p3)` at depth `level`.
pub fn subdivide(p1: Point, p2: Point, p3: Point, level: u32) -> (r: Vec<Triangle>)
    requires
        point_in_range(p1),
        point_in_range(p2),
        point_in_range(p3),
    ensures
        r@ == leaves_of(p1, p2, p3, level as nat),
        r@.len() == pow3(level as nat),
    decreases level,
{
    proof {
        lemma_leaf_count(p1, p2, p3, level as nat);
    }
    if level == 0 {
        let mut v: Vec<Triangle> = Vec::new();
        v.push(Triangle { p1, p2, p3 });
        proof {
            assert(v@ =~= leaves_of(p1, p2, p3, 0));
        }
        v
    } else {
        let m12 = p1.midpoint(&p2);
        let m23 = p2.midpoint(&p3);
        let m31 = p3.midpoint(&p1);
        let mut v = subdivide(p1, m12, m31, level - 1);
        let mut v2 = subdivide(m12, p2, m23, level - 1);
        let mut v3 = subdivide(m31, m23, p3, level - 1);
        v.append(&mut v2);
        v.append(&mut v3);
        v
    }
}

/// Enumerates the leaves of the whole fractal: the equilateral triangle
/// with apex `top` and the given side length, subdivided to `level`.
pub fn sierpinski_leaves(top: Point, side_length: i64, level: u32) -> (r: Vec<Triangle>)
    requires
        0 <= side_length <= SIDE_LIMIT,
        point_in_range(top),
        -COORD_LIMIT <= top.x - side_length,
        top.x + side_length <= COORD_LIMIT,
        top.y + side_length <= COORD_LIMIT,
    ensures
        r@ == ({
            let t = equilateral_spec(top, side_length as int);
            leaves_of(t.p1, t.p2, t.p3, level as nat)
        }),
        r@.len() == pow3(level as nat),
{
    let t = Triangle::equilateral(top, side_length);
    subdivide(t.p1, t.p2, t.p3, level)
}

} // verus!
