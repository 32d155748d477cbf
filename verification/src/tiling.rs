use vstd::prelude::*;
use crate::geometry::{Corner, Edge, TriPoint};
use crate::lookup::{corner_inside, edge_crossed, triangle_table};

verus! {

/// Where a table point lies in a cell scaled to side `d`, with the crossing
/// points at `tt` along the top edge, `tr` down the right edge, `tb` along the
/// bottom edge and `tl` down the left edge.
pub open spec fn place(p: TriPoint, d: int, tt: int, tr: int, tb: int, tl: int) -> (int, int) {
    match p {
        TriPoint::Edge(Edge::Top) => (tt, 0),
        TriPoint::Edge(Edge::Right) => (d, tr),
        TriPoint::Edge(Edge::Bottom) => (tb, d),
        TriPoint::Edge(Edge::Left) => (0, tl),
        TriPoint::Corner(Corner::TopLeft) => (0, 0),
        TriPoint::Corner(Corner::TopRight) => (d, 0),
        TriPoint::Corner(Corner::BottomRight) => (d, d),
        TriPoint::Corner(Corner::BottomLeft) => (0, d),
    }
}

/// Twice the signed area of the triangle `a`, `b`, `c`.
pub open spec fn twice_area(a: (int, int), b: (int, int), c: (int, int)) -> int {
    (b.0 - a.0) * (c.1 - a.1) - (b.1 - a.1) * (c.0 - a.0)
}

/// The absolute value of `x`.
pub open spec fn abs_int(x: int) -> int {
    if x < 0 { -x } else { x }
}

/// Twice the signed area of triangle `k` of the point list `s`.
pub open spec fn triangle_twice_area(s: Seq<TriPoint>, k: int, d: int, tt: int, tr: int, tb: int, tl: int) -> int {
    twice_area(
        place(s[3 * k], d, tt, tr, tb, tl),
        place(s[3 * k + 1], d, tt, tr, tb, tl),
        place(s[3 * k + 2], d, tt, tr, tb, tl),
    )
}

/// Twice the total area of the first `n` triangles of `s`.
pub open spec fn triangles_area(s: Seq<TriPoint>, n: int, d: int, tt: int, tr: int, tb: int, tl: int) -> int
    decreases n,
{
    if n <= 0 {
        0
    } else {
        triangles_area(s, n - 1, d, tt, tr, tb, tl) + abs_int(triangle_twice_area(s, n - 1, d, tt, tr, tb, tl))
    }
}

/// `w` with the corner `c` appended where it is inside in `case`.
pub open spec fn keep_corner(w: Seq<(int, int)>, case: int, c: Corner, d: int, tt: int, tr: int, tb: int, tl: int) -> Seq<(int, int)> {
    if corner_inside(case, c) { w.push(place(TriPoint::Corner(c), d, tt, tr, tb, tl)) } else { w }
}

/// `w` with the crossing point of `e` appended where the boundary crosses
/// `e` in `case`.
pub open spec fn keep_edge(w: Seq<(int, int)>, case: int, e: Edge, d: int, tt: int, tr: int, tb: int, tl: int) -> Seq<(int, int)> {
    if edge_crossed(case, e) { w.push(place(TriPoint::Edge(e), d, tt, tr, tb, tl)) } else { w }
}

/// The crossing points of `case`, clockwise from the top edge.
pub open spec fn crossing_walk(case: int, d: int, tt: int, tr: int, tb: int, tl: int) -> Seq<(int, int)> {
    let w1 = keep_edge(Seq::empty(), case, Edge::Top, d, tt, tr, tb, tl);
    let w2 = keep_edge(w1, case, Edge::Right, d, tt, tr, tb, tl);
    let w3 = keep_edge(w2, case, Edge::Bottom, d, tt, tr, tb, tl);
    keep_edge(w3, case, Edge::Left, d, tt, tr, tb, tl)
}

/// The inside corners and crossing points of `case`, in order around the
/// cell boundary, clockwise from the top-left corner.
pub open spec fn inside_walk(case: int, d: int, tt: int, tr: int, tb: int, tl: int) -> Seq<(int, int)> {
    let w1 = keep_corner(Seq::empty(), case, Corner::TopLeft, d, tt, tr, tb, tl);
    let w2 = keep_edge(w1, case, Edge::Top, d, tt, tr, tb, tl);
    let w3 = keep_corner(w2, case, Corner::TopRight, d, tt, tr, tb, tl);
    let w4 = keep_edge(w3, case, Edge::Right, d, tt, tr, tb, tl);
    let w5 = keep_corner(w4, case, Corner::BottomRight, d, tt, tr, tb, tl);
    let w6 = keep_edge(w5, case, Edge::Bottom, d, tt, tr, tb, tl);
    let w7 = keep_corner(w6, case, Corner::BottomLeft, d, tt, tr, tb, tl);
    keep_edge(w7, case, Edge::Left, d, tt, tr, tb, tl)
}

/// Twice the signed area of the closed polygon `p`, summed from vertex `j`
/// on (the shoelace formula).
pub open spec fn shoelace_from(p: Seq<(int, int)>, j: int) -> int
    decreases p.len() - j,
{
    if j < 0 || j >= p.len() {
        0
    } else {
        let a = p[j];
        let b = if j + 1 < p.len() { p[j + 1] } else { p[0] };
        a.0 * b.1 - b.0 * a.1 + shoelace_from(p, j + 1)
    }
}

/// Twice the area of the inside region of `case`: the boundary polygon less
/// the polygon of its crossing points (which is empty unless the cell is a
/// saddle).
pub open spec fn inside_area(case: int, d: int, tt: int, tr: int, tb: int, tl: int) -> int {
    shoelace_from(inside_walk(case, d, tt, tr, tb, tl), 0) - shoelace_from(crossing_walk(case, d, tt, tr, tb, tl), 0)
}

proof fn lemma_tiles_case_0(d: int, tt: int, tr: int, tb: int, tl: int)
    requires
        0 <= tt <= d,
        0 <= tr <= d,
        0 <= tb <= d,
        0 <= tl <= d,
    ensures
        triangles_area(triangle_table(0), 0, d, tt, tr, tb, tl) == inside_area(0, d, tt, tr, tb, tl),
{
    let t = triangle_table(0);
    let w = inside_walk(0, d, tt, tr, tb, tl);
    assert(w =~= Seq::<(int, int)>::empty());
    let cw = crossing_walk(0, d, tt, tr, tb, tl);
    assert(cw =~= Seq::<(int, int)>::empty());
    reveal_with_fuel(shoelace_from, 1);
    let b1 = shoelace_from(w, 0);
    assert(b1 == 0);
    let b2 = shoelace_from(cw, 0);
    assert(b2 == 0);
    assert(0 == b1 - b2) by (nonlinear_arith)
        requires
            b1 == 0,
            b2 == 0,
    ;
}

proof fn lemma_tiles_case_1(d: int, tt: int, tr: int, tb: int, tl: int)
    requires
        0 <= tt <= d,
        0 <= tr <= d,
        0 <= tb <= d,
        0 <= tl <= d,
    ensures
        triangles_area(triangle_table(1), 1, d, tt, tr, tb, tl) == inside_area(1, d, tt, tr, tb, tl),
{
    let t = triangle_table(1);
    let w = inside_walk(1, d, tt, tr, tb, tl);
    assert(w =~= seq![(tb, d), (0, d), (0, tl)]);
    let cw = crossing_walk(1, d, tt, tr, tb, tl);
    assert(cw =~= seq![(tb, d), (0, tl)]);
    reveal_with_fuel(shoelace_from, 4);
    let b1 = shoelace_from(w, 0);
    assert(b1 == (tb * d - 0 * d) + (0 * tl - 0 * d) + (0 * d - tb * tl));
    let b2 = shoelace_from(cw, 0);
    assert(b2 == (tb * tl - 0 * d) + (0 * d - tb * tl));
    reveal_with_fuel(triangles_area, 2);
    let a0 = triangle_twice_area(t, 0, d, tt, tr, tb, tl);
    assert(a0 == twice_area((0, tl), (tb, d), (0, d)));
    assert(a0 >= 0) by (nonlinear_arith)
        requires
            a0 == (tb - 0) * (d - tl) - (d - tl) * (0 - 0),
            0 <= tt <= d,
            0 <= tr <= d,
            0 <= tb <= d,
            0 <= tl <= d,
    ;
    assert(a0 == b1 - b2) by (nonlinear_arith)
        requires
            a0 == (tb - 0) * (d - tl) - (d - tl) * (0 - 0),
            b1 == (tb * d - 0 * d) + (0 * tl - 0 * d) + (0 * d - tb * tl),
            b2 == (tb * tl - 0 * d) + (0 * d - tb * tl),
    ;
}

proof fn lemma_tiles_case_2(d: int, tt: int, tr: int, tb: int, tl: int)
    requires
        0 <= tt <= d,
        0 <= tr <= d,
        0 <= tb <= d,
        0 <= tl <= d,
    ensures
        triangles_area(triangle_table(2), 1, d, tt, tr, tb, tl) == inside_area(2, d, tt, tr, tb, tl),
{
    let t = triangle_table(2);
    let w = inside_walk(2, d, tt, tr, tb, tl);
    assert(w =~= seq![(d, tr), (d, d), (tb, d)]);
    let cw = crossing_walk(2, d, tt, tr, tb, tl);
    assert(cw =~= seq![(d, tr), (tb, d)]);
    reveal_with_fuel(shoelace_from, 4);
    let b1 = shoelace_from(w, 0);
    assert(b1 == (d * d - d * tr) + (d * d - tb * d) + (tb * tr - d * d));
    let b2 = shoelace_from(cw, 0);
    assert(b2 == (d * d - tb * tr) + (tb * tr - d * d));
    reveal_with_fuel(triangles_area, 2);
    let a0 = triangle_twice_area(t, 0, d, tt, tr, tb, tl);
    assert(a0 == twice_area((tb, d), (d, tr), (d, d)));
    assert(a0 >= 0) by (nonlinear_arith)
        requires
            a0 == (d - tb) * (d - d) - (tr - d) * (d - tb),
            0 <= tt <= d,
            0 <= tr <= d,
            0 <= tb <= d,
            0 <= tl <= d,
    ;
    assert(a0 == b1 - b2) by (nonlinear_arith)
        requires
            a0 == (d - tb) * (d - d) - (tr - d) * (d - tb),
            b1 == (d * d - d * tr) + (d * d - tb * d) + (tb * tr - d * d),
            b2 == (d * d - tb * tr) + (tb * tr - d * d),
    ;
}

proof fn lemma_tiles_case_3(d: int, tt: int, tr: int, tb: int, tl: int)
    requires
        0 <= tt <= d,
        0 <= tr <= d,
        0 <= tb <= d,
        0 <= tl <= d,
    ensures
        triangles_area(triangle_table(3), 2, d, tt, tr, tb, tl) == inside_area(3, d, tt, tr, tb, tl),
{
    let t = triangle_table(3);
    let w = inside_walk(3, d, tt, tr, tb, tl);
    assert(w =~= seq![(d, tr), (d, d), (0, d), (0, tl)]);
    let cw = crossing_walk(3, d, tt, tr, tb, tl);
    assert(cw =~= seq![(d, tr), (0, tl)]);
    reveal_with_fuel(shoelace_from, 5);
    let b1 = shoelace_from(w, 0);
    assert(b1 == (d * d - d * tr) + (d * d - 0 * d) + (0 * tl - 0 * d) + (0 * tr - d * tl));
    let b2 = shoelace_from(cw, 0);
    assert(b2 == (d * tl - 0 * tr) + (0 * tr - d * tl));
    reveal_with_fuel(triangles_area, 3);
    let a0 = triangle_twice_area(t, 0, d, tt, tr, tb, tl);
    assert(a0 == twice_area((0, tl), (d, tr), (d, d)));
    assert(a0 >= 0) by (nonlinear_arith)
        requires
            a0 == (d - 0) * (d - tl) - (tr - tl) * (d - 0),
            0 <= tt <= d,
            0 <= tr <= d,
            0 <= tb <= d,
            0 <= tl <= d,
    ;
    let a1 = triangle_twice_area(t, 1, d, tt, tr, tb, tl);
    assert(a1 == twice_area((0, tl), (d, d), (0, d)));
    assert(a1 >= 0) by (nonlinear_arith)
        requires
            a1 == (d - 0) * (d - tl) - (d - tl) * (0 - 0),
            0 <= tt <= d,
            0 <= tr <= d,
            0 <= tb <= d,
            0 <= tl <= d,
    ;
    assert(a0 + a1 == b1 - b2) by (nonlinear_arith)
        requires
            a0 == (d - 0) * (d - tl) - (tr - tl) * (d - 0),
            a1 == (d - 0) * (d - tl) - (d - tl) * (0 - 0),
            b1 == (d * d - d * tr) + (d * d - 0 * d) + (0 * tl - 0 * d) + (0 * tr - d * tl),
            b2 == (d * tl - 0 * tr) + (0 * tr - d * tl),
    ;
}

proof fn lemma_tiles_case_4(d: int, tt: int, tr: int, tb: int, tl: int)
    requires
        0 <= tt <= d,
        0 <= tr <= d,
        0 <= tb <= d,
        0 <= tl <= d,
    ensures
        triangles_area(triangle_table(4), 1, d, tt, tr, tb, tl) == inside_area(4, d, tt, tr, tb, tl),
{
    let t = triangle_table(4);
    let w = inside_walk(4, d, tt, tr, tb, tl);
    assert(w =~= seq![(tt, 0), (d, 0), (d, tr)]);
    let cw = crossing_walk(4, d, tt, tr, tb, tl);
    assert(cw =~= seq![(tt, 0), (d, tr)]);
    reveal_with_fuel(shoelace_from, 4);
    let b1 = shoelace_from(w, 0);
    assert(b1 == (tt * 0 - d * 0) + (d * tr - d * 0) + (d * 0 - tt * tr));
    let b2 = shoelace_from(cw, 0);
    assert(b2 == (tt * tr - d * 0) + (d * 0 - tt * tr));
    reveal_with_fuel(triangles_area, 2);
    let a0 = triangle_twice_area(t, 0, d, tt, tr, tb, tl);
    assert(a0 == twice_area((d, tr), (tt, 0), (d, 0)));
    assert(a0 >= 0) by (nonlinear_arith)
        requires
            a0 == (tt - d) * (0 - tr) - (0 - tr) * (d - d),
            0 <= tt <= d,
            0 <= tr <= d,
            0 <= tb <= d,
            0 <= tl <= d,
    ;
    assert(a0 == b1 - b2) by (nonlinear_arith)
        requires
            a0 == (tt - d) * (0 - tr) - (0 - tr) * (d - d),
            b1 == (tt * 0 - d * 0) + (d * tr - d * 0) + (d * 0 - tt * tr),
            b2 == (tt * tr - d * 0) + (d * 0 - tt * tr),
    ;
}

proof fn lemma_tiles_case_5(d: int, tt: int, tr: int, tb: int, tl: int)
    requires
        0 <= tt <= d,
        0 <= tr <= d,
        0 <= tb <= d,
        0 <= tl <= d,
    ensures
        triangles_area(triangle_table(5), 2, d, tt, tr, tb, tl) == inside_area(5, d, tt, tr, tb, tl),
{
    let t = triangle_table(5);
    let w = inside_walk(5, d, tt, tr, tb, tl);
    assert(w =~= seq![(tt, 0), (d, 0), (d, tr), (tb, d), (0, d), (0, tl)]);
    let cw = crossing_walk(5, d, tt, tr, tb, tl);
    assert(cw =~= seq![(tt, 0), (d, tr), (tb, d), (0, tl)]);
    reveal_with_fuel(shoelace_from, 7);
    let b1 = shoelace_from(w, 0);
    assert(b1 == (tt * 0 - d * 0) + (d * tr - d * 0) + (d * d - tb * tr) + (tb * d - 0 * d) + (0 * tl - 0 * d) + (0 * 0 - tt * tl));
    let b2 = shoelace_from(cw, 0);
    assert(b2 == (tt * tr - d * 0) + (d * d - tb * tr) + (tb * tl - 0 * d) + (0 * 0 - tt * tl));
    reveal_with_fuel(triangles_area, 3);
    let a0 = triangle_twice_area(t, 0, d, tt, tr, tb, tl);
    assert(a0 == twice_area((0, tl), (tb, d), (0, d)));
    assert(a0 >= 0) by (nonlinear_arith)
        requires
            a0 == (tb - 0) * (d - tl) - (d - tl) * (0 - 0),
            0 <= tt <= d,
            0 <= tr <= d,
            0 <= tb <= d,
            0 <= tl <= d,
    ;
    let a1 = triangle_twice_area(t, 1, d, tt, tr, tb, tl);
    assert(a1 == twice_area((d, tr), (tt, 0), (d, 0)));
    assert(a1 >= 0) by (nonlinear_arith)
        requires
            a1 == (tt - d) * (0 - tr) - (0 - tr) * (d - d),
            0 <= tt <= d,
            0 <= tr <= d,
            0 <= tb <= d,
            0 <= tl <= d,
    ;
    assert(a0 + a1 == b1 - b2) by (nonlinear_arith)
        requires
            a0 == (tb - 0) * (d - tl) - (d - tl) * (0 - 0),
            a1 == (tt - d) * (0 - tr) - (0 - tr) * (d - d),
            b1 == (tt * 0 - d * 0) + (d * tr - d * 0) + (d * d - tb * tr) + (tb * d - 0 * d) + (0 * tl - 0 * d) + (0 * 0 - tt * tl),
            b2 == (tt * tr - d * 0) + (d * d - tb * tr) + (tb * tl - 0 * d) + (0 * 0 - tt * tl),
    ;
}

proof fn lemma_tiles_case_6(d: int, tt: int, tr: int, tb: int, tl: int)
    requires
        0 <= tt <= d,
        0 <= tr <= d,
        0 <= tb <= d,
        0 <= tl <= d,
    ensures
        triangles_area(triangle_table(6), 2, d, tt, tr, tb, tl) == inside_area(6, d, tt, tr, tb, tl),
{
    let t = triangle_table(6);
    let w = inside_walk(6, d, tt, tr, tb, tl);
    assert(w =~= seq![(tt, 0), (d, 0), (d, d), (tb, d)]);
    let cw = crossing_walk(6, d, tt, tr, tb, tl);
    assert(cw =~= seq![(tt, 0), (tb, d)]);
    reveal_with_fuel(shoelace_from, 5);
    let b1 = shoelace_from(w, 0);
    assert(b1 == (tt * 0 - d * 0) + (d * d - d * 0) + (d * d - tb * d) + (tb * 0 - tt * d));
    let b2 = shoelace_from(cw, 0);
    assert(b2 == (tt * d - tb * 0) + (tb * 0 - tt * d));
    reveal_with_fuel(triangles_area, 3);
    let a0 = triangle_twice_area(t, 0, d, tt, tr, tb, tl);
    assert(a0 == twice_area((tb, d), (tt, 0), (d, 0)));
    assert(a0 >= 0) by (nonlinear_arith)
        requires
            a0 == (tt - tb) * (0 - d) - (0 - d) * (d - tb),
            0 <= tt <= d,
            0 <= tr <= d,
            0 <= tb <= d,
            0 <= tl <= d,
    ;
    let a1 = triangle_twice_area(t, 1, d, tt, tr, tb, tl);
    assert(a1 == twice_area((tb, d), (d, 0), (d, d)));
    assert(a1 >= 0) by (nonlinear_arith)
        requires
            a1 == (d - tb) * (d - d) - (0 - d) * (d - tb),
            0 <= tt <= d,
            0 <= tr <= d,
            0 <= tb <= d,
            0 <= tl <= d,
    ;
    assert(a0 + a1 == b1 - b2) by (nonlinear_arith)
        requires
            a0 == (tt - tb) * (0 - d) - (0 - d) * (d - tb),
            a1 == (d - tb) * (d - d) - (0 - d) * (d - tb),
            b1 == (tt * 0 - d * 0) + (d * d - d * 0) + (d * d - tb * d) + (tb * 0 - tt * d),
            b2 == (tt * d - tb * 0) + (tb * 0 - tt * d),
    ;
}

proof fn lemma_tiles_case_7(d: int, tt: int, tr: int, tb: int, tl: int)
    requires
        0 <= tt <= d,
        0 <= tr <= d,
        0 <= tb <= d,
        0 <= tl <= d,
    ensures
        triangles_area(triangle_table(7), 3, d, tt, tr, tb, tl) == inside_area(7, d, tt, tr, tb, tl),
{
    let t = triangle_table(7);
    let w = inside_walk(7, d, tt, tr, tb, tl);
    assert(w =~= seq![(tt, 0), (d, 0), (d, d), (0, d), (0, tl)]);
    let cw = crossing_walk(7, d, tt, tr, tb, tl);
    assert(cw =~= seq![(tt, 0), (0, tl)]);
    reveal_with_fuel(shoelace_from, 6);
    let b1 = shoelace_from(w, 0);
    assert(b1 == (tt * 0 - d * 0) + (d * d - d * 0) + (d * d - 0 * d) + (0 * tl - 0 * d) + (0 * 0 - tt * tl));
    let b2 = shoelace_from(cw, 0);
    assert(b2 == (tt * tl - 0 * 0) + (0 * 0 - tt * tl));
    reveal_with_fuel(triangles_area, 4);
    let a0 = triangle_twice_area(t, 0, d, tt, tr, tb, tl);
    assert(a0 == twice_area((0, tl), (tt, 0), (d, 0)));
    assert(a0 >= 0) by (nonlinear_arith)
        requires
            a0 == (tt - 0) * (0 - tl) - (0 - tl) * (d - 0),
            0 <= tt <= d,
            0 <= tr <= d,
            0 <= tb <= d,
            0 <= tl <= d,
    ;
    let a1 = triangle_twice_area(t, 1, d, tt, tr, tb, tl);
    assert(a1 == twice_area((0, tl), (d, 0), (d, d)));
    assert(a1 >= 0) by (nonlinear_arith)
        requires
            a1 == (d - 0) * (d - tl) - (0 - tl) * (d - 0),
            0 <= tt <= d,
            0 <= tr <= d,
            0 <= tb <= d,
            0 <= tl <= d,
    ;
    let a2 = triangle_twice_area(t, 2, d, tt, tr, tb, tl);
    assert(a2 == twice_area((0, tl), (d, d), (0, d)));
    assert(a2 >= 0) by (nonlinear_arith)
        requires
            a2 == (d - 0) * (d - tl) - (d - tl) * (0 - 0),
            0 <= tt <= d,
            0 <= tr <= d,
            0 <= tb <= d,
            0 <= tl <= d,
    ;
    assert(a0 + a1 + a2 == b1 - b2) by (nonlinear_arith)
        requires
            a0 == (tt - 0) * (0 - tl) - (0 - tl) * (d - 0),
            a1 == (d - 0) * (d - tl) - (0 - tl) * (d - 0),
            a2 == (d - 0) * (d - tl) - (d - tl) * (0 - 0),
            b1 == (tt * 0 - d * 0) + (d * d - d * 0) + (d * d - 0 * d) + (0 * tl - 0 * d) + (0 * 0 - tt * tl),
            b2 == (tt * tl - 0 * 0) + (0 * 0 - tt * tl),
    ;
}

proof fn lemma_tiles_case_8(d: int, tt: int, tr: int, tb: int, tl: int)
    requires
        0 <= tt <= d,
        0 <= tr <= d,
        0 <= tb <= d,
        0 <= tl <= d,
    ensures
        triangles_area(triangle_table(8), 1, d, tt, tr, tb, tl) == inside_area(8, d, tt, tr, tb, tl),
{
    let t = triangle_table(8);
    let w = inside_walk(8, d, tt, tr, tb, tl);
    assert(w =~= seq![(0, 0), (tt, 0), (0, tl)]);
    let cw = crossing_walk(8, d, tt, tr, tb, tl);
    assert(cw =~= seq![(tt, 0), (0, tl)]);
    reveal_with_fuel(shoelace_from, 4);
    let b1 = shoelace_from(w, 0);
    assert(b1 == (0 * 0 - tt * 0) + (tt * tl - 0 * 0) + (0 * 0 - 0 * tl));
    let b2 = shoelace_from(cw, 0);
    assert(b2 == (tt * tl - 0 * 0) + (0 * 0 - tt * tl));
    reveal_with_fuel(triangles_area, 2);
    let a0 = triangle_twice_area(t, 0, d, tt, tr, tb, tl);
    assert(a0 == twice_area((tt, 0), (0, tl), (0, 0)));
    assert(a0 >= 0) by (nonlinear_arith)
        requires
            a0 == (0 - tt) * (0 - 0) - (tl - 0) * (0 - tt),
            0 <= tt <= d,
            0 <= tr <= d,
            0 <= tb <= d,
            0 <= tl <= d,
    ;
    assert(a0 == b1 - b2) by (nonlinear_arith)
        requires
            a0 == (0 - tt) * (0 - 0) - (tl - 0) * (0 - tt),
            b1 == (0 * 0 - tt * 0) + (tt * tl - 0 * 0) + (0 * 0 - 0 * tl),
            b2 == (tt * tl - 0 * 0) + (0 * 0 - tt * tl),
    ;
}

proof fn lemma_tiles_case_9(d: int, tt: int, tr: int, tb: int, tl: int)
    requires
        0 <= tt <= d,
        0 <= tr <= d,
        0 <= tb <= d,
        0 <= tl <= d,
    ensures
        triangles_area(triangle_table(9), 2, d, tt, tr, tb, tl) == inside_area(9, d, tt, tr, tb, tl),
{
    let t = triangle_table(9);
    let w = inside_walk(9, d, tt, tr, tb, tl);
    assert(w =~= seq![(0, 0), (tt, 0), (tb, d), (0, d)]);
    let cw = crossing_walk(9, d, tt, tr, tb, tl);
    assert(cw =~= seq![(tt, 0), (tb, d)]);
    reveal_with_fuel(shoelace_from, 5);
    let b1 = shoelace_from(w, 0);
    assert(b1 == (0 * 0 - tt * 0) + (tt * d - tb * 0) + (tb * d - 0 * d) + (0 * 0 - 0 * d));
    let b2 = shoelace_from(cw, 0);
    assert(b2 == (tt * d - tb * 0) + (tb * 0 - tt * d));
    reveal_with_fuel(triangles_area, 3);
    let a0 = triangle_twice_area(t, 0, d, tt, tr, tb, tl);
    assert(a0 == twice_area((tt, 0), (tb, d), (0, d)));
    assert(a0 >= 0) by (nonlinear_arith)
        requires
            a0 == (tb - tt) * (d - 0) - (d - 0) * (0 - tt),
            0 <= tt <= d,
            0 <= tr <= d,
            0 <= tb <= d,
            0 <= tl <= d,
    ;
    let a1 = triangle_twice_area(t, 1, d, tt, tr, tb, tl);
    assert(a1 == twice_area((tt, 0), (0, d), (0, 0)));
    assert(a1 >= 0) by (nonlinear_arith)
        requires
            a1 == (0 - tt) * (0 - 0) - (d - 0) * (0 - tt),
            0 <= tt <= d,
            0 <= tr <= d,
            0 <= tb <= d,
            0 <= tl <= d,
    ;
    assert(a0 + a1 == b1 - b2) by (nonlinear_arith)
        requires
            a0 == (tb - tt) * (d - 0) - (d - 0) * (0 - tt),
            a1 == (0 - tt) * (0 - 0) - (d - 0) * (0 - tt),
            b1 == (0 * 0 - tt * 0) + (tt * d - tb * 0) + (tb * d - 0 * d) + (0 * 0 - 0 * d),
            b2 == (tt * d - tb * 0) + (tb * 0 - tt * d),
    ;
}

proof fn lemma_tiles_case_10(d: int, tt: int, tr: int, tb: int, tl: int)
    requires
        0 <= tt <= d,
        0 <= tr <= d,
        0 <= tb <= d,
        0 <= tl <= d,
    ensures
        triangles_area(triangle_table(10), 2, d, tt, tr, tb, tl) == inside_area(10, d, tt, tr, tb, tl),
{
    let t = triangle_table(10);
    let w = inside_walk(10, d, tt, tr, tb, tl);
    assert(w =~= seq![(0, 0), (tt, 0), (d, tr), (d, d), (tb, d), (0, tl)]);
    let cw = crossing_walk(10, d, tt, tr, tb, tl);
    assert(cw =~= seq![(tt, 0), (d, tr), (tb, d), (0, tl)]);
    reveal_with_fuel(shoelace_from, 7);
    let b1 = shoelace_from(w, 0);
    assert(b1 == (0 * 0 - tt * 0) + (tt * tr - d * 0) + (d * d - d * tr) + (d * d - tb * d) + (tb * tl - 0 * d) + (0 * 0 - 0 * tl));
    let b2 = shoelace_from(cw, 0);
    assert(b2 == (tt * tr - d * 0) + (d * d - tb * tr) + (tb * tl - 0 * d) + (0 * 0 - tt * tl));
    reveal_with_fuel(triangles_area, 3);
    let a0 = triangle_twice_area(t, 0, d, tt, tr, tb, tl);
    assert(a0 == twice_area((tb, d), (d, tr), (d, d)));
    assert(a0 >= 0) by (nonlinear_arith)
        requires
            a0 == (d - tb) * (d - d) - (tr - d) * (d - tb),
            0 <= tt <= d,
            0 <= tr <= d,
            0 <= tb <= d,
            0 <= tl <= d,
    ;
    let a1 = triangle_twice_area(t, 1, d, tt, tr, tb, tl);
    assert(a1 == twice_area((tt, 0), (0, tl), (0, 0)));
    assert(a1 >= 0) by (nonlinear_arith)
        requires
            a1 == (0 - tt) * (0 - 0) - (tl - 0) * (0 - tt),
            0 <= tt <= d,
            0 <= tr <= d,
            0 <= tb <= d,
            0 <= tl <= d,
    ;
    assert(a0 + a1 == b1 - b2) by (nonlinear_arith)
        requires
            a0 == (d - tb) * (d - d) - (tr - d) * (d - tb),
            a1 == (0 - tt) * (0 - 0) - (tl - 0) * (0 - tt),
            b1 == (0 * 0 - tt * 0) + (tt * tr - d * 0) + (d * d - d * tr) + (d * d - tb * d) + (tb * tl - 0 * d) + (0 * 0 - 0 * tl),
            b2 == (tt * tr - d * 0) + (d * d - tb * tr) + (tb * tl - 0 * d) + (0 * 0 - tt * tl),
    ;
}

proof fn lemma_tiles_case_11(d: int, tt: int, tr: int, tb: int, tl: int)
    requires
        0 <= tt <= d,
        0 <= tr <= d,
        0 <= tb <= d,
        0 <= tl <= d,
    ensures
        triangles_area(triangle_table(11), 3, d, tt, tr, tb, tl) == inside_area(11, d, tt, tr, tb, tl),
{
    let t = triangle_table(11);
    let w = inside_walk(11, d, tt, tr, tb, tl);
    assert(w =~= seq![(0, 0), (tt, 0), (d, tr), (d, d), (0, d)]);
    let cw = crossing_walk(11, d, tt, tr, tb, tl);
    assert(cw =~= seq![(tt, 0), (d, tr)]);
    reveal_with_fuel(shoelace_from, 6);
    let b1 = shoelace_from(w, 0);
    assert(b1 == (0 * 0 - tt * 0) + (tt * tr - d * 0) + (d * d - d * tr) + (d * d - 0 * d) + (0 * 0 - 0 * d));
    let b2 = shoelace_from(cw, 0);
    assert(b2 == (tt * tr - d * 0) + (d * 0 - tt * tr));
    reveal_with_fuel(triangles_area, 4);
    let a0 = triangle_twice_area(t, 0, d, tt, tr, tb, tl);
    assert(a0 == twice_area((tt, 0), (d, tr), (d, d)));
    assert(a0 >= 0) by (nonlinear_arith)
        requires
            a0 == (d - tt) * (d - 0) - (tr - 0) * (d - tt),
            0 <= tt <= d,
            0 <= tr <= d,
            0 <= tb <= d,
            0 <= tl <= d,
    ;
    let a1 = triangle_twice_area(t, 1, d, tt, tr, tb, tl);
    assert(a1 == twice_area((tt, 0), (d, d), (0, d)));
    assert(a1 >= 0) by (nonlinear_arith)
        requires
            a1 == (d - tt) * (d - 0) - (d - 0) * (0 - tt),
            0 <= tt <= d,
            0 <= tr <= d,
            0 <= tb <= d,
            0 <= tl <= d,
    ;
    let a2 = triangle_twice_area(t, 2, d, tt, tr, tb, tl);
    assert(a2 == twice_area((tt, 0), (0, d), (0, 0)));
    assert(a2 >= 0) by (nonlinear_arith)
        requires
            a2 == (0 - tt) * (0 - 0) - (d - 0) * (0 - tt),
            0 <= tt <= d,
            0 <= tr <= d,
            0 <= tb <= d,
            0 <= tl <= d,
    ;
    assert(a0 + a1 + a2 == b1 - b2) by (nonlinear_arith)
        requires
            a0 == (d - tt) * (d - 0) - (tr - 0) * (d - tt),
            a1 == (d - tt) * (d - 0) - (d - 0) * (0 - tt),
            a2 == (0 - tt) * (0 - 0) - (d - 0) * (0 - tt),
            b1 == (0 * 0 - tt * 0) + (tt * tr - d * 0) + (d * d - d * tr) + (d * d - 0 * d) + (0 * 0 - 0 * d),
            b2 == (tt * tr - d * 0) + (d * 0 - tt * tr),
    ;
}

proof fn lemma_tiles_case_12(d: int, tt: int, tr: int, tb: int, tl: int)
    requires
        0 <= tt <= d,
        0 <= tr <= d,
        0 <= tb <= d,
        0 <= tl <= d,
    ensures
        triangles_area(triangle_table(12), 2, d, tt, tr, tb, tl) == inside_area(12, d, tt, tr, tb, tl),
{
    let t = triangle_table(12);
    let w = inside_walk(12, d, tt, tr, tb, tl);
    assert(w =~= seq![(0, 0), (d, 0), (d, tr), (0, tl)]);
    let cw = crossing_walk(12, d, tt, tr, tb, tl);
    assert(cw =~= seq![(d, tr), (0, tl)]);
    reveal_with_fuel(shoelace_from, 5);
    let b1 = shoelace_from(w, 0);
    assert(b1 == (0 * 0 - d * 0) + (d * tr - d * 0) + (d * tl - 0 * tr) + (0 * 0 - 0 * tl));
    let b2 = shoelace_from(cw, 0);
    assert(b2 == (d * tl - 0 * tr) + (0 * tr - d * tl));
    reveal_with_fuel(triangles_area, 3);
    let a0 = triangle_twice_area(t, 0, d, tt, tr, tb, tl);
    assert(a0 == twice_area((0, tl), (d, tr), (d, 0)));
    assert(a0 <= 0) by (nonlinear_arith)
        requires
            a0 == (d - 0) * (0 - tl) - (tr - tl) * (d - 0),
            0 <= tt <= d,
            0 <= tr <= d,
            0 <= tb <= d,
            0 <= tl <= d,
    ;
    let a1 = triangle_twice_area(t, 1, d, tt, tr, tb, tl);
    assert(a1 == twice_area((0, tl), (d, 0), (0, 0)));
    assert(a1 <= 0) by (nonlinear_arith)
        requires
            a1 == (d - 0) * (0 - tl) - (0 - tl) * (0 - 0),
            0 <= tt <= d,
            0 <= tr <= d,
            0 <= tb <= d,
            0 <= tl <= d,
    ;
    assert(-(a0 + a1) == b1 - b2) by (nonlinear_arith)
        requires
            a0 == (d - 0) * (0 - tl) - (tr - tl) * (d - 0),
            a1 == (d - 0) * (0 - tl) - (0 - tl) * (0 - 0),
            b1 == (0 * 0 - d * 0) + (d * tr - d * 0) + (d * tl - 0 * tr) + (0 * 0 - 0 * tl),
            b2 == (d * tl - 0 * tr) + (0 * tr - d * tl),
    ;
}

proof fn lemma_tiles_case_13(d: int, tt: int, tr: int, tb: int, tl: int)
    requires
        0 <= tt <= d,
        0 <= tr <= d,
        0 <= tb <= d,
        0 <= tl <= d,
    ensures
        triangles_area(triangle_table(13), 3, d, tt, tr, tb, tl) == inside_area(13, d, tt, tr, tb, tl),
{
    let t = triangle_table(13);
    let w = inside_walk(13, d, tt, tr, tb, tl);
    assert(w =~= seq![(0, 0), (d, 0), (d, tr), (tb, d), (0, d)]);
    let cw = crossing_walk(13, d, tt, tr, tb, tl);
    assert(cw =~= seq![(d, tr), (tb, d)]);
    reveal_with_fuel(shoelace_from, 6);
    let b1 = shoelace_from(w, 0);
    assert(b1 == (0 * 0 - d * 0) + (d * tr - d * 0) + (d * d - tb * tr) + (tb * d - 0 * d) + (0 * 0 - 0 * d));
    let b2 = shoelace_from(cw, 0);
    assert(b2 == (d * d - tb * tr) + (tb * tr - d * d));
    reveal_with_fuel(triangles_area, 4);
    let a0 = triangle_twice_area(t, 0, d, tt, tr, tb, tl);
    assert(a0 == twice_area((tb, d), (d, tr), (d, 0)));
    assert(a0 <= 0) by (nonlinear_arith)
        requires
            a0 == (d - tb) * (0 - d) - (tr - d) * (d - tb),
            0 <= tt <= d,
            0 <= tr <= d,
            0 <= tb <= d,
            0 <= tl <= d,
    ;
    let a1 = triangle_twice_area(t, 1, d, tt, tr, tb, tl);
    assert(a1 == twice_area((tb, d), (d, 0), (0, 0)));
    assert(a1 <= 0) by (nonlinear_arith)
        requires
            a1 == (d - tb) * (0 - d) - (0 - d) * (0 - tb),
            0 <= tt <= d,
            0 <= tr <= d,
            0 <= tb <= d,
            0 <= tl <= d,
    ;
    let a2 = triangle_twice_area(t, 2, d, tt, tr, tb, tl);
    assert(a2 == twice_area((tb, d), (0, 0), (0, d)));
    assert(a2 <= 0) by (nonlinear_arith)
        requires
            a2 == (0 - tb) * (d - d) - (0 - d) * (0 - tb),
            0 <= tt <= d,
            0 <= tr <= d,
            0 <= tb <= d,
            0 <= tl <= d,
    ;
    assert(-(a0 + a1 + a2) == b1 - b2) by (nonlinear_arith)
        requires
            a0 == (d - tb) * (0 - d) - (tr - d) * (d - tb),
            a1 == (d - tb) * (0 - d) - (0 - d) * (0 - tb),
            a2 == (0 - tb) * (d - d) - (0 - d) * (0 - tb),
            b1 == (0 * 0 - d * 0) + (d * tr - d * 0) + (d * d - tb * tr) + (tb * d - 0 * d) + (0 * 0 - 0 * d),
            b2 == (d * d - tb * tr) + (tb * tr - d * d),
    ;
}

proof fn lemma_tiles_case_14(d: int, tt: int, tr: int, tb: int, tl: int)
    requires
        0 <= tt <= d,
        0 <= tr <= d,
        0 <= tb <= d,
        0 <= tl <= d,
    ensures
        triangles_area(triangle_table(14), 3, d, tt, tr, tb, tl) == inside_area(14, d, tt, tr, tb, tl),
{
    let t = triangle_table(14);
    let w = inside_walk(14, d, tt, tr, tb, tl);
    assert(w =~= seq![(0, 0), (d, 0), (d, d), (tb, d), (0, tl)]);
    let cw = crossing_walk(14, d, tt, tr, tb, tl);
    assert(cw =~= seq![(tb, d), (0, tl)]);
    reveal_with_fuel(shoelace_from, 6);
    let b1 = shoelace_from(w, 0);
    assert(b1 == (0 * 0 - d * 0) + (d * d - d * 0) + (d * d - tb * d) + (tb * tl - 0 * d) + (0 * 0 - 0 * tl));
    let b2 = shoelace_from(cw, 0);
    assert(b2 == (tb * tl - 0 * d) + (0 * d - tb * tl));
    reveal_with_fuel(triangles_area, 4);
    let a0 = triangle_twice_area(t, 0, d, tt, tr, tb, tl);
    assert(a0 == twice_area((0, tl), (tb, d), (d, d)));
    assert(a0 <= 0) by (nonlinear_arith)
        requires
            a0 == (tb - 0) * (d - tl) - (d - tl) * (d - 0),
            0 <= tt <= d,
            0 <= tr <= d,
            0 <= tb <= d,
            0 <= tl <= d,
    ;
    let a1 = triangle_twice_area(t, 1, d, tt, tr, tb, tl);
    assert(a1 == twice_area((0, tl), (d, d), (d, 0)));
    assert(a1 <= 0) by (nonlinear_arith)
        requires
            a1 == (d - 0) * (0 - tl) - (d - tl) * (d - 0),
            0 <= tt <= d,
            0 <= tr <= d,
            0 <= tb <= d,
            0 <= tl <= d,
    ;
    let a2 = triangle_twice_area(t, 2, d, tt, tr, tb, tl);
    assert(a2 == twice_area((0, tl), (d, 0), (0, 0)));
    assert(a2 <= 0) by (nonlinear_arith)
        requires
            a2 == (d - 0) * (0 - tl) - (0 - tl) * (0 - 0),
            0 <= tt <= d,
            0 <= tr <= d,
            0 <= tb <= d,
            0 <= tl <= d,
    ;
    assert(-(a0 + a1 + a2) == b1 - b2) by (nonlinear_arith)
        requires
            a0 == (tb - 0) * (d - tl) - (d - tl) * (d - 0),
            a1 == (d - 0) * (0 - tl) - (d - tl) * (d - 0),
            a2 == (d - 0) * (0 - tl) - (0 - tl) * (0 - 0),
            b1 == (0 * 0 - d * 0) + (d * d - d * 0) + (d * d - tb * d) + (tb * tl - 0 * d) + (0 * 0 - 0 * tl),
            b2 == (tb * tl - 0 * d) + (0 * d - tb * tl),
    ;
}

proof fn lemma_tiles_case_15(d: int, tt: int, tr: int, tb: int, tl: int)
    requires
        0 <= tt <= d,
        0 <= tr <= d,
        0 <= tb <= d,
        0 <= tl <= d,
    ensures
        triangles_area(triangle_table(15), 2, d, tt, tr, tb, tl) == inside_area(15, d, tt, tr, tb, tl),
{
    let t = triangle_table(15);
    let w = inside_walk(15, d, tt, tr, tb, tl);
    assert(w =~= seq![(0, 0), (d, 0), (d, d), (0, d)]);
    let cw = crossing_walk(15, d, tt, tr, tb, tl);
    assert(cw =~= Seq::<(int, int)>::empty());
    reveal_with_fuel(shoelace_from, 5);
    let b1 = shoelace_from(w, 0);
    assert(b1 == (0 * 0 - d * 0) + (d * d - d * 0) + (d * d - 0 * d) + (0 * 0 - 0 * d));
    let b2 = shoelace_from(cw, 0);
    assert(b2 == 0);
    reveal_with_fuel(triangles_area, 3);
    let a0 = triangle_twice_area(t, 0, d, tt, tr, tb, tl);
    assert(a0 == twice_area((0, 0), (d, 0), (d, d)));
    assert(a0 >= 0) by (nonlinear_arith)
        requires
            a0 == (d - 0) * (d - 0) - (0 - 0) * (d - 0),
            0 <= tt <= d,
            0 <= tr <= d,
            0 <= tb <= d,
            0 <= tl <= d,
    ;
    let a1 = triangle_twice_area(t, 1, d, tt, tr, tb, tl);
    assert(a1 == twice_area((0, 0), (d, d), (0, d)));
    assert(a1 >= 0) by (nonlinear_arith)
        requires
            a1 == (d - 0) * (d - 0) - (d - 0) * (0 - 0),
            0 <= tt <= d,
            0 <= tr <= d,
            0 <= tb <= d,
            0 <= tl <= d,
    ;
    assert(a0 + a1 == b1 - b2) by (nonlinear_arith)
        requires
            a0 == (d - 0) * (d - 0) - (0 - 0) * (d - 0),
            a1 == (d - 0) * (d - 0) - (d - 0) * (0 - 0),
            b1 == (0 * 0 - d * 0) + (d * d - d * 0) + (d * d - 0 * d) + (0 * 0 - 0 * d),
            b2 == 0,
    ;
}

/// The triangles of every table entry tile the inside part of their cell.
/// Wherever the crossing points lie along their edges (at `tt`, `tr`, `tb`,
/// `tl` out of `d`), the triangle areas add up to the area of the inside
/// region: the polygon that runs around the cell boundary through the inside
/// corners and the crossing points, less the middle of a saddle cell, whose
/// two inside corners are kept apart. Doubled areas are used throughout.
pub proof fn lemma_table_tiles_inside(case: int, d: int, tt: int, tr: int, tb: int, tl: int)
    requires
        0 <= case < 16,
        0 <= tt <= d,
        0 <= tr <= d,
        0 <= tb <= d,
        0 <= tl <= d,
    ensures
        triangles_area(triangle_table(case), triangle_table(case).len() as int / 3, d, tt, tr, tb, tl)
            == inside_area(case, d, tt, tr, tb, tl),
{
    if case == 0 {
        lemma_tiles_case_0(d, tt, tr, tb, tl);
    } else if case == 1 {
        lemma_tiles_case_1(d, tt, tr, tb, tl);
    } else if case == 2 {
        lemma_tiles_case_2(d, tt, tr, tb, tl);
    } else if case == 3 {
        lemma_tiles_case_3(d, tt, tr, tb, tl);
    } else if case == 4 {
        lemma_tiles_case_4(d, tt, tr, tb, tl);
    } else if case == 5 {
        lemma_tiles_case_5(d, tt, tr, tb, tl);
    } else if case == 6 {
        lemma_tiles_case_6(d, tt, tr, tb, tl);
    } else if case == 7 {
        lemma_tiles_case_7(d, tt, tr, tb, tl);
    } else if case == 8 {
        lemma_tiles_case_8(d, tt, tr, tb, tl);
    } else if case == 9 {
        lemma_tiles_case_9(d, tt, tr, tb, tl);
    } else if case == 10 {
        lemma_tiles_case_10(d, tt, tr, tb, tl);
    } else if case == 11 {
        lemma_tiles_case_11(d, tt, tr, tb, tl);
    } else if case == 12 {
        lemma_tiles_case_12(d, tt, tr, tb, tl);
    } else if case == 13 {
        lemma_tiles_case_13(d, tt, tr, tb, tl);
    } else if case == 14 {
        lemma_tiles_case_14(d, tt, tr, tb, tl);
    } else if case == 15 {
        lemma_tiles_case_15(d, tt, tr, tb, tl);
    }
}

} // verus!
