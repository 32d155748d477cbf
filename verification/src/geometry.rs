use vstd::prelude::*;

verus! {

/// One side of a marching-squares cell. Local cell coordinates put the
/// top-left corner at (0, 0) and the bottom-right corner at (1, 1).
#[derive(Clone, Copy, Debug, PartialEq, Eq, Structural)]
pub enum Edge {
    Top,
    Left,
    Bottom,
    Right,
}

/// One corner of a marching-squares cell.
#[derive(Clone, Copy, Debug, PartialEq, Eq, Structural)]
pub enum Corner {
    TopLeft,
    TopRight,
    BottomLeft,
    BottomRight,
}

/// A vertex of a triangle in the lookup table: either a point on an edge
/// (placed by interpolation) or a corner of the cell.
#[derive(Clone, Copy, Debug, PartialEq, Eq, Structural)]
pub enum TriPoint {
    Edge(Edge),
    Corner(Corner),
}

/// A point in local cell coordinates, held exactly as the rational
/// `(x_num / den, y_num / den)`; `den` is positive.
#[derive(Clone, Copy, Debug, PartialEq, Eq, Structural)]
pub struct LocalPoint {
    pub x_num: i64,
    pub y_num: i64,
    pub den: i64,
}

impl View for LocalPoint {
    type V = (int, int, int);

    /// The point as `(x numerator, y numerator, denominator)`.
    open spec fn view(&self) -> (int, int, int) {
        (self.x_num as int, self.y_num as int, self.den as int)
    }
}

/// The level that marks a grid corner as inside the fluid.
pub const THRESHOLD: u32 = 1;

/// The interpolation parameter along an edge from a corner holding `a` to a
/// corner holding `b`, as `(numerator, positive denominator)`:
/// `(THRESHOLD - a) / (b - a)` where the values differ, one half otherwise.
pub open spec fn interpolation(a: int, b: int) -> (int, int) {
    if a == b {
        (1, 2)
    } else if b > a {
        (THRESHOLD - a, b - a)
    } else {
        (a - THRESHOLD, a - b)
    }
}

/// The point `p0 + t * (p1 - p0)` for `t = interpolation(a, b)`, written
/// over the denominator of `t`, where `p0` to `p1` runs along `edge`: the top
/// edge from (0, 0) to (1, 0), the right edge from (1, 0) to (1, 1), the
/// bottom edge from (0, 1) to (1, 1) and the left edge from (0, 0) to (0, 1).
pub open spec fn spec_edge_point(edge: Edge, a: int, b: int) -> (int, int, int) {
    let (num, den) = interpolation(a, b);
    match edge {
        Edge::Top => (num, 0, den),
        Edge::Right => (den, num, den),
        Edge::Bottom => (num, den, den),
        Edge::Left => (0, num, den),
    }
}

/// The local coordinates of a corner; an edge point has no fixed place and
/// maps to the origin.
pub open spec fn spec_corner_point(p: TriPoint) -> (int, int, int) {
    match p {
        TriPoint::Corner(Corner::TopLeft) => (0, 0, 1),
        TriPoint::Corner(Corner::TopRight) => (1, 0, 1),
        TriPoint::Corner(Corner::BottomLeft) => (0, 1, 1),
        TriPoint::Corner(Corner::BottomRight) => (1, 1, 1),
        TriPoint::Edge(_) => (0, 0, 1),
    }
}

/// The point on `edge` where the level `THRESHOLD` falls between the
/// corner values `value_a` (at the edge's first end) and `value_b` (at its
/// second end), by linear interpolation; the mid-point where they are equal.
pub fn edge_to_point(edge: &Edge, value_a: u32, value_b: u32) -> (p: LocalPoint)
    ensures
        p@ == spec_edge_point(*edge, value_a as int, value_b as int),
        p.den > 0,
{
    let a = value_a as i64;
    let b = value_b as i64;
    let (num, den): (i64, i64) = if a == b {
        (1, 2)
    } else if b > a {
        (THRESHOLD as i64 - a, b - a)
    } else {
        (a - THRESHOLD as i64, a - b)
    };
    match edge {
        Edge::Top => LocalPoint { x_num: num, y_num: 0, den },
        Edge::Right => LocalPoint { x_num: den, y_num: num, den },
        Edge::Bottom => LocalPoint { x_num: num, y_num: den, den },
        Edge::Left => LocalPoint { x_num: 0, y_num: num, den },
    }
}

/// The local coordinates of a corner point; the origin for an edge point.
pub fn corner_to_point(corner: &TriPoint) -> (p: LocalPoint)
    ensures
        p@ == spec_corner_point(*corner),
{
    match corner {
        TriPoint::Corner(Corner::TopLeft) => LocalPoint { x_num: 0, y_num: 0, den: 1 },
        TriPoint::Corner(Corner::TopRight) => LocalPoint { x_num: 1, y_num: 0, den: 1 },
        TriPoint::Corner(Corner::BottomLeft) => LocalPoint { x_num: 0, y_num: 1, den: 1 },
        TriPoint::Corner(Corner::BottomRight) => LocalPoint { x_num: 1, y_num: 1, den: 1 },
        TriPoint::Edge(_) => LocalPoint { x_num: 0, y_num: 0, den: 1 },
    }
}

} // verus!
