use vstd::prelude::*;
use crate::geometry::{Corner, Edge, TriPoint};

verus! {

/// The triangles that cover the inside part of a cell, for each of the
/// sixteen cases, three points per triangle. The case number has one bit
/// per corner inside the fluid: top-left 8, top-right 4, bottom-right 2,
/// bottom-left 1. Cases 5 and 10, where diagonal corners are inside, keep
/// the two inside corners apart.
pub open spec fn triangle_table(case: int) -> Seq<TriPoint> {
    if case == 0 {
        seq![]
    } else if case == 1 {
        seq![
            TriPoint::Edge(Edge::Left), TriPoint::Edge(Edge::Bottom), TriPoint::Corner(Corner::BottomLeft),
        ]
    } else if case == 2 {
        seq![
            TriPoint::Edge(Edge::Bottom), TriPoint::Edge(Edge::Right), TriPoint::Corner(Corner::BottomRight),
        ]
    } else if case == 3 {
        seq![
            TriPoint::Edge(Edge::Left), TriPoint::Edge(Edge::Right), TriPoint::Corner(Corner::BottomRight),
            TriPoint::Edge(Edge::Left), TriPoint::Corner(Corner::BottomRight), TriPoint::Corner(Corner::BottomLeft),
        ]
    } else if case == 4 {
        seq![
            TriPoint::Edge(Edge::Right), TriPoint::Edge(Edge::Top), TriPoint::Corner(Corner::TopRight),
        ]
    } else if case == 5 {
        seq![
            TriPoint::Edge(Edge::Left), TriPoint::Edge(Edge::Bottom), TriPoint::Corner(Corner::BottomLeft),
            TriPoint::Edge(Edge::Right), TriPoint::Edge(Edge::Top), TriPoint::Corner(Corner::TopRight),
        ]
    } else if case == 6 {
        seq![
            TriPoint::Edge(Edge::Bottom), TriPoint::Edge(Edge::Top), TriPoint::Corner(Corner::TopRight),
            TriPoint::Edge(Edge::Bottom), TriPoint::Corner(Corner::TopRight), TriPoint::Corner(Corner::BottomRight),
        ]
    } else if case == 7 {
        seq![
            TriPoint::Edge(Edge::Left), TriPoint::Edge(Edge::Top), TriPoint::Corner(Corner::TopRight),
            TriPoint::Edge(Edge::Left), TriPoint::Corner(Corner::TopRight), TriPoint::Corner(Corner::BottomRight),
            TriPoint::Edge(Edge::Left), TriPoint::Corner(Corner::BottomRight), TriPoint::Corner(Corner::BottomLeft),
        ]
    } else if case == 8 {
        seq![
            TriPoint::Edge(Edge::Top), TriPoint::Edge(Edge::Left), TriPoint::Corner(Corner::TopLeft),
        ]
    } else if case == 9 {
        seq![
            TriPoint::Edge(Edge::Top), TriPoint::Edge(Edge::Bottom), TriPoint::Corner(Corner::BottomLeft),
            TriPoint::Edge(Edge::Top), TriPoint::Corner(Corner::BottomLeft), TriPoint::Corner(Corner::TopLeft),
        ]
    } else if case == 10 {
        seq![
            TriPoint::Edge(Edge::Bottom), TriPoint::Edge(Edge::Right), TriPoint::Corner(Corner::BottomRight),
            TriPoint::Edge(Edge::Top), TriPoint::Edge(Edge::Left), TriPoint::Corner(Corner::TopLeft),
        ]
    } else if case == 11 {
        seq![
            TriPoint::Edge(Edge::Top), TriPoint::Edge(Edge::Right), TriPoint::Corner(Corner::BottomRight),
            TriPoint::Edge(Edge::Top), TriPoint::Corner(Corner::BottomRight), TriPoint::Corner(Corner::BottomLeft),
            TriPoint::Edge(Edge::Top), TriPoint::Corner(Corner::BottomLeft), TriPoint::Corner(Corner::TopLeft),
        ]
    } else if case == 12 {
        seq![
            TriPoint::Edge(Edge::Left), TriPoint::Edge(Edge::Right), TriPoint::Corner(Corner::TopRight),
            TriPoint::Edge(Edge::Left), TriPoint::Corner(Corner::TopRight), TriPoint::Corner(Corner::TopLeft),
        ]
    } else if case == 13 {
        seq![
            TriPoint::Edge(Edge::Bottom), TriPoint::Edge(Edge::Right), TriPoint::Corner(Corner::TopRight),
            TriPoint::Edge(Edge::Bottom), TriPoint::Corner(Corner::TopRight), TriPoint::Corner(Corner::TopLeft),
            TriPoint::Edge(Edge::Bottom), TriPoint::Corner(Corner::TopLeft), TriPoint::Corner(Corner::BottomLeft),
        ]
    } else if case == 14 {
        seq![
            TriPoint::Edge(Edge::Left), TriPoint::Edge(Edge::Bottom), TriPoint::Corner(Corner::BottomRight),
            TriPoint::Edge(Edge::Left), TriPoint::Corner(Corner::BottomRight), TriPoint::Corner(Corner::TopRight),
            TriPoint::Edge(Edge::Left), TriPoint::Corner(Corner::TopRight), TriPoint::Corner(Corner::TopLeft),
        ]
    } else {
        seq![
            TriPoint::Corner(Corner::TopLeft), TriPoint::Corner(Corner::TopRight), TriPoint::Corner(Corner::BottomRight),
            TriPoint::Corner(Corner::TopLeft), TriPoint::Corner(Corner::BottomRight), TriPoint::Corner(Corner::BottomLeft),
        ]
    }
}

/// The triangle list of a case, as `triangle_table` gives it.
pub fn lookup_triangles(case: usize) -> (points: Vec<TriPoint>)
    requires
        case < 16,
    ensures
        points@ == triangle_table(case as int),
{
    match case {
        0 => vec![],
        1 => vec![
            TriPoint::Edge(Edge::Left), TriPoint::Edge(Edge::Bottom), TriPoint::Corner(Corner::BottomLeft),
        ],
        2 => vec![
            TriPoint::Edge(Edge::Bottom), TriPoint::Edge(Edge::Right), TriPoint::Corner(Corner::BottomRight),
        ],
        3 => vec![
            TriPoint::Edge(Edge::Left), TriPoint::Edge(Edge::Right), TriPoint::Corner(Corner::BottomRight),
            TriPoint::Edge(Edge::Left), TriPoint::Corner(Corner::BottomRight), TriPoint::Corner(Corner::BottomLeft),
        ],
        4 => vec![
            TriPoint::Edge(Edge::Right), TriPoint::Edge(Edge::Top), TriPoint::Corner(Corner::TopRight),
        ],
        5 => vec![
            TriPoint::Edge(Edge::Left), TriPoint::Edge(Edge::Bottom), TriPoint::Corner(Corner::BottomLeft),
            TriPoint::Edge(Edge::Right), TriPoint::Edge(Edge::Top), TriPoint::Corner(Corner::TopRight),
        ],
        6 => vec![
            TriPoint::Edge(Edge::Bottom), TriPoint::Edge(Edge::Top), TriPoint::Corner(Corner::TopRight),
            TriPoint::Edge(Edge::Bottom), TriPoint::Corner(Corner::TopRight), TriPoint::Corner(Corner::BottomRight),
        ],
        7 => vec![
            TriPoint::Edge(Edge::Left), TriPoint::Edge(Edge::Top), TriPoint::Corner(Corner::TopRight),
            TriPoint::Edge(Edge::Left), TriPoint::Corner(Corner::TopRight), TriPoint::Corner(Corner::BottomRight),
            TriPoint::Edge(Edge::Left), TriPoint::Corner(Corner::BottomRight), TriPoint::Corner(Corner::BottomLeft),
        ],
        8 => vec![
            TriPoint::Edge(Edge::Top), TriPoint::Edge(Edge::Left), TriPoint::Corner(Corner::TopLeft),
        ],
        9 => vec![
            TriPoint::Edge(Edge::Top), TriPoint::Edge(Edge::Bottom), TriPoint::Corner(Corner::BottomLeft),
            TriPoint::Edge(Edge::Top), TriPoint::Corner(Corner::BottomLeft), TriPoint::Corner(Corner::TopLeft),
        ],
        10 => vec![
            TriPoint::Edge(Edge::Bottom), TriPoint::Edge(Edge::Right), TriPoint::Corner(Corner::BottomRight),
            TriPoint::Edge(Edge::Top), TriPoint::Edge(Edge::Left), TriPoint::Corner(Corner::TopLeft),
        ],
        11 => vec![
            TriPoint::Edge(Edge::Top), TriPoint::Edge(Edge::Right), TriPoint::Corner(Corner::BottomRight),
            TriPoint::Edge(Edge::Top), TriPoint::Corner(Corner::BottomRight), TriPoint::Corner(Corner::BottomLeft),
            TriPoint::Edge(Edge::Top), TriPoint::Corner(Corner::BottomLeft), TriPoint::Corner(Corner::TopLeft),
        ],
        12 => vec![
            TriPoint::Edge(Edge::Left), TriPoint::Edge(Edge::Right), TriPoint::Corner(Corner::TopRight),
            TriPoint::Edge(Edge::Left), TriPoint::Corner(Corner::TopRight), TriPoint::Corner(Corner::TopLeft),
        ],
        13 => vec![
            TriPoint::Edge(Edge::Bottom), TriPoint::Edge(Edge::Right), TriPoint::Corner(Corner::TopRight),
            TriPoint::Edge(Edge::Bottom), TriPoint::Corner(Corner::TopRight), TriPoint::Corner(Corner::TopLeft),
            TriPoint::Edge(Edge::Bottom), TriPoint::Corner(Corner::TopLeft), TriPoint::Corner(Corner::BottomLeft),
        ],
        14 => vec![
            TriPoint::Edge(Edge::Left), TriPoint::Edge(Edge::Bottom), TriPoint::Corner(Corner::BottomRight),
            TriPoint::Edge(Edge::Left), TriPoint::Corner(Corner::BottomRight), TriPoint::Corner(Corner::TopRight),
            TriPoint::Edge(Edge::Left), TriPoint::Corner(Corner::TopRight), TriPoint::Corner(Corner::TopLeft),
        ],
        _ => vec![
            TriPoint::Corner(Corner::TopLeft), TriPoint::Corner(Corner::TopRight), TriPoint::Corner(Corner::BottomRight),
            TriPoint::Corner(Corner::TopLeft), TriPoint::Corner(Corner::BottomRight), TriPoint::Corner(Corner::BottomLeft),
        ],
    }
}

/// The bit that a corner sets in the case number.
pub open spec fn corner_bit(corner: Corner) -> int {
    match corner {
        Corner::TopLeft => 8,
        Corner::TopRight => 4,
        Corner::BottomRight => 2,
        Corner::BottomLeft => 1,
    }
}

/// Whether `corner` is inside the fluid in `case`.
pub open spec fn corner_inside(case: int, corner: Corner) -> bool {
    (case / corner_bit(corner)) % 2 == 1
}

/// The two end corners of an edge, in the order in which the edge runs.
pub open spec fn edge_corners(edge: Edge) -> (Corner, Corner) {
    match edge {
        Edge::Top => (Corner::TopLeft, Corner::TopRight),
        Edge::Left => (Corner::TopLeft, Corner::BottomLeft),
        Edge::Bottom => (Corner::BottomLeft, Corner::BottomRight),
        Edge::Right => (Corner::TopRight, Corner::BottomRight),
    }
}

/// Whether the fluid boundary crosses `edge` in `case`: one end is inside and
/// the other is not.
pub open spec fn edge_crossed(case: int, edge: Edge) -> bool {
    corner_inside(case, edge_corners(edge).0) != corner_inside(case, edge_corners(edge).1)
}

/// Every entry of the table is a list of whole triangles, at most three of
/// them; it names exactly the corners that are inside the fluid and exactly
/// the edges that the fluid boundary crosses.
pub proof fn lemma_table_shape(case: int)
    requires
        0 <= case < 16,
    ensures
        triangle_table(case).len() % 3 == 0,
        triangle_table(case).len() <= 9,
        forall|corner: Corner|
            #![trigger corner_inside(case, corner)]
            triangle_table(case).contains(TriPoint::Corner(corner)) <==> corner_inside(case, corner),
        forall|edge: Edge|
            #![trigger edge_crossed(case, edge)]
            triangle_table(case).contains(TriPoint::Edge(edge)) <==> edge_crossed(case, edge),
{
    let t = triangle_table(case);
    assert(t.len() <= 9);
    assert forall|corner: Corner| #![trigger corner_inside(case, corner)]
        t.contains(TriPoint::Corner(corner)) <==> corner_inside(case, corner) by {
        if corner_inside(case, corner) {
            assert(t.len() > 0);
        }
    }
    assert forall|edge: Edge| #![trigger edge_crossed(case, edge)]
        t.contains(TriPoint::Edge(edge)) <==> edge_crossed(case, edge) by {
    }
}

} // verus!
