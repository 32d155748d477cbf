use fluid_sim::geometry::{corner_to_point, edge_to_point, Corner, Edge, LocalPoint, TriPoint};
use fluid_sim::lookup::lookup_triangles;

fn lp(x_num: i64, y_num: i64, den: i64) -> LocalPoint {
    LocalPoint { x_num, y_num, den }
}

#[test]
fn edge_point_rising_count_sits_near_the_empty_end() {
    // t = (1 - 0) / (4 - 0) = 1/4 along the top edge
    assert_eq!(edge_to_point(&Edge::Top, 0, 4), lp(1, 0, 4));
}

#[test]
fn edge_point_falling_count_has_positive_denominator() {
    // t = (1 - 3) / (0 - 3) = 2/3 down the left edge
    assert_eq!(edge_to_point(&Edge::Left, 3, 0), lp(0, 2, 3));
}

#[test]
fn edge_point_equal_counts_is_the_mid_point() {
    assert_eq!(edge_to_point(&Edge::Right, 2, 2), lp(2, 1, 2));
    assert_eq!(edge_to_point(&Edge::Bottom, 0, 0), lp(1, 2, 2));
}

#[test]
fn edge_point_outside_the_edge_when_both_ends_are_inside() {
    // t = (1 - 3) / (5 - 3) = -1: the interpolation leaves the edge when both ends are inside
    assert_eq!(edge_to_point(&Edge::Bottom, 3, 5), lp(-2, 2, 2));
}

#[test]
fn edge_point_bottom_from_empty_to_single() {
    assert_eq!(edge_to_point(&Edge::Bottom, 0, 1), lp(1, 1, 1));
}

#[test]
fn corner_points_are_the_unit_square() {
    assert_eq!(corner_to_point(&TriPoint::Corner(Corner::TopLeft)), lp(0, 0, 1));
    assert_eq!(corner_to_point(&TriPoint::Corner(Corner::TopRight)), lp(1, 0, 1));
    assert_eq!(corner_to_point(&TriPoint::Corner(Corner::BottomLeft)), lp(0, 1, 1));
    assert_eq!(corner_to_point(&TriPoint::Corner(Corner::BottomRight)), lp(1, 1, 1));
    assert_eq!(corner_to_point(&TriPoint::Edge(Edge::Top)), lp(0, 0, 1));
}

#[test]
fn table_entries_are_whole_triangles() {
    for case in 0..16usize {
        let t = lookup_triangles(case);
        assert_eq!(t.len() % 3, 0);
        assert!(t.len() <= 9);
    }
    assert!(lookup_triangles(0).is_empty());
    assert_eq!(
        lookup_triangles(15),
        vec![
            TriPoint::Corner(Corner::TopLeft),
            TriPoint::Corner(Corner::TopRight),
            TriPoint::Corner(Corner::BottomRight),
            TriPoint::Corner(Corner::TopLeft),
            TriPoint::Corner(Corner::BottomRight),
            TriPoint::Corner(Corner::BottomLeft),
        ]
    );
}

fn corner_bit(c: Corner) -> usize {
    match c {
        Corner::TopLeft => 8,
        Corner::TopRight => 4,
        Corner::BottomRight => 2,
        Corner::BottomLeft => 1,
    }
}

fn edge_ends(e: Edge) -> (Corner, Corner) {
    match e {
        Edge::Top => (Corner::TopLeft, Corner::TopRight),
        Edge::Left => (Corner::TopLeft, Corner::BottomLeft),
        Edge::Bottom => (Corner::BottomLeft, Corner::BottomRight),
        Edge::Right => (Corner::TopRight, Corner::BottomRight),
    }
}

#[test]
fn table_names_inside_corners_and_crossed_edges() {
    let corners = [Corner::TopLeft, Corner::TopRight, Corner::BottomLeft, Corner::BottomRight];
    let edges = [Edge::Top, Edge::Left, Edge::Bottom, Edge::Right];
    for case in 0..16usize {
        let t = lookup_triangles(case);
        for c in corners {
            let inside = case & corner_bit(c) != 0;
            assert_eq!(t.contains(&TriPoint::Corner(c)), inside, "case {} corner {:?}", case, c);
        }
        for e in edges {
            let (a, b) = edge_ends(e);
            let crossed = (case & corner_bit(a) != 0) != (case & corner_bit(b) != 0);
            assert_eq!(t.contains(&TriPoint::Edge(e)), crossed, "case {} edge {:?}", case, e);
        }
    }
}
