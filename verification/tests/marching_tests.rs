use fluid_sim::density_grid::{accumulate_particles, check_stamp_fits, empty_grid, stamp_particle};
use fluid_sim::geometry::LocalPoint;
use fluid_sim::marching_squares::{
    cell_case, march_cell, march_grid, marching_squares, shade_for_total, tri_point_to_local, GridVertex, Shade,
    ShadedVertices,
};
use fluid_sim::geometry::{Corner, Edge, TriPoint};

fn gv(col: usize, row: usize, x_num: i64, y_num: i64, den: i64) -> GridVertex {
    GridVertex { col, row, point: LocalPoint { x_num, y_num, den } }
}

#[test]
fn empty_grid_has_one_corner_more_each_way() {
    let g = empty_grid(3, 2);
    assert_eq!(g.len(), 12);
    assert!(g.iter().all(|&c| c == 0));
    assert_eq!(empty_grid(0, 0), vec![0]);
}

#[test]
fn stamp_counts_the_four_corners_of_a_cell() {
    let mut g = empty_grid(2, 2);
    stamp_particle(&mut g, 2, 0, 0);
    assert_eq!(g, vec![1, 1, 0, 1, 1, 0, 0, 0, 0]);
    stamp_particle(&mut g, 2, 1, 1);
    assert_eq!(g, vec![1, 1, 0, 1, 2, 1, 0, 1, 1]);
}

#[test]
fn stamp_in_last_corner_column_counts_only_that_column() {
    let mut g = empty_grid(2, 2);
    stamp_particle(&mut g, 2, 2, 0);
    assert_eq!(g, vec![0, 0, 1, 0, 0, 1, 0, 0, 0]);
}

#[test]
fn stamp_below_the_grid_counts_nothing() {
    let mut g = empty_grid(2, 2);
    stamp_particle(&mut g, 2, 0, 3);
    assert_eq!(g, vec![0; 9]);
    // on the last corner row, only the corners of that row are in the grid
    stamp_particle(&mut g, 2, 0, 2);
    assert_eq!(g, vec![0, 0, 0, 0, 0, 0, 1, 1, 0]);
}

#[test]
fn stamp_past_the_right_side_wraps_into_the_next_row() {
    // a column index beyond the grid is not checked against the width: the
    // flat index runs on into the next row
    let mut g = empty_grid(2, 2);
    stamp_particle(&mut g, 2, 3, 0);
    assert_eq!(g, vec![0, 0, 0, 1, 1, 0, 1, 1, 0]);
}

#[test]
fn one_column_grid_counts_a_corner_twice() {
    // with one corner per row, the corner below and the corner to the right
    // are the same corner
    let mut g = empty_grid(0, 2);
    stamp_particle(&mut g, 0, 1, 0);
    assert_eq!(g, vec![0, 1, 2]);
    let mut h = empty_grid(0, 2);
    stamp_particle(&mut h, 0, 0, 0);
    assert_eq!(h, vec![1, 1, 0]);
}

#[test]
fn accumulate_counts_every_particle() {
    let mut g = empty_grid(2, 2);
    accumulate_particles(&mut g, 2, &vec![(0, 0), (1, 1), (0, 0)]);
    assert_eq!(g, vec![2, 2, 0, 2, 3, 1, 0, 1, 1]);
}

#[test]
fn cell_case_bits() {
    assert_eq!(cell_case(0, 0, 0, 0), 0);
    assert_eq!(cell_case(1, 0, 0, 0), 8);
    assert_eq!(cell_case(0, 5, 0, 0), 4);
    assert_eq!(cell_case(0, 0, 0, 2), 2);
    assert_eq!(cell_case(0, 0, 1, 0), 1);
    assert_eq!(cell_case(3, 3, 3, 3), 15);
}

#[test]
fn shades_by_corner_total() {
    assert_eq!(shade_for_total(16), Shade::Dark);
    assert_eq!(shade_for_total(40), Shade::Dark);
    assert_eq!(shade_for_total(15), Shade::Medium);
    assert_eq!(shade_for_total(8), Shade::Medium);
    assert_eq!(shade_for_total(7), Shade::Light);
    assert_eq!(shade_for_total(0), Shade::Light);
}

#[test]
fn points_take_the_counts_of_their_edge() {
    // top edge between top-left 0 and top-right 2: t = 1/2
    assert_eq!(tri_point_to_local(&TriPoint::Edge(Edge::Top), 0, 2, 5, 7), LocalPoint { x_num: 1, y_num: 0, den: 2 });
    // right edge between top-right 2 and bottom-right 0: t = 1/2
    assert_eq!(tri_point_to_local(&TriPoint::Edge(Edge::Right), 9, 2, 9, 0), LocalPoint { x_num: 2, y_num: 1, den: 2 });
    // left edge between top-left 0 and bottom-left 3: t = 1/3
    assert_eq!(tri_point_to_local(&TriPoint::Edge(Edge::Left), 0, 9, 3, 9), LocalPoint { x_num: 0, y_num: 1, den: 3 });
    // bottom edge between bottom-left 4 and bottom-right 0: t = 3/4
    assert_eq!(tri_point_to_local(&TriPoint::Edge(Edge::Bottom), 9, 9, 4, 0), LocalPoint { x_num: 3, y_num: 4, den: 4 });
    assert_eq!(tri_point_to_local(&TriPoint::Corner(Corner::BottomRight), 0, 0, 0, 0), LocalPoint { x_num: 1, y_num: 1, den: 1 });
}

#[test]
fn one_particle_draws_light_triangles() {
    let out = marching_squares(2, 2, &vec![(0, 0)]);
    assert!(out.dark.is_empty());
    assert!(out.medium.is_empty());
    let expected = vec![
        // cell (0, 0): all corners inside, two triangles over the square
        gv(0, 0, 0, 0, 1), gv(0, 0, 1, 0, 1), gv(0, 0, 1, 1, 1),
        gv(0, 0, 0, 0, 1), gv(0, 0, 1, 1, 1), gv(0, 0, 0, 1, 1),
        // cell (1, 0): left side inside, case 9
        gv(1, 0, 0, 0, 1), gv(1, 0, 0, 1, 1), gv(1, 0, 0, 1, 1),
        gv(1, 0, 0, 0, 1), gv(1, 0, 0, 1, 1), gv(1, 0, 0, 0, 1),
        // cell (0, 1): top side inside, case 12
        gv(0, 1, 0, 0, 1), gv(0, 1, 1, 0, 1), gv(0, 1, 1, 0, 1),
        gv(0, 1, 0, 0, 1), gv(0, 1, 1, 0, 1), gv(0, 1, 0, 0, 1),
        // cell (1, 1): top-left inside, case 8
        gv(1, 1, 0, 0, 1), gv(1, 1, 0, 0, 1), gv(1, 1, 0, 0, 1),
    ];
    assert_eq!(out.light, expected);
}

#[test]
fn crowded_corners_draw_dark_and_medium() {
    let cells: Vec<(usize, usize)> = vec![(0, 0); 4];
    let out = marching_squares(1, 1, &cells);
    // four corners of count 4 add up to 16: dark
    assert_eq!(out.dark.len(), 6);
    assert!(out.medium.is_empty() && out.light.is_empty());
    let cells: Vec<(usize, usize)> = vec![(0, 0); 2];
    let out = marching_squares(1, 1, &cells);
    assert_eq!(out.medium.len(), 6);
    assert!(out.dark.is_empty() && out.light.is_empty());
}

#[test]
fn empty_grid_draws_nothing() {
    let out = march_grid(&empty_grid(4, 3), 4, 3);
    assert!(out.dark.is_empty() && out.medium.is_empty() && out.light.is_empty());
    let out = marching_squares(5, 5, &vec![]);
    assert!(out.dark.is_empty() && out.medium.is_empty() && out.light.is_empty());
}

fn all(out: &ShadedVertices) -> Vec<GridVertex> {
    let mut v = out.dark.clone();
    v.extend(out.medium.iter().cloned());
    v.extend(out.light.iter().cloned());
    v
}

#[test]
fn vertices_stay_in_their_cells() {
    let cells = vec![(0, 0), (1, 1), (1, 1), (3, 2), (2, 2), (2, 2), (2, 2), (0, 3), (4, 1)];
    let out = marching_squares(4, 3, &cells);
    let vs = all(&out);
    assert!(!vs.is_empty());
    for v in vs {
        assert!(v.col < 4 && v.row < 3);
        let p = v.point;
        assert!(p.den > 0);
        assert!(0 <= p.x_num && p.x_num <= p.den, "{:?}", v);
        assert!(0 <= p.y_num && p.y_num <= p.den, "{:?}", v);
    }
}

#[test]
fn stamp_fits_checks_the_largest_index() {
    assert!(check_stamp_fits(10, 3, 4));
    assert!(!check_stamp_fits(usize::MAX, 0, 0));
    assert!(!check_stamp_fits(1, 0, usize::MAX));
    assert!(!check_stamp_fits(1, usize::MAX, 0));
    // (0 + 1) * (1 + 1) + (usize::MAX - 3) + 1 == usize::MAX
    assert!(check_stamp_fits(1, usize::MAX - 3, 0));
    assert!(!check_stamp_fits(1, usize::MAX - 2, 0));
}

#[test]
fn push_appends_to_one_list() {
    let mut out = ShadedVertices::new();
    out.push(Shade::Medium, gv(1, 2, 0, 1, 1));
    out.push(Shade::Medium, gv(0, 0, 1, 1, 1));
    out.push(Shade::Dark, gv(3, 3, 1, 0, 2));
    assert_eq!(out.medium, vec![gv(1, 2, 0, 1, 1), gv(0, 0, 1, 1, 1)]);
    assert_eq!(out.dark, vec![gv(3, 3, 1, 0, 2)]);
    assert!(out.light.is_empty());
}

#[test]
fn march_cell_adds_one_cell() {
    // one cell; top-right count 3 and bottom-right count 1: case 6
    let grid = vec![0, 3, 0, 1];
    let mut out = ShadedVertices::new();
    march_cell(&grid, 1, 1, 0, 0, &mut out);
    assert_eq!(
        out.light,
        vec![
            // bottom edge from 0 to 1: t = 1; top edge from 0 to 3: t = 1/3
            gv(0, 0, 1, 1, 1), gv(0, 0, 1, 0, 3), gv(0, 0, 1, 0, 1),
            gv(0, 0, 1, 1, 1), gv(0, 0, 1, 0, 1), gv(0, 0, 1, 1, 1),
        ]
    );
}

#[test]
fn every_list_holds_whole_triangles() {
    let cells = vec![(0, 0), (1, 1), (1, 1), (1, 1), (3, 2), (2, 2), (2, 2), (2, 2), (2, 2), (0, 3), (4, 1), (1, 0), (1, 0)];
    let out = marching_squares(4, 3, &cells);
    assert_eq!(out.dark.len() % 3, 0);
    assert_eq!(out.medium.len() % 3, 0);
    assert_eq!(out.light.len() % 3, 0);
    assert!(out.dark.len() + out.medium.len() + out.light.len() > 0);
}
