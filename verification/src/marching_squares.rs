use vstd::prelude::*;
use crate::density_grid::{accumulate, accumulate_particles, empty_grid, grid_len, stamp_fits};
use crate::geometry::{
    corner_to_point, edge_to_point, spec_corner_point, spec_edge_point, Edge, LocalPoint,
    TriPoint, THRESHOLD,
};
use crate::lookup::{edge_crossed, lemma_table_shape, lookup_triangles, triangle_table};

verus! {

/// A triangle vertex of the fluid surface: a point in local coordinates of
/// the cell in column `col` and row `row`.
#[derive(Clone, Copy, Debug, PartialEq, Eq, Structural)]
pub struct GridVertex {
    pub col: usize,
    pub row: usize,
    pub point: LocalPoint,
}

impl View for GridVertex {
    type V = (int, int, (int, int, int));

    open spec fn view(&self) -> (int, int, (int, int, int)) {
        (self.col as int, self.row as int, self.point@)
    }
}

/// How dense the fluid is in a cell, which picks the colour it is drawn in.
#[derive(Clone, Copy, Debug, PartialEq, Eq, Structural)]
pub enum Shade {
    Dark,
    Medium,
    Light,
}

/// The triangle vertices of the fluid surface, three per triangle, one list
/// per shade.
pub struct ShadedVertices {
    pub dark: Vec<GridVertex>,
    pub medium: Vec<GridVertex>,
    pub light: Vec<GridVertex>,
}

impl ShadedVertices {
    /// The list of one shade, each vertex taken by its view.
    pub open spec fn vertices(&self, shade: Shade) -> Seq<(int, int, (int, int, int))> {
        match shade {
            Shade::Dark => self.dark@.map_values(|v: GridVertex| v@),
            Shade::Medium => self.medium@.map_values(|v: GridVertex| v@),
            Shade::Light => self.light@.map_values(|v: GridVertex| v@),
        }
    }

    /// Three empty lists.
    pub fn new() -> (out: Self)
        ensures
            forall|shade: Shade| #[trigger] out.vertices(shade) == Seq::<(int, int, (int, int, int))>::empty(),
    {
        let out = ShadedVertices { dark: Vec::new(), medium: Vec::new(), light: Vec::new() };
        assert forall|shade: Shade| #[trigger] out.vertices(shade) == Seq::<(int, int, (int, int, int))>::empty() by {
            assert(out.vertices(shade) =~= Seq::<(int, int, (int, int, int))>::empty());
        }
        out
    }

    /// Appends `v` to the list of `shade`.
    pub fn push(&mut self, shade: Shade, v: GridVertex)
        ensures
            forall|s: Shade| #[trigger] final(self).vertices(s) == if s == shade {
                old(self).vertices(s).push(v@)
            } else {
                old(self).vertices(s)
            },
    {
        match shade {
            Shade::Dark => self.dark.push(v),
            Shade::Medium => self.medium.push(v),
            Shade::Light => self.light.push(v),
        }
        assert forall|s: Shade| #[trigger] self.vertices(s) == if s == shade {
            old(self).vertices(s).push(v@)
        } else {
            old(self).vertices(s)
        } by {
            if s == shade {
                assert(self.vertices(s) =~= old(self).vertices(s).push(v@));
            }
        }
    }
}

/// The shade of a cell whose four corner counts add up to `total`: dark from
/// sixteen times the threshold on, medium from eight times, light below.
pub open spec fn spec_shade(total: int) -> Shade {
    if total >= 16 * THRESHOLD {
        Shade::Dark
    } else if total >= 8 * THRESHOLD {
        Shade::Medium
    } else {
        Shade::Light
    }
}

/// The shade for the corner total `total`, as `spec_shade` gives it.
pub fn shade_for_total(total: u32) -> (shade: Shade)
    ensures
        shade == spec_shade(total as int),
{
    if total >= 16 * THRESHOLD {
        Shade::Dark
    } else if total >= 8 * THRESHOLD {
        Shade::Medium
    } else {
        Shade::Light
    }
}

/// The case number of a cell from its corner counts: a bit for each corner
/// at or above the threshold, top-left 8, top-right 4, bottom-right 2,
/// bottom-left 1.
pub open spec fn spec_cell_case(tl: int, tr: int, bl: int, br: int) -> int {
    (if tl >= THRESHOLD { 8int } else { 0int }) + (if tr >= THRESHOLD { 4int } else { 0int }) + (
    if br >= THRESHOLD { 2int } else { 0int }) + (if bl >= THRESHOLD { 1int } else { 0int })
}

/// The case number of a cell, as `spec_cell_case` gives it.
pub fn cell_case(tl: u32, tr: u32, bl: u32, br: u32) -> (case: usize)
    ensures
        case == spec_cell_case(tl as int, tr as int, bl as int, br as int),
        case < 16,
{
    let mut case: usize = 0;
    if tl >= THRESHOLD {
        case = case + 8;
    }
    if tr >= THRESHOLD {
        case = case + 4;
    }
    if br >= THRESHOLD {
        case = case + 2;
    }
    if bl >= THRESHOLD {
        case = case + 1;
    }
    case
}

/// The local coordinates of a table point in a cell with corner counts
/// `tl`, `tr`, `bl`, `br`: an edge point is placed between the counts at the
/// two ends of its edge, a corner is where it is.
pub open spec fn point_in_cell(p: TriPoint, tl: int, tr: int, bl: int, br: int) -> (int, int, int) {
    match p {
        TriPoint::Edge(Edge::Top) => spec_edge_point(Edge::Top, tl, tr),
        TriPoint::Edge(Edge::Left) => spec_edge_point(Edge::Left, tl, bl),
        TriPoint::Edge(Edge::Bottom) => spec_edge_point(Edge::Bottom, bl, br),
        TriPoint::Edge(Edge::Right) => spec_edge_point(Edge::Right, tr, br),
        TriPoint::Corner(_) => spec_corner_point(p),
    }
}

/// Places a table point in a cell, as `point_in_cell` says.
pub fn tri_point_to_local(p: &TriPoint, tl: u32, tr: u32, bl: u32, br: u32) -> (q: LocalPoint)
    ensures
        q@ == point_in_cell(*p, tl as int, tr as int, bl as int, br as int),
        q.den > 0,
{
    match p {
        TriPoint::Edge(Edge::Top) => edge_to_point(&Edge::Top, tl, tr),
        TriPoint::Edge(Edge::Left) => edge_to_point(&Edge::Left, tl, bl),
        TriPoint::Edge(Edge::Bottom) => edge_to_point(&Edge::Bottom, bl, br),
        TriPoint::Edge(Edge::Right) => edge_to_point(&Edge::Right, tr, br),
        TriPoint::Corner(_) => corner_to_point(p),
    }
}

/// The counts at the top-left, top-right, bottom-left and bottom-right
/// corners of the cell (`x`, `y`) in a grid `cols` cells wide.
pub open spec fn corner_values(grid: Seq<u32>, cols: int, x: int, y: int) -> (int, int, int, int) {
    let w = cols + 1;
    let i = y * w + x;
    (grid[i] as int, grid[i + 1] as int, grid[i + w] as int, grid[i + w + 1] as int)
}

/// The vertices of the triangles that cover the inside part of the cell
/// (`x`, `y`), in the order of its table entry.
pub open spec fn cell_vertices(grid: Seq<u32>, cols: int, x: int, y: int) -> Seq<(int, int, (int, int, int))> {
    let (tl, tr, bl, br) = corner_values(grid, cols, x, y);
    triangle_table(spec_cell_case(tl, tr, bl, br)).map_values(
        |p: TriPoint| (x, y, point_in_cell(p, tl, tr, bl, br)),
    )
}

/// The shade of the cell (`x`, `y`), from the total of its corner counts.
pub open spec fn cell_shade(grid: Seq<u32>, cols: int, x: int, y: int) -> Shade {
    let (tl, tr, bl, br) = corner_values(grid, cols, x, y);
    spec_shade(tl + tr + bl + br)
}

/// The vertices that the cell (`x`, `y`) adds to the list of `shade`.
pub open spec fn shaded_cell_vertices(grid: Seq<u32>, cols: int, x: int, y: int, shade: Shade) -> Seq<(int, int, (int, int, int))> {
    if cell_shade(grid, cols, x, y) == shade {
        cell_vertices(grid, cols, x, y)
    } else {
        Seq::empty()
    }
}

/// The vertices that the first `n` cells of row `y` add to the list of
/// `shade`, left to right.
pub open spec fn row_vertices(grid: Seq<u32>, cols: int, y: int, n: int, shade: Shade) -> Seq<(int, int, (int, int, int))>
    decreases n,
{
    if n <= 0 {
        Seq::empty()
    } else {
        row_vertices(grid, cols, y, n - 1, shade) + shaded_cell_vertices(grid, cols, n - 1, y, shade)
    }
}

/// The vertices that the first `m` rows of a grid `cols` cells wide add to
/// the list of `shade`, top to bottom.
pub open spec fn grid_vertices(grid: Seq<u32>, cols: int, m: int, shade: Shade) -> Seq<(int, int, (int, int, int))>
    decreases m,
{
    if m <= 0 {
        Seq::empty()
    } else {
        grid_vertices(grid, cols, m - 1, shade) + row_vertices(grid, cols, m - 1, cols, shade)
    }
}

/// The sum of the four corner counts of the cell (`x`, `y`).
pub open spec fn cell_total(grid: Seq<u32>, cols: int, x: int, y: int) -> int {
    let (tl, tr, bl, br) = corner_values(grid, cols, x, y);
    tl + tr + bl + br
}

/// A corner grid of `cols` by `rows` cells whose size fits in a `usize` and
/// where the four corner counts of every cell add up within a `u32`.
pub open spec fn grid_well_formed(grid: Seq<u32>, cols: int, rows: int) -> bool {
    &&& grid.len() == grid_len(cols, rows)
    &&& grid_len(cols, rows) <= usize::MAX
    &&& forall|x: int, y: int| 0 <= x < cols && 0 <= y < rows ==> #[trigger] cell_total(grid, cols, x, y) <= u32::MAX
}

proof fn lemma_cell_indices(cols: int, rows: int, x: int, y: int)
    requires
        0 <= x < cols,
        0 <= y < rows,
    ensures
        y * (cols + 1) + x + (cols + 1) + 1 < (cols + 1) * (rows + 1),
        y * (cols + 1) >= 0,
{
    assert(y * (cols + 1) + (cols + 1) <= rows * (cols + 1)) by (nonlinear_arith)
        requires
            0 <= y < rows,
            cols >= 0,
    ;
    assert((cols + 1) * (rows + 1) == rows * (cols + 1) + cols + 1) by (nonlinear_arith);
    assert(y * (cols + 1) >= 0) by (nonlinear_arith)
        requires
            y >= 0,
            cols >= 0,
    ;
}

/// Adds the triangles of the cell (`x`, `y`) to the list of the cell's
/// shade.
pub fn march_cell(grid: &Vec<u32>, cols: usize, rows: usize, x: usize, y: usize, out: &mut ShadedVertices)
    requires
        grid_well_formed(grid@, cols as int, rows as int),
        x < cols,
        y < rows,
    ensures
        forall|s: Shade| #[trigger] final(out).vertices(s) == old(out).vertices(s) + shaded_cell_vertices(grid@, cols as int, x as int, y as int, s),
        forall|s: Shade| s != spec_shade(total_at(grid@, cols as int, x as int, y as int))
            ==> #[trigger] final(out).vertices(s) == old(out).vertices(s),
        final(out).vertices(spec_shade(total_at(grid@, cols as int, x as int, y as int))).len()
            == old(out).vertices(spec_shade(total_at(grid@, cols as int, x as int, y as int))).len()
            + triangle_table(case_at(grid@, cols as int, x as int, y as int)).len(),
{
    proof {
        lemma_cell_follows_its_corners(grid@, cols as int, x as int, y as int);
    }
    proof {
        lemma_cell_indices(cols as int, rows as int, x as int, y as int);
    }
    let w = cols + 1;
    assert((y as int) * (w as int) == (y as int) * (cols as int + 1));
    let index = y * w + x;
    assert(cell_total(grid@, cols as int, x as int, y as int) <= u32::MAX);
    let tl = grid[index];
    let tr = grid[index + 1];
    let bl = grid[index + w];
    let br = grid[index + w + 1];
    let case = cell_case(tl, tr, bl, br);
    let points = lookup_triangles(case);
    let total = tl + tr + bl + br;
    let shade = shade_for_total(total);
    let ghost cell = cell_vertices(grid@, cols as int, x as int, y as int);
    assert(shade == cell_shade(grid@, cols as int, x as int, y as int));
    assert(cell.len() == points@.len());
    let mut i: usize = 0;
    while i < points.len()
        invariant
            i <= points@.len(),
            cell.len() == points@.len(),
            cell == cell_vertices(grid@, cols as int, x as int, y as int),
            points@ == triangle_table(spec_cell_case(tl as int, tr as int, bl as int, br as int)),
            corner_values(grid@, cols as int, x as int, y as int) == (tl as int, tr as int, bl as int, br as int),
            forall|s: Shade| #[trigger] out.vertices(s) == old(out).vertices(s) + if s == shade {
                cell.take(i as int)
            } else {
                Seq::empty()
            },
        decreases points@.len() - i,
    {
        let q = tri_point_to_local(&points[i], tl, tr, bl, br);
        let v = GridVertex { col: x, row: y, point: q };
        assert(v@ == cell[i as int]);
        out.push(shade, v);
        assert(cell.take(i + 1) =~= cell.take(i as int).push(cell[i as int]));
        i = i + 1;
        assert forall|s: Shade| #[trigger] out.vertices(s) == old(out).vertices(s) + if s == shade {
            cell.take(i as int)
        } else {
            Seq::empty()
        } by {
            if s == shade {
                assert(out.vertices(s) =~= old(out).vertices(s) + cell.take(i as int));
            } else {
                assert(out.vertices(s) =~= old(out).vertices(s) + Seq::empty());
            }
        }
    }
    assert(cell.take(i as int) =~= cell);
    assert forall|s: Shade| #[trigger] out.vertices(s) == old(out).vertices(s) + shaded_cell_vertices(grid@, cols as int, x as int, y as int, s) by {
        if s != shade {
            assert(out.vertices(s) =~= old(out).vertices(s) + Seq::empty());
        }
    }
}

/// Triangulates the fluid surface of a counted grid of `cols` by `rows`
/// cells: row by row from the top, each row left to right, every cell adds
/// its triangles to the list of its shade.
pub fn march_grid(grid: &Vec<u32>, cols: usize, rows: usize) -> (out: ShadedVertices)
    requires
        grid_well_formed(grid@, cols as int, rows as int),
    ensures
        forall|s: Shade| #[trigger] out.vertices(s) == grid_vertices(grid@, cols as int, rows as int, s),
        out.vertices(Shade::Dark).len() + out.vertices(Shade::Medium).len() + out.vertices(Shade::Light).len()
            == grid_table_points(grid@, cols as int, rows as int),
{
    proof {
        lemma_every_cell_counted(grid@, cols as int, rows as int);
    }
    let mut out = ShadedVertices::new();
    let mut y: usize = 0;
    while y < rows
        invariant
            y <= rows,
            grid_well_formed(grid@, cols as int, rows as int),
            forall|s: Shade| #[trigger] out.vertices(s) == grid_vertices(grid@, cols as int, y as int, s),
        decreases rows - y,
    {
        let mut x: usize = 0;
        while x < cols
            invariant
                x <= cols,
                y < rows,
                grid_well_formed(grid@, cols as int, rows as int),
                forall|s: Shade| #[trigger] out.vertices(s) == grid_vertices(grid@, cols as int, y as int, s)
                    + row_vertices(grid@, cols as int, y as int, x as int, s),
            decreases cols - x,
        {
            march_cell(grid, cols, rows, x, y, &mut out);
            assert forall|s: Shade| #[trigger] out.vertices(s) == grid_vertices(grid@, cols as int, y as int, s)
                + row_vertices(grid@, cols as int, y as int, x + 1, s) by {
                assert(out.vertices(s) =~= grid_vertices(grid@, cols as int, y as int, s)
                    + row_vertices(grid@, cols as int, y as int, x + 1, s));
            }
            x = x + 1;
        }
        y = y + 1;
    }
    out
}

/// Draws the fluid surface of a set of particles on a grid of `cols` by
/// `rows` cells: counts each particle, by the cell it lies in, at the
/// corners around that cell, then triangulates the counted grid. Each
/// particle adds at most two to a count, so with at most `u32::MAX / 8`
/// particles no cell total leaves the `u32` range.
pub fn marching_squares(cols: usize, rows: usize, particle_cells: &Vec<(usize, usize)>) -> (out: ShadedVertices)
    requires
        grid_len(cols as int, rows as int) <= usize::MAX,
        particle_cells@.len() <= u32::MAX / 8,
        forall|k: int| 0 <= k < particle_cells@.len() ==> #[trigger] stamp_fits(cols as int, particle_cells@[k].0 as int, particle_cells@[k].1 as int),
    ensures
        forall|s: Shade| #[trigger] out.vertices(s) == grid_vertices(
            accumulate(Seq::new(grid_len(cols as int, rows as int) as nat, |i: int| 0u32), cols as int, particle_cells@),
            cols as int, rows as int, s),
{
    let mut grid = empty_grid(cols, rows);
    assert(grid@ =~= Seq::new(grid_len(cols as int, rows as int) as nat, |i: int| 0u32));
    accumulate_particles(&mut grid, cols, particle_cells);
    assert forall|x: int, y: int| 0 <= x < cols && 0 <= y < rows
        implies #[trigger] cell_total(grid@, cols as int, x, y) <= u32::MAX by {
        lemma_cell_indices(cols as int, rows as int, x, y);
    }
    march_grid(&grid, cols, rows)
}

/// A vertex lies in the closed unit square of its cell, and that cell is one
/// of the grid's `cols` by `rows` cells.
pub open spec fn vertex_in_cell(v: (int, int, (int, int, int)), cols: int, rows: int) -> bool {
    let (col, row, (x_num, y_num, den)) = v;
    &&& 0 <= col < cols
    &&& 0 <= row < rows
    &&& den > 0
    &&& 0 <= x_num <= den
    &&& 0 <= y_num <= den
}

proof fn lemma_cell_in_cell(grid: Seq<u32>, cols: int, rows: int, x: int, y: int)
    requires
        grid.len() == grid_len(cols, rows),
        0 <= x < cols,
        0 <= y < rows,
    ensures
        forall|i: int| 0 <= i < cell_vertices(grid, cols, x, y).len()
            ==> vertex_in_cell(#[trigger] cell_vertices(grid, cols, x, y)[i], cols, rows),
{
    lemma_cell_indices(cols, rows, x, y);
    let (tl, tr, bl, br) = corner_values(grid, cols, x, y);
    let case = spec_cell_case(tl, tr, bl, br);
    lemma_table_shape(case);
    let t = triangle_table(case);
    assert((case / 8) % 2 == 1 <==> tl >= 1);
    assert((case / 4) % 2 == 1 <==> tr >= 1);
    assert((case / 2) % 2 == 1 <==> br >= 1);
    assert(case % 2 == 1 <==> bl >= 1);
    assert forall|i: int| 0 <= i < cell_vertices(grid, cols, x, y).len()
        implies vertex_in_cell(#[trigger] cell_vertices(grid, cols, x, y)[i], cols, rows) by {
        let p = t[i];
        assert(t.contains(p));
        match p {
            TriPoint::Edge(e) => {
                assert(edge_crossed(case, e));
            },
            TriPoint::Corner(_) => {},
        }
    }
}

proof fn lemma_row_in_cell(grid: Seq<u32>, cols: int, rows: int, y: int, n: int, shade: Shade)
    requires
        grid.len() == grid_len(cols, rows),
        0 <= n <= cols,
        0 <= y < rows,
    ensures
        forall|i: int| 0 <= i < row_vertices(grid, cols, y, n, shade).len()
            ==> vertex_in_cell(#[trigger] row_vertices(grid, cols, y, n, shade)[i], cols, rows),
    decreases n,
{
    if n > 0 {
        lemma_row_in_cell(grid, cols, rows, y, n - 1, shade);
        lemma_cell_in_cell(grid, cols, rows, n - 1, y);
        let a = row_vertices(grid, cols, y, n - 1, shade);
        let b = shaded_cell_vertices(grid, cols, n - 1, y, shade);
        assert forall|i: int| 0 <= i < (a + b).len() implies vertex_in_cell(#[trigger] (a + b)[i], cols, rows) by {
            if i >= a.len() {
                assert((a + b)[i] == b[i - a.len()]);
            }
        }
    }
}

/// Every vertex of the fluid surface lies in the closed unit square of its
/// own cell, and that cell belongs to the grid: an edge point sits on an
/// edge only where the boundary crosses it, so its interpolation parameter
/// stays between zero and one.
pub proof fn lemma_vertices_in_cells(grid: Seq<u32>, cols: int, rows: int, m: int, shade: Shade)
    requires
        grid.len() == grid_len(cols, rows),
        cols >= 0,
        0 <= m <= rows,
    ensures
        forall|i: int| 0 <= i < grid_vertices(grid, cols, m, shade).len()
            ==> vertex_in_cell(#[trigger] grid_vertices(grid, cols, m, shade)[i], cols, rows),
    decreases m,
{
    if m > 0 {
        lemma_vertices_in_cells(grid, cols, rows, m - 1, shade);
        lemma_row_in_cell(grid, cols, rows, m - 1, cols, shade);
        let a = grid_vertices(grid, cols, m - 1, shade);
        let b = row_vertices(grid, cols, m - 1, cols, shade);
        assert forall|i: int| 0 <= i < (a + b).len() implies vertex_in_cell(#[trigger] (a + b)[i], cols, rows) by {
            if i >= a.len() {
                assert((a + b)[i] == b[i - a.len()]);
            }
        }
    }
}

proof fn lemma_row_whole_triangles(grid: Seq<u32>, cols: int, y: int, n: int, shade: Shade)
    ensures
        row_vertices(grid, cols, y, n, shade).len() % 3 == 0,
    decreases n,
{
    if n > 0 {
        lemma_row_whole_triangles(grid, cols, y, n - 1, shade);
        let (tl, tr, bl, br) = corner_values(grid, cols, n - 1, y);
        lemma_table_shape(spec_cell_case(tl, tr, bl, br));
    }
}

/// Every list holds whole triangles: its length is a multiple of three, so
/// it can be drawn as a triangle list.
pub proof fn lemma_whole_triangles(grid: Seq<u32>, cols: int, m: int, shade: Shade)
    ensures
        grid_vertices(grid, cols, m, shade).len() % 3 == 0,
    decreases m,
{
    if m > 0 {
        lemma_whole_triangles(grid, cols, m - 1, shade);
        lemma_row_whole_triangles(grid, cols, m - 1, cols, shade);
    }
}

proof fn lemma_empty_row(grid: Seq<u32>, cols: int, rows: int, y: int, n: int, shade: Shade)
    requires
        grid.len() == grid_len(cols, rows),
        forall|i: int| 0 <= i < grid.len() ==> grid[i] == 0,
        0 <= n <= cols,
        0 <= y < rows,
    ensures
        row_vertices(grid, cols, y, n, shade) == Seq::<(int, int, (int, int, int))>::empty(),
    decreases n,
{
    if n > 0 {
        lemma_empty_row(grid, cols, rows, y, n - 1, shade);
        lemma_cell_indices(cols, rows, n - 1, y);
        assert(cell_vertices(grid, cols, n - 1, y) =~= Seq::<(int, int, (int, int, int))>::empty());
        assert(row_vertices(grid, cols, y, n, shade) =~= Seq::<(int, int, (int, int, int))>::empty());
    }
}

/// Where no particle has been counted, nothing is drawn: a grid of zero
/// counts gives no vertex in any shade.
pub proof fn lemma_empty_grid_draws_nothing(grid: Seq<u32>, cols: int, rows: int, m: int, shade: Shade)
    requires
        grid.len() == grid_len(cols, rows),
        forall|i: int| 0 <= i < grid.len() ==> grid[i] == 0,
        cols >= 0,
        0 <= m <= rows,
    ensures
        grid_vertices(grid, cols, m, shade) == Seq::<(int, int, (int, int, int))>::empty(),
    decreases m,
{
    if m > 0 {
        lemma_empty_grid_draws_nothing(grid, cols, rows, m - 1, shade);
        lemma_empty_row(grid, cols, rows, m - 1, cols, shade);
        assert(grid_vertices(grid, cols, m, shade) =~= Seq::<(int, int, (int, int, int))>::empty());
    }
}

/// The count at the corner `dx` columns right of and `dy` rows below the
/// top-left corner of the cell (`x`, `y`), read straight from the flat grid.
pub open spec fn count_at(grid: Seq<u32>, cols: int, x: int, y: int, dx: int, dy: int) -> int {
    grid[(y + dy) * (cols + 1) + x + dx] as int
}

/// The case number of the cell (`x`, `y`) from the counts at its corners.
pub open spec fn case_at(grid: Seq<u32>, cols: int, x: int, y: int) -> int {
    spec_cell_case(
        count_at(grid, cols, x, y, 0, 0),
        count_at(grid, cols, x, y, 1, 0),
        count_at(grid, cols, x, y, 0, 1),
        count_at(grid, cols, x, y, 1, 1),
    )
}

/// The sum of the counts at the four corners of the cell (`x`, `y`).
pub open spec fn total_at(grid: Seq<u32>, cols: int, x: int, y: int) -> int {
    count_at(grid, cols, x, y, 0, 0) + count_at(grid, cols, x, y, 1, 0) + count_at(grid, cols, x, y, 0, 1)
        + count_at(grid, cols, x, y, 1, 1)
}

/// The place, in the cell (`x`, `y`), of a table point, from the counts at
/// the cell's corners.
pub open spec fn place_at(grid: Seq<u32>, cols: int, x: int, y: int, p: TriPoint) -> (int, int, (int, int, int)) {
    (x, y, point_in_cell(
        p,
        count_at(grid, cols, x, y, 0, 0),
        count_at(grid, cols, x, y, 1, 0),
        count_at(grid, cols, x, y, 0, 1),
        count_at(grid, cols, x, y, 1, 1),
    ))
}

/// The number of table points of the first `n` cells of row `y`.
pub open spec fn row_table_points(grid: Seq<u32>, cols: int, y: int, n: int) -> int
    decreases n,
{
    if n <= 0 {
        0
    } else {
        row_table_points(grid, cols, y, n - 1) + triangle_table(case_at(grid, cols, n - 1, y)).len()
    }
}

/// The number of table points of all cells in the first `m` rows.
pub open spec fn grid_table_points(grid: Seq<u32>, cols: int, m: int) -> int
    decreases m,
{
    if m <= 0 {
        0
    } else {
        grid_table_points(grid, cols, m - 1) + row_table_points(grid, cols, m - 1, cols)
    }
}

proof fn lemma_lower_row_index(cols: int, y: int)
    ensures
        (y + 1) * (cols + 1) == y * (cols + 1) + (cols + 1),
        (y + 0) * (cols + 1) == y * (cols + 1),
{
    assert((y + 1) * (cols + 1) == y * (cols + 1) + (cols + 1)) by (nonlinear_arith);
}

/// A cell is drawn from the counts at its own four corners: its shade comes
/// from their sum, and it gives exactly the points of its table entry, in
/// order, each placed by those counts.
pub proof fn lemma_cell_follows_its_corners(grid: Seq<u32>, cols: int, x: int, y: int)
    ensures
        cell_shade(grid, cols, x, y) == spec_shade(total_at(grid, cols, x, y)),
        cell_vertices(grid, cols, x, y).len() == triangle_table(case_at(grid, cols, x, y)).len(),
        forall|k: int| 0 <= k < triangle_table(case_at(grid, cols, x, y)).len()
            ==> #[trigger] cell_vertices(grid, cols, x, y)[k] == place_at(grid, cols, x, y, triangle_table(case_at(grid, cols, x, y))[k]),
{
    lemma_lower_row_index(cols, y);
    assert(corner_values(grid, cols, x, y) == (
        count_at(grid, cols, x, y, 0, 0),
        count_at(grid, cols, x, y, 1, 0),
        count_at(grid, cols, x, y, 0, 1),
        count_at(grid, cols, x, y, 1, 1),
    ));
}

proof fn lemma_row_count(grid: Seq<u32>, cols: int, y: int, n: int)
    ensures
        row_vertices(grid, cols, y, n, Shade::Dark).len() + row_vertices(grid, cols, y, n, Shade::Medium).len()
            + row_vertices(grid, cols, y, n, Shade::Light).len() == row_table_points(grid, cols, y, n),
    decreases n,
{
    if n > 0 {
        lemma_row_count(grid, cols, y, n - 1);
        lemma_cell_follows_its_corners(grid, cols, n - 1, y);
    }
}

/// Every cell of every row is drawn, whatever the rows above it drew: the
/// three lists hold together exactly as many vertices as the table entries
/// of all the grid's cells have points.
pub proof fn lemma_every_cell_counted(grid: Seq<u32>, cols: int, m: int)
    ensures
        grid_vertices(grid, cols, m, Shade::Dark).len() + grid_vertices(grid, cols, m, Shade::Medium).len()
            + grid_vertices(grid, cols, m, Shade::Light).len() == grid_table_points(grid, cols, m),
    decreases m,
{
    if m > 0 {
        lemma_every_cell_counted(grid, cols, m - 1);
        lemma_row_count(grid, cols, m - 1, cols);
    }
}

proof fn lemma_row_holds_cell(grid: Seq<u32>, cols: int, y: int, n: int, x: int, shade: Shade)
    requires
        0 <= x < n,
    ensures
        forall|k: int| 0 <= k < shaded_cell_vertices(grid, cols, x, y, shade).len()
            ==> row_vertices(grid, cols, y, n, shade).contains(#[trigger] shaded_cell_vertices(grid, cols, x, y, shade)[k]),
    decreases n,
{
    let c = shaded_cell_vertices(grid, cols, x, y, shade);
    let a = row_vertices(grid, cols, y, n - 1, shade);
    let b = shaded_cell_vertices(grid, cols, n - 1, y, shade);
    if x < n - 1 {
        lemma_row_holds_cell(grid, cols, y, n - 1, x, shade);
        assert forall|k: int| 0 <= k < c.len() implies (a + b).contains(#[trigger] c[k]) by {
            let j = choose|j: int| 0 <= j < a.len() && a[j] == c[k];
            assert((a + b)[j] == c[k]);
        }
    } else {
        assert forall|k: int| 0 <= k < c.len() implies (a + b).contains(#[trigger] c[k]) by {
            assert((a + b)[a.len() + k] == c[k]);
        }
    }
}

proof fn lemma_grid_holds_row(grid: Seq<u32>, cols: int, m: int, y: int, shade: Shade)
    requires
        0 <= y < m,
    ensures
        forall|v: (int, int, (int, int, int))| row_vertices(grid, cols, y, cols, shade).contains(v)
            ==> #[trigger] grid_vertices(grid, cols, m, shade).contains(v),
    decreases m,
{
    let r = row_vertices(grid, cols, y, cols, shade);
    let a = grid_vertices(grid, cols, m - 1, shade);
    let b = row_vertices(grid, cols, m - 1, cols, shade);
    if y < m - 1 {
        lemma_grid_holds_row(grid, cols, m - 1, y, shade);
        assert forall|v: (int, int, (int, int, int))| r.contains(v) implies #[trigger] (a + b).contains(v) by {
            assert(a.contains(v));
            let j = choose|j: int| 0 <= j < a.len() && a[j] == v;
            assert((a + b)[j] == v);
        }
    } else {
        assert forall|v: (int, int, (int, int, int))| r.contains(v) implies #[trigger] (a + b).contains(v) by {
            let j = choose|j: int| 0 <= j < b.len() && b[j] == v;
            assert((a + b)[a.len() + j] == v);
        }
    }
}

/// Every point of the table entry of every cell of the grid is drawn, in
/// its cell, in the list of the shade that the cell's corner total picks.
pub proof fn lemma_every_point_drawn(grid: Seq<u32>, cols: int, rows: int, x: int, y: int, k: int)
    requires
        0 <= x < cols,
        0 <= y < rows,
        0 <= k < triangle_table(case_at(grid, cols, x, y)).len(),
    ensures
        grid_vertices(grid, cols, rows, spec_shade(total_at(grid, cols, x, y))).contains(
            place_at(grid, cols, x, y, triangle_table(case_at(grid, cols, x, y))[k]),
        ),
{
    let shade = spec_shade(total_at(grid, cols, x, y));
    lemma_cell_follows_its_corners(grid, cols, x, y);
    let c = shaded_cell_vertices(grid, cols, x, y, shade);
    assert(c == cell_vertices(grid, cols, x, y));
    lemma_row_holds_cell(grid, cols, y, cols, x, shade);
    assert(row_vertices(grid, cols, y, cols, shade).contains(c[k]));
    lemma_grid_holds_row(grid, cols, rows, y, shade);
}

} // verus!
