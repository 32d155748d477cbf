use vstd::prelude::*;

verus! {

/// The number of grid corners along one row of a grid that is `cols` cells
/// wide: there is one corner more than there are cells.
pub open spec fn row_stride(cols: int) -> int {
    cols + 1
}

/// The number of corners of a grid of `cols` by `rows` cells.
pub open spec fn grid_len(cols: int, rows: int) -> int {
    (cols + 1) * (rows + 1)
}

/// `grid` with one more at `index` where `apply` holds, unchanged otherwise.
pub open spec fn bump(grid: Seq<u32>, index: int, apply: bool) -> Seq<u32> {
    if apply {
        grid.update(index, (grid[index] + 1) as u32)
    } else {
        grid
    }
}

/// The grid after a particle in cell (`gx`, `gy`) has counted itself at the
/// corners around that cell: its own corner and the one below it where they
/// lie in the grid, and the corners to their right as well unless `gx` is
/// the last corner column. The corner indices run row by row.
pub open spec fn stamp(grid: Seq<u32>, cols: int, gx: int, gy: int) -> Seq<u32> {
    let w = row_stride(cols);
    let i0 = gy * w + gx;
    let i1 = (gy + 1) * w + gx;
    let i2 = gy * w + gx + 1;
    let i3 = (gy + 1) * w + gx + 1;
    let g0 = bump(grid, i0, i0 < grid.len());
    let g1 = bump(g0, i1, i1 < grid.len());
    let g2 = bump(g1, i2, i2 < grid.len() && gx != cols);
    bump(g2, i3, i3 < grid.len() && gx != cols)
}

/// The grid after each particle cell of `cells`, in order, has been stamped.
pub open spec fn accumulate(grid: Seq<u32>, cols: int, cells: Seq<(usize, usize)>) -> Seq<u32>
    decreases cells.len(),
{
    if cells.len() == 0 {
        grid
    } else {
        stamp(accumulate(grid, cols, cells.drop_last()), cols, cells.last().0 as int, cells.last().1 as int)
    }
}

/// The corner indices that stamping the cell (`gx`, `gy`) computes all fit
/// in a `usize`.
pub open spec fn stamp_fits(cols: int, gx: int, gy: int) -> bool {
    (gy + 1) * (cols + 1) + gx + 1 <= usize::MAX
}

/// Whether the corner indices that stamping the cell (`gx`, `gy`) of a
/// grid `cols` cells wide computes all fit in a `usize`.
pub fn check_stamp_fits(cols: usize, gx: usize, gy: usize) -> (fits: bool)
    ensures
        fits == stamp_fits(cols as int, gx as int, gy as int),
{
    proof {
        lemma_stamp_indices(cols as int, gx as int, gy as int);
    }
    match (gy.checked_add(1), cols.checked_add(1)) {
        (Some(rows_to), Some(w)) => match rows_to.checked_mul(w) {
            Some(p) => match p.checked_add(gx) {
                Some(q) => q.checked_add(1).is_some(),
                None => false,
            },
            None => false,
        },
        _ => false,
    }
}

proof fn lemma_stamp_indices(cols: int, gx: int, gy: int)
    requires
        cols >= 0,
        gx >= 0,
        gy >= 0,
    ensures
        gy * (cols + 1) + gx + 1 <= (gy + 1) * (cols + 1) + gx + 1,
        (gy + 1) * (cols + 1) == gy * (cols + 1) + cols + 1,
        gy * (cols + 1) >= 0,
        gy + 1 <= (gy + 1) * (cols + 1),
        cols + 1 <= (gy + 1) * (cols + 1),
{
    assert(cols + 1 <= (gy + 1) * (cols + 1)) by (nonlinear_arith)
        requires
            gy >= 0,
            cols >= 0,
    ;
    assert(gy + 1 <= (gy + 1) * (cols + 1)) by (nonlinear_arith)
        requires
            gy >= 0,
            cols >= 0,
    ;
    assert((gy + 1) * (cols + 1) == gy * (cols + 1) + cols + 1) by (nonlinear_arith);
    assert(gy * (cols + 1) >= 0) by (nonlinear_arith)
        requires
            gy >= 0,
            cols >= 0,
    ;
}

/// A grid of `cols` by `rows` cells with every corner count at zero.
pub fn empty_grid(cols: usize, rows: usize) -> (grid: Vec<u32>)
    requires
        grid_len(cols as int, rows as int) <= usize::MAX,
    ensures
        grid@.len() == grid_len(cols as int, rows as int),
        forall|i: int| 0 <= i < grid@.len() ==> grid@[i] == 0,
{
    assert((cols as int + 1) <= (cols as int + 1) * (rows as int + 1)) by (nonlinear_arith)
        requires
            rows >= 0,
            cols >= 0,
    ;
    assert((rows as int + 1) <= (cols as int + 1) * (rows as int + 1)) by (nonlinear_arith)
        requires
            rows >= 0,
            cols >= 0,
    ;
    let len: usize = (cols + 1) * (rows + 1);
    let mut grid: Vec<u32> = Vec::new();
    while grid.len() < len
        invariant
            grid@.len() <= len,
            forall|i: int| 0 <= i < grid@.len() ==> grid@[i] == 0,
        decreases len - grid@.len(),
    {
        grid.push(0);
    }
    grid
}

/// Counts one particle in cell (`gx`, `gy`) of a grid `cols` cells wide, as
/// `stamp` says.
pub fn stamp_particle(grid: &mut Vec<u32>, cols: usize, gx: usize, gy: usize)
    requires
        stamp_fits(cols as int, gx as int, gy as int),
        forall|i: int| 0 <= i < old(grid)@.len() ==> old(grid)@[i] <= u32::MAX - 2,
    ensures
        final(grid)@ == stamp(old(grid)@, cols as int, gx as int, gy as int),
        final(grid)@.len() == old(grid)@.len(),
        forall|i: int| 0 <= i < final(grid)@.len() ==> final(grid)@[i] <= old(grid)@[i] + 2,
{
    proof {
        lemma_stamp_indices(cols as int, gx as int, gy as int);
    }
    let w = cols + 1;
    assert((gy as int + 1) * (w as int) == (gy as int + 1) * (cols as int + 1));
    assert((gy as int) * (w as int) == (gy as int) * (cols as int + 1));
    let i0 = gy * w + gx;
    let i1 = (gy + 1) * w + gx;
    let i2 = gy * w + gx + 1;
    let i3 = (gy + 1) * w + gx + 1;
    let ghost g = grid@;
    assert(i1 == i0 + w);
    if i0 < grid.len() {
        let v = grid[i0];
        grid.set(i0, v + 1);
    }
    let ghost g0 = grid@;
    assert(g0 == bump(g, i0 as int, i0 < g.len()));
    if i1 < grid.len() {
        let v = grid[i1];
        grid.set(i1, v + 1);
    }
    let ghost g1 = grid@;
    assert(g1 == bump(g0, i1 as int, i1 < g.len()));
    if i2 < grid.len() && gx != cols {
        let v = grid[i2];
        assert(v <= g[i2 as int] + 1);
        grid.set(i2, v + 1);
    }
    let ghost g2 = grid@;
    assert(g2 == bump(g1, i2 as int, i2 < g.len() && gx != cols));
    if i3 < grid.len() && gx != cols {
        let v = grid[i3];
        grid.set(i3, v + 1);
    }
}

/// Counts, in order, every particle whose cell `cells` lists; no count
/// grows by more than two per particle.
pub fn accumulate_particles(grid: &mut Vec<u32>, cols: usize, cells: &Vec<(usize, usize)>)
    requires
        forall|i: int| 0 <= i < old(grid)@.len() ==> old(grid)@[i] + 2 * cells@.len() <= u32::MAX,
        forall|k: int| 0 <= k < cells@.len() ==> #[trigger] stamp_fits(cols as int, cells@[k].0 as int, cells@[k].1 as int),
    ensures
        final(grid)@ == accumulate(old(grid)@, cols as int, cells@),
        final(grid)@.len() == old(grid)@.len(),
        forall|i: int| 0 <= i < final(grid)@.len() ==> final(grid)@[i] <= old(grid)@[i] + 2 * cells@.len(),
{
    let ghost g = grid@;
    let mut k: usize = 0;
    while k < cells.len()
        invariant
            k <= cells@.len(),
            forall|i: int| 0 <= i < g.len() ==> g[i] + 2 * cells@.len() <= u32::MAX,
            forall|k: int| 0 <= k < cells@.len() ==> #[trigger] stamp_fits(cols as int, cells@[k].0 as int, cells@[k].1 as int),
            grid@ == accumulate(g, cols as int, cells@.take(k as int)),
            grid@.len() == g.len(),
            forall|i: int| 0 <= i < grid@.len() ==> grid@[i] <= g[i] + 2 * k,
        decreases cells@.len() - k,
    {
        let (gx, gy) = cells[k];
        assert(stamp_fits(cols as int, cells@[k as int].0 as int, cells@[k as int].1 as int));
        assert forall|i: int| 0 <= i < grid@.len() implies grid@[i] <= u32::MAX - 2 by {
            assert(grid@[i] <= g[i] + 2 * k);
            assert(g[i] + 2 * cells@.len() <= u32::MAX);
        }
        stamp_particle(grid, cols, gx, gy);
        assert(cells@.take(k + 1).drop_last() =~= cells@.take(k as int));
        k = k + 1;
    }
    assert(cells@.take(cells@.len() as int) =~= cells@);
}

} // verus!
