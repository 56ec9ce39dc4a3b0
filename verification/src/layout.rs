//! Full-grid layout: the concrete source and destination rectangle of every
//! cell of a model, for a given target size.
//!
//! Solving is a pure function of the model and the target size: destination
//! extents come from solving each axis, destination offsets are their running
//! sums, and source rectangles are the running sums of the original extents
//! within the source texture (always the unscaled values).

use vstd::prelude::*;

use crate::axis::{
    axis_wf, lemma_prefix_size_bounds, lemma_solver_conservation, lemma_take_succ, reserved_sum,
    resolved_size, resolved_total, resolved_total_upto, size_sum, solve_axis, weight_sum,
};
use crate::cell::{PatchCell, Size};
use crate::grid::{
    col_specs, extract_col_specs, extract_row_specs, grid_view, rect_grid, row_specs,
    PatchGridModel,
};

verus! {

/// An axis-aligned rectangle, in pixels, origin at the top-left corner.
#[derive(Clone, Copy, PartialEq, Eq, Structural, Debug)]
pub struct Rect {
    pub x: u64,
    pub y: u64,
    pub width: u64,
    pub height: u64,
}

/// The geometry of one resolved cell: where its pixels come from in the
/// source texture, and where they go in the rendered widget.
#[derive(Clone, Copy, PartialEq, Eq, Structural, Debug)]
pub struct CellGeometry {
    /// The cell's rectangle within the source texture, in original pixels.
    pub source: Rect,
    /// The cell's rectangle within the rendered widget.
    pub dest: Rect,
}

/// The geometry of cell `(r, c)` of grid `g` solved against `target`.
pub open spec fn cell_geometry(g: Seq<Seq<PatchCell>>, target: Size, r: int, c: int)
    -> CellGeometry {
    let cs = col_specs(g);
    let rs = row_specs(g);
    CellGeometry {
        source: Rect {
            x: size_sum(cs.take(c)) as u64,
            y: size_sum(rs.take(r)) as u64,
            width: g[r][c].original_size.width as u64,
            height: g[r][c].original_size.height as u64,
        },
        dest: Rect {
            x: resolved_total_upto(cs, target.width as int, c) as u64,
            y: resolved_total_upto(rs, target.height as int, r) as u64,
            width: resolved_size(cs, target.width as int, c) as u64,
            height: resolved_size(rs, target.height as int, r) as u64,
        },
    }
}

/// The mathematical view of row-major geometry.
pub open spec fn geo_view(rows: Seq<Vec<CellGeometry>>) -> Seq<Seq<CellGeometry>> {
    rows.map_values(|row: Vec<CellGeometry>| row@)
}

/// `geo` is exactly the solved geometry of `g` against `target`.
pub open spec fn geometry_matches(
    g: Seq<Seq<PatchCell>>,
    target: Size,
    geo: Seq<Seq<CellGeometry>>,
) -> bool {
    &&& geo.len() == g.len()
    &&& forall|r: int| 0 <= r < g.len() ==> (#[trigger] geo[r]).len() == g[0].len()
    &&& forall|r: int, c: int|
        0 <= r < g.len() && 0 <= c < g[0].len() ==> #[trigger] geo[r][c] == cell_geometry(
            g,
            target,
            r,
            c,
        )
}

/// Solver conservation at the grid level: when the target size leaves room
/// for each axis's fixed and percent reservations, and stretch weight
/// exists to absorb the rest (or there is no rest), the resolved cell
/// widths along the grid's horizontal axis sum to the target width exactly,
/// and the resolved heights along its vertical axis to the target height -
/// no gaps, no overlap. Since column widths are shared by every row, this
/// is the width sum of each single row, and likewise for columns.
pub proof fn lemma_grid_conservation(m: PatchGridModel, target: Size)
    requires
        m.wf(),
        reserved_sum(col_specs(m.grid()), target.width as int) <= target.width as int,
        weight_sum(col_specs(m.grid())) > 0 || reserved_sum(
            col_specs(m.grid()),
            target.width as int,
        ) == target.width as int,
        reserved_sum(row_specs(m.grid()), target.height as int) <= target.height as int,
        weight_sum(row_specs(m.grid())) > 0 || reserved_sum(
            row_specs(m.grid()),
            target.height as int,
        ) == target.height as int,
    ensures
        resolved_total(col_specs(m.grid()), target.width as int) == target.width as int,
        resolved_total(row_specs(m.grid()), target.height as int) == target.height as int,
{
    lemma_solver_conservation(col_specs(m.grid()), target.width as int);
    lemma_solver_conservation(row_specs(m.grid()), target.height as int);
}

/// Solve a model against a target size: the source and destination rectangle
/// of every cell, row-major.
///
/// A pure function of `(model, target)`: no memoization, no side effects.
/// Fixed and percent reservations larger than the target are absorbed by
/// clamping the remaining stretch space at zero (overlap, not an error).
#[verifier::loop_isolation(false)]
pub fn solve(model: &PatchGridModel, target: Size) -> (geo: Vec<Vec<CellGeometry>>)
    requires
        model.wf(),
    ensures
        geometry_matches(model.grid(), target, geo_view(geo@)),
{
    let ghost g = model.grid();
    let nrows = model.cells.len();
    assert(grid_view(model.cells@)[0].len() == g[0].len());
    let ncols = model.cells[0].len();

    let cspecs = extract_col_specs(&model.cells);
    let rspecs = extract_row_specs(&model.cells);
    let widths = solve_axis(&cspecs, target.width);
    let heights = solve_axis(&rspecs, target.height);

    // Running destination offsets along each axis.
    let mut dest_x: Vec<u64> = Vec::new();
    let mut acc: u64 = 0;
    let mut c: usize = 0;
    while c < ncols
        invariant
            c <= ncols,
            dest_x@.len() == c as int,
            acc as int == resolved_total_upto(col_specs(g), target.width as int, c as int),
            acc as int <= (c as int) * (u32::MAX as int),
            forall|j: int|
                0 <= j < c as int ==> #[trigger] dest_x@[j] as int == resolved_total_upto(
                    col_specs(g),
                    target.width as int,
                    j,
                ),
        decreases ncols - c,
    {
        dest_x.push(acc);
        acc = acc + widths[c] as u64;
        c = c + 1;
    }

    let mut dest_y: Vec<u64> = Vec::new();
    let mut acc2: u64 = 0;
    let mut r: usize = 0;
    while r < nrows
        invariant
            r <= nrows,
            dest_y@.len() == r as int,
            acc2 as int == resolved_total_upto(row_specs(g), target.height as int, r as int),
            acc2 as int <= (r as int) * (u32::MAX as int),
            forall|j: int|
                0 <= j < r as int ==> #[trigger] dest_y@[j] as int == resolved_total_upto(
                    row_specs(g),
                    target.height as int,
                    j,
                ),
        decreases nrows - r,
    {
        dest_y.push(acc2);
        acc2 = acc2 + heights[r] as u64;
        r = r + 1;
    }

    // Running source offsets along each axis.
    let mut src_x: Vec<u64> = Vec::new();
    let mut acc3: u64 = 0;
    let mut c2: usize = 0;
    while c2 < ncols
        invariant
            c2 <= ncols,
            src_x@.len() == c2 as int,
            acc3 as int == size_sum(col_specs(g).take(c2 as int)),
            acc3 <= u32::MAX,
            forall|j: int|
                0 <= j < c2 as int ==> #[trigger] src_x@[j] as int == size_sum(
                    col_specs(g).take(j),
                ),
        decreases ncols - c2,
    {
        src_x.push(acc3);
        proof {
            lemma_take_succ(col_specs(g), 0, c2 as int);
            lemma_prefix_size_bounds(col_specs(g), c2 as int + 1);
        }
        acc3 = acc3 + cspecs[c2].size as u64;
        c2 = c2 + 1;
    }

    let mut src_y: Vec<u64> = Vec::new();
    let mut acc4: u64 = 0;
    let mut r2: usize = 0;
    while r2 < nrows
        invariant
            r2 <= nrows,
            src_y@.len() == r2 as int,
            acc4 as int == size_sum(row_specs(g).take(r2 as int)),
            acc4 <= u32::MAX,
            forall|j: int|
                0 <= j < r2 as int ==> #[trigger] src_y@[j] as int == size_sum(
                    row_specs(g).take(j),
                ),
        decreases nrows - r2,
    {
        src_y.push(acc4);
        proof {
            lemma_take_succ(row_specs(g), 0, r2 as int);
            lemma_prefix_size_bounds(row_specs(g), r2 as int + 1);
        }
        acc4 = acc4 + rspecs[r2].size as u64;
        r2 = r2 + 1;
    }

    let mut geo: Vec<Vec<CellGeometry>> = Vec::new();
    let mut r3: usize = 0;
    while r3 < nrows
        invariant
            r3 <= nrows,
            geo@.len() == r3 as int,
            forall|rr: int| 0 <= rr < r3 as int ==> (#[trigger] geo_view(geo@)[rr]).len() == ncols,
            forall|rr: int, cc: int|
                0 <= rr < r3 as int && 0 <= cc < ncols ==> #[trigger] geo_view(geo@)[rr][cc]
                    == cell_geometry(g, target, rr, cc),
        decreases nrows - r3,
    {
        assert(g[r3 as int].len() == ncols);
        let mut rowg: Vec<CellGeometry> = Vec::new();
        let mut c3: usize = 0;
        while c3 < ncols
            invariant
                c3 <= ncols,
                r3 < nrows,
                rowg@.len() == c3 as int,
                forall|cc: int|
                    0 <= cc < c3 as int ==> #[trigger] rowg@[cc] == cell_geometry(
                        g,
                        target,
                        r3 as int,
                        cc,
                    ),
            decreases ncols - c3,
        {
            assert(grid_view(model.cells@)[r3 as int].len() == ncols);
            let cur = model.cells[r3][c3];
            rowg.push(
                CellGeometry {
                    source: Rect {
                        x: src_x[c3],
                        y: src_y[r3],
                        width: cur.original_size.width as u64,
                        height: cur.original_size.height as u64,
                    },
                    dest: Rect {
                        x: dest_x[c3],
                        y: dest_y[r3],
                        width: widths[c3] as u64,
                        height: heights[r3] as u64,
                    },
                },
            );
            c3 = c3 + 1;
        }
        let ghost geo_before = geo@;
        geo.push(rowg);
        proof {
            assert forall|rr: int| 0 <= rr <= r3 as int implies (#[trigger] geo_view(
                geo@,
            )[rr]).len() == ncols by {
                if rr < r3 as int {
                    assert(geo@[rr] == geo_before[rr]);
                    assert(geo_view(geo_before)[rr].len() == ncols);
                } else {
                    assert(geo@[rr] == rowg);
                }
            }
            assert forall|rr: int, cc: int|
                0 <= rr <= r3 as int && 0 <= cc < ncols implies #[trigger] geo_view(geo@)[rr][cc]
                == cell_geometry(g, target, rr, cc) by {
                if rr < r3 as int {
                    assert(geo@[rr] == geo_before[rr]);
                    assert(geo_view(geo_before)[rr][cc] == cell_geometry(g, target, rr, cc));
                } else {
                    assert(geo@[rr] == rowg);
                    assert(rowg@[cc] == cell_geometry(g, target, rr, cc));
                }
            }
        }
        r3 = r3 + 1;
    }
    geo
}

} // verus!
