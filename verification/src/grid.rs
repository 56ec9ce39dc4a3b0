//! The patch grid model: a rows-by-columns decomposition of a source image.
//!
//! A model is an ordered two-dimensional array of cells, row-major, with the
//! same column count in every row. Column widths are identical down every
//! row and row heights identical across every column, so the grid tiles the
//! source texture exactly; the growth rules likewise agree along each column
//! and each row, so every axis has one well-defined sizing rule per line.
//! A content-slot key is declared by at most one cell. Models are immutable
//! once constructed and may be shared by any number of widget instances.

use vstd::prelude::*;

use crate::axis::{
    axis_wf, lemma_axis3_sums, lemma_prefix_size_bounds, lemma_prefix_weight_bounds,
    lemma_take_succ, size_sum, weight_sum, AxisSpec,
};
use crate::cell::{GrowthRule, PatchCell, Size};

verus! {

/// Why a model could not be built.
#[derive(Clone, Copy, PartialEq, Eq, Structural, Debug)]
pub enum GridError {
    /// The rows do not form a consistent grid: unequal column counts, cell
    /// sizes or rules that disagree along a shared row or column, a slot key
    /// declared twice, or extents too large to address.
    MalformedGrid,
    /// A margin passed to the margins shorthand was negative.
    InvalidMargins,
}

/// The mathematical view of a grid: a sequence of rows of cells.
pub open spec fn grid_view(rows: Seq<Vec<PatchCell>>) -> Seq<Seq<PatchCell>> {
    rows.map_values(|row: Vec<PatchCell>| row@)
}

/// The grid is nonempty and rectangular: every row has the column count of
/// the first.
pub open spec fn rect_grid(g: Seq<Seq<PatchCell>>) -> bool {
    &&& g.len() > 0
    &&& g[0].len() > 0
    &&& forall|r: int| 0 <= r < g.len() ==> (#[trigger] g[r]).len() == g[0].len()
}

/// Column widths are identical down every row, and row heights identical
/// across every column.
pub open spec fn sizes_consistent(g: Seq<Seq<PatchCell>>) -> bool {
    forall|r: int, c: int|
        0 <= r < g.len() && 0 <= c < g[0].len() ==> {
            &&& (#[trigger] g[r][c]).original_size.width == g[0][c].original_size.width
            &&& g[r][c].original_size.height == g[r][0].original_size.height
        }
}

/// Horizontal rules agree down every column and vertical rules across every
/// row, so each column and each row has one sizing rule.
pub open spec fn rules_consistent(g: Seq<Seq<PatchCell>>) -> bool {
    forall|r: int, c: int|
        0 <= r < g.len() && 0 <= c < g[0].len() ==> {
            &&& (#[trigger] g[r][c]).x_rule == g[0][c].x_rule
            &&& g[r][c].y_rule == g[r][0].y_rule
        }
}

/// No two distinct cells declare the same content-slot key.
pub open spec fn slots_unique(g: Seq<Seq<PatchCell>>) -> bool {
    forall|r1: int, c1: int, r2: int, c2: int|
        0 <= r1 < g.len() && 0 <= c1 < g[0].len() && 0 <= r2 < g.len() && 0 <= c2 < g[0].len()
            && (r1 != r2 || c1 != c2) && (#[trigger] g[r1][c1]).content_slot is Some && (
        #[trigger] g[r2][c2]).content_slot is Some ==> g[r1][c1].content_slot != g[r2][c2].content_slot
}

/// Row `r` of the grid seen as one horizontal axis: per column, the cell's
/// width and horizontal rule.
pub open spec fn row_axis(g: Seq<Seq<PatchCell>>, r: int) -> Seq<AxisSpec> {
    Seq::new(
        g[0].len(),
        |c: int| AxisSpec { size: g[r][c].original_size.width, rule: g[r][c].x_rule },
    )
}

/// Column `c` of the grid seen as one vertical axis: per row, the cell's
/// height and vertical rule.
pub open spec fn col_axis(g: Seq<Seq<PatchCell>>, c: int) -> Seq<AxisSpec> {
    Seq::new(
        g.len(),
        |r: int| AxisSpec { size: g[r][c].original_size.height, rule: g[r][c].y_rule },
    )
}

/// The horizontal axis of the grid (representative: its first row).
pub open spec fn col_specs(g: Seq<Seq<PatchCell>>) -> Seq<AxisSpec> {
    row_axis(g, 0)
}

/// The vertical axis of the grid (representative: its first column).
pub open spec fn row_specs(g: Seq<Seq<PatchCell>>) -> Seq<AxisSpec> {
    col_axis(g, 0)
}

/// Everything a valid grid guarantees.
pub open spec fn grid_wf(g: Seq<Seq<PatchCell>>) -> bool {
    &&& rect_grid(g)
    &&& sizes_consistent(g)
    &&& rules_consistent(g)
    &&& slots_unique(g)
    &&& axis_wf(col_specs(g))
    &&& axis_wf(row_specs(g))
}

/// A nine-slice (or general rows-by-columns) decomposition of a source
/// image. Immutable once constructed.
#[derive(Clone, Debug)]
pub struct PatchGridModel {
    /// The cells, row-major: `cells[r][c]` is row `r`, column `c`.
    pub cells: Vec<Vec<PatchCell>>,
    /// The source texture extent the grid tiles: the sum of the column
    /// widths by the sum of the row heights.
    pub source_size: Size,
}

impl PatchGridModel {
    /// The mathematical view of the cells.
    pub open spec fn grid(&self) -> Seq<Seq<PatchCell>> {
        grid_view(self.cells@)
    }

    /// A valid model: a well-formed grid whose recorded source size is the
    /// exact sum of its cell extents along each axis.
    pub open spec fn wf(&self) -> bool {
        &&& grid_wf(self.grid())
        &&& self.source_size.width as int == size_sum(col_specs(self.grid()))
        &&& self.source_size.height as int == size_sum(row_specs(self.grid()))
    }

    /// Number of rows.
    pub fn rows(&self) -> (n: usize)
        ensures
            n == self.grid().len(),
    {
        self.cells.len()
    }

    /// Number of columns.
    pub fn columns(&self) -> (n: usize)
        requires
            rect_grid(self.grid()),
        ensures
            n == self.grid()[0].len(),
    {
        self.cells[0].len()
    }
}

/// Tiling invariant: in a valid model the widths of any single row sum to
/// the source texture width, and the heights of any single column sum to the
/// source texture height.
pub proof fn lemma_tiling(m: PatchGridModel, r: int, c: int)
    requires
        m.wf(),
        0 <= r < m.grid().len(),
        0 <= c < m.grid()[0].len(),
    ensures
        size_sum(row_axis(m.grid(), r)) == m.source_size.width as int,
        size_sum(col_axis(m.grid(), c)) == m.source_size.height as int,
{
    let g = m.grid();
    assert(row_axis(g, r) =~= col_specs(g));
    assert(col_axis(g, c) =~= row_specs(g));
}

/// True exactly when the rows form a nonempty rectangle.
fn check_shape(rows: &Vec<Vec<PatchCell>>) -> (b: bool)
    ensures
        b == rect_grid(grid_view(rows@)),
{
    if rows.len() == 0 {
        return false;
    }
    let cols = rows[0].len();
    assert(cols == grid_view(rows@)[0].len());
    if cols == 0 {
        return false;
    }
    let n = rows.len();
    let mut r: usize = 1;
    while r < n
        invariant
            1 <= r <= n,
            n == rows@.len(),
            cols == grid_view(rows@)[0].len(),
            cols > 0,
            forall|j: int| 0 <= j < r ==> (#[trigger] grid_view(rows@)[j]).len() == cols,
        decreases n - r,
    {
        if rows[r].len() != cols {
            assert(grid_view(rows@)[r as int].len() != grid_view(rows@)[0].len());
            return false;
        }
        r = r + 1;
    }
    true
}

/// True exactly when cell sizes and rules agree along shared columns and
/// rows.
fn check_consistent(rows: &Vec<Vec<PatchCell>>) -> (b: bool)
    requires
        rect_grid(grid_view(rows@)),
    ensures
        b == (sizes_consistent(grid_view(rows@)) && rules_consistent(grid_view(rows@))),
{
    let n = rows.len();
    let cols = rows[0].len();
    let mut r: usize = 0;
    while r < n
        invariant
            r <= n,
            n == rows@.len(),
            cols == grid_view(rows@)[0].len(),
            rect_grid(grid_view(rows@)),
            forall|j: int, c: int|
                0 <= j < r && 0 <= c < cols ==> {
                    &&& (#[trigger] grid_view(rows@)[j][c]).original_size.width == grid_view(
                        rows@,
                    )[0][c].original_size.width
                    &&& grid_view(rows@)[j][c].original_size.height == grid_view(
                        rows@,
                    )[j][0].original_size.height
                    &&& grid_view(rows@)[j][c].x_rule == grid_view(rows@)[0][c].x_rule
                    &&& grid_view(rows@)[j][c].y_rule == grid_view(rows@)[j][0].y_rule
                },
        decreases n - r,
    {
        let mut c: usize = 0;
        while c < cols
            invariant
                c <= cols,
                r < n,
                n == rows@.len(),
                cols == grid_view(rows@)[0].len(),
                rect_grid(grid_view(rows@)),
                forall|k: int|
                    0 <= k < c ==> {
                        &&& (#[trigger] grid_view(rows@)[r as int][k]).original_size.width
                            == grid_view(rows@)[0][k].original_size.width
                        &&& grid_view(rows@)[r as int][k].original_size.height == grid_view(
                            rows@,
                        )[r as int][0].original_size.height
                        &&& grid_view(rows@)[r as int][k].x_rule == grid_view(rows@)[0][k].x_rule
                        &&& grid_view(rows@)[r as int][k].y_rule == grid_view(
                            rows@,
                        )[r as int][0].y_rule
                    },
            decreases cols - c,
        {
            assert(grid_view(rows@)[r as int].len() == cols);
            let cur = rows[r][c];
            if cur.original_size.width != rows[0][c].original_size.width {
                assert(!sizes_consistent(grid_view(rows@)));
                return false;
            }
            if cur.original_size.height != rows[r][0].original_size.height {
                assert(!sizes_consistent(grid_view(rows@)));
                return false;
            }
            if cur.x_rule != rows[0][c].x_rule {
                assert(!rules_consistent(grid_view(rows@)));
                return false;
            }
            if cur.y_rule != rows[r][0].y_rule {
                assert(!rules_consistent(grid_view(rows@)));
                return false;
            }
            c = c + 1;
        }
        r = r + 1;
    }
    true
}

/// True exactly when some cell lexicographically before `(r_end, c_end)`
/// declares slot key `k`.
fn key_declared_before(rows: &Vec<Vec<PatchCell>>, k: u32, r_end: usize, c_end: usize) -> (b: bool)
    requires
        rect_grid(grid_view(rows@)),
        r_end < rows@.len(),
        c_end < grid_view(rows@)[0].len(),
    ensures
        b == exists|r1: int, c1: int|
            0 <= r1 < grid_view(rows@).len() && 0 <= c1 < grid_view(rows@)[0].len() && (r1
                < r_end as int || (r1 == r_end as int && c1 < c_end as int)) && (
            #[trigger] grid_view(rows@)[r1][c1]).content_slot == Some(k),
{
    let cols = rows[0].len();
    assert(cols == grid_view(rows@)[0].len());
    let mut r: usize = 0;
    while r < r_end
        invariant
            r <= r_end,
            r_end < rows@.len(),
            c_end < cols,
            cols == grid_view(rows@)[0].len(),
            rect_grid(grid_view(rows@)),
            forall|r1: int, c1: int|
                0 <= r1 < r as int && 0 <= c1 < cols ==> (#[trigger] grid_view(
                    rows@,
                )[r1][c1]).content_slot != Some(k),
        decreases r_end - r,
    {
        assert(grid_view(rows@)[r as int].len() == cols);
        let mut c: usize = 0;
        while c < cols
            invariant
                c <= cols,
                r < r_end,
                r_end < rows@.len(),
                c_end < cols,
                cols == grid_view(rows@)[0].len(),
                rect_grid(grid_view(rows@)),
                forall|c1: int|
                    0 <= c1 < c as int ==> (#[trigger] grid_view(
                        rows@,
                    )[r as int][c1]).content_slot != Some(k),
            decreases cols - c,
        {
            assert(grid_view(rows@)[r as int].len() == cols);
            match rows[r][c].content_slot {
                Some(k2) => {
                    if k2 == k {
                        return true;
                    }
                },
                None => {},
            }
            c = c + 1;
        }
        r = r + 1;
    }
    assert(grid_view(rows@)[r_end as int].len() == cols);
    let mut c: usize = 0;
    while c < c_end
        invariant
            c <= c_end,
            r_end < rows@.len(),
            c_end < cols,
            cols == grid_view(rows@)[0].len(),
            rect_grid(grid_view(rows@)),
            forall|r1: int, c1: int|
                0 <= r1 < r_end as int && 0 <= c1 < cols ==> (#[trigger] grid_view(
                    rows@,
                )[r1][c1]).content_slot != Some(k),
            forall|c1: int|
                0 <= c1 < c as int ==> (#[trigger] grid_view(
                    rows@,
                )[r_end as int][c1]).content_slot != Some(k),
        decreases c_end - c,
    {
        assert(grid_view(rows@)[r_end as int].len() == cols);
        match rows[r_end][c].content_slot {
            Some(k2) => {
                if k2 == k {
                    return true;
                }
            },
            None => {},
        }
        c = c + 1;
    }
    false
}

/// True exactly when no slot key is declared by two distinct cells.
fn check_slots(rows: &Vec<Vec<PatchCell>>) -> (b: bool)
    requires
        rect_grid(grid_view(rows@)),
    ensures
        b == slots_unique(grid_view(rows@)),
{
    let n = rows.len();
    let cols = rows[0].len();
    let mut r: usize = 0;
    while r < n
        invariant
            r <= n,
            n == rows@.len(),
            cols == grid_view(rows@)[0].len(),
            rect_grid(grid_view(rows@)),
            forall|r1: int, c1: int, r2: int, c2: int|
                0 <= r1 < n as int && 0 <= c1 < cols && 0 <= r2 < r as int && 0 <= c2 < cols && (r1
                    < r2 || (r1 == r2 && c1 < c2)) && (#[trigger] grid_view(
                    rows@,
                )[r1][c1]).content_slot is Some && (#[trigger] grid_view(
                    rows@,
                )[r2][c2]).content_slot is Some ==> grid_view(rows@)[r1][c1].content_slot
                != grid_view(rows@)[r2][c2].content_slot,
        decreases n - r,
    {
        let mut c: usize = 0;
        while c < cols
            invariant
                c <= cols,
                r < n,
                n == rows@.len(),
                cols == grid_view(rows@)[0].len(),
                rect_grid(grid_view(rows@)),
                forall|r1: int, c1: int, r2: int, c2: int|
                    0 <= r1 < n as int && 0 <= c1 < cols && 0 <= r2 < n as int && 0 <= c2 < cols
                        && (r1 < r2 || (r1 == r2 && c1 < c2)) && (r2 < r as int || (r2 == r as int
                        && c2 < c as int)) && (#[trigger] grid_view(
                        rows@,
                    )[r1][c1]).content_slot is Some && (#[trigger] grid_view(
                        rows@,
                    )[r2][c2]).content_slot is Some ==> grid_view(rows@)[r1][c1].content_slot
                    != grid_view(rows@)[r2][c2].content_slot,
            decreases cols - c,
        {
            assert(grid_view(rows@)[r as int].len() == cols);
            match rows[r][c].content_slot {
                Some(k) => {
                    if key_declared_before(rows, k, r, c) {
                        assert(!slots_unique(grid_view(rows@)));
                        return false;
                    }
                },
                None => {},
            }
            c = c + 1;
        }
        r = r + 1;
    }
    true
}

/// Validate the machine bounds of one axis and return its total source
/// extent: `Some` exactly when the axis is well-formed.
fn check_axis(specs: &Vec<AxisSpec>) -> (r: Option<u32>)
    ensures
        r is Some <==> axis_wf(specs@),
        r matches Some(total) ==> total as int == size_sum(specs@),
{
    if specs.len() > u32::MAX as usize {
        return None;
    }
    let n = specs.len();
    let mut wsum: u64 = 0;
    let mut ssum: u64 = 0;
    let mut i: usize = 0;
    while i < n
        invariant
            i <= n,
            n == specs@.len(),
            n <= u32::MAX,
            wsum as int == weight_sum(specs@.take(i as int)),
            ssum as int == size_sum(specs@.take(i as int)),
            wsum <= u32::MAX,
            ssum <= u32::MAX,
            forall|j: int|
                0 <= j < i as int ==> match (#[trigger] specs@[j]).rule {
                    GrowthRule::Percent(p) => p <= 100,
                    _ => true,
                },
        decreases n - i,
    {
        proof {
            lemma_take_succ(specs@, 0, i as int);
        }
        match specs[i].rule {
            GrowthRule::Percent(p) => {
                if p > 100 {
                    return None;
                }
            },
            GrowthRule::StretchRatio(w) => {
                wsum = wsum + w as u64;
                if wsum > u32::MAX as u64 {
                    proof {
                        lemma_prefix_weight_bounds(specs@, i as int + 1);
                    }
                    return None;
                }
            },
            GrowthRule::Fixed => {},
        }
        ssum = ssum + specs[i].size as u64;
        if ssum > u32::MAX as u64 {
            proof {
                lemma_prefix_size_bounds(specs@, i as int + 1);
            }
            return None;
        }
        i = i + 1;
    }
    proof {
        assert(specs@.take(n as int) =~= specs@);
    }
    Some(ssum as u32)
}

/// Copy the horizontal axis (column widths and rules, from the first row)
/// out of the grid.
pub(crate) fn extract_col_specs(rows: &Vec<Vec<PatchCell>>) -> (v: Vec<AxisSpec>)
    requires
        rect_grid(grid_view(rows@)),
    ensures
        v@ == col_specs(grid_view(rows@)),
{
    let cols = rows[0].len();
    let mut v: Vec<AxisSpec> = Vec::new();
    let mut c: usize = 0;
    while c < cols
        invariant
            c <= cols,
            cols == grid_view(rows@)[0].len(),
            rect_grid(grid_view(rows@)),
            v@.len() == c as int,
            forall|j: int| 0 <= j < c as int ==> v@[j] == col_specs(grid_view(rows@))[j],
        decreases cols - c,
    {
        let cur = rows[0][c];
        v.push(AxisSpec { size: cur.original_size.width, rule: cur.x_rule });
        c = c + 1;
    }
    proof {
        assert(v@ =~= col_specs(grid_view(rows@)));
    }
    v
}

/// Copy the vertical axis (row heights and rules, from the first column)
/// out of the grid.
pub(crate) fn extract_row_specs(rows: &Vec<Vec<PatchCell>>) -> (v: Vec<AxisSpec>)
    requires
        rect_grid(grid_view(rows@)),
    ensures
        v@ == row_specs(grid_view(rows@)),
{
    let n = rows.len();
    let mut v: Vec<AxisSpec> = Vec::new();
    let mut r: usize = 0;
    while r < n
        invariant
            r <= n,
            n == rows@.len(),
            rect_grid(grid_view(rows@)),
            v@.len() == r as int,
            forall|j: int| 0 <= j < r as int ==> v@[j] == row_specs(grid_view(rows@))[j],
        decreases n - r,
    {
        assert(grid_view(rows@)[r as int].len() == grid_view(rows@)[0].len());
        let cur = rows[r][0];
        v.push(AxisSpec { size: cur.original_size.height, rule: cur.y_rule });
        r = r + 1;
    }
    proof {
        assert(v@ =~= row_specs(grid_view(rows@)));
    }
    v
}

/// Build a model from rows of cells.
///
/// Succeeds exactly when the rows form a well-formed grid: nonempty and
/// rectangular, sizes and rules consistent along shared columns and rows,
/// every slot key unique, and the axis totals addressable. The recorded
/// source size is the exact tiling extent of the cells.
pub fn from_cells(rows: Vec<Vec<PatchCell>>) -> (res: Result<PatchGridModel, GridError>)
    ensures
        res is Ok <==> grid_wf(grid_view(rows@)),
        res matches Ok(m) ==> m.wf() && m.grid() == grid_view(rows@),
        res matches Err(e) ==> e == GridError::MalformedGrid,
{
    if !check_shape(&rows) {
        return Err(GridError::MalformedGrid);
    }
    if !check_consistent(&rows) {
        return Err(GridError::MalformedGrid);
    }
    if !check_slots(&rows) {
        return Err(GridError::MalformedGrid);
    }
    let col_axis_specs = extract_col_specs(&rows);
    let row_axis_specs = extract_row_specs(&rows);
    let width = match check_axis(&col_axis_specs) {
        Some(total) => total,
        None => {
            return Err(GridError::MalformedGrid);
        },
    };
    let height = match check_axis(&row_axis_specs) {
        Some(total) => total,
        None => {
            return Err(GridError::MalformedGrid);
        },
    };
    Ok(PatchGridModel { cells: rows, source_size: Size { width, height } })
}

/// The slot keys declared by one row, left to right.
pub open spec fn row_slot_keys(row: Seq<PatchCell>) -> Seq<u32>
    decreases row.len(),
{
    if row.len() == 0 {
        Seq::empty()
    } else {
        row_slot_keys(row.drop_last()) + (match row.last().content_slot {
            Some(k) => seq![k],
            None => Seq::<u32>::empty(),
        })
    }
}

/// The slot keys declared by a grid, row-major.
pub open spec fn grid_slot_keys(g: Seq<Seq<PatchCell>>) -> Seq<u32>
    decreases g.len(),
{
    if g.len() == 0 {
        Seq::empty()
    } else {
        grid_slot_keys(g.drop_last()) + row_slot_keys(g.last())
    }
}

/// Extending a row prefix by one cell appends that cell's key, if any.
pub proof fn lemma_row_slot_keys_take_succ(row: Seq<PatchCell>, c: int)
    requires
        0 <= c < row.len(),
    ensures
        row_slot_keys(row.take(c + 1)) == row_slot_keys(row.take(c)) + (match row[c].content_slot {
            Some(k) => seq![k],
            None => Seq::<u32>::empty(),
        }),
{
    assert(row.take(c + 1).drop_last() =~= row.take(c));
    assert(row.take(c + 1).last() == row[c]);
}

/// Extending a grid prefix by one row appends that row's keys.
pub proof fn lemma_grid_slot_keys_take_succ(g: Seq<Seq<PatchCell>>, r: int)
    requires
        0 <= r < g.len(),
    ensures
        grid_slot_keys(g.take(r + 1)) == grid_slot_keys(g.take(r)) + row_slot_keys(g[r]),
{
    assert(g.take(r + 1).drop_last() =~= g.take(r));
    assert(g.take(r + 1).last() == g[r]);
}

/// The margins-shorthand grid: a degenerate three-by-three decomposition
/// whose corners and edges are fixed at the margin extents while the center
/// cell, one source pixel each way, stretches with weight one in both axes
/// and carries the single content slot.
pub open spec fn margins_grid(left: u32, top: u32, right: u32, bottom: u32, key: u32) -> Seq<
    Seq<PatchCell>,
> {
    seq![
        seq![
            PatchCell {
                original_size: Size { width: left, height: top },
                x_rule: GrowthRule::Fixed,
                y_rule: GrowthRule::Fixed,
                content_slot: None,
            },
            PatchCell {
                original_size: Size { width: 1u32, height: top },
                x_rule: GrowthRule::StretchRatio(1u32),
                y_rule: GrowthRule::Fixed,
                content_slot: None,
            },
            PatchCell {
                original_size: Size { width: right, height: top },
                x_rule: GrowthRule::Fixed,
                y_rule: GrowthRule::Fixed,
                content_slot: None,
            },
        ],
        seq![
            PatchCell {
                original_size: Size { width: left, height: 1u32 },
                x_rule: GrowthRule::Fixed,
                y_rule: GrowthRule::StretchRatio(1u32),
                content_slot: None,
            },
            PatchCell {
                original_size: Size { width: 1u32, height: 1u32 },
                x_rule: GrowthRule::StretchRatio(1u32),
                y_rule: GrowthRule::StretchRatio(1u32),
                content_slot: Some(key),
            },
            PatchCell {
                original_size: Size { width: right, height: 1u32 },
                x_rule: GrowthRule::Fixed,
                y_rule: GrowthRule::StretchRatio(1u32),
                content_slot: None,
            },
        ],
        seq![
            PatchCell {
                original_size: Size { width: left, height: bottom },
                x_rule: GrowthRule::Fixed,
                y_rule: GrowthRule::Fixed,
                content_slot: None,
            },
            PatchCell {
                original_size: Size { width: 1u32, height: bottom },
                x_rule: GrowthRule::StretchRatio(1u32),
                y_rule: GrowthRule::Fixed,
                content_slot: None,
            },
            PatchCell {
                original_size: Size { width: right, height: bottom },
                x_rule: GrowthRule::Fixed,
                y_rule: GrowthRule::Fixed,
                content_slot: None,
            },
        ],
    ]
}

/// The margins-shorthand grid is well formed for any margins, as long as its
/// axis totals stay addressable, and its tiling extents are the margins plus
/// the one-pixel center.
pub proof fn lemma_margins_grid_wf(left: u32, top: u32, right: u32, bottom: u32, key: u32)
    requires
        left + 1 + right <= u32::MAX,
        top + 1 + bottom <= u32::MAX,
    ensures
        grid_wf(margins_grid(left, top, right, bottom, key)),
        size_sum(col_specs(margins_grid(left, top, right, bottom, key))) == left + 1 + right,
        size_sum(row_specs(margins_grid(left, top, right, bottom, key))) == top + 1 + bottom,
{
    let g = margins_grid(left, top, right, bottom, key);
    assert(g.len() == 3);
    assert(g[0].len() == 3 && g[1].len() == 3 && g[2].len() == 3);
    assert(rect_grid(g)) by {
        assert forall|r: int| 0 <= r < g.len() implies (#[trigger] g[r]).len() == g[0].len() by {
            if r == 1 {
            } else if r == 2 {
            }
        }
    }
    let cx0 = AxisSpec { size: left, rule: GrowthRule::Fixed };
    let cx1 = AxisSpec { size: 1u32, rule: GrowthRule::StretchRatio(1u32) };
    let cx2 = AxisSpec { size: right, rule: GrowthRule::Fixed };
    let cy0 = AxisSpec { size: top, rule: GrowthRule::Fixed };
    let cy1 = AxisSpec { size: 1u32, rule: GrowthRule::StretchRatio(1u32) };
    let cy2 = AxisSpec { size: bottom, rule: GrowthRule::Fixed };
    assert(col_specs(g) =~= seq![cx0, cx1, cx2]);
    assert(row_specs(g) =~= seq![cy0, cy1, cy2]);
    lemma_axis3_sums(cx0, cx1, cx2);
    lemma_axis3_sums(cy0, cy1, cy2);
}

/// Build the margins-shorthand model: a three-by-three grid with fixed
/// corners and edges at the given margins and a weight-one stretch center
/// carrying `content_slot`.
///
/// Succeeds exactly when all four margins are nonnegative.
pub fn by_margins(left: i32, top: i32, right: i32, bottom: i32, content_slot: u32) -> (res: Result<
    PatchGridModel,
    GridError,
>)
    ensures
        res is Ok <==> (left >= 0 && top >= 0 && right >= 0 && bottom >= 0),
        res matches Err(e) ==> e == GridError::InvalidMargins,
        res matches Ok(m) ==> {
            &&& m.wf()
            &&& m.grid() == margins_grid(
                left as u32,
                top as u32,
                right as u32,
                bottom as u32,
                content_slot,
            )
            &&& m.source_size.width as int == left + 1 + right
            &&& m.source_size.height as int == top + 1 + bottom
        },
{
    if left < 0 || top < 0 || right < 0 || bottom < 0 {
        return Err(GridError::InvalidMargins);
    }
    let l = left as u32;
    let t = top as u32;
    let r = right as u32;
    let b = bottom as u32;

    let mut row0: Vec<PatchCell> = Vec::new();
    row0.push(
        PatchCell {
            original_size: Size { width: l, height: t },
            x_rule: GrowthRule::Fixed,
            y_rule: GrowthRule::Fixed,
            content_slot: None,
        },
    );
    row0.push(
        PatchCell {
            original_size: Size { width: 1, height: t },
            x_rule: GrowthRule::StretchRatio(1),
            y_rule: GrowthRule::Fixed,
            content_slot: None,
        },
    );
    row0.push(
        PatchCell {
            original_size: Size { width: r, height: t },
            x_rule: GrowthRule::Fixed,
            y_rule: GrowthRule::Fixed,
            content_slot: None,
        },
    );

    let mut row1: Vec<PatchCell> = Vec::new();
    row1.push(
        PatchCell {
            original_size: Size { width: l, height: 1 },
            x_rule: GrowthRule::Fixed,
            y_rule: GrowthRule::StretchRatio(1),
            content_slot: None,
        },
    );
    row1.push(
        PatchCell {
            original_size: Size { width: 1, height: 1 },
            x_rule: GrowthRule::StretchRatio(1),
            y_rule: GrowthRule::StretchRatio(1),
            content_slot: Some(content_slot),
        },
    );
    row1.push(
        PatchCell {
            original_size: Size { width: r, height: 1 },
            x_rule: GrowthRule::Fixed,
            y_rule: GrowthRule::StretchRatio(1),
            content_slot: None,
        },
    );

    let mut row2: Vec<PatchCell> = Vec::new();
    row2.push(
        PatchCell {
            original_size: Size { width: l, height: b },
            x_rule: GrowthRule::Fixed,
            y_rule: GrowthRule::Fixed,
            content_slot: None,
        },
    );
    row2.push(
        PatchCell {
            original_size: Size { width: 1, height: b },
            x_rule: GrowthRule::StretchRatio(1),
            y_rule: GrowthRule::Fixed,
            content_slot: None,
        },
    );
    row2.push(
        PatchCell {
            original_size: Size { width: r, height: b },
            x_rule: GrowthRule::Fixed,
            y_rule: GrowthRule::Fixed,
            content_slot: None,
        },
    );

    let mut rows: Vec<Vec<PatchCell>> = Vec::new();
    let ghost g = margins_grid(l, t, r, b, content_slot);
    proof {
        assert(row0@ =~= g[0]);
        assert(row1@ =~= g[1]);
        assert(row2@ =~= g[2]);
    }
    rows.push(row0);
    rows.push(row1);
    rows.push(row2);
    proof {
        assert(grid_view(rows@) =~= g);
        lemma_margins_grid_wf(l, t, r, b, content_slot);
    }
    let width = l + 1 + r;
    let height = t + 1 + b;
    Ok(PatchGridModel { cells: rows, source_size: Size { width, height } })
}

} // verus!
