use ninepatch_ui::cell::{GrowthRule, PatchCell, Size};
use ninepatch_ui::grid::{by_margins, from_cells, GridError};

fn cell(w: u32, h: u32, xr: GrowthRule, yr: GrowthRule, slot: Option<u32>) -> PatchCell {
    PatchCell {
        original_size: Size { width: w, height: h },
        x_rule: xr,
        y_rule: yr,
        content_slot: slot,
    }
}

fn nine_slice() -> Vec<Vec<PatchCell>> {
    let f = GrowthRule::Fixed;
    let s = GrowthRule::StretchRatio(1);
    vec![
        vec![
            cell(4, 4, f, f, None),
            cell(24, 4, s, f, None),
            cell(4, 4, f, f, None),
        ],
        vec![
            cell(4, 8, f, s, None),
            cell(24, 8, s, s, Some(7)),
            cell(4, 8, f, s, None),
        ],
        vec![
            cell(4, 4, f, f, None),
            cell(24, 4, s, f, None),
            cell(4, 4, f, f, None),
        ],
    ]
}

#[test]
fn from_cells_accepts_consistent_grid() {
    let m = from_cells(nine_slice()).unwrap();
    assert_eq!(m.source_size, Size { width: 32, height: 16 });
    assert_eq!(m.cells.len(), 3);
    assert_eq!(m.cells[0].len(), 3);
}

#[test]
fn tiling_row_and_column_sums_match_source() {
    let m = from_cells(nine_slice()).unwrap();
    for row in &m.cells {
        let w: u32 = row.iter().map(|c| c.original_size.width).sum();
        assert_eq!(w, m.source_size.width);
    }
    for c in 0..m.cells[0].len() {
        let h: u32 = m.cells.iter().map(|r| r[c].original_size.height).sum();
        assert_eq!(h, m.source_size.height);
    }
}

#[test]
fn from_cells_rejects_empty() {
    assert_eq!(from_cells(vec![]).unwrap_err(), GridError::MalformedGrid);
    assert_eq!(
        from_cells(vec![vec![], vec![]]).unwrap_err(),
        GridError::MalformedGrid
    );
}

#[test]
fn from_cells_rejects_unequal_column_counts() {
    let mut rows = nine_slice();
    rows[1].pop();
    assert_eq!(from_cells(rows).unwrap_err(), GridError::MalformedGrid);
}

#[test]
fn from_cells_rejects_inconsistent_column_widths() {
    let mut rows = nine_slice();
    rows[2][0].original_size.width = 5;
    assert_eq!(from_cells(rows).unwrap_err(), GridError::MalformedGrid);
}

#[test]
fn from_cells_rejects_inconsistent_row_heights() {
    let mut rows = nine_slice();
    rows[1][2].original_size.height = 9;
    assert_eq!(from_cells(rows).unwrap_err(), GridError::MalformedGrid);
}

#[test]
fn from_cells_rejects_rule_disagreement_in_column() {
    let mut rows = nine_slice();
    rows[2][1].x_rule = GrowthRule::Fixed;
    assert_eq!(from_cells(rows).unwrap_err(), GridError::MalformedGrid);
}

#[test]
fn from_cells_rejects_duplicate_slot_keys() {
    let mut rows = nine_slice();
    rows[0][1].content_slot = Some(7);
    assert_eq!(from_cells(rows).unwrap_err(), GridError::MalformedGrid);
}

#[test]
fn by_margins_rejects_negative_margins() {
    assert_eq!(
        by_margins(-1, 10, 10, 10, 0).unwrap_err(),
        GridError::InvalidMargins
    );
    assert_eq!(
        by_margins(10, 10, 10, -3, 0).unwrap_err(),
        GridError::InvalidMargins
    );
}

#[test]
fn by_margins_builds_three_by_three() {
    let m = by_margins(10, 12, 14, 16, 9).unwrap();
    assert_eq!(m.source_size, Size { width: 10 + 1 + 14, height: 12 + 1 + 16 });
    assert_eq!(m.cells.len(), 3);
    for row in &m.cells {
        assert_eq!(row.len(), 3);
    }
    assert_eq!(m.cells[0][0].original_size, Size { width: 10, height: 12 });
    assert_eq!(m.cells[2][2].original_size, Size { width: 14, height: 16 });
    assert_eq!(m.cells[1][1].content_slot, Some(9));
    assert_eq!(m.cells[1][1].x_rule, GrowthRule::StretchRatio(1));
    assert_eq!(m.cells[1][1].y_rule, GrowthRule::StretchRatio(1));
    assert_eq!(m.cells[0][1].x_rule, GrowthRule::StretchRatio(1));
    assert_eq!(m.cells[0][1].y_rule, GrowthRule::Fixed);
    assert_eq!(m.cells[1][0].x_rule, GrowthRule::Fixed);
    assert_eq!(m.cells[1][0].y_rule, GrowthRule::StretchRatio(1));
    for r in 0..3 {
        for c in 0..3 {
            if (r, c) != (1, 1) {
                assert_eq!(m.cells[r][c].content_slot, None);
            }
        }
    }
}
