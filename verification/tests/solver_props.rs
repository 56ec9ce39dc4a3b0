use ninepatch_ui::axis::{solve_axis, AxisSpec};
use ninepatch_ui::cell::{GrowthRule, Size};
use ninepatch_ui::grid::by_margins;
use ninepatch_ui::layout::{solve, Rect};
use ninepatch_ui::lobby::{panel_model, PANEL_INNER, PANEL_TITLE};

fn fixed(size: u32) -> AxisSpec {
    AxisSpec { size, rule: GrowthRule::Fixed }
}

fn stretch(size: u32, weight: u32) -> AxisSpec {
    AxisSpec { size, rule: GrowthRule::StretchRatio(weight) }
}

fn percent(size: u32, p: u32) -> AxisSpec {
    AxisSpec { size, rule: GrowthRule::Percent(p) }
}

#[test]
fn stretch_shares_are_proportional() {
    // Two stretch cells with weights one and three over forty pixels of
    // remaining space take ten and thirty.
    let specs = vec![stretch(5, 1), stretch(5, 3)];
    assert_eq!(solve_axis(&specs, 40), vec![10, 30]);
}

#[test]
fn resolved_extents_sum_to_target() {
    let specs = vec![fixed(16), percent(10, 25), stretch(1, 1), stretch(1, 3), fixed(4)];
    let out = solve_axis(&specs, 100);
    assert_eq!(out, vec![16, 25, 13, 42, 4]);
    let total: u32 = out.iter().sum();
    assert_eq!(total, 100);
}

#[test]
fn stretch_remainders_fall_to_later_cells() {
    let specs = vec![stretch(1, 1), stretch(1, 1)];
    let out = solve_axis(&specs, 3);
    assert_eq!(out, vec![1, 2]);
}

#[test]
fn zero_weight_cell_never_grows() {
    let specs = vec![stretch(10, 0), stretch(10, 2)];
    for target in [0u32, 10, 1000, 1_000_000] {
        let out = solve_axis(&specs, target);
        assert_eq!(out[0], 0);
        assert!(out[0] <= 10);
    }
}

#[test]
fn all_zero_weights_underfill_without_error() {
    let specs = vec![fixed(4), stretch(10, 0)];
    assert_eq!(solve_axis(&specs, 10), vec![4, 0]);
}

#[test]
fn undersized_target_clamps_remaining_to_zero() {
    let specs = vec![fixed(16), stretch(1, 1), fixed(16)];
    assert_eq!(solve_axis(&specs, 10), vec![16, 0, 16]);
}

#[test]
fn percent_cell_takes_its_fraction() {
    let specs = vec![percent(1, 50), percent(1, 0), stretch(1, 1)];
    assert_eq!(solve_axis(&specs, 200), vec![100, 0, 100]);
}

#[test]
fn margin_button_center_rect_at_target() {
    let m = by_margins(10, 10, 10, 10, 2).unwrap();
    let geo = solve(&m, Size { width: 128, height: 48 });
    assert_eq!(geo[1][1].dest, Rect { x: 10, y: 10, width: 108, height: 28 });
    assert_eq!(geo[0][0].dest, Rect { x: 0, y: 0, width: 10, height: 10 });
    assert_eq!(geo[2][2].dest, Rect { x: 118, y: 38, width: 10, height: 10 });
    // Source rectangles always address the unscaled texture.
    assert_eq!(geo[1][1].source, Rect { x: 10, y: 10, width: 1, height: 1 });
    assert_eq!(geo[2][2].source, Rect { x: 11, y: 11, width: 10, height: 10 });
}

#[test]
fn panel_model_tiles_its_source_texture() {
    let m = panel_model().unwrap();
    assert_eq!(m.source_size, Size { width: 68, height: 33 });
    for row in &m.cells {
        let w: u32 = row.iter().map(|c| c.original_size.width).sum();
        assert_eq!(w, 68);
    }
    for c in 0..m.cells[0].len() {
        let h: u32 = m.cells.iter().map(|r| r[c].original_size.height).sum();
        assert_eq!(h, 33);
    }
    assert_eq!(m.cells[0][3].content_slot, Some(PANEL_TITLE));
    assert_eq!(m.cells[1][3].content_slot, Some(PANEL_INNER));
}

#[test]
fn panel_layout_at_wider_target() {
    let m = panel_model().unwrap();
    let geo = solve(&m, Size { width: 100, height: 33 });
    let widths: Vec<u64> = geo[0].iter().map(|g| g.dest.width).collect();
    assert_eq!(widths, vec![16, 18, 16, 0, 16, 18, 16]);
    let total: u64 = widths.iter().sum();
    assert_eq!(total, 100);
    let heights: Vec<u64> = geo.iter().map(|row| row[0].dest.height).collect();
    assert_eq!(heights, vec![16, 1, 16]);
    // The title column carries weight zero: it stays pixel-locked to its
    // relative position instead of growing.
    assert_eq!(geo[0][3].dest.x, 50);
    // Source rectangles always address the unscaled 68x33 texture.
    assert_eq!(geo[1][3].source, Rect { x: 33, y: 16, width: 2, height: 1 });
    assert_eq!(geo[2][6].source, Rect { x: 52, y: 17, width: 16, height: 16 });
}

#[test]
fn resolving_is_pure_and_repeatable() {
    let m = by_margins(3, 4, 5, 6, 0).unwrap();
    let a = solve(&m, Size { width: 77, height: 33 });
    let b = solve(&m, Size { width: 77, height: 33 });
    assert_eq!(a, b);
}
