//! The vocabulary of a patch grid: pixel sizes, growth rules, cells.

use vstd::prelude::*;

verus! {

/// A width/height pair, in pixels.
#[derive(Clone, Copy, PartialEq, Eq, Structural, Debug)]
pub struct Size {
    pub width: u32,
    pub height: u32,
}

/// How one dimension of a cell reacts when the widget is rendered at a size
/// other than the source texture's. Exactly one rule per axis per cell.
#[derive(Clone, Copy, PartialEq, Eq, Structural, Debug)]
pub enum GrowthRule {
    /// The dimension keeps the cell's source-pixel extent exactly.
    Fixed,
    /// The dimension takes a share of the space left once fixed and percent
    /// cells are served, in proportion to its weight among the stretch cells
    /// of the same axis. Weight zero keeps the resolved extent at zero.
    StretchRatio(u32),
    /// The dimension is the given fraction (`0 ..= 100`) of the whole target
    /// size, independent of sibling weights.
    Percent(u32),
}

/// One cell of a patch grid.
#[derive(Clone, Copy, Debug)]
pub struct PatchCell {
    /// The cell's extent in source-texture pixels.
    pub original_size: Size,
    /// Sizing rule along the horizontal axis.
    pub x_rule: GrowthRule,
    /// Sizing rule along the vertical axis.
    pub y_rule: GrowthRule,
    /// `Some(key)` marks the cell as a content slot: it renders application
    /// content instead of source-image pixels, and must not itself be a
    /// nested grid.
    pub content_slot: Option<u32>,
}

} // verus!
