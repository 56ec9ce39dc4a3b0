//! A nine-slice ("patch grid") layout engine with an idempotent, recursive
//! content-population scheduler.
//!
//! A small source image is subdivided into a grid of patches; some patches
//! keep their pixel size while others stretch to fill the rendered size.
//! Designated cells are content slots: a recurring resolution pass attaches
//! application content (text or nested widgets) to each slot exactly once,
//! one nesting level per pass, until the widget tree stabilizes.

pub mod axis;
pub mod cell;
pub mod grid;
pub mod ids;
pub mod layout;
pub mod lobby;
pub mod resolver;
pub mod scene;
