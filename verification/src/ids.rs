//! Application-level widget identities and the shared UI configuration.

use vstd::prelude::*;

use crate::cell::Size;

verus! {

/// Which panel a widget instance renders.
#[derive(Clone, Copy, PartialEq, Eq, Structural, Hash, Debug)]
pub enum UiPanelId {
    SrvConnError,
    LobbyMenu,
}

/// Which button a widget instance renders.
#[derive(Clone, Copy, PartialEq, Eq, Structural, Hash, Debug)]
pub enum UiButtonId {
    ReadyPlayer,
    ReadySpectator,
    QuitGame,
}

/// The discriminated identity of a widget instance. It is not geometry: it
/// is used purely as the lookup key for content resolution.
#[derive(Clone, Copy, PartialEq, Eq, Structural, Hash, Debug)]
pub enum UiId {
    Panel(UiPanelId),
    Button(UiButtonId),
}

/// An RGBA color, eight bits per channel.
#[derive(Clone, Copy, PartialEq, Eq, Structural, Debug)]
pub struct Color {
    pub red: u8,
    pub green: u8,
    pub blue: u8,
    pub alpha: u8,
}

/// How text content is rendered.
#[derive(Clone, Copy, PartialEq, Eq, Structural, Debug)]
pub struct TextStyle {
    /// Line height of the rendered text, in pixels.
    pub font_size: u32,
    pub color: Color,
}

/// The shared, read-only UI configuration, constructed once at startup: the
/// asset handles, the registered grid model of each widget kind with its
/// default target size, and the text style. Handles are opaque identities
/// supplied by the host; model fields index the scene's model table.
#[derive(Clone, Copy, PartialEq, Eq, Structural, Debug)]
pub struct UiConfig {
    pub font: u64,
    pub tex_panel: u64,
    pub np_panel: usize,
    pub panel_size: Size,
    pub tex_button: u64,
    pub np_button: usize,
    pub button_size: Size,
    pub textstyle: TextStyle,
}

} // verus!
