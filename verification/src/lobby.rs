//! The lobby application's widget catalog: the panel and button grid
//! models, their slot keys, and the closed content table that fills every
//! declared slot - captions for the buttons, a title and a button column
//! for the lobby panel, plain messages for the connection-error panel.
//! The panel grid tiles its 68 by 33 source texture and the button grid its
//! 21 by 21 margins-derived source.

use vstd::prelude::*;

use crate::axis::{axis_wf, lemma_axis3_sums, percents_bounded, size_sum, weight_sum, AxisSpec};
use crate::cell::{GrowthRule, PatchCell, Size};
use crate::grid::{by_margins, col_specs, from_cells, grid_view, grid_wf, margins_grid, rect_grid,
    row_specs, rules_consistent, sizes_consistent, slots_unique, GridError, PatchGridModel};
use crate::ids::{UiButtonId, UiId, UiPanelId};
use crate::resolver::{CatalogEntry, ContentCatalog, ContentSpec};

verus! {

/// Slot key of a panel's title zone.
pub const PANEL_TITLE: u32 = 0;

/// Slot key of a panel's inner content zone.
pub const PANEL_INNER: u32 = 1;

/// Slot key of a button's caption zone.
pub const BUTTON_INNER: u32 = 2;

fn cell(width: u32, height: u32, x_rule: GrowthRule, y_rule: GrowthRule, content_slot: Option<
    u32,
>) -> (c: PatchCell)
    ensures
        c == (PatchCell { original_size: Size { width, height }, x_rule, y_rule, content_slot }),
{
    PatchCell { original_size: Size { width, height }, x_rule, y_rule, content_slot }
}

/// The lobby panel grid: three rows by seven columns tiling the 68 by 33
/// pixel panel texture. Columns 16/1/16/2/16/1/16: the one-pixel columns
/// stretch with weight one, while the two-pixel title column carries weight
/// zero so it stays pixel-locked to its relative position yet still counts
/// as stretchable for content purposes. Rows 16/1/16 with the middle row
/// stretching. The title zone sits in the top band's center column and the
/// inner content zone directly below it in the middle band.
pub open spec fn panel_grid() -> Seq<Seq<PatchCell>> {
    let f = GrowthRule::Fixed;
    let s1 = GrowthRule::StretchRatio(1u32);
    let s0 = GrowthRule::StretchRatio(0u32);
    seq![
        seq![
            panel_cell(16, 16, f, f, None),
            panel_cell(1, 16, s1, f, None),
            panel_cell(16, 16, f, f, None),
            panel_cell(2, 16, s0, f, Some(PANEL_TITLE)),
            panel_cell(16, 16, f, f, None),
            panel_cell(1, 16, s1, f, None),
            panel_cell(16, 16, f, f, None),
        ],
        seq![
            panel_cell(16, 1, f, s1, None),
            panel_cell(1, 1, s1, s1, None),
            panel_cell(16, 1, f, s1, None),
            panel_cell(2, 1, s0, s1, Some(PANEL_INNER)),
            panel_cell(16, 1, f, s1, None),
            panel_cell(1, 1, s1, s1, None),
            panel_cell(16, 1, f, s1, None),
        ],
        seq![
            panel_cell(16, 16, f, f, None),
            panel_cell(1, 16, s1, f, None),
            panel_cell(16, 16, f, f, None),
            panel_cell(2, 16, s0, f, None),
            panel_cell(16, 16, f, f, None),
            panel_cell(1, 16, s1, f, None),
            panel_cell(16, 16, f, f, None),
        ],
    ]
}

/// A cell of the panel grid, written out.
pub open spec fn panel_cell(
    width: u32,
    height: u32,
    x_rule: GrowthRule,
    y_rule: GrowthRule,
    content_slot: Option<u32>,
) -> PatchCell {
    PatchCell { original_size: Size { width, height }, x_rule, y_rule, content_slot }
}

/// Build the lobby panel model: exactly [`panel_grid`], tiling the 68 by 33
/// panel texture.
pub fn panel_model() -> (res: Result<PatchGridModel, GridError>)
    ensures
        res is Ok,
        res matches Ok(m) ==> {
            &&& m.wf()
            &&& m.grid() == panel_grid()
            &&& m.source_size == (Size { width: 68u32, height: 33u32 })
        },
{
    let f = GrowthRule::Fixed;
    let s1 = GrowthRule::StretchRatio(1);
    let s0 = GrowthRule::StretchRatio(0);

    let mut row0: Vec<PatchCell> = Vec::new();
    row0.push(cell(16, 16, f, f, None));
    row0.push(cell(1, 16, s1, f, None));
    row0.push(cell(16, 16, f, f, None));
    row0.push(cell(2, 16, s0, f, Some(PANEL_TITLE)));
    row0.push(cell(16, 16, f, f, None));
    row0.push(cell(1, 16, s1, f, None));
    row0.push(cell(16, 16, f, f, None));

    let mut row1: Vec<PatchCell> = Vec::new();
    row1.push(cell(16, 1, f, s1, None));
    row1.push(cell(1, 1, s1, s1, None));
    row1.push(cell(16, 1, f, s1, None));
    row1.push(cell(2, 1, s0, s1, Some(PANEL_INNER)));
    row1.push(cell(16, 1, f, s1, None));
    row1.push(cell(1, 1, s1, s1, None));
    row1.push(cell(16, 1, f, s1, None));

    let mut row2: Vec<PatchCell> = Vec::new();
    row2.push(cell(16, 16, f, f, None));
    row2.push(cell(1, 16, s1, f, None));
    row2.push(cell(16, 16, f, f, None));
    row2.push(cell(2, 16, s0, f, None));
    row2.push(cell(16, 16, f, f, None));
    row2.push(cell(1, 16, s1, f, None));
    row2.push(cell(16, 16, f, f, None));

    let mut rows: Vec<Vec<PatchCell>> = Vec::new();
    proof {
        let g = panel_grid();
        assert(row0@ =~= g[0]);
        assert(row1@ =~= g[1]);
        assert(row2@ =~= g[2]);
    }
    rows.push(row0);
    rows.push(row1);
    rows.push(row2);

    proof {
        let g = panel_grid();
        assert(grid_view(rows@) =~= g);
        assert(g.len() == 3);
        assert(g[0].len() == 7 && g[1].len() == 7 && g[2].len() == 7);
        assert(rect_grid(g)) by {
            assert forall|r: int| 0 <= r < g.len() implies (#[trigger] g[r]).len() == g[0].len()
            by {
                if r == 1 {
                } else if r == 2 {
                }
            }
        }
        assert(sizes_consistent(g));
        assert(rules_consistent(g));
        assert(slots_unique(g));
        let a0 = AxisSpec { size: 16u32, rule: GrowthRule::Fixed };
        let a1 = AxisSpec { size: 1u32, rule: GrowthRule::StretchRatio(1u32) };
        let a2 = AxisSpec { size: 16u32, rule: GrowthRule::Fixed };
        let a3 = AxisSpec { size: 2u32, rule: GrowthRule::StretchRatio(0u32) };
        let a4 = AxisSpec { size: 16u32, rule: GrowthRule::Fixed };
        let a5 = AxisSpec { size: 1u32, rule: GrowthRule::StretchRatio(1u32) };
        let a6 = AxisSpec { size: 16u32, rule: GrowthRule::Fixed };
        assert(col_specs(g) =~= seq![a0, a1, a2, a3, a4, a5, a6]);
        assert(seq![a0, a1, a2, a3, a4, a5, a6].drop_last() =~= seq![a0, a1, a2, a3, a4, a5]);
        assert(seq![a0, a1, a2, a3, a4, a5].drop_last() =~= seq![a0, a1, a2, a3, a4]);
        assert(seq![a0, a1, a2, a3, a4].drop_last() =~= seq![a0, a1, a2, a3]);
        assert(seq![a0, a1, a2, a3].drop_last() =~= seq![a0, a1, a2]);
        lemma_axis3_sums(a0, a1, a2);
        assert(weight_sum(seq![a0, a1, a2, a3]) == 1);
        assert(size_sum(seq![a0, a1, a2, a3]) == 35);
        assert(weight_sum(seq![a0, a1, a2, a3, a4]) == 1);
        assert(size_sum(seq![a0, a1, a2, a3, a4]) == 51);
        assert(weight_sum(seq![a0, a1, a2, a3, a4, a5]) == 2);
        assert(size_sum(seq![a0, a1, a2, a3, a4, a5]) == 52);
        assert(weight_sum(col_specs(g)) == 2);
        assert(size_sum(col_specs(g)) == 68);
        assert(percents_bounded(col_specs(g)));
        assert(axis_wf(col_specs(g)));
        let b0 = AxisSpec { size: 16u32, rule: GrowthRule::Fixed };
        let b1 = AxisSpec { size: 1u32, rule: GrowthRule::StretchRatio(1u32) };
        let b2 = AxisSpec { size: 16u32, rule: GrowthRule::Fixed };
        assert(row_specs(g) =~= seq![b0, b1, b2]);
        lemma_axis3_sums(b0, b1, b2);
        assert(weight_sum(row_specs(g)) == 1);
        assert(size_sum(row_specs(g)) == 33);
        assert(percents_bounded(row_specs(g)));
        assert(axis_wf(row_specs(g)));
        assert(grid_wf(g));
    }
    from_cells(rows)
}

/// Build the button model: the margins shorthand with a ten-pixel border on
/// every side and the caption slot in the stretching center.
pub fn button_model() -> (res: Result<PatchGridModel, GridError>)
    ensures
        res is Ok,
        res matches Ok(m) ==> {
            &&& m.wf()
            &&& m.grid() == margins_grid(10, 10, 10, 10, BUTTON_INNER)
            &&& m.source_size == (Size { width: 21u32, height: 21u32 })
        },
{
    by_margins(10, 10, 10, 10, BUTTON_INNER)
}

fn entry(id: UiId, slot: u32, content: ContentSpec) -> (e: CatalogEntry)
    ensures
        e == (CatalogEntry { id, slot, content }),
{
    CatalogEntry { id, slot, content }
}

/// The closed content table of the lobby application, total over every
/// `(identity, slot)` pair its widget catalog declares: both panels carry a
/// title and an inner zone, every button carries a caption, and the lobby
/// panel's inner zone is a group of the three buttons.
pub fn lobby_catalog() -> (c: ContentCatalog)
    ensures
        c.entries@.len() == 7,
        c.entries@[0].id == UiId::Panel(UiPanelId::SrvConnError) && c.entries@[0].slot
            == PANEL_TITLE,
        c.entries@[1].id == UiId::Panel(UiPanelId::SrvConnError) && c.entries@[1].slot
            == PANEL_INNER,
        c.entries@[2].id == UiId::Panel(UiPanelId::LobbyMenu) && c.entries@[2].slot == PANEL_TITLE,
        c.entries@[3].id == UiId::Panel(UiPanelId::LobbyMenu) && c.entries@[3].slot == PANEL_INNER,
        c.entries@[4].id == UiId::Button(UiButtonId::ReadyPlayer) && c.entries@[4].slot
            == BUTTON_INNER,
        c.entries@[5].id == UiId::Button(UiButtonId::ReadySpectator) && c.entries@[5].slot
            == BUTTON_INNER,
        c.entries@[6].id == UiId::Button(UiButtonId::QuitGame) && c.entries@[6].slot
            == BUTTON_INNER,
        c.entries@[0].content matches ContentSpec::Text(t) && t@ == "Connection Error"@,
        c.entries@[1].content matches ContentSpec::Text(t) && t@ == "Failed to connect to server."@,
        c.entries@[2].content matches ContentSpec::Text(t) && t@ == "Game Lobby"@,
        c.entries@[3].content matches ContentSpec::Group(g) && g@ == seq![
            UiId::Button(UiButtonId::ReadyPlayer),
            UiId::Button(UiButtonId::ReadySpectator),
            UiId::Button(UiButtonId::QuitGame),
        ],
        c.entries@[4].content matches ContentSpec::Text(t) && t@ == "Ready to play!"@,
        c.entries@[5].content matches ContentSpec::Text(t) && t@ == "Spectate"@,
        c.entries@[6].content matches ContentSpec::Text(t) && t@ == "Quit Game"@,
{
    let mut entries: Vec<CatalogEntry> = Vec::new();
    entries.push(
        entry(
            UiId::Panel(UiPanelId::SrvConnError),
            PANEL_TITLE,
            ContentSpec::Text("Connection Error".to_owned()),
        ),
    );
    entries.push(
        entry(
            UiId::Panel(UiPanelId::SrvConnError),
            PANEL_INNER,
            ContentSpec::Text("Failed to connect to server.".to_owned()),
        ),
    );
    entries.push(
        entry(
            UiId::Panel(UiPanelId::LobbyMenu),
            PANEL_TITLE,
            ContentSpec::Text("Game Lobby".to_owned()),
        ),
    );
    let mut lobby_buttons: Vec<UiId> = Vec::new();
    lobby_buttons.push(UiId::Button(UiButtonId::ReadyPlayer));
    lobby_buttons.push(UiId::Button(UiButtonId::ReadySpectator));
    lobby_buttons.push(UiId::Button(UiButtonId::QuitGame));
    proof {
        assert(lobby_buttons@ =~= seq![
            UiId::Button(UiButtonId::ReadyPlayer),
            UiId::Button(UiButtonId::ReadySpectator),
            UiId::Button(UiButtonId::QuitGame),
        ]);
    }
    entries.push(
        entry(UiId::Panel(UiPanelId::LobbyMenu), PANEL_INNER, ContentSpec::Group(lobby_buttons)),
    );
    entries.push(
        entry(
            UiId::Button(UiButtonId::ReadyPlayer),
            BUTTON_INNER,
            ContentSpec::Text("Ready to play!".to_owned()),
        ),
    );
    entries.push(
        entry(
            UiId::Button(UiButtonId::ReadySpectator),
            BUTTON_INNER,
            ContentSpec::Text("Spectate".to_owned()),
        ),
    );
    entries.push(
        entry(
            UiId::Button(UiButtonId::QuitGame),
            BUTTON_INNER,
            ContentSpec::Text("Quit Game".to_owned()),
        ),
    );
    ContentCatalog { entries }
}

} // verus!

