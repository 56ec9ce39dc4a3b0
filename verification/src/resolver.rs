//! The content resolver: the recurring pass that populates content slots.
//!
//! Each pass scans every slot that existed when the pass began. A populated
//! slot is skipped untouched - the `Unpopulated -> Populated` transition is
//! terminal and happens at most once. An unpopulated slot is resolved
//! through the closed content catalog by `(owning identity, slot key)`; the
//! resulting content subtree is attached under the owning widget and the
//! slot is marked populated. Content that spawns new widget instances adds
//! their slots at the end of the table, beyond the pass's scan window: one
//! nesting level resolves per pass, so a tree of depth `d` stabilizes after
//! `d` passes with no recursive call stack. A missing catalog entry is a
//! fatal authoring defect, reported the first time the slot is scanned.

use vstd::prelude::*;

use crate::grid::{grid_slot_keys, PatchGridModel};
use crate::ids::{UiConfig, UiId};
use crate::scene::{
    cfg_wf, spawn_container, spawn_text, spawn_ui_under, ui_model, ui_target_size, ui_texture,
    widget_spawned, Node, NodePayload, Scene, SlotRecord,
};

verus! {

/// What the application attaches into a slot.
#[derive(Clone, Debug)]
pub enum ContentSpec {
    /// A literal text leaf.
    Text(String),
    /// One new widget instance of the given identity.
    Widget(UiId),
    /// A container node grouping new widget instances of the given
    /// identities.
    Group(Vec<UiId>),
}

/// One row of the content catalog: the content attached into slot `slot` of
/// widgets with identity `id`.
#[derive(Clone, Debug)]
pub struct CatalogEntry {
    pub id: UiId,
    pub slot: u32,
    pub content: ContentSpec,
}

/// The closed content catalog the application supplies. It must be total
/// over every `(identity, slot)` pair reachable from the widget catalog; a
/// gap is a static authoring defect.
#[derive(Clone, Debug)]
pub struct ContentCatalog {
    pub entries: Vec<CatalogEntry>,
}

/// Errors of the resolution pass.
#[derive(Clone, Copy, PartialEq, Eq, Structural, Debug)]
pub enum UiError {
    /// The named `(identity, slot key)` pair has no catalog entry: fatal by
    /// design, never recoverable at runtime.
    MissingContent(UiId, u32),
}

/// The index of the first catalog entry for `(id, slot)` at or after `i`.
pub open spec fn find_entry(entries: Seq<CatalogEntry>, id: UiId, slot: u32, i: int) -> Option<int>
    decreases entries.len() - i,
{
    if i < 0 || i >= entries.len() {
        None
    } else if entries[i].id == id && entries[i].slot == slot {
        Some(i)
    } else {
        find_entry(entries, id, slot, i + 1)
    }
}

/// The index of the first catalog entry for `(id, slot)`.
pub open spec fn lookup_spec(entries: Seq<CatalogEntry>, id: UiId, slot: u32) -> Option<int> {
    find_entry(entries, id, slot, 0)
}

impl ContentCatalog {
    /// Find the first entry for `(id, slot)`, if any.
    pub fn lookup(&self, id: UiId, slot: u32) -> (r: Option<usize>)
        ensures
            match r {
                Some(i) => lookup_spec(self.entries@, id, slot) == Some(i as int) && i
                    < self.entries@.len(),
                None => lookup_spec(self.entries@, id, slot) is None,
            },
    {
        let n = self.entries.len();
        let mut i: usize = 0;
        while i < n
            invariant
                i <= n,
                n == self.entries@.len(),
                find_entry(self.entries@, id, slot, 0) == find_entry(
                    self.entries@,
                    id,
                    slot,
                    i as int,
                ),
            decreases n - i,
        {
            if self.entries[i].id == id && self.entries[i].slot == slot {
                return Some(i);
            }
            i = i + 1;
        }
        None
    }
}

/// The first slot in the scan window whose `(identity, key)` has no catalog
/// entry and which is still unpopulated, at or after `i`.
pub open spec fn first_gap(slots: Seq<SlotRecord>, entries: Seq<CatalogEntry>, i: int) -> Option<
    int,
>
    decreases slots.len() - i,
{
    if i < 0 || i >= slots.len() {
        None
    } else if !slots[i].populated && lookup_spec(entries, slots[i].owner_id, slots[i].key)
        is None {
        Some(i)
    } else {
        first_gap(slots, entries, i + 1)
    }
}

/// How many slots at or after `i` are unpopulated.
pub open spec fn unpopulated_count(slots: Seq<SlotRecord>, i: int) -> int
    decreases slots.len() - i,
{
    if i < 0 || i >= slots.len() {
        0
    } else {
        (if slots[i].populated {
            0int
        } else {
            1int
        }) + unpopulated_count(slots, i + 1)
    }
}

proof fn lemma_unpopulated_count_zero(slots: Seq<SlotRecord>, i: int)
    requires
        0 <= i <= slots.len(),
        forall|j: int| i <= j < slots.len() ==> (#[trigger] slots[j]).populated,
    ensures
        unpopulated_count(slots, i) == 0,
    decreases slots.len() - i,
{
    if i < slots.len() {
        lemma_unpopulated_count_zero(slots, i + 1);
    }
}

/// Node `id` of the scene is the root of a widget instance of identity
/// `u`, spawned with the model, texture and default target size the
/// configuration binds to its kind.
pub open spec fn widget_attached(s: Scene, cfg: UiConfig, id: int, u: UiId) -> bool {
    &&& 0 <= id < s.nodes@.len()
    &&& s.nodes@[id].payload matches NodePayload::Widget(i) && i < s.instances@.len() && {
        let inst = s.instances@[i as int];
        &&& inst.node == id
        &&& inst.identity == u
        &&& inst.model == ui_model(cfg, u)
        &&& inst.texture == ui_texture(cfg, u)
        &&& inst.target_size == ui_target_size(cfg, u)
    }
}

/// Node `id` of the scene is a container under `parent` whose widgets -
/// one per named identity, in order - stand in the nodes directly after it,
/// each the child of the container.
pub open spec fn group_attached(s: Scene, cfg: UiConfig, ids: Seq<UiId>, parent: usize, id: int)
    -> bool {
    &&& 0 <= id < s.nodes@.len()
    &&& s.nodes@[id].parent == Some(parent)
    &&& s.nodes@[id].payload is Container
    &&& forall|j: int|
        #![trigger ids[j]]
        0 <= j < ids.len() ==> widget_attached(s, cfg, id + 1 + j, ids[j]) && s.nodes@[id + 1
            + j].parent == Some(id as usize)
}

/// Node `id` of the scene is the materialization of content `c` attached
/// under `parent`: a text leaf carrying the text with the configured font
/// and style, a widget of the named identity, or a container holding one
/// widget per named identity.
pub open spec fn content_attached(s: Scene, cfg: UiConfig, c: ContentSpec, parent: usize, id: int)
    -> bool {
    &&& 0 <= id < s.nodes@.len()
    &&& s.nodes@[id].parent == Some(parent)
    &&& match c {
        ContentSpec::Text(t) => {
            &&& s.nodes@[id].payload is Text
            &&& (s.nodes@[id].payload->Text_0).value@ == t@
            &&& (s.nodes@[id].payload->Text_0).font == cfg.font
            &&& (s.nodes@[id].payload->Text_0).style == cfg.textstyle
        },
        ContentSpec::Widget(u) => widget_attached(s, cfg, id, u),
        ContentSpec::Group(ids) => group_attached(s, cfg, ids@, parent, id),
    }
}

/// How many scene nodes materializing `c` creates.
pub open spec fn content_node_count(c: ContentSpec) -> int {
    match c {
        ContentSpec::Text(_) => 1,
        ContentSpec::Widget(_) => 1,
        ContentSpec::Group(ids) => 1 + ids@.len() as int,
    }
}

/// How many widget instances materializing `c` creates.
pub open spec fn content_instance_count(c: ContentSpec) -> int {
    match c {
        ContentSpec::Text(_) => 0,
        ContentSpec::Widget(_) => 1,
        ContentSpec::Group(ids) => ids@.len() as int,
    }
}

/// How many content slots the widgets of the named identities declare.
pub open spec fn widgets_slot_count(
    models: Seq<PatchGridModel>,
    cfg: UiConfig,
    ids: Seq<UiId>,
) -> int
    decreases ids.len(),
{
    if ids.len() == 0 {
        0
    } else {
        widgets_slot_count(models, cfg, ids.drop_last()) + grid_slot_keys(
            models[ui_model(cfg, ids.last()) as int].grid(),
        ).len()
    }
}

proof fn lemma_widgets_slot_count_take_succ(
    models: Seq<PatchGridModel>,
    cfg: UiConfig,
    ids: Seq<UiId>,
    j: int,
)
    requires
        0 <= j < ids.len(),
    ensures
        widgets_slot_count(models, cfg, ids.take(j + 1)) == widgets_slot_count(
            models,
            cfg,
            ids.take(j),
        ) + grid_slot_keys(models[ui_model(cfg, ids[j]) as int].grid()).len(),
{
    assert(ids.take(j + 1).drop_last() =~= ids.take(j));
    assert(ids.take(j + 1).last() == ids[j]);
}

/// How many new, unpopulated content slots materializing `c` introduces.
pub open spec fn content_slot_count(
    models: Seq<PatchGridModel>,
    cfg: UiConfig,
    c: ContentSpec,
) -> int {
    match c {
        ContentSpec::Text(_) => 0,
        ContentSpec::Widget(u) => grid_slot_keys(
            models[ui_model(cfg, u) as int].grid(),
        ).len() as int,
        ContentSpec::Group(ids) => widgets_slot_count(models, cfg, ids@),
    }
}

proof fn lemma_widget_attached_preserved(s1: Scene, s2: Scene, cfg: UiConfig, id: int, u: UiId)
    requires
        widget_attached(s1, cfg, id, u),
        s2.nodes@.len() >= s1.nodes@.len(),
        forall|n: int| 0 <= n < s1.nodes@.len() ==> s2.nodes@[n] == s1.nodes@[n],
        s2.instances@.len() >= s1.instances@.len(),
        forall|i: int| 0 <= i < s1.instances@.len() ==> s2.instances@[i] == s1.instances@[i],
    ensures
        widget_attached(s2, cfg, id, u),
{
    assert(s2.nodes@[id] == s1.nodes@[id]);
    match s1.nodes@[id].payload {
        NodePayload::Widget(i) => {
            assert(s2.instances@[i as int] == s1.instances@[i as int]);
        },
        _ => {},
    }
}

proof fn lemma_attached_preserved_text(
    s1: Scene,
    s2: Scene,
    cfg: UiConfig,
    c: ContentSpec,
    parent: usize,
    id: int,
)
    requires
        c is Text,
        content_attached(s1, cfg, c, parent, id),
        s2.nodes@.len() >= s1.nodes@.len(),
        forall|n: int| 0 <= n < s1.nodes@.len() ==> s2.nodes@[n] == s1.nodes@[n],
        s2.instances@.len() >= s1.instances@.len(),
        forall|i: int| 0 <= i < s1.instances@.len() ==> s2.instances@[i] == s1.instances@[i],
    ensures
        content_attached(s2, cfg, c, parent, id),
{
    assert(s2.nodes@[id] == s1.nodes@[id]);
}

proof fn lemma_attached_preserved_widget(
    s1: Scene,
    s2: Scene,
    cfg: UiConfig,
    c: ContentSpec,
    parent: usize,
    id: int,
)
    requires
        c is Widget,
        content_attached(s1, cfg, c, parent, id),
        s2.nodes@.len() >= s1.nodes@.len(),
        forall|n: int| 0 <= n < s1.nodes@.len() ==> s2.nodes@[n] == s1.nodes@[n],
        s2.instances@.len() >= s1.instances@.len(),
        forall|i: int| 0 <= i < s1.instances@.len() ==> s2.instances@[i] == s1.instances@[i],
    ensures
        content_attached(s2, cfg, c, parent, id),
{
    assert(s2.nodes@[id] == s1.nodes@[id]);
    lemma_widget_attached_preserved(s1, s2, cfg, id, c->Widget_0);
}

proof fn lemma_attached_preserved_group(
    s1: Scene,
    s2: Scene,
    cfg: UiConfig,
    c: ContentSpec,
    parent: usize,
    id: int,
)
    requires
        c is Group,
        content_attached(s1, cfg, c, parent, id),
        s2.nodes@.len() >= s1.nodes@.len(),
        forall|n: int| 0 <= n < s1.nodes@.len() ==> s2.nodes@[n] == s1.nodes@[n],
        s2.instances@.len() >= s1.instances@.len(),
        forall|i: int| 0 <= i < s1.instances@.len() ==> s2.instances@[i] == s1.instances@[i],
    ensures
        content_attached(s2, cfg, c, parent, id),
{
    let ids = (c->Group_0)@;
    assert(s2.nodes@[id] == s1.nodes@[id]);
    assert(group_attached(s1, cfg, ids, parent, id));
    assert forall|j: int|
        #![trigger ids[j]]
        0 <= j < ids.len() implies widget_attached(s2, cfg, id + 1 + j, ids[j]) && s2.nodes@[id + 1
            + j].parent == Some(id as usize) by {
        assert(widget_attached(s1, cfg, id + 1 + j, ids[j]));
        lemma_widget_attached_preserved(s1, s2, cfg, id + 1 + j, ids[j]);
        assert(s2.nodes@[id + 1 + j] == s1.nodes@[id + 1 + j]);
    }
}

/// An attachment survives any change that only appends nodes and instances
/// and leaves the existing ones in place.
proof fn lemma_content_attached_preserved(
    s1: Scene,
    s2: Scene,
    cfg: UiConfig,
    c: ContentSpec,
    parent: usize,
    id: int,
)
    requires
        content_attached(s1, cfg, c, parent, id),
        s2.nodes@.len() >= s1.nodes@.len(),
        forall|n: int| 0 <= n < s1.nodes@.len() ==> s2.nodes@[n] == s1.nodes@[n],
        s2.instances@.len() >= s1.instances@.len(),
        forall|i: int| 0 <= i < s1.instances@.len() ==> s2.instances@[i] == s1.instances@[i],
    ensures
        content_attached(s2, cfg, c, parent, id),
{
    match c {
        ContentSpec::Text(_) => {
            lemma_attached_preserved_text(s1, s2, cfg, c, parent, id);
        },
        ContentSpec::Widget(_) => {
            lemma_attached_preserved_widget(s1, s2, cfg, c, parent, id);
        },
        ContentSpec::Group(_) => {
            lemma_attached_preserved_group(s1, s2, cfg, c, parent, id);
        },
    }
}

/// The one state transition a slot record makes: same owner and key,
/// populated with some attached content; and if it was already populated it
/// is left exactly as it was.
pub open spec fn slot_filled(before: SlotRecord, after: SlotRecord) -> bool {
    &&& after.owner_instance == before.owner_instance
    &&& after.owner_node == before.owner_node
    &&& after.owner_id == before.owner_id
    &&& after.key == before.key
    &&& after.populated
    &&& after.content is Some
    &&& (before.populated ==> after == before)
}

proof fn lemma_group_children(
    s: Scene,
    cfg: UiConfig,
    ids: Seq<UiId>,
    parent: usize,
    cid: int,
    base: int,
)
    requires
        0 <= cid < s.nodes@.len(),
        s.nodes@.len() <= usize::MAX,
        s.instances@.len() <= usize::MAX,
        s.nodes@[cid].parent == Some(parent),
        s.nodes@[cid].payload is Container,
        0 <= base,
        base + ids.len() <= s.instances@.len(),
        cid + 1 + ids.len() <= s.nodes@.len(),
        forall|jj: int|
            0 <= jj < ids.len() ==> {
                let inst = #[trigger] s.instances@[base + jj];
                &&& inst.identity == ids[jj]
                &&& inst.model == ui_model(cfg, ids[jj])
                &&& inst.texture == ui_texture(cfg, ids[jj])
                &&& inst.target_size == ui_target_size(cfg, ids[jj])
                &&& inst.node == cid + 1 + jj
                &&& s.nodes@[cid + 1 + jj] == (Node {
                    parent: Some(cid as usize),
                    payload: NodePayload::Widget((base + jj) as usize),
                })
            },
    ensures
        group_attached(s, cfg, ids, parent, cid),
{
    assert forall|j: int|
        #![trigger ids[j]]
        0 <= j < ids.len() implies widget_attached(s, cfg, cid + 1 + j, ids[j]) && s.nodes@[cid + 1
            + j].parent == Some(cid as usize) by {
        assert(s.instances@[base + j].identity == ids[j]);
        assert(((base + j) as usize) as int == base + j);
        assert(s.nodes@[cid + 1 + j] == (Node {
            parent: Some(cid as usize),
            payload: NodePayload::Widget((base + j) as usize),
        }));
    }
}

/// Materialize one content specification as a subtree under `parent` and
/// return the subtree's root node. Everything that already existed in the
/// scene is preserved; every slot the new content introduces starts
/// unpopulated.
#[verifier::rlimit(100)]
#[verifier::spinoff_prover]
fn materialize(scene: &mut Scene, cfg: &UiConfig, content: &ContentSpec, parent: usize) -> (id:
    usize)
    requires
        old(scene).wf(),
        cfg_wf(*cfg, *old(scene)),
        parent < old(scene).nodes@.len(),
    ensures
        final(scene).wf(),
        cfg_wf(*cfg, *final(scene)),
        final(scene).models@ == old(scene).models@,
        old(scene).nodes@.len() <= id < final(scene).nodes@.len(),
        forall|n: int|
            0 <= n < old(scene).nodes@.len() ==> final(scene).nodes@[n] == old(scene).nodes@[n],
        final(scene).instances@.len() >= old(scene).instances@.len(),
        forall|i: int|
            0 <= i < old(scene).instances@.len() ==> final(scene).instances@[i] == old(
                scene,
            ).instances@[i],
        final(scene).slots@.len() >= old(scene).slots@.len(),
        forall|k: int|
            0 <= k < old(scene).slots@.len() ==> final(scene).slots@[k] == old(scene).slots@[k],
        forall|k: int|
            old(scene).slots@.len() <= k < final(scene).slots@.len()
                ==> !(#[trigger] final(scene).slots@[k]).populated,
        final(scene).nodes@[id as int].parent == Some(parent),
        ((*content) matches ContentSpec::Text(s) ==> {
            &&& final(scene).nodes@.len() == old(scene).nodes@.len() + 1
            &&& final(scene).instances@ == old(scene).instances@
            &&& final(scene).slots@ == old(scene).slots@
            &&& final(scene).nodes@[id as int].payload matches NodePayload::Text(tc) && tc.value@
                == s@ && tc.font == cfg.font && tc.style == cfg.textstyle
        }),
        ((*content) matches ContentSpec::Widget(u) ==> widget_spawned(
            *old(scene),
            *final(scene),
            id,
            ui_model(*cfg, u),
            ui_texture(*cfg, u),
            ui_target_size(*cfg, u),
            u,
            Some(parent),
        )),
        ((*content) matches ContentSpec::Group(ids) ==> {
            &&& final(scene).nodes@[id as int].payload is Container
            &&& final(scene).instances@.len() == old(scene).instances@.len() + ids@.len()
            &&& forall|j: int|
                0 <= j < ids@.len() ==> {
                    let inst = #[trigger] final(scene).instances@[old(scene).instances@.len() + j];
                    &&& inst.identity == ids@[j]
                    &&& inst.model == ui_model(*cfg, ids@[j])
                    &&& inst.texture == ui_texture(*cfg, ids@[j])
                    &&& inst.target_size == ui_target_size(*cfg, ids@[j])
                    &&& inst.node < final(scene).nodes@.len()
                    &&& final(scene).nodes@[inst.node as int].parent == Some(id as usize)
                }
        }),
        content_attached(*final(scene), *cfg, *content, parent, id as int),
        final(scene).nodes@.len() == old(scene).nodes@.len() + content_node_count(*content),
        final(scene).instances@.len() == old(scene).instances@.len() + content_instance_count(
            *content,
        ),
        final(scene).slots@.len() == old(scene).slots@.len() + content_slot_count(
            old(scene).models@,
            *cfg,
            *content,
        ),
{
    match content {
        ContentSpec::Text(s) => {
            let id = spawn_text(scene, cfg, s.as_str(), Some(parent));
            proof {
                assert(scene.nodes@[id as int] == scene.nodes@.last());
                match scene.nodes@.last().payload {
                    NodePayload::Text(tc) => {
                        assert(scene.nodes@[id as int].payload == NodePayload::Text(tc));
                        assert(tc.value@ == s@);
                    },
                    _ => {
                        assert(false);
                    },
                }
                assert(content_attached(*scene, *cfg, *content, parent, id as int));
            }
            id
        },
        ContentSpec::Widget(u) => {
            let id = spawn_ui_under(scene, cfg, *u, Some(parent));
            proof {
                assert(old(scene).instances@.len() == old(scene).instances.len());
                assert(scene.nodes@[id as int].payload == NodePayload::Widget(
                    old(scene).instances@.len() as usize,
                ));
                assert(scene.instances@[old(scene).instances@.len() as int]
                    == scene.instances@.last());
                assert(content_attached(*scene, *cfg, *content, parent, id as int));
            }
            id
        },
        ContentSpec::Group(ids) => {
            let id = spawn_container(scene, Some(parent));
            let ghost base = scene.instances@.len();
            let ghost nodes_base = scene.nodes@.len();
            let ghost slots_base = scene.slots@.len();
            let n = ids.len();
            let mut j: usize = 0;
            while j < n
                invariant
                    j <= n,
                    n == ids@.len(),
                    scene.wf(),
                    cfg_wf(*cfg, *scene),
                    id == old(scene).nodes@.len(),
                    nodes_base == old(scene).nodes@.len() + 1,
                    scene.models@ == old(scene).models@,
                    scene.nodes@.len() >= nodes_base,
                    forall|nn: int|
                        0 <= nn < old(scene).nodes@.len() ==> scene.nodes@[nn] == old(
                            scene,
                        ).nodes@[nn],
                    scene.nodes@[id as int].payload is Container,
                    scene.nodes@[id as int].parent == Some(parent),
                    scene.nodes@.len() == nodes_base + j as int,
                    scene.slots@.len() == slots_base + widgets_slot_count(
                        old(scene).models@,
                        *cfg,
                        ids@.take(j as int),
                    ),
                    scene.instances@.len() == base + j as int,
                    base == old(scene).instances@.len(),
                    slots_base == old(scene).slots@.len(),
                    scene.slots@.len() >= slots_base,
                    forall|k: int| 0 <= k < slots_base ==> scene.slots@[k] == old(scene).slots@[k],
                    forall|k: int|
                        slots_base <= k < scene.slots@.len() ==> !(#[trigger] scene.slots@[k]).populated,
                    forall|i: int|
                        0 <= i < base ==> scene.instances@[i] == old(scene).instances@[i],
                    forall|jj: int|
                        0 <= jj < j as int ==> {
                            let inst = #[trigger] scene.instances@[base + jj];
                            &&& inst.identity == ids@[jj]
                            &&& inst.model == ui_model(*cfg, ids@[jj])
                            &&& inst.texture == ui_texture(*cfg, ids@[jj])
                            &&& inst.target_size == ui_target_size(*cfg, ids@[jj])
                            &&& inst.node == nodes_base + jj
                            &&& scene.nodes@[nodes_base + jj] == (Node {
                                parent: Some(id),
                                payload: NodePayload::Widget((base + jj) as usize),
                            })
                        },
                decreases n - j,
            {
                let kid = ids[j];
                spawn_ui_under(scene, cfg, kid, Some(id));
                proof {
                    lemma_widgets_slot_count_take_succ(
                        old(scene).models@,
                        *cfg,
                        ids@,
                        j as int,
                    );
                }
                j = j + 1;
            }
            proof {
                assert(ids@.take(n as int) =~= ids@);
                assert((*content) == ContentSpec::Group(*ids));
                assert(scene.nodes@.len() == scene.nodes.len());
                assert(scene.instances@.len() == scene.instances.len());
                lemma_group_children(
                    *scene,
                    *cfg,
                    ids@,
                    parent,
                    id as int,
                    base as int,
                );
                assert(content_attached(*scene, *cfg, *content, parent, id as int));
            }
            id
        },
    }
}

/// The catalog entry that resolves slot `i` of the scan window.
pub open spec fn slot_entry(slots: Seq<SlotRecord>, entries: Seq<CatalogEntry>, i: int)
    -> CatalogEntry {
    entries[lookup_spec(entries, slots[i].owner_id, slots[i].key).unwrap()]
}

/// How many nodes one pass creates for the window's slots at or after `i`.
pub open spec fn pass_node_total(slots: Seq<SlotRecord>, entries: Seq<CatalogEntry>, i: int) -> int
    decreases slots.len() - i,
{
    if i < 0 || i >= slots.len() {
        0
    } else {
        (if slots[i].populated {
            0int
        } else {
            content_node_count(slot_entry(slots, entries, i).content)
        }) + pass_node_total(slots, entries, i + 1)
    }
}

/// How many widget instances one pass creates for the window's slots at or
/// after `i`.
pub open spec fn pass_instance_total(
    slots: Seq<SlotRecord>,
    entries: Seq<CatalogEntry>,
    i: int,
) -> int
    decreases slots.len() - i,
{
    if i < 0 || i >= slots.len() {
        0
    } else {
        (if slots[i].populated {
            0int
        } else {
            content_instance_count(slot_entry(slots, entries, i).content)
        }) + pass_instance_total(slots, entries, i + 1)
    }
}

/// How many new content slots one pass introduces for the window's slots at
/// or after `i`.
pub open spec fn pass_slot_total(
    models: Seq<PatchGridModel>,
    cfg: UiConfig,
    slots: Seq<SlotRecord>,
    entries: Seq<CatalogEntry>,
    i: int,
) -> int
    decreases slots.len() - i,
{
    if i < 0 || i >= slots.len() {
        0
    } else {
        (if slots[i].populated {
            0int
        } else {
            content_slot_count(models, cfg, slot_entry(slots, entries, i).content)
        }) + pass_slot_total(models, cfg, slots, entries, i + 1)
    }
}

/// A pass whose unpopulated slots all resolve to text content introduces
/// no new slots: together with the pass's exact slot total, a caller knows
/// that such a pass fully populates the scene, so the next pass is a no-op.
pub proof fn lemma_text_content_adds_no_slots(
    models: Seq<PatchGridModel>,
    cfg: UiConfig,
    slots: Seq<SlotRecord>,
    entries: Seq<CatalogEntry>,
    i: int,
)
    requires
        forall|j: int|
            i <= j < slots.len() && !(#[trigger] slots[j]).populated ==> slot_entry(
                slots,
                entries,
                j,
            ).content is Text,
    ensures
        pass_slot_total(models, cfg, slots, entries, i) == 0,
    decreases slots.len() - i,
{
    if 0 <= i < slots.len() {
        lemma_text_content_adds_no_slots(models, cfg, slots, entries, i + 1);
    }
}

/// One resolution pass over every slot that existed when the pass began.
///
/// Populated slots are skipped untouched: the `Unpopulated -> Populated`
/// transition is terminal, so content is attached at most once per slot.
/// Every unpopulated slot in the window is resolved through the catalog,
/// its content attached under the owning widget, and the slot marked
/// populated; the pass returns how many slots it populated. Slots that new
/// content introduces land beyond the scan window and wait for the next
/// pass. A missing catalog mapping for a scanned slot is fatal: the pass
/// stops at the first such slot and reports its identity and key. A pass
/// over a fully populated scene changes nothing and returns zero.
///
/// The contract pins, for every slot it populates, the attached subtree
/// against the catalog entry that resolved it ([`content_attached`]), and
/// the exact number of nodes, instances and slots the pass created, so a
/// caller can tell when a pass has stabilized the tree.
#[verifier::loop_isolation(false)]
pub fn resolve_pass(scene: &mut Scene, catalog: &ContentCatalog, cfg: &UiConfig) -> (res: Result<
    usize,
    UiError,
>)
    requires
        old(scene).wf(),
        cfg_wf(*cfg, *old(scene)),
    ensures
        final(scene).wf(),
        cfg_wf(*cfg, *final(scene)),
        final(scene).models@ == old(scene).models@,
        final(scene).nodes@.len() >= old(scene).nodes@.len(),
        final(scene).instances@.len() >= old(scene).instances@.len(),
        final(scene).slots@.len() >= old(scene).slots@.len(),
        forall|n: int|
            0 <= n < old(scene).nodes@.len() ==> final(scene).nodes@[n] == old(scene).nodes@[n],
        forall|i: int|
            0 <= i < old(scene).instances@.len() ==> final(scene).instances@[i] == old(
                scene,
            ).instances@[i],
        forall|k: int|
            0 <= k < old(scene).slots@.len() && old(scene).slots@[k].populated
                ==> final(scene).slots@[k] == old(scene).slots@[k],
        forall|k: int|
            old(scene).slots@.len() <= k < final(scene).slots@.len()
                ==> !(#[trigger] final(scene).slots@[k]).populated,
        res is Ok <==> first_gap(old(scene).slots@, catalog.entries@, 0) is None,
        res is Ok ==> forall|k: int|
            0 <= k < old(scene).slots@.len() ==> slot_filled(
                old(scene).slots@[k],
                #[trigger] final(scene).slots@[k],
            ),
        res matches Ok(count) ==> count as int == unpopulated_count(old(scene).slots@, 0),
        res is Ok ==> forall|k: int|
            0 <= k < old(scene).slots@.len() && !(#[trigger] old(scene).slots@[k]).populated
                ==> {
                &&& lookup_spec(
                    catalog.entries@,
                    old(scene).slots@[k].owner_id,
                    old(scene).slots@[k].key,
                ) is Some
                &&& final(scene).slots@[k].content is Some
                &&& content_attached(
                    *final(scene),
                    *cfg,
                    slot_entry(old(scene).slots@, catalog.entries@, k).content,
                    old(scene).slots@[k].owner_node,
                    final(scene).slots@[k].content.unwrap() as int,
                )
            },
        res is Ok ==> {
            &&& final(scene).nodes@.len() == old(scene).nodes@.len() + pass_node_total(
                old(scene).slots@,
                catalog.entries@,
                0,
            )
            &&& final(scene).instances@.len() == old(scene).instances@.len() + pass_instance_total(
                old(scene).slots@,
                catalog.entries@,
                0,
            )
            &&& final(scene).slots@.len() == old(scene).slots@.len() + pass_slot_total(
                old(scene).models@,
                *cfg,
                old(scene).slots@,
                catalog.entries@,
                0,
            )
        },
        res matches Err(e) ==> {
            let gk = first_gap(old(scene).slots@, catalog.entries@, 0).unwrap();
            &&& e == UiError::MissingContent(
                old(scene).slots@[gk].owner_id,
                old(scene).slots@[gk].key,
            )
            &&& forall|k: int|
                0 <= k < gk ==> slot_filled(old(scene).slots@[k], #[trigger] final(scene).slots@[k])
            &&& forall|k: int|
                gk <= k < old(scene).slots@.len() ==> final(scene).slots@[k] == old(
                    scene,
                ).slots@[k]
        },
        (forall|k: int|
            0 <= k < old(scene).slots@.len() ==> (#[trigger] old(scene).slots@[k]).populated)
            ==> {
            &&& *final(scene) == *old(scene)
            &&& (res matches Ok(count) && count == 0)
        },
{
    let n0 = scene.slots.len();
    let mut k: usize = 0;
    let mut filled: usize = 0;
    while k < n0
        invariant
            k <= n0,
            n0 == old(scene).slots@.len(),
            scene.wf(),
            cfg_wf(*cfg, *scene),
            scene.models@ == old(scene).models@,
            scene.nodes@.len() >= old(scene).nodes@.len(),
            scene.instances@.len() >= old(scene).instances@.len(),
            scene.slots@.len() >= n0,
            forall|n: int|
                0 <= n < old(scene).nodes@.len() ==> scene.nodes@[n] == old(scene).nodes@[n],
            forall|i: int|
                0 <= i < old(scene).instances@.len() ==> scene.instances@[i] == old(
                    scene,
                ).instances@[i],
            forall|j: int| k as int <= j < n0 as int ==> scene.slots@[j] == old(scene).slots@[j],
            forall|j: int|
                0 <= j < k as int && old(scene).slots@[j].populated ==> scene.slots@[j] == old(
                    scene,
                ).slots@[j],
            forall|j: int|
                0 <= j < k as int ==> slot_filled(
                    old(scene).slots@[j],
                    #[trigger] scene.slots@[j],
                ),
            forall|j: int|
                n0 as int <= j < scene.slots@.len() ==> !(#[trigger] scene.slots@[j]).populated,
            first_gap(old(scene).slots@, catalog.entries@, 0) == first_gap(
                old(scene).slots@,
                catalog.entries@,
                k as int,
            ),
            filled as int == unpopulated_count(old(scene).slots@, 0) - unpopulated_count(
                old(scene).slots@,
                k as int,
            ),
            filled <= k,
            scene.nodes@.len() == old(scene).nodes@.len() + pass_node_total(
                old(scene).slots@,
                catalog.entries@,
                0,
            ) - pass_node_total(old(scene).slots@, catalog.entries@, k as int),
            scene.instances@.len() == old(scene).instances@.len() + pass_instance_total(
                old(scene).slots@,
                catalog.entries@,
                0,
            ) - pass_instance_total(old(scene).slots@, catalog.entries@, k as int),
            scene.slots@.len() == old(scene).slots@.len() + pass_slot_total(
                old(scene).models@,
                *cfg,
                old(scene).slots@,
                catalog.entries@,
                0,
            ) - pass_slot_total(
                old(scene).models@,
                *cfg,
                old(scene).slots@,
                catalog.entries@,
                k as int,
            ),
            forall|j: int|
                0 <= j < k as int && !(#[trigger] old(scene).slots@[j]).populated ==> {
                    &&& lookup_spec(
                        catalog.entries@,
                        old(scene).slots@[j].owner_id,
                        old(scene).slots@[j].key,
                    ) is Some
                    &&& scene.slots@[j].content is Some
                    &&& content_attached(
                        *scene,
                        *cfg,
                        slot_entry(old(scene).slots@, catalog.entries@, j).content,
                        old(scene).slots@[j].owner_node,
                        scene.slots@[j].content.unwrap() as int,
                    )
                },
            (forall|j: int|
                0 <= j < k as int ==> (#[trigger] old(scene).slots@[j]).populated) ==> *scene
                == *old(scene),
        decreases n0 - k,
    {
        let rec = scene.slots[k];
        assert(rec == old(scene).slots@[k as int]);
        if !rec.populated {
            match catalog.lookup(rec.owner_id, rec.key) {
                None => {
                    return Err(UiError::MissingContent(rec.owner_id, rec.key));
                },
                Some(ei) => {
                    let ghost s_before = *scene;
                    let child = materialize(
                        scene,
                        cfg,
                        &catalog.entries[ei].content,
                        rec.owner_node,
                    );
                    let ghost s_mid = *scene;
                    scene.populate_slot(k, child);
                    filled = filled + 1;
                    proof {
                        assert(slot_entry(old(scene).slots@, catalog.entries@, k as int)
                            == catalog.entries@[ei as int]);
                        assert(content_attached(
                            s_mid,
                            *cfg,
                            catalog.entries@[ei as int].content,
                            rec.owner_node,
                            child as int,
                        ));
                        lemma_content_attached_preserved(
                            s_mid,
                            *scene,
                            *cfg,
                            catalog.entries@[ei as int].content,
                            rec.owner_node,
                            child as int,
                        );
                        assert forall|j: int|
                            0 <= j < k as int && !(#[trigger] old(scene).slots@[j]).populated
                            implies {
                            &&& lookup_spec(
                                catalog.entries@,
                                old(scene).slots@[j].owner_id,
                                old(scene).slots@[j].key,
                            ) is Some
                            &&& scene.slots@[j].content is Some
                            &&& content_attached(
                                *scene,
                                *cfg,
                                slot_entry(old(scene).slots@, catalog.entries@, j).content,
                                old(scene).slots@[j].owner_node,
                                scene.slots@[j].content.unwrap() as int,
                            )
                        } by {
                            assert(scene.slots@[j] == s_before.slots@[j]);
                            assert(content_attached(
                                s_before,
                                *cfg,
                                slot_entry(old(scene).slots@, catalog.entries@, j).content,
                                old(scene).slots@[j].owner_node,
                                s_before.slots@[j].content.unwrap() as int,
                            ));
                            lemma_content_attached_preserved(
                                s_before,
                                *scene,
                                *cfg,
                                slot_entry(old(scene).slots@, catalog.entries@, j).content,
                                old(scene).slots@[j].owner_node,
                                s_before.slots@[j].content.unwrap() as int,
                            );
                        }
                    }
                },
            }
        }
        k = k + 1;
    }
    proof {
        if forall|j: int|
            0 <= j < n0 as int ==> (#[trigger] old(scene).slots@[j]).populated {
            lemma_unpopulated_count_zero(old(scene).slots@, 0);
        }
    }
    Ok(filled)
}

} // verus!
