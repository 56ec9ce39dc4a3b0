//! The widget scene: an arena of nodes with integer handles, the live
//! widget instances, and the side table of content slots.
//!
//! Ownership follows the parent edge: a node is owned by its parent and the
//! host destroys subtrees wholesale. A widget instance owns the geometry
//! produced by the layout solver and exposes one slot record per
//! content-bearing cell of its model; the slot records are the index the
//! content resolver scans each tick.

use vstd::prelude::*;

use crate::cell::Size;
use crate::grid::{grid_slot_keys, grid_view, lemma_grid_slot_keys_take_succ,
    lemma_row_slot_keys_take_succ, row_slot_keys, PatchGridModel};
use crate::ids::{TextStyle, UiConfig, UiId};
use crate::layout::{geo_view, geometry_matches, solve, CellGeometry};

verus! {

/// Text attached as slot content.
#[derive(Clone, Debug)]
pub struct TextContent {
    pub value: String,
    /// Font handle, an opaque identity supplied by the host.
    pub font: u64,
    pub style: TextStyle,
}

/// What a scene node is.
#[derive(Debug)]
pub enum NodePayload {
    /// The root node of a widget instance; the index points into the
    /// scene's instance table.
    Widget(usize),
    /// A text leaf.
    Text(TextContent),
    /// A plain grouping node for composite content.
    Container,
}

/// One node of the scene arena.
#[derive(Debug)]
pub struct Node {
    /// The owning parent, or `None` for a root.
    pub parent: Option<usize>,
    pub payload: NodePayload,
}

/// A live widget instance: a shared model reference (by table index), the
/// bound texture, the target size, the application identity, and the
/// geometry solved for that target size.
#[derive(Debug)]
pub struct WidgetInstance {
    /// The instance's root node in the scene arena.
    pub node: usize,
    /// Index into the scene's model table.
    pub model: usize,
    /// Texture handle, an opaque identity supplied by the host.
    pub texture: u64,
    pub target_size: Size,
    pub identity: UiId,
    /// Solved geometry, row-major, kept in step with `target_size`.
    pub geometry: Vec<Vec<CellGeometry>>,
}

/// One content slot: the record the content resolver scans. A slot starts
/// unpopulated and is populated at most once, irreversibly, with the
/// attached content subtree's root node.
#[derive(Clone, Copy, Debug)]
pub struct SlotRecord {
    /// The owning instance (index into the instance table).
    pub owner_instance: usize,
    /// The owning instance's root node.
    pub owner_node: usize,
    /// The owning instance's identity, the content lookup key.
    pub owner_id: UiId,
    /// The slot key declared by the model cell.
    pub key: u32,
    /// Whether content has been attached.
    pub populated: bool,
    /// The attached content subtree's root, once populated.
    pub content: Option<usize>,
}

/// The widget scene.
pub struct Scene {
    /// Registered grid models, immutable once added, shared by index.
    pub models: Vec<PatchGridModel>,
    /// The node arena; indices are stable, nodes are only appended.
    pub nodes: Vec<Node>,
    /// The live widget instances.
    pub instances: Vec<WidgetInstance>,
    /// The slot side table, scanned by the content resolver.
    pub slots: Vec<SlotRecord>,
}

/// Replace one element of a vector.
fn vec_set<T>(v: &mut Vec<T>, i: usize, x: T)
    requires
        i < old(v)@.len(),
    ensures
        final(v)@ == old(v)@.update(i as int, x),
{
    v.push(x);
    let _ = v.swap_remove(i);
    proof {
        assert(v@ =~= old(v)@.update(i as int, x));
    }
}

impl Scene {
    /// Everything a consistent scene guarantees: all handles in bounds, all
    /// models valid, every instance's geometry solved for its current
    /// target size, every slot record consistent with its owning instance,
    /// and a slot populated exactly when content is attached.
    pub open spec fn wf(&self) -> bool {
        &&& forall|m: int| 0 <= m < self.models@.len() ==> (#[trigger] self.models@[m]).wf()
        &&& forall|i: int|
            0 <= i < self.instances@.len() ==> {
                let inst = #[trigger] self.instances@[i];
                &&& inst.model < self.models@.len()
                &&& inst.node < self.nodes@.len()
                &&& geometry_matches(
                    self.models@[inst.model as int].grid(),
                    inst.target_size,
                    geo_view(inst.geometry@),
                )
            }
        &&& forall|k: int|
            0 <= k < self.slots@.len() ==> {
                let s = #[trigger] self.slots@[k];
                &&& s.owner_instance < self.instances@.len()
                &&& s.owner_node < self.nodes@.len()
                &&& s.owner_id == self.instances@[s.owner_instance as int].identity
                &&& (s.content matches Some(c) ==> c < self.nodes@.len())
                &&& (s.populated <==> s.content is Some)
            }
        &&& forall|n: int|
            0 <= n < self.nodes@.len() ==> {
                let nd = #[trigger] self.nodes@[n];
                &&& (nd.parent matches Some(p) ==> p < self.nodes@.len())
                &&& (nd.payload matches NodePayload::Widget(i) ==> i < self.instances@.len())
            }
    }

    /// An empty scene.
    pub fn new() -> (s: Scene)
        ensures
            s.wf(),
            s.models@.len() == 0,
            s.nodes@.len() == 0,
            s.instances@.len() == 0,
            s.slots@.len() == 0,
    {
        Scene { models: Vec::new(), nodes: Vec::new(), instances: Vec::new(), slots: Vec::new() }
    }

    /// Register a model and return its handle.
    pub fn add_model(&mut self, m: PatchGridModel) -> (id: usize)
        requires
            old(self).wf(),
            m.wf(),
        ensures
            final(self).wf(),
            id == old(self).models@.len(),
            final(self).models@ == old(self).models@.push(m),
            final(self).nodes@ == old(self).nodes@,
            final(self).instances@ == old(self).instances@,
            final(self).slots@ == old(self).slots@,
    {
        let id = self.models.len();
        self.models.push(m);
        id
    }

    /// Spawn a widget instance of a registered model: one new root node,
    /// one new instance with freshly solved geometry, and one unpopulated
    /// slot record per content-bearing cell of the model, in row-major
    /// order. Always succeeds given a valid model handle.
    #[verifier::loop_isolation(false)]
    pub fn spawn_widget(
        &mut self,
        model: usize,
        texture: u64,
        target_size: Size,
        identity: UiId,
        parent: Option<usize>,
    ) -> (id: usize)
        requires
            old(self).wf(),
            model < old(self).models@.len(),
            parent matches Some(p) ==> p < old(self).nodes@.len(),
        ensures
            final(self).wf(),
            widget_spawned(
                *old(self),
                *final(self),
                id,
                model,
                texture,
                target_size,
                identity,
                parent,
            ),
    {
        let ghost g = self.models@[model as int].grid();
        let id = self.nodes.len();
        let inst_idx = self.instances.len();
        self.nodes.push(Node { parent, payload: NodePayload::Widget(inst_idx) });
        let geometry = solve(&self.models[model], target_size);

        let nrows = self.models[model].cells.len();
        let mut r: usize = 0;
        while r < nrows
            invariant
                r <= nrows,
                nrows == g.len(),
                self.models@ == old(self).models@,
                self.nodes@ == old(self).nodes@.push(
                    Node { parent, payload: NodePayload::Widget(inst_idx) },
                ),
                self.instances@ == old(self).instances@,
                self.slots@ == old(self).slots@ + slot_records_for(
                    grid_slot_keys(g.take(r as int)),
                    inst_idx,
                    id,
                    identity,
                ),
            decreases nrows - r,
        {
            assert(g[r as int].len() == g[0].len());
            assert(grid_view(self.models@[model as int].cells@)[r as int].len() == g[r as int].len());
            let ncols = self.models[model].cells[r].len();
            let mut c: usize = 0;
            while c < ncols
                invariant
                    c <= ncols,
                    r < nrows,
                    ncols == g[r as int].len(),
                    self.models@ == old(self).models@,
                    self.nodes@ == old(self).nodes@.push(
                        Node { parent, payload: NodePayload::Widget(inst_idx) },
                    ),
                    self.instances@ == old(self).instances@,
                    self.slots@ == old(self).slots@ + slot_records_for(
                        grid_slot_keys(g.take(r as int)) + row_slot_keys(g[r as int].take(c as int)),
                        inst_idx,
                        id,
                        identity,
                    ),
                decreases ncols - c,
            {
                assert(grid_view(self.models@[model as int].cells@)[r as int].len() == ncols);
                let cur_slot = self.models[model].cells[r][c].content_slot;
                let ghost slots_prev = self.slots@;
                match cur_slot {
                    Some(key) => {
                        self.slots.push(
                            SlotRecord {
                                owner_instance: inst_idx,
                                owner_node: id,
                                owner_id: identity,
                                key,
                                populated: false,
                                content: None,
                            },
                        );
                    },
                    None => {},
                }
                proof {
                    lemma_row_slot_keys_take_succ(g[r as int], c as int);
                    assert(g[r as int][c as int] == self.models@[model as int].cells@[r as int]@[c as int]);
                    assert(self.slots@ =~= old(self).slots@ + slot_records_for(
                        grid_slot_keys(g.take(r as int)) + row_slot_keys(
                            g[r as int].take(c as int + 1),
                        ),
                        inst_idx,
                        id,
                        identity,
                    ));
                }
                c = c + 1;
            }
            proof {
                lemma_grid_slot_keys_take_succ(g, r as int);
                assert(g[r as int].take(ncols as int) =~= g[r as int]);
                assert(self.slots@ =~= old(self).slots@ + slot_records_for(
                    grid_slot_keys(g.take(r as int + 1)),
                    inst_idx,
                    id,
                    identity,
                ));
            }
            r = r + 1;
        }
        proof {
            assert(g.take(nrows as int) =~= g);
        }
        self.instances.push(
            WidgetInstance { node: id, model, texture, target_size, identity, geometry },
        );
        proof {
            let news = *self;
            let olds = *old(self);
            assert forall|i: int| 0 <= i < news.instances@.len() implies {
                let inst = #[trigger] news.instances@[i];
                &&& inst.model < news.models@.len()
                &&& inst.node < news.nodes@.len()
                &&& geometry_matches(
                    news.models@[inst.model as int].grid(),
                    inst.target_size,
                    geo_view(inst.geometry@),
                )
            } by {
                if i < olds.instances@.len() {
                    assert(news.instances@[i] == olds.instances@[i]);
                }
            }
            assert forall|k: int| 0 <= k < news.slots@.len() implies {
                let s = #[trigger] news.slots@[k];
                &&& s.owner_instance < news.instances@.len()
                &&& s.owner_node < news.nodes@.len()
                &&& s.owner_id == news.instances@[s.owner_instance as int].identity
                &&& (s.content matches Some(c) ==> c < news.nodes@.len())
                &&& (s.populated <==> s.content is Some)
            } by {
                if k < olds.slots@.len() {
                    assert(news.slots@[k] == olds.slots@[k]);
                } else {
                    assert(news.slots@[k] == slot_records_for(
                        grid_slot_keys(g),
                        inst_idx,
                        id,
                        identity,
                    )[k - olds.slots@.len()]);
                }
            }
            assert forall|n: int| 0 <= n < news.nodes@.len() implies {
                let nd = #[trigger] news.nodes@[n];
                &&& (nd.parent matches Some(p) ==> p < news.nodes@.len())
                &&& (nd.payload matches NodePayload::Widget(i) ==> i < news.instances@.len())
            } by {
                if n < olds.nodes@.len() {
                    assert(news.nodes@[n] == olds.nodes@[n]);
                }
            }
        }
        id
    }

    /// Mark a slot populated with the attached content subtree's root.
    /// This is the one transition a slot ever makes, and it requires the
    /// slot to be unpopulated: a populated slot is never re-resolved.
    pub(crate) fn populate_slot(&mut self, k: usize, content: usize)
        requires
            old(self).wf(),
            k < old(self).slots@.len(),
            !old(self).slots@[k as int].populated,
            content < old(self).nodes@.len(),
        ensures
            final(self).wf(),
            final(self).models@ == old(self).models@,
            final(self).nodes@ == old(self).nodes@,
            final(self).instances@ == old(self).instances@,
            final(self).slots@ == old(self).slots@.update(
                k as int,
                SlotRecord {
                    populated: true,
                    content: Some(content),
                    ..old(self).slots@[k as int]
                },
            ),
    {
        let mut rec = self.slots[k];
        rec.populated = true;
        rec.content = Some(content);
        vec_set(&mut self.slots, k, rec);
        proof {
            let news = *self;
            let olds = *old(self);
            assert forall|j: int| 0 <= j < news.slots@.len() implies {
                let s = #[trigger] news.slots@[j];
                &&& s.owner_instance < news.instances@.len()
                &&& s.owner_node < news.nodes@.len()
                &&& s.owner_id == news.instances@[s.owner_instance as int].identity
                &&& (s.content matches Some(c) ==> c < news.nodes@.len())
                &&& (s.populated <==> s.content is Some)
            } by {
                if j != k as int {
                    assert(news.slots@[j] == olds.slots@[j]);
                }
            }
        }
    }

    /// Recompute an instance's geometry for a new target size. The model,
    /// identity and every slot record - populated or not - are untouched:
    /// attached content is repositioned, never recreated.
    pub fn resize(&mut self, instance: usize, new_size: Size)
        requires
            old(self).wf(),
            instance < old(self).instances@.len(),
        ensures
            final(self).wf(),
            final(self).models@ == old(self).models@,
            final(self).nodes@ == old(self).nodes@,
            final(self).slots@ == old(self).slots@,
            final(self).instances@.len() == old(self).instances@.len(),
            forall|i: int|
                0 <= i < old(self).instances@.len() && i != instance as int
                    ==> final(self).instances@[i] == old(self).instances@[i],
            ({
                let inst = final(self).instances@[instance as int];
                let prev = old(self).instances@[instance as int];
                &&& inst.node == prev.node
                &&& inst.model == prev.model
                &&& inst.texture == prev.texture
                &&& inst.identity == prev.identity
                &&& inst.target_size == new_size
                &&& geometry_matches(
                    final(self).models@[prev.model as int].grid(),
                    new_size,
                    geo_view(inst.geometry@),
                )
            }),
    {
        let node = self.instances[instance].node;
        let model = self.instances[instance].model;
        let texture = self.instances[instance].texture;
        let identity = self.instances[instance].identity;
        let geometry = solve(&self.models[model], new_size);
        vec_set(
            &mut self.instances,
            instance,
            WidgetInstance { node, model, texture, target_size: new_size, identity, geometry },
        );
        proof {
            let news = *self;
            let olds = *old(self);
            assert forall|i: int| 0 <= i < news.instances@.len() implies {
                let inst = #[trigger] news.instances@[i];
                &&& inst.model < news.models@.len()
                &&& inst.node < news.nodes@.len()
                &&& geometry_matches(
                    news.models@[inst.model as int].grid(),
                    inst.target_size,
                    geo_view(inst.geometry@),
                )
            } by {
                if i != instance as int {
                    assert(news.instances@[i] == olds.instances@[i]);
                }
            }
            assert forall|k: int| 0 <= k < news.slots@.len() implies {
                let s = #[trigger] news.slots@[k];
                &&& s.owner_instance < news.instances@.len()
                &&& s.owner_node < news.nodes@.len()
                &&& s.owner_id == news.instances@[s.owner_instance as int].identity
                &&& (s.content matches Some(c) ==> c < news.nodes@.len())
                &&& (s.populated <==> s.content is Some)
            } by {
                assert(news.slots@[k] == olds.slots@[k]);
                if news.slots@[k].owner_instance as int != instance as int {
                    assert(news.instances@[news.slots@[k].owner_instance as int]
                        == olds.instances@[news.slots@[k].owner_instance as int]);
                }
            }
        }
    }
}

/// Spawn a plain container node under a parent, for composite content.
pub fn spawn_container(scene: &mut Scene, parent: Option<usize>) -> (id: usize)
    requires
        old(scene).wf(),
        parent matches Some(p) ==> p < old(scene).nodes@.len(),
    ensures
        final(scene).wf(),
        id == old(scene).nodes@.len(),
        final(scene).models@ == old(scene).models@,
        final(scene).instances@ == old(scene).instances@,
        final(scene).slots@ == old(scene).slots@,
        final(scene).nodes@.len() == old(scene).nodes@.len() + 1,
        forall|n: int|
            0 <= n < old(scene).nodes@.len() ==> final(scene).nodes@[n] == old(scene).nodes@[n],
        final(scene).nodes@.last().parent == parent,
        final(scene).nodes@.last().payload is Container,
{
    let id = scene.nodes.len();
    scene.nodes.push(Node { parent, payload: NodePayload::Container });
    proof {
        let news = *scene;
        let olds = *old(scene);
        assert forall|k: int| 0 <= k < news.slots@.len() implies {
            let s = #[trigger] news.slots@[k];
            &&& s.owner_instance < news.instances@.len()
            &&& s.owner_node < news.nodes@.len()
            &&& s.owner_id == news.instances@[s.owner_instance as int].identity
            &&& (s.content matches Some(c) ==> c < news.nodes@.len())
            &&& (s.populated <==> s.content is Some)
        } by {
            assert(news.slots@[k] == olds.slots@[k]);
        }
        assert forall|n: int| 0 <= n < news.nodes@.len() implies {
            let nd = #[trigger] news.nodes@[n];
            &&& (nd.parent matches Some(p) ==> p < news.nodes@.len())
            &&& (nd.payload matches NodePayload::Widget(i) ==> i < news.instances@.len())
        } by {
            if n < olds.nodes@.len() {
                assert(news.nodes@[n] == olds.nodes@[n]);
            }
        }
    }
    id
}

/// The unpopulated slot records a freshly spawned instance contributes, one
/// per declared key, in model order.
pub open spec fn slot_records_for(keys: Seq<u32>, inst: usize, node: usize, id: UiId) -> Seq<
    SlotRecord,
> {
    keys.map_values(
        |k: u32| SlotRecord {
            owner_instance: inst,
            owner_node: node,
            owner_id: id,
            key: k,
            populated: false,
            content: None,
        },
    )
}

/// What spawning a widget does to a scene: one root node appended, one
/// instance appended with geometry solved against the target size, and the
/// model's slot keys appended as unpopulated slot records.
pub open spec fn widget_spawned(
    old_s: Scene,
    new_s: Scene,
    id: usize,
    model: usize,
    texture: u64,
    target_size: Size,
    identity: UiId,
    parent: Option<usize>,
) -> bool {
    &&& id == old_s.nodes@.len()
    &&& new_s.models@ == old_s.models@
    &&& new_s.nodes@ == old_s.nodes@.push(
        Node {
            parent,
            payload: NodePayload::Widget(old_s.instances@.len() as usize),
        },
    )
    &&& new_s.instances@.len() == old_s.instances@.len() + 1
    &&& forall|i: int|
        0 <= i < old_s.instances@.len() ==> new_s.instances@[i] == old_s.instances@[i]
    &&& {
        let inst = new_s.instances@.last();
        &&& inst.node == id
        &&& inst.model == model
        &&& inst.texture == texture
        &&& inst.target_size == target_size
        &&& inst.identity == identity
        &&& geometry_matches(
            old_s.models@[model as int].grid(),
            target_size,
            geo_view(inst.geometry@),
        )
    }
    &&& new_s.slots@ == old_s.slots@ + slot_records_for(
        grid_slot_keys(old_s.models@[model as int].grid()),
        old_s.instances@.len() as usize,
        id,
        identity,
    )
}

/// The model handle `spawn_ui` uses for an identity.
pub open spec fn ui_model(cfg: UiConfig, ui: UiId) -> usize {
    match ui {
        UiId::Panel(_) => cfg.np_panel,
        UiId::Button(_) => cfg.np_button,
    }
}

/// The texture handle `spawn_ui` uses for an identity.
pub open spec fn ui_texture(cfg: UiConfig, ui: UiId) -> u64 {
    match ui {
        UiId::Panel(_) => cfg.tex_panel,
        UiId::Button(_) => cfg.tex_button,
    }
}

/// The default target size `spawn_ui` uses for an identity.
pub open spec fn ui_target_size(cfg: UiConfig, ui: UiId) -> Size {
    match ui {
        UiId::Panel(_) => cfg.panel_size,
        UiId::Button(_) => cfg.button_size,
    }
}

/// The configuration's model handles exist in the scene.
pub open spec fn cfg_wf(cfg: UiConfig, s: Scene) -> bool {
    &&& cfg.np_panel < s.models@.len()
    &&& cfg.np_button < s.models@.len()
}

/// Spawn the widget of the given identity under a parent node, with the
/// model, texture and default target size the configuration binds to its
/// kind.
pub fn spawn_ui_under(scene: &mut Scene, cfg: &UiConfig, ui: UiId, parent: Option<usize>) -> (id:
    usize)
    requires
        old(scene).wf(),
        cfg_wf(*cfg, *old(scene)),
        parent matches Some(p) ==> p < old(scene).nodes@.len(),
    ensures
        final(scene).wf(),
        widget_spawned(
            *old(scene),
            *final(scene),
            id,
            ui_model(*cfg, ui),
            ui_texture(*cfg, ui),
            ui_target_size(*cfg, ui),
            ui,
            parent,
        ),
{
    match ui {
        UiId::Panel(_) => scene.spawn_widget(
            cfg.np_panel,
            cfg.tex_panel,
            cfg.panel_size,
            ui,
            parent,
        ),
        UiId::Button(_) => scene.spawn_widget(
            cfg.np_button,
            cfg.tex_button,
            cfg.button_size,
            ui,
            parent,
        ),
    }
}

/// Spawn a root widget of the given identity: panels and buttons take the
/// model, texture and default size their kind is bound to in the
/// configuration.
pub fn spawn_ui(scene: &mut Scene, cfg: &UiConfig, ui: UiId) -> (id: usize)
    requires
        old(scene).wf(),
        cfg_wf(*cfg, *old(scene)),
    ensures
        final(scene).wf(),
        widget_spawned(
            *old(scene),
            *final(scene),
            id,
            ui_model(*cfg, ui),
            ui_texture(*cfg, ui),
            ui_target_size(*cfg, ui),
            ui,
            None,
        ),
{
    spawn_ui_under(scene, cfg, ui, None)
}

/// Spawn a text leaf under a parent node, styled by the configuration.
pub fn spawn_text(scene: &mut Scene, cfg: &UiConfig, value: &str, parent: Option<usize>) -> (id:
    usize)
    requires
        old(scene).wf(),
        parent matches Some(p) ==> p < old(scene).nodes@.len(),
    ensures
        final(scene).wf(),
        id == old(scene).nodes@.len(),
        final(scene).models@ == old(scene).models@,
        final(scene).instances@ == old(scene).instances@,
        final(scene).slots@ == old(scene).slots@,
        final(scene).nodes@.len() == old(scene).nodes@.len() + 1,
        forall|n: int|
            0 <= n < old(scene).nodes@.len() ==> final(scene).nodes@[n] == old(scene).nodes@[n],
        ({
            let nd = final(scene).nodes@.last();
            &&& nd.parent == parent
            &&& nd.payload matches NodePayload::Text(tc) && tc.value@ == value@ && tc.font
                == cfg.font && tc.style == cfg.textstyle
        }),
{
    let id = scene.nodes.len();
    scene.nodes.push(
        Node {
            parent,
            payload: NodePayload::Text(
                TextContent { value: value.to_owned(), font: cfg.font, style: cfg.textstyle },
            ),
        },
    );
    proof {
        let news = *scene;
        let olds = *old(scene);
        assert forall|k: int| 0 <= k < news.slots@.len() implies {
            let s = #[trigger] news.slots@[k];
            &&& s.owner_instance < news.instances@.len()
            &&& s.owner_node < news.nodes@.len()
            &&& s.owner_id == news.instances@[s.owner_instance as int].identity
            &&& (s.content matches Some(c) ==> c < news.nodes@.len())
            &&& (s.populated <==> s.content is Some)
        } by {
            assert(news.slots@[k] == olds.slots@[k]);
        }
        assert forall|n: int| 0 <= n < news.nodes@.len() implies {
            let nd = #[trigger] news.nodes@[n];
            &&& (nd.parent matches Some(p) ==> p < news.nodes@.len())
            &&& (nd.payload matches NodePayload::Widget(i) ==> i < news.instances@.len())
        } by {
            if n < olds.nodes@.len() {
                assert(news.nodes@[n] == olds.nodes@[n]);
            }
        }
    }
    id
}

} // verus!
