use ninepatch_ui::cell::Size;
use ninepatch_ui::ids::{Color, TextStyle, UiButtonId, UiConfig, UiId, UiPanelId};
use ninepatch_ui::layout::Rect;
use ninepatch_ui::lobby::{button_model, lobby_catalog, panel_model, BUTTON_INNER, PANEL_INNER,
    PANEL_TITLE};
use ninepatch_ui::resolver::{resolve_pass, CatalogEntry, ContentCatalog, ContentSpec, UiError};
use ninepatch_ui::scene::{spawn_ui, NodePayload, Scene, SlotRecord};

fn build_world() -> (Scene, UiConfig, ContentCatalog) {
    let mut scene = Scene::new();
    let np_panel = scene.add_model(panel_model().unwrap());
    let np_button = scene.add_model(button_model().unwrap());
    let cfg = UiConfig {
        font: 1,
        tex_panel: 2,
        np_panel,
        panel_size: Size { width: 300, height: 200 },
        tex_button: 3,
        np_button,
        button_size: Size { width: 128, height: 48 },
        textstyle: TextStyle {
            font_size: 16,
            color: Color { red: 255, green: 255, blue: 255, alpha: 255 },
        },
    };
    (scene, cfg, lobby_catalog())
}

fn text_values(scene: &Scene) -> Vec<String> {
    scene
        .nodes
        .iter()
        .filter_map(|n| match &n.payload {
            NodePayload::Text(tc) => Some(tc.value.clone()),
            _ => None,
        })
        .collect()
}

fn records(scene: &Scene) -> Vec<(usize, u32, bool, Option<usize>)> {
    scene
        .slots
        .iter()
        .map(|s: &SlotRecord| (s.owner_instance, s.key, s.populated, s.content))
        .collect()
}

#[test]
fn spawn_ui_binds_kind_to_model_and_size() {
    let (mut scene, cfg, _) = build_world();
    spawn_ui(&mut scene, &cfg, UiId::Button(UiButtonId::QuitGame));
    let inst = &scene.instances[0];
    assert_eq!(inst.model, cfg.np_button);
    assert_eq!(inst.texture, cfg.tex_button);
    assert_eq!(inst.target_size, cfg.button_size);
    assert_eq!(inst.identity, UiId::Button(UiButtonId::QuitGame));
    assert_eq!(scene.slots.len(), 1);
    assert_eq!(scene.slots[0].key, BUTTON_INNER);
    assert!(!scene.slots[0].populated);
}

#[test]
fn lobby_tree_stabilizes_in_three_passes() {
    let (mut scene, cfg, catalog) = build_world();
    spawn_ui(&mut scene, &cfg, UiId::Panel(UiPanelId::LobbyMenu));
    assert_eq!(scene.slots.len(), 2);
    assert_eq!(scene.slots[0].key, PANEL_TITLE);
    assert_eq!(scene.slots[1].key, PANEL_INNER);

    // First pass: the panel's own zones - the title text and the button
    // column - leaving the three fresh button captions unpopulated.
    let n1 = resolve_pass(&mut scene, &catalog, &cfg).unwrap();
    assert_eq!(n1, 2);
    assert!(scene.slots[0].populated && scene.slots[1].populated);
    assert_eq!(scene.slots.len(), 5);
    assert!(!scene.slots[2].populated);
    assert!(!scene.slots[3].populated);
    assert!(!scene.slots[4].populated);
    assert_eq!(scene.instances.len(), 4);
    assert_eq!(scene.instances[1].identity, UiId::Button(UiButtonId::ReadyPlayer));
    assert_eq!(scene.instances[2].identity, UiId::Button(UiButtonId::ReadySpectator));
    assert_eq!(scene.instances[3].identity, UiId::Button(UiButtonId::QuitGame));
    assert_eq!(text_values(&scene), vec!["Game Lobby".to_string()]);

    // The title text hangs under the panel, the buttons under a container
    // that hangs under the panel.
    let title_node = scene.slots[0].content.unwrap();
    assert!(matches!(scene.nodes[title_node].payload, NodePayload::Text(_)));
    assert_eq!(scene.nodes[title_node].parent, Some(scene.instances[0].node));
    let inner_node = scene.slots[1].content.unwrap();
    assert!(matches!(scene.nodes[inner_node].payload, NodePayload::Container));
    for b in 1..4 {
        assert_eq!(scene.nodes[scene.instances[b].node].parent, Some(inner_node));
    }

    // Second pass: the button captions.
    let n2 = resolve_pass(&mut scene, &catalog, &cfg).unwrap();
    assert_eq!(n2, 3);
    assert!(scene.slots.iter().all(|s| s.populated));
    let texts = text_values(&scene);
    assert_eq!(
        texts,
        vec![
            "Game Lobby".to_string(),
            "Ready to play!".to_string(),
            "Spectate".to_string(),
            "Quit Game".to_string(),
        ]
    );

    // Third pass: fully populated, nothing to do, nothing changed.
    let before_records = records(&scene);
    let before_nodes = scene.nodes.len();
    let n3 = resolve_pass(&mut scene, &catalog, &cfg).unwrap();
    assert_eq!(n3, 0);
    assert_eq!(records(&scene), before_records);
    assert_eq!(scene.nodes.len(), before_nodes);
}

#[test]
fn populated_slots_are_never_reresolved() {
    let (mut scene, cfg, catalog) = build_world();
    spawn_ui(&mut scene, &cfg, UiId::Button(UiButtonId::ReadySpectator));
    assert_eq!(resolve_pass(&mut scene, &catalog, &cfg).unwrap(), 1);
    let first_content = scene.slots[0].content;
    for _ in 0..5 {
        assert_eq!(resolve_pass(&mut scene, &catalog, &cfg).unwrap(), 0);
        assert_eq!(scene.slots[0].content, first_content);
        assert!(scene.slots[0].populated);
    }
    assert_eq!(text_values(&scene), vec!["Spectate".to_string()]);
}

#[test]
fn quit_button_end_to_end() {
    let (mut scene, cfg, _) = build_world();
    // A margin-derived button, rendered at 128 by 48.
    let id = scene.spawn_widget(
        cfg.np_button,
        cfg.tex_button,
        Size { width: 128, height: 48 },
        UiId::Button(UiButtonId::QuitGame),
        None,
    );
    let center = scene.instances[0].geometry[1][1].dest;
    assert_eq!(center, Rect { x: 10, y: 10, width: 108, height: 28 });

    let catalog = ContentCatalog {
        entries: vec![CatalogEntry {
            id: UiId::Button(UiButtonId::QuitGame),
            slot: BUTTON_INNER,
            content: ContentSpec::Text("Quit Game".to_string()),
        }],
    };
    assert_eq!(resolve_pass(&mut scene, &catalog, &cfg).unwrap(), 1);
    assert!(scene.slots[0].populated);
    let content = scene.slots[0].content.unwrap();
    match &scene.nodes[content].payload {
        NodePayload::Text(tc) => assert_eq!(tc.value, "Quit Game"),
        other => panic!("expected text content, found {other:?}"),
    }
    assert_eq!(scene.nodes[content].parent, Some(id));

    // A second pass leaves the tree unchanged.
    let before_records = records(&scene);
    let before_nodes = scene.nodes.len();
    assert_eq!(resolve_pass(&mut scene, &catalog, &cfg).unwrap(), 0);
    assert_eq!(records(&scene), before_records);
    assert_eq!(scene.nodes.len(), before_nodes);
}

#[test]
fn missing_catalog_entry_is_fatal_on_first_scan() {
    let (mut scene, cfg, _) = build_world();
    spawn_ui(&mut scene, &cfg, UiId::Button(UiButtonId::QuitGame));
    let empty = ContentCatalog { entries: vec![] };
    let err = resolve_pass(&mut scene, &empty, &cfg).unwrap_err();
    assert_eq!(err, UiError::MissingContent(UiId::Button(UiButtonId::QuitGame), BUTTON_INNER));
    assert!(!scene.slots[0].populated);
}

#[test]
fn partial_catalog_reports_the_gap() {
    let (mut scene, cfg, _) = build_world();
    spawn_ui(&mut scene, &cfg, UiId::Panel(UiPanelId::SrvConnError));
    // Only the title is covered; the inner zone is the authoring gap.
    let partial = ContentCatalog {
        entries: vec![CatalogEntry {
            id: UiId::Panel(UiPanelId::SrvConnError),
            slot: PANEL_TITLE,
            content: ContentSpec::Text("Connection Error".to_string()),
        }],
    };
    let err = resolve_pass(&mut scene, &partial, &cfg).unwrap_err();
    assert_eq!(
        err,
        UiError::MissingContent(UiId::Panel(UiPanelId::SrvConnError), PANEL_INNER)
    );
}

#[test]
fn resize_recomputes_geometry_and_keeps_content() {
    let (mut scene, cfg, catalog) = build_world();
    spawn_ui(&mut scene, &cfg, UiId::Button(UiButtonId::QuitGame));
    scene.resize(0, Size { width: 128, height: 48 });
    assert_eq!(
        scene.instances[0].geometry[1][1].dest,
        Rect { x: 10, y: 10, width: 108, height: 28 }
    );
    resolve_pass(&mut scene, &catalog, &cfg).unwrap();
    let before_records = records(&scene);
    scene.resize(0, Size { width: 200, height: 100 });
    assert_eq!(
        scene.instances[0].geometry[1][1].dest,
        Rect { x: 10, y: 10, width: 180, height: 80 }
    );
    assert_eq!(records(&scene), before_records);
    assert_eq!(scene.instances[0].target_size, Size { width: 200, height: 100 });
}

#[test]
fn connection_error_panel_resolves_to_messages() {
    let (mut scene, cfg, catalog) = build_world();
    spawn_ui(&mut scene, &cfg, UiId::Panel(UiPanelId::SrvConnError));
    assert_eq!(resolve_pass(&mut scene, &catalog, &cfg).unwrap(), 2);
    assert_eq!(
        text_values(&scene),
        vec![
            "Connection Error".to_string(),
            "Failed to connect to server.".to_string(),
        ]
    );
    assert_eq!(resolve_pass(&mut scene, &catalog, &cfg).unwrap(), 0);
}
