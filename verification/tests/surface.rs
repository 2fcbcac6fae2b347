use herdr_core::protocol::codec::{check_surface_delta_consumed, frame_surface_delta, unframe_surface_delta};
use herdr_core::protocol::field::SurfaceFieldUpdate;
use herdr_core::protocol::surface::{
    validate_surface_seed, ClientShellPopupDelta, ClientShellSurfaceDelta, PaneRowMove, PaneSurfacePaneDelta,
    SurfaceGraphicsDelta, SurfaceGraphicsPlacementKey,
};
use herdr_core::protocol::surface_wire::{
    CellData, ClientShellPopupSurface, CursorState, FrameData, PaneSurfaceFrame, PaneSurfacePane, PaneSurfacePatchRow,
    SurfaceGraphicsAsset, SurfaceGraphicsAssetKey, SurfaceGraphicsPlacement, SurfaceGraphicsScene, SurfaceRect,
    MAX_FRAME_SIZE,
};

fn blank_cell() -> CellData {
    CellData { symbol: " ".into(), fg: 0, bg: 0, modifier: 0, skip: false, hyperlink: None }
}

fn cell(symbol: &str) -> CellData {
    CellData { symbol: symbol.into(), fg: 0, bg: 0, modifier: 0, skip: false, hyperlink: None }
}

fn make_test_surface(width: u16, height: u16) -> PaneSurfaceFrame {
    let cells = vec![blank_cell(); (width as usize) * (height as usize)];
    PaneSurfaceFrame {
        boot_id: "test-boot".into(),
        projection_revision: 1,
        surface_revision: 10,
        frame: FrameData {
            cells,
            width,
            height,
            cursor: None,
            hyperlinks: vec!["https://initial.example.com".into()],
            graphics: Vec::new(),
        },
        panes: vec![PaneSurfacePane {
            pane_id: "pane-1".into(),
            content_revision: 1,
            scroll: None,
            focused: true,
            mouse_reporting: false,
            sgr_pixel_mouse: false,
            alternate_screen_active: false,
            scrollbar_rect: None,
            rect: SurfaceRect { x: 0, y: 0, width, height },
            inner_rect: SurfaceRect { x: 0, y: 0, width, height },
            pixel_width: 800,
            pixel_height: 600,
        }],
        splits: Vec::new(),
        popup: None,
        graphics: SurfaceGraphicsScene::default(),
    }
}

fn base_delta() -> ClientShellSurfaceDelta {
    ClientShellSurfaceDelta {
        boot_id: "test-boot".into(),
        projection_revision: 1,
        base_surface_revision: 10,
        surface_revision: 11,
        spans: Vec::new(),
        row_moves: Vec::new(),
        panes: Vec::new(),
        splits: None,
        cursor: SurfaceFieldUpdate::Unchanged,
        appended_hyperlinks: Vec::new(),
        graphics: None,
        popup: None,
    }
}

#[test]
fn surface_delta_directional_row_moves_and_spans() {
    let mut surface = make_test_surface(10, 6);
    let mut scene = SurfaceGraphicsScene::default();
    for x in 0..10 {
        surface.frame.cells[10 + x].symbol = "A".into();
        surface.frame.cells[20 + x].symbol = "B".into();
    }
    let delta = ClientShellSurfaceDelta {
        spans: vec![PaneSurfacePatchRow {
            x: 0,
            y: 5,
            cells: vec![CellData { symbol: "Z".into(), fg: 1, bg: 0, modifier: 0, skip: false, hyperlink: None }],
        }],
        row_moves: vec![PaneRowMove { pane_id: "pane-1".into(), src_y: 1, dst_y: 0, count: 2 }],
        ..base_delta()
    };
    delta.apply_to(&mut surface, &mut scene).unwrap();
    assert_eq!(surface.surface_revision, 11);
    assert_eq!(surface.frame.cells[0].symbol, "A");
    assert_eq!(surface.frame.cells[10].symbol, "B");
    assert_eq!(surface.frame.cells[50].symbol, "Z");
}

#[test]
fn surface_delta_validates_and_rejects_out_of_bounds() {
    let surface = make_test_surface(10, 6);
    let scene = SurfaceGraphicsScene::default();
    let invalid_move = ClientShellSurfaceDelta {
        row_moves: vec![PaneRowMove { pane_id: "pane-1".into(), src_y: 5, dst_y: 0, count: 3 }],
        ..base_delta()
    };
    let mut received_surface = surface.clone();
    let mut received_scene = scene.clone();
    assert!(invalid_move.apply_to(&mut received_surface, &mut received_scene).is_err());
    assert_eq!(received_surface, surface);
}

#[test]
fn surface_delta_atomic_rejection_leaves_state_unchanged() {
    let surface = make_test_surface(10, 6);
    let scene = SurfaceGraphicsScene::default();
    let bad_delta = ClientShellSurfaceDelta {
        spans: vec![PaneSurfacePatchRow { x: 5, y: 10, cells: vec![cell("X")] }],
        ..base_delta()
    };
    let mut received_surface = surface.clone();
    let mut received_scene = scene.clone();
    assert!(bad_delta.apply_to(&mut received_surface, &mut received_scene).is_err());
    assert_eq!(received_surface, surface);
}

#[test]
fn cell_only_surface_delta_converts_to_legacy_patch() {
    let surface = make_test_surface(10, 6);
    let delta = ClientShellSurfaceDelta {
        spans: vec![PaneSurfacePatchRow { x: 0, y: 0, cells: vec![cell("/")] }],
        ..base_delta()
    };
    let patch = delta.into_legacy_patch(&surface).expect("legacy patch");
    assert_eq!(patch.rows.len(), 1);
    assert_eq!(patch.rows[0].cells[0].symbol, "/");
    assert!(patch.panes.is_empty(), "cell-only ticks must not clone pane metadata");
}

#[test]
fn row_move_surface_delta_stays_on_v2() {
    let surface = make_test_surface(10, 6);
    let delta = ClientShellSurfaceDelta {
        row_moves: vec![PaneRowMove { pane_id: "pane-1".into(), src_y: 1, dst_y: 0, count: 1 }],
        ..base_delta()
    };
    assert!(delta.into_legacy_patch(&surface).is_err());
}

#[test]
fn downward_row_move_copies_last_row_first() {
    let mut surface = make_test_surface(4, 4);
    let mut scene = SurfaceGraphicsScene::default();
    for x in 0..4 {
        surface.frame.cells[x].symbol = "A".into();
        surface.frame.cells[4 + x].symbol = "B".into();
    }
    let delta = ClientShellSurfaceDelta {
        row_moves: vec![PaneRowMove { pane_id: "pane-1".into(), src_y: 0, dst_y: 1, count: 2 }],
        ..base_delta()
    };
    delta.apply_to(&mut surface, &mut scene).unwrap();
    assert_eq!(surface.frame.cells[0].symbol, "A");
    assert_eq!(surface.frame.cells[4].symbol, "A");
    assert_eq!(surface.frame.cells[8].symbol, "B");
}

#[test]
fn replayed_surface_delta_is_refused() {
    let mut surface = make_test_surface(4, 2);
    let mut scene = SurfaceGraphicsScene::default();
    let delta = ClientShellSurfaceDelta {
        appended_hyperlinks: vec!["https://two.example.com".into()],
        cursor: SurfaceFieldUpdate::Changed(Some(CursorState { x: 1, y: 1, visible: true, shape: 2 })),
        ..base_delta()
    };
    delta.apply_to(&mut surface, &mut scene).unwrap();
    assert_eq!(surface.frame.hyperlinks.len(), 2);
    assert_eq!(surface.frame.cursor, Some(CursorState { x: 1, y: 1, visible: true, shape: 2 }));
    let before = surface.clone();
    assert!(delta.apply_to(&mut surface, &mut scene).is_err());
    assert_eq!(surface, before);
}

#[test]
fn span_hyperlink_index_must_fit_the_grown_table() {
    let surface = make_test_surface(4, 2);
    let scene = SurfaceGraphicsScene::default();
    let mut linked = cell("L");
    linked.hyperlink = Some(1);
    let too_far = ClientShellSurfaceDelta {
        spans: vec![PaneSurfacePatchRow { x: 0, y: 0, cells: vec![linked.clone()] }],
        ..base_delta()
    };
    assert!(too_far.validate(&surface, &scene).is_err());
    let grown = ClientShellSurfaceDelta {
        spans: vec![PaneSurfacePatchRow { x: 0, y: 0, cells: vec![linked] }],
        appended_hyperlinks: vec!["https://two.example.com".into()],
        ..base_delta()
    };
    assert!(grown.validate(&surface, &scene).is_ok());
}

#[test]
fn unknown_pane_delta_and_wrong_boot_are_refused() {
    let surface = make_test_surface(4, 2);
    let scene = SurfaceGraphicsScene::default();
    let pane_delta = PaneSurfacePaneDelta {
        pane_id: "missing".into(),
        content_revision: SurfaceFieldUpdate::Unchanged,
        scroll: SurfaceFieldUpdate::Unchanged,
        focused: SurfaceFieldUpdate::Changed(false),
        mouse_reporting: SurfaceFieldUpdate::Unchanged,
        sgr_pixel_mouse: SurfaceFieldUpdate::Unchanged,
        alternate_screen_active: SurfaceFieldUpdate::Unchanged,
        scrollbar_rect: SurfaceFieldUpdate::Unchanged,
        rect: SurfaceFieldUpdate::Unchanged,
        inner_rect: SurfaceFieldUpdate::Unchanged,
        pixel_width: SurfaceFieldUpdate::Unchanged,
        pixel_height: SurfaceFieldUpdate::Unchanged,
    };
    let unknown = ClientShellSurfaceDelta { panes: vec![pane_delta], ..base_delta() };
    assert!(unknown.validate(&surface, &scene).is_err());
    let wrong_boot = ClientShellSurfaceDelta { boot_id: "other".into(), ..base_delta() };
    assert!(wrong_boot.validate(&surface, &scene).is_err());
    let stale = ClientShellSurfaceDelta { projection_revision: 0, ..base_delta() };
    assert!(stale.validate(&surface, &scene).is_err());
}

#[test]
fn pane_delta_diff_applies_back() {
    let surface = make_test_surface(4, 2);
    let base = surface.panes[0].clone();
    let mut next = base.clone();
    next.focused = false;
    next.pixel_width = 1024;
    let delta = PaneSurfacePaneDelta::diff(&base, &next).expect("changed pane");
    assert_eq!(delta.focused, SurfaceFieldUpdate::Changed(false));
    assert_eq!(delta.rect, SurfaceFieldUpdate::Unchanged);
    let mut applied = base.clone();
    delta.apply_to(&mut applied);
    assert_eq!(applied, next);
    assert!(PaneSurfacePaneDelta::diff(&base, &base).is_none());
}

#[test]
fn graphics_delta_replaces_assets_and_placements() {
    let mut surface = make_test_surface(2, 1);
    let key = SurfaceGraphicsAssetKey { id: 7, data_len: 3 };
    let mut scene = SurfaceGraphicsScene {
        assets: vec![SurfaceGraphicsAsset { key: key.clone(), data: vec![1, 2, 3] }],
        placements: vec![SurfaceGraphicsPlacement { asset: key.clone(), logical_placement_id: 1, x: 0, y: 0 }],
        retained_assets: Vec::new(),
    };
    let new_key = SurfaceGraphicsAssetKey { id: 8, data_len: 2 };
    let delta = ClientShellSurfaceDelta {
        graphics: Some(SurfaceGraphicsDelta {
            added_assets: vec![SurfaceGraphicsAsset { key: new_key.clone(), data: vec![9, 9] }],
            removed_assets: vec![key.clone()],
            added_placements: vec![SurfaceGraphicsPlacement { asset: new_key.clone(), logical_placement_id: 2, x: 1, y: 0 }],
            removed_placements: vec![SurfaceGraphicsPlacementKey { asset: key.clone(), logical_placement_id: 1 }],
            retained_assets: vec![new_key.clone()],
        }),
        ..base_delta()
    };
    delta.apply_to(&mut surface, &mut scene).unwrap();
    assert_eq!(scene.assets.len(), 1);
    assert_eq!(scene.assets[0].key, new_key);
    assert_eq!(scene.placements.len(), 1);
    assert_eq!(scene.placements[0].logical_placement_id, 2);
    assert_eq!(scene.retained_assets, vec![new_key]);

    let bad = ClientShellSurfaceDelta {
        graphics: Some(SurfaceGraphicsDelta {
            added_assets: vec![SurfaceGraphicsAsset { key: SurfaceGraphicsAssetKey { id: 9, data_len: 5 }, data: vec![1] }],
            ..SurfaceGraphicsDelta::default()
        }),
        base_surface_revision: 11,
        surface_revision: 12,
        ..base_delta()
    };
    assert!(bad.validate(&surface, &scene).is_err());
}

#[test]
fn popup_spans_need_a_popup_unless_seeded_or_cleared() {
    let mut surface = make_test_surface(2, 1);
    let mut scene = SurfaceGraphicsScene::default();
    let spans_only = ClientShellSurfaceDelta {
        popup: Some(ClientShellPopupDelta { spans: vec![PaneSurfacePatchRow { x: 0, y: 0, cells: vec![cell("p")] }], ..ClientShellPopupDelta::default() }),
        ..base_delta()
    };
    assert!(spans_only.validate(&surface, &scene).is_err());
    let seed = ClientShellPopupSurface {
        frame: FrameData { cells: vec![blank_cell(); 2], width: 2, height: 1, cursor: None, hyperlinks: Vec::new(), graphics: Vec::new() },
        rect: SurfaceRect { x: 0, y: 0, width: 2, height: 1 },
    };
    let seeded = ClientShellSurfaceDelta {
        popup: Some(ClientShellPopupDelta { seed: Some(Box::new(seed)), ..ClientShellPopupDelta::default() }),
        ..base_delta()
    };
    seeded.apply_to(&mut surface, &mut scene).unwrap();
    let patch = ClientShellSurfaceDelta {
        base_surface_revision: 11,
        surface_revision: 12,
        popup: Some(ClientShellPopupDelta { spans: vec![PaneSurfacePatchRow { x: 1, y: 0, cells: vec![cell("p")] }], ..ClientShellPopupDelta::default() }),
        ..base_delta()
    };
    patch.apply_to(&mut surface, &mut scene).unwrap();
    assert_eq!(surface.popup.as_ref().unwrap().frame.cells[1].symbol, "p");
}

#[test]
fn surface_seed_validation_checks_cells_ids_and_hyperlinks() {
    let mut surface = make_test_surface(3, 2);
    assert!(validate_surface_seed(&surface).is_ok());
    surface.frame.cells.pop();
    assert!(validate_surface_seed(&surface).is_err());
    let mut linked = make_test_surface(3, 2);
    linked.frame.cells[0].hyperlink = Some(1);
    assert!(validate_surface_seed(&linked).is_err());
    let mut twice = make_test_surface(3, 2);
    let copy = twice.panes[0].clone();
    twice.panes.push(copy);
    assert!(validate_surface_seed(&twice).is_err());
}

#[test]
fn framed_surface_bytes_round_trip_without_padding() {
    let bytes = vec![1u8, 2, 3, 4, 5];
    let text = frame_surface_delta(&bytes).unwrap();
    assert!(!text.ends_with('='));
    assert_eq!(text, "AQIDBAU");
    assert_eq!(unframe_surface_delta(&text).unwrap(), bytes);
    assert_eq!(unframe_surface_delta("AQIDBAU=").unwrap(), bytes);
    assert!(unframe_surface_delta("***").is_err());
    assert!(check_surface_delta_consumed(5, 5).is_ok());
    assert!(check_surface_delta_consumed(4, 5).is_err());
    assert!(frame_surface_delta(&vec![0u8; MAX_FRAME_SIZE + 1]).is_err());
}

#[test]
fn refused_surface_deltas_say_why() {
    let surface = make_test_surface(10, 6);
    let scene = SurfaceGraphicsScene::default();
    let out_of_pane = ClientShellSurfaceDelta {
        row_moves: vec![PaneRowMove { pane_id: "pane-1".into(), src_y: 5, dst_y: 0, count: 3 }],
        ..base_delta()
    };
    assert_eq!(
        out_of_pane.validate(&surface, &scene),
        Err("row move out of pane bounds: src 5 dst 0 count 3 pane [0..6]".to_string())
    );
    let unknown_pane = ClientShellSurfaceDelta {
        row_moves: vec![PaneRowMove { pane_id: "pane-9".into(), src_y: 0, dst_y: 1, count: 1 }],
        ..base_delta()
    };
    assert_eq!(unknown_pane.validate(&surface, &scene), Err("row move unknown pane: pane-9".to_string()));
    let off_frame = ClientShellSurfaceDelta {
        spans: vec![PaneSurfacePatchRow { x: 5, y: 10, cells: vec![cell("X")] }],
        ..base_delta()
    };
    assert_eq!(
        off_frame.validate(&surface, &scene),
        Err("span out of frame bounds: at (5, 10) len 1 frame (10x6)".to_string())
    );
    let bad_link = ClientShellSurfaceDelta {
        spans: vec![PaneSurfacePatchRow {
            x: 0,
            y: 0,
            cells: vec![cell("a"), CellData { hyperlink: Some(3), ..cell("b") }],
        }],
        appended_hyperlinks: vec!["https://x.example".into()],
        ..base_delta()
    };
    assert_eq!(
        bad_link.validate(&surface, &scene),
        Err("invalid hyperlink index 3 in span (table len 2)".to_string())
    );
    let stale = ClientShellSurfaceDelta { base_surface_revision: 9, ..base_delta() };
    assert_eq!(
        stale.validate(&surface, &scene),
        Err("surface delta base revision mismatch: surface 10 != delta base 9".to_string())
    );
}

#[test]
fn refused_surface_seed_says_why() {
    let mut surface = make_test_surface(4, 2);
    surface.frame.cells.pop();
    assert_eq!(
        validate_surface_seed(&surface),
        Err("surface seed cells len mismatch: expected 8 (4x2) got 7".to_string())
    );
    let mut surface = make_test_surface(4, 2);
    surface.frame.cells[3].hyperlink = Some(5);
    assert_eq!(
        validate_surface_seed(&surface),
        Err("surface seed cell hyperlink index 5 >= table len 1".to_string())
    );
}
