use boundless_tray::arrange::{DragOrigin, DropTarget, LayoutModel, MoveDirection};
use boundless_tray::grid::LayoutGrid;
use boundless_tray::layout::{
    build_layout_summary, compute_visible_bounds, is_local_layout_token, is_peer_connected,
    layout_display_name, layout_peer_ids, rebuild_layout, resolve_layout_token_peer,
    serialize_layout_matrix, should_rebuild_layout_model, validate_layout_before_apply,
    LayoutApplyError,
};
use boundless_tray::ui::{UiPairedPeer, UiSnapshot};

fn peer(peer_id: &str, display_name: &str, connected: bool) -> UiPairedPeer {
    UiPairedPeer {
        peer_id: peer_id.to_string(),
        display_name: display_name.to_string(),
        address: "127.0.0.1:15100".to_string(),
        connected,
        health_state: if connected { "connected" } else { "disconnected" }.to_string(),
        health_reason: if connected { "connected" } else { "no recent peer event" }.to_string(),
        trust_state: "trusted".to_string(),
        trusted_since: String::new(),
        trust_fingerprint: String::new(),
        device_identity: String::new(),
    }
}

fn snapshot(matrix: &str, peers: Vec<UiPairedPeer>) -> UiSnapshot {
    let mut snapshot = UiSnapshot::default();
    snapshot.machine_id = "local-machine".to_string();
    snapshot.layout_matrix = matrix.to_string();
    snapshot.paired_peers = peers;
    snapshot
}

fn place(grid: &LayoutGrid, id: &str) -> Option<(i32, i32)> {
    grid.cells
        .iter()
        .find(|cell| cell.id == id)
        .map(|cell| (cell.x, cell.y))
}

#[test]
fn rebuilds_when_paired_peer_ids_change_without_layout_matrix_change() {
    let current_peer_ids = vec!["peer-a".to_string(), "peer-b".to_string()];
    let last_peer_ids = vec!["peer-a".to_string()];

    assert!(should_rebuild_layout_model(
        true,
        "local-machine",
        "self",
        "self",
        &current_peer_ids,
        &last_peer_ids,
        false,
    ));
}

#[test]
fn defers_rebuild_while_dragging_even_if_peer_ids_change() {
    let current_peer_ids = vec!["peer-a".to_string(), "peer-b".to_string()];
    let last_peer_ids = vec!["peer-a".to_string()];

    assert!(!should_rebuild_layout_model(
        true,
        "local-machine",
        "self",
        "self",
        &current_peer_ids,
        &last_peer_ids,
        true,
    ));
}

#[test]
fn resolves_layout_token_peer_with_shared_grammar() {
    let peers = vec![
        peer("aaaaaaaa-bbbb-cccc-dddd-eeeeeeeeeeee", "Office", true),
        peer("11111111-2222-3333-4444-555555555555", "Laptop", false),
    ];

    assert_eq!(
        resolve_layout_token_peer("AAAAAAAA", &peers).map(|peer| peer.peer_id.as_str()),
        Some("aaaaaaaa-bbbb-cccc-dddd-eeeeeeeeeeee")
    );
    assert_eq!(
        resolve_layout_token_peer("office", &peers).map(|peer| peer.peer_id.as_str()),
        Some("aaaaaaaa-bbbb-cccc-dddd-eeeeeeeeeeee")
    );
    assert_eq!(
        resolve_layout_token_peer("missing", &peers).map(|peer| peer.peer_id.as_str()),
        None
    );
}

#[test]
fn layout_local_token_recognizes_canonical_aliases_and_machine_id() {
    let machine_id = "local-machine-id";
    assert!(is_local_layout_token("self", machine_id));
    assert!(is_local_layout_token("local", machine_id));
    assert!(is_local_layout_token("this", machine_id));
    assert!(is_local_layout_token("me", machine_id));
    assert!(is_local_layout_token("LOCAL-MACHINE-ID", machine_id));
}

#[test]
fn layout_local_token_rejects_legacy_this_pc() {
    assert!(!is_local_layout_token("THIS-PC", "local-machine-id"));
}

#[test]
fn layout_serialization_uses_canonical_self_token() {
    let mut grid = LayoutGrid::new();
    grid.insert(1, 1, "local-machine-id".to_string());
    grid.insert(2, 1, "peer-right".to_string());

    let matrix = serialize_layout_matrix(&grid, "local-machine-id");
    assert_eq!(matrix, "self,peer-right");
}

#[test]
fn layout_apply_validation_requires_exactly_one_local_cell() {
    let mut grid = LayoutGrid::new();
    grid.insert(0, 0, "peer-a".to_string());
    assert!(
        validate_layout_before_apply(&grid, "local-machine-id").is_err(),
        "layout with zero local cells must fail apply validation"
    );

    grid.insert(1, 0, "local-machine-id".to_string());
    assert!(
        validate_layout_before_apply(&grid, "local-machine-id").is_ok(),
        "layout with one local cell should pass apply validation"
    );

    grid.insert(2, 0, "LOCAL-MACHINE-ID".to_string());
    assert!(
        validate_layout_before_apply(&grid, "local-machine-id").is_err(),
        "layout with multiple local cells must fail apply validation"
    );
}

#[test]
fn layout_visible_bounds_include_drag_origin_for_edge_drags() {
    let mut grid = LayoutGrid::new();
    grid.insert(3, 3, "local-machine-id".to_string());

    let bounds = compute_visible_bounds(&grid, Some((4, 3)));

    assert_eq!(
        bounds,
        (2, 2, 5, 4),
        "dragging an edge device should keep its original edge cell visible"
    );
}

#[test]
fn layout_visible_bounds_center_on_drag_origin_when_grid_is_temporarily_empty() {
    let grid = LayoutGrid::new();

    let bounds = compute_visible_bounds(&grid, Some((6, 0)));

    assert_eq!(
        bounds,
        (4, 0, 6, 2),
        "dragging the only visible device should still leave a drop target near its origin"
    );
}

#[test]
fn empty_grid_shows_its_middle() {
    assert_eq!(compute_visible_bounds(&LayoutGrid::new(), None), (2, 2, 4, 4));
}

#[test]
fn apply_errors_say_what_is_wrong() {
    let mut grid = LayoutGrid::new();
    assert_eq!(
        validate_layout_before_apply(&grid, "m"),
        Err(LayoutApplyError::NoLocalMachine)
    );
    grid.insert(0, 0, "self".to_string());
    grid.insert(0, 1, "m".to_string());
    assert_eq!(
        validate_layout_before_apply(&grid, "m"),
        Err(LayoutApplyError::SeveralLocalMachines)
    );
    assert!(LayoutApplyError::NoLocalMachine.message().contains("none"));
    assert!(LayoutApplyError::SeveralLocalMachines.message().contains("several"));
}

#[test]
fn grid_keeps_one_machine_per_cell() {
    let mut grid = LayoutGrid::new();
    grid.insert(1, 2, "a".to_string());
    grid.insert(1, 2, "b".to_string());
    assert_eq!(grid.get(1, 2).map(|id| id.as_str()), Some("b"));
    assert!(grid.holds("b"));
    assert!(!grid.holds("a"));
    assert_eq!(grid.remove(1, 2).as_deref(), Some("b"));
    assert!(grid.get(1, 2).is_none());
}

#[test]
fn peer_ids_are_sorted() {
    let peers = vec![peer("b", "B", true), peer("a", "A", true)];
    assert_eq!(layout_peer_ids(&peers), vec!["a".to_string(), "b".to_string()]);
}

#[test]
fn matrix_is_centred_and_missing_machines_are_listed() {
    let peers = vec![peer("peer-1", "Desk", true), peer("peer-2", "Den", false)];
    let (grid, unassigned) = rebuild_layout(
        &"self,peer-1".to_string(),
        &"local-machine".to_string(),
        &peers,
    );
    let local = place(&grid, "local-machine").expect("this machine is on the grid");
    let other = place(&grid, "peer-1").expect("the peer is on the grid");
    assert_eq!((local.0 + 1, local.1), other);
    assert_eq!(unassigned, vec!["peer-2".to_string()]);
}

#[test]
fn written_layout_reads_back() {
    let peers = vec![peer("peer-1", "Desk", true), peer("peer-2", "Den", false)];
    let local = "local-machine".to_string();
    for matrix in ["self,peer-1;peer-2,", "peer-1;self", "peer-2,self,peer-1"] {
        let (grid, _) = rebuild_layout(&matrix.to_string(), &local, &peers);
        assert_eq!(serialize_layout_matrix(&grid, &local), matrix);
    }
}

#[test]
fn shown_names_and_connections() {
    let peers = vec![peer("peer-1", "Desk", true), peer("peer-2", "Den", false)];
    assert_eq!(layout_display_name("local", "local", &peers), "This PC");
    assert_eq!(layout_display_name("peer-1", "local", &peers), "Desk");
    assert_eq!(layout_display_name("0123456789", "local", &peers), "01234567");
    assert!(is_peer_connected("local", "local", &peers));
    assert!(is_peer_connected("peer-1", "local", &peers));
    assert!(!is_peer_connected("peer-2", "local", &peers));
    assert!(!is_peer_connected("peer-3", "local", &peers));
}

#[test]
fn summary_names_the_neighbours() {
    let peers = vec![peer("peer-1", "Desk", true)];
    let mut grid = LayoutGrid::new();
    grid.insert(3, 3, "local".to_string());
    grid.insert(4, 3, "peer-1".to_string());
    let summary = build_layout_summary(&grid, "local", &peers);
    assert_eq!(summary, "Layout: This PC -- Desk (right)");

    let peers = vec![
        peer("a", "Office Desktop", true),
        peer("b", "Living Room", true),
        peer("c", "Attic", false),
    ];
    let mut grid = LayoutGrid::new();
    grid.insert(2, 3, "a".to_string());
    grid.insert(3, 3, "me".to_string());
    grid.insert(4, 3, "b".to_string());
    assert_eq!(
        build_layout_summary(&grid, "me", &peers),
        "Layout: Office Desktop (left) -- This PC -- Living Room (right)"
    );
    grid.insert(3, 2, "c".to_string());
    assert_eq!(
        build_layout_summary(&grid, "me", &peers),
        "Layout: Office Desktop (left) -- This PC -- Living Room (right)  |  Attic (above)"
    );
}

#[test]
fn dragging_swaps_and_undo_returns() {
    let peers = vec![peer("peer-1", "Desk", true)];
    let snapshot = snapshot("self,peer-1", peers);
    let mut model = LayoutModel::new();
    model.sync(&snapshot);
    let local = place(&model.grid, "local-machine").expect("local");
    let other = place(&model.grid, "peer-1").expect("peer");

    assert!(model.start_drag(DragOrigin::Cell { x: other.0, y: other.1 }));
    assert_eq!(model.drag_origin_cell(), Some(other));
    model.finish_drag(DropTarget::Cell { x: local.0, y: local.1 });
    assert_eq!(place(&model.grid, "peer-1"), Some(local));
    assert_eq!(place(&model.grid, "local-machine"), Some(other));

    model.undo_layout();
    assert_eq!(place(&model.grid, "peer-1"), Some(other));
    model.undo_layout();
    assert_eq!(place(&model.grid, "peer-1"), Some(local));
}

#[test]
fn dragging_out_takes_a_machine_off_the_grid_and_losing_the_pointer_puts_it_back() {
    let snapshot = snapshot("self,peer-1", vec![peer("peer-1", "Desk", true)]);
    let mut model = LayoutModel::new();
    model.sync(&snapshot);
    let other = place(&model.grid, "peer-1").expect("peer");

    assert!(model.start_drag(DragOrigin::Cell { x: other.0, y: other.1 }));
    model.finish_drag(DropTarget::Unknown);
    assert_eq!(place(&model.grid, "peer-1"), Some(other));

    assert!(model.start_drag(DragOrigin::Cell { x: other.0, y: other.1 }));
    model.finish_drag(DropTarget::Outside);
    assert_eq!(place(&model.grid, "peer-1"), None);
    assert_eq!(model.unassigned, vec!["peer-1".to_string()]);

    assert!(model.start_drag(DragOrigin::Unassigned { index: 0 }));
    model.finish_drag(DropTarget::Cell { x: 0, y: 0 });
    assert_eq!(place(&model.grid, "peer-1"), Some((0, 0)));
    assert!(model.unassigned.is_empty());
    assert!(!model.start_drag(DragOrigin::Unassigned { index: 0 }));
}

#[test]
fn an_arrangement_is_read_anew_while_a_machine_is_dragged() {
    let snapshot = snapshot("self,peer-1", vec![peer("peer-1", "Desk", true)]);
    let mut model = LayoutModel::new();
    model.sync(&snapshot);
    let other = place(&model.grid, "peer-1").expect("peer");
    model.reset_layout();
    assert!(model.start_drag(DragOrigin::Cell { x: other.0, y: other.1 }));
    assert_eq!(place(&model.grid, "peer-1"), None);

    model.sync(&snapshot);
    assert!(model.initialized && model.dragging_peer.is_some());
    assert_eq!(place(&model.grid, "peer-1"), Some(other));
    assert_eq!(model.last_matrix, "self,peer-1");
    assert_eq!(model.last_peer_ids, vec!["peer-1".to_string()]);

    // Its old cell is taken again, and the list beside the grid may be shorter.
    model.finish_drag(DropTarget::Unknown);
    assert_eq!(place(&model.grid, "peer-1"), Some(other));
    model.unassigned = vec!["a".to_string(), "b".to_string()];
    assert!(model.start_drag(DragOrigin::Unassigned { index: 1 }));
    model.initialized = false;
    model.sync(&snapshot);
    assert!(model.unassigned.is_empty());
    model.finish_drag(DropTarget::Outside);
    assert_eq!(model.unassigned, vec!["b".to_string()]);
}

#[test]
fn undoing_while_a_machine_is_dragged_exchanges_the_arrangements() {
    let snapshot = snapshot("self,peer-1", vec![peer("peer-1", "Desk", true)]);
    let mut model = LayoutModel::new();
    model.undo_layout();
    assert!(model.previous.is_none() && model.grid.cells.is_empty());
    model.sync(&snapshot);
    let other = place(&model.grid, "peer-1").expect("peer");
    assert!(model.start_drag(DragOrigin::Cell { x: other.0, y: other.1 }));
    model.undo_layout();
    assert_eq!(place(&model.grid, "peer-1"), Some(other));
    assert!(model.dragging_peer.is_some());
    model.undo_layout();
    assert_eq!(place(&model.grid, "peer-1"), None);
    model.undo_layout();
    model.finish_drag(DropTarget::Cell { x: other.0, y: other.1 });
    assert_eq!(place(&model.grid, "peer-1"), Some(other));
}

#[test]
fn removing_and_moving_machines() {
    let snapshot = snapshot("self,peer-1", vec![peer("peer-1", "Desk", true)]);
    let mut model = LayoutModel::new();
    model.sync(&snapshot);
    let local = place(&model.grid, "local-machine").expect("local");
    let other = place(&model.grid, "peer-1").expect("peer");

    assert!(model.move_peer(other.0, other.1, MoveDirection::Left));
    assert_eq!(place(&model.grid, "peer-1"), Some(local));
    assert_eq!(place(&model.grid, "local-machine"), Some(other));
    assert!(model.move_peer(local.0, local.1, MoveDirection::Down));
    assert_eq!(place(&model.grid, "peer-1"), Some((local.0, local.1 + 1)));
    assert!(!model.move_peer(local.0, local.1, MoveDirection::Up), "the cell is empty now");

    model.remove_from_grid(local.0, local.1 + 1);
    assert_eq!(place(&model.grid, "peer-1"), None);
    assert_eq!(model.unassigned, vec!["peer-1".to_string()]);
}

#[test]
fn machines_do_not_leave_the_grid() {
    let mut model = LayoutModel::new();
    model.grid.insert(0, 0, "peer-1".to_string());
    assert!(!model.move_peer(0, 0, MoveDirection::Up));
    assert!(!model.move_peer(0, 0, MoveDirection::Left));
    assert!(model.move_peer(0, 0, MoveDirection::Right));
    assert_eq!(place(&model.grid, "peer-1"), Some((1, 0)));
}

#[test]
fn the_order_of_machines_does_not_matter() {
    let peers = vec![
        peer("b-2", "Den", true),
        peer("a-1", "Desk", true),
        peer("b-2", "Den", true),
    ];
    let mut others = vec![peer("b-2", "Den", true), peer("b-2", "Den", true)];
    others.push(peer("a-1", "Desk", true));
    let ids = vec!["a-1".to_string(), "b-2".to_string(), "b-2".to_string()];
    assert_eq!(layout_peer_ids(&peers), ids);
    assert_eq!(layout_peer_ids(&others), ids);
    for token in [" A", "desk"] {
        for machines in [&peers, &others] {
            let named = resolve_layout_token_peer(token, machines).expect("one machine");
            assert_eq!(named.peer_id, "a-1");
        }
    }
    for token in ["b", "des", " ", ""] {
        assert!(resolve_layout_token_peer(token, &peers).is_none());
        assert!(resolve_layout_token_peer(token, &others).is_none());
    }
}
