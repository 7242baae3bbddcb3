use boundless_tray::actions::DashboardCommand;
use boundless_tray::arrange::{DragOrigin, LayoutModel};
use boundless_tray::dashboard::{AppMsg, DashboardModel};
use boundless_tray::elevated::{ElevatedInputControllerStatus, InputInjectorState};
use boundless_tray::files::SendHint;
use boundless_tray::maps::{FlagMap, TextMap};
use boundless_tray::pairing::{port_entry_valid, request_code_lines};
use boundless_tray::status::{
    capture_backend_note, has_connected_peer, helper_controls, helper_status_line,
    runtime_version_line, support_details, versions_differ, HelperControls,
};
use boundless_tray::ui::{
    ui_snapshot, UiDiscoveredPeer, UiFileTransfer, UiFileTransferConfig, UiPairedPeer,
    UiPendingRequest, UiSnapshot, WireSnapshot,
};

fn peer(id: &str, name: &str, connected: bool) -> UiPairedPeer {
    UiPairedPeer {
        peer_id: id.to_string(),
        display_name: name.to_string(),
        address: String::new(),
        connected,
        health_state: String::new(),
        health_reason: String::new(),
        trust_state: String::new(),
        trusted_since: String::new(),
        trust_fingerprint: String::new(),
        device_identity: String::new(),
    }
}

fn transfer(id: &str, direction: &str, state: &str) -> UiFileTransfer {
    UiFileTransfer {
        transfer_id: id.to_string(),
        previous_transfer_id: String::new(),
        direction: direction.to_string(),
        peer_id: "peer-b".to_string(),
        file_name: "notes.txt".to_string(),
        state: state.to_string(),
        transferred_bytes: 0,
        total_bytes: 10,
        failure_reason: String::new(),
        source_path: "C:\\notes.txt".to_string(),
        final_path: "C:\\in\\notes.txt".to_string(),
        queued_at: String::new(),
        updated_at: String::new(),
    }
}

fn model(shares_files: bool) -> DashboardModel {
    let mut features = FlagMap::new();
    features.insert("transfer_file".to_string(), shares_files);
    let snapshot = UiSnapshot {
        daemon_online: true,
        daemon_version: "5.0.1".to_string(),
        machine_id: "local".to_string(),
        features,
        paired_peers: vec![peer("peer-a", "Desk", false), peer("peer-b", "Lap", true)],
        file_transfers: vec![
            transfer("t-queued", "outgoing", "queued"),
            transfer("t-failed", "outgoing", "failed"),
            transfer("t-in", "incoming", "completed"),
        ],
        ..UiSnapshot::default()
    };
    let mut model = DashboardModel::new(None, 0);
    model.apply_app_msg(AppMsg::SnapshotUpdated(snapshot), 0);
    model
}

#[test]
fn files_are_offered_to_the_first_connected_machine() {
    let mut model = model(true);
    assert_eq!(model.receiver_name(), "No connected PC");
    model.choose_receiver();
    assert_eq!(model.file_send_peer, "peer-b");
    assert_eq!(model.receiver_name(), "Lap");
    assert_eq!(model.send_hint(), SendHint::ChooseFile);
    model.snapshot.paired_peers[1].connected = false;
    model.choose_receiver();
    assert_eq!(model.file_send_peer, "");
    assert_eq!(model.send_hint(), SendHint::NothingConnected);
    assert_eq!(
        model.send_hint().text(),
        "Connect a paired PC before sending a file."
    );
    assert!(model.send_file().is_none());
}

#[test]
fn transfers_can_be_stopped_retried_shown_and_cleared() {
    let shared = model(true);
    assert!(matches!(
        shared.cancel_transfer(0),
        Some(DashboardCommand::CancelFileTransfer(id)) if id == "t-queued"
    ));
    assert!(shared.cancel_transfer(1).is_none());
    assert!(shared.cancel_transfer(9).is_none());
    assert!(matches!(
        shared.retry_transfer(1),
        Some(DashboardCommand::RetryFileTransfer(id)) if id == "t-failed"
    ));
    assert!(model(false).retry_transfer(1).is_none());
    assert!(matches!(
        shared.open_transfer_location(2),
        Some(DashboardCommand::OpenReceivedFileLocation(path)) if path == "C:\\in\\notes.txt"
    ));
    assert!(shared.open_transfer_location(0).is_none());
    assert!(matches!(
        shared.clear_completed_transfers(),
        Some(DashboardCommand::ClearCompletedFileTransfers)
    ));
    let mut nothing_completed = model(true);
    nothing_completed.snapshot.file_transfers.pop();
    assert!(nothing_completed.clear_completed_transfers().is_none());
}

#[test]
fn incoming_files_are_explained() {
    let mut model = model(true);
    assert_eq!(
        model.receive_hint(),
        "Incoming files are blocked. Allow trusted PCs in Sharing before receiving."
    );
    model.snapshot.file_transfer_config = UiFileTransferConfig {
        auto_accept_trusted_peers: true,
        receive_dir: "C:\\in".to_string(),
        ..UiFileTransferConfig::default()
    };
    assert_eq!(
        model.receive_hint(),
        "Incoming files from trusted PCs are allowed."
    );
    model
        .snapshot
        .features
        .insert("transfer_file".to_string(), false);
    assert_eq!(model.receive_hint(), "File sharing is off.");
    assert!(matches!(
        model.open_receive_folder(),
        DashboardCommand::OpenReceiveFolder(folder) if folder == "C:\\in"
    ));
}

#[test]
fn discovered_machines_are_paired_at_their_endpoint() {
    let mut model = model(true);
    let mut found = UiDiscoveredPeer {
        machine_id: "m-1".to_string(),
        display_name: "Attic".to_string(),
        endpoint: "10.0.0.9:15100".to_string(),
        endpoint_candidates: Vec::new(),
    };
    match model.connect_discovered_peer(&found, 0) {
        Some(DashboardCommand::RequestPairingCode { attempt_id, flow }) => {
            assert_eq!(attempt_id, 1);
            assert_eq!(flow.host, "10.0.0.9");
            assert_eq!(flow.dialog_title, "Pair with Attic");
        }
        other => panic!("unexpected command {other:?}"),
    }
    assert!(model.pairing.is_active_attempt(1));
    assert!(!model.pairing.is_active_attempt(2));
    found.endpoint = "no-port".to_string();
    assert!(model.connect_discovered_peer(&found, 0).is_none());
    assert_eq!(model.toasts.toasts.len(), 1);
    assert!(model.toasts.toasts[0].is_error);
}

#[test]
fn a_requested_preference_reset_can_be_taken_back() {
    let mut model = model(true);
    model.request_safe_reset();
    assert!(model.confirm_safe_reset_pending);
    model.cancel_safe_reset();
    assert!(!model.confirm_safe_reset_pending);
    assert!(model.confirm_safe_reset().is_none());
}

#[test]
fn whoever_may_measure_is_named() {
    let mut model = model(true);
    assert_eq!(model.testing_peer_name(), "Choose a paired PC");
    model.choose_testing_peer();
    assert_eq!(model.testing_peer_name(), "Desk");
}

#[test]
fn ports_are_checked_as_they_are_typed() {
    assert!(port_entry_valid(" 15200 "));
    assert!(port_entry_valid("65535"));
    assert!(!port_entry_valid("0"));
    assert!(!port_entry_valid("65536"));
    assert!(!port_entry_valid(""));
}

#[test]
fn the_helper_is_offered_where_the_broker_can_use_it() {
    let off = ElevatedInputControllerStatus::default();
    assert_eq!(
        helper_controls("user_session_broker", &off),
        HelperControls {
            supported: true,
            can_enable: true,
            can_disable: false,
            fallback_blocked: false,
        }
    );
    assert!(!helper_controls("windows_hooks", &off).can_enable);
    let mut lost = ElevatedInputControllerStatus::default();
    lost.mark_delivery_uncertain();
    let controls = helper_controls("user_session_broker", &lost);
    assert!(!controls.can_enable && !controls.can_disable && controls.fallback_blocked);
    let mut unreachable = ElevatedInputControllerStatus::default();
    unreachable.mark_ipc_unavailable();
    assert!(helper_controls("user_session_broker", &unreachable).can_enable);
    unreachable.mark_shutdown_incomplete();
    assert_eq!(unreachable.state, InputInjectorState::Unavailable);
    assert_eq!(
        helper_status_line("ready_pending_idle", "none", "unsigned_dogfood", "1.2"),
        "State: ready pending idle  |  Reason: none  |  Trust: unsigned dogfood  |  Helper: 1.2"
    );
    assert_eq!(
        helper_status_line("off", "none", "unspecified", ""),
        "State: off  |  Reason: none  |  Trust: unspecified"
    );
    assert_eq!(
        capture_backend_note("direct", InputInjectorState::Off),
        None
    );
    assert!(
        capture_backend_note("user_session_broker", InputInjectorState::Active)
            .is_some_and(|note| note.contains("control enabled"))
    );
    assert!(
        capture_backend_note("user_session_broker", InputInjectorState::Off)
            .is_some_and(|note| note.contains("explicit control below"))
    );
}

#[test]
fn versions_are_compared_while_the_runtime_is_there() {
    let mut snapshot = model(true).snapshot;
    assert_eq!(
        runtime_version_line(&snapshot),
        "Connected background runtime: 5.0.1"
    );
    assert!(!versions_differ(&snapshot, "5.0.1"));
    assert!(versions_differ(&snapshot, "5.0.2"));
    assert_eq!(
        support_details(&snapshot, "5.0.2", "pipe lost"),
        "Boundless tray 5.0.2\nRuntime 5.0.1\nOnline true\npipe lost"
    );
    snapshot.daemon_online = false;
    assert!(!versions_differ(&snapshot, "5.0.2"));
    assert_eq!(
        runtime_version_line(&snapshot),
        "Background runtime unavailable. Its current version could not be checked."
    );
    assert!(has_connected_peer(&snapshot.paired_peers));
    snapshot.paired_peers[1].connected = false;
    assert!(!has_connected_peer(&snapshot.paired_peers));
}

#[test]
fn a_snapshot_without_its_parts_has_empty_ones() {
    let mut hotkeys = TextMap::new();
    hotkeys.insert("reconnect".to_string(), "Ctrl+R".to_string());
    let snapshot = ui_snapshot(WireSnapshot {
        generated_at: "now".to_string(),
        daemon_online: true,
        daemon_version: "5".to_string(),
        machine_id: "local".to_string(),
        layout_matrix: "self".to_string(),
        features: FlagMap::new(),
        hotkeys,
        discovered_peers: Vec::new(),
        paired_peers: vec![peer("peer-a", "Desk", true)],
        pending_requests: Vec::new(),
        anti_idle_config: None,
        anti_idle_status: None,
        file_transfer_config: Some(UiFileTransferConfig {
            receive_dir: "C:\\in".to_string(),
            organize_by_peer: true,
            auto_accept_trusted_peers: false,
            max_file_bytes: 9,
        }),
        file_transfers: Vec::new(),
        input_handoff_config: None,
        input_runtime: None,
        clipboard_runtime: None,
    });
    assert_eq!(snapshot.machine_id, "local");
    assert_eq!(snapshot.paired_peers[0].peer_id, "peer-a");
    assert_eq!(snapshot.file_transfer_config.max_file_bytes, 9);
    assert!(!snapshot.anti_idle_config.enabled);
    assert_eq!(snapshot.input_runtime.capture_backend_mode, "");
    let mut same = TextMap::new();
    same.insert("reconnect".to_string(), "Ctrl+R".to_string());
    assert!(snapshot.hotkeys.same_as(&same));
    same.insert("reconnect".to_string(), "Ctrl+T".to_string());
    assert!(!snapshot.hotkeys.same_as(&same));
}

#[test]
fn an_arrangement_is_confirmed_before_it_goes_out() {
    let mut layout = LayoutModel::new();
    layout.grid.insert(3, 3, "local".to_string());
    layout.unassigned.push("peer-a".to_string());
    layout.confirm_apply_pending = true;
    layout.cancel_apply();
    assert!(!layout.confirm_apply_pending);
    layout.confirm_apply_pending = true;
    assert_eq!(layout.written("local"), "self");
    assert_eq!(layout.confirm_apply("local"), "self");
    assert!(!layout.confirm_apply_pending);

    layout.stash_layout_for_undo();
    assert!(layout.start_drag(DragOrigin::Unassigned { index: 0 }));
    assert!(layout.unassigned.is_empty());
}

#[test]
fn features_are_shown_as_they_will_be() {
    let mut model = model(true);
    model
        .snapshot
        .features
        .insert("share_input".to_string(), true);
    assert!(model.feature_shown("share_input") && model.feature_free("share_input"));
    let _ = model.pause_input();
    assert!(!model.feature_shown("share_input"));
    assert!(!model.feature_free("share_input"));
    assert!(model.feature_shown("transfer_file") && model.feature_free("transfer_file"));
    assert!(model.can_change_testing());
    model.choose_receiver();
    assert!(model.can_send_file());
    let _ = model.send_file();
    assert!(!model.can_send_file());
}

#[test]
fn codes_of_requests_are_shown_where_this_endpoint_has_them() {
    let mut request = UiPendingRequest {
        request_id: "r".to_string(),
        requester_machine_id: "m".to_string(),
        requester_display_name: "Attic".to_string(),
        created_at: String::new(),
        verification_code: "123456".to_string(),
        verification_expires_at: "soon".to_string(),
        requires_verification_code: false,
    };
    assert_eq!(request_code_lines(&request), None);
    request.requires_verification_code = true;
    assert_eq!(
        request_code_lines(&request),
        Some(("Code: 123456".to_string(), "Expires: soon".to_string()))
    );
    request.verification_code = " ".to_string();
    assert_eq!(
        request_code_lines(&request),
        Some((
            "Code: hidden on this endpoint".to_string(),
            "Expires: hidden on this endpoint".to_string()
        ))
    );
}
