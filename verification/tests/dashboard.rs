use boundless_tray::actions::{DashboardCommand, InputControl, TestingChange};
use boundless_tray::arrange::MoveDirection;
use boundless_tray::dashboard::{AppMsg, DashboardModel, PairedTestConsent, Tab};
use boundless_tray::maps::{FlagMap, TextMap};
use boundless_tray::service::ServiceRecoveryOffer;
use boundless_tray::settings::{AntiIdleChange, FileConfigChange, HandoffChange};
use boundless_tray::status::{
    anti_idle_status_line, capture_backend_ready, capture_targets_line, clipboard_sharing_health,
    file_limit_line, home_guidance, home_notice, input_runtime_line, input_sharing_health,
    needs_arrangement, peer_status_label, sharing_health_label, SharingHealth,
};
use boundless_tray::ui::{
    empty_as_none, format_timestamp, short_token, should_hide_on_close,
    should_offer_first_run_onboarding, tray_single_instance_event_name, UiAntiIdleConfig,
    UiAntiIdleStatus, UiClipboardRuntime, UiFileTransferConfig, UiInputHandoffConfig,
    UiInputRuntime, UiPairedPeer, UiPendingRequest, UiSnapshot,
};

fn flags(entries: &[(&str, bool)]) -> FlagMap {
    let mut map = FlagMap::new();
    for (name, enabled) in entries {
        map.insert(name.to_string(), *enabled);
    }
    map
}

fn texts(entries: &[(&str, &str)]) -> TextMap {
    let mut map = TextMap::new();
    for (name, value) in entries {
        map.insert(name.to_string(), value.to_string());
    }
    map
}

fn sample_first_run_snapshot() -> UiSnapshot {
    UiSnapshot {
        generated_at: "2026-03-03T18:00:00Z".to_string(),
        daemon_online: true,
        daemon_version: "5.0.16".to_string(),
        machine_id: "local-machine-1234".to_string(),
        layout_matrix: "self".to_string(),
        features: flags(&[
            ("share_input", true),
            ("share_clipboard", true),
            ("transfer_file", true),
            ("easy_mouse", true),
            ("wrap_mouse", true),
        ]),
        hotkeys: texts(&[
            ("toggle_easy_mouse", "Ctrl+Alt+Shift+E"),
            ("lock_machine", "Ctrl+Alt+Shift+L"),
            ("switch_all", "Disabled"),
            ("reconnect", "Ctrl+Alt+Shift+R"),
        ]),
        discovered_peers: Vec::new(),
        paired_peers: Vec::new(),
        pending_requests: Vec::new(),
        anti_idle_config: UiAntiIdleConfig {
            enabled: true,
            recent_activity_window_secs: 300,
            allow_on_battery: false,
            keep_display_on: false,
        },
        anti_idle_status: UiAntiIdleStatus {
            supported: true,
            enabled: true,
            active: false,
            display_required: false,
            reason: "none".to_string(),
        },
        file_transfer_config: UiFileTransferConfig {
            receive_dir: r"C:\Users\Test\Downloads\Boundless".to_string(),
            organize_by_peer: false,
            auto_accept_trusted_peers: false,
            max_file_bytes: 100 * 1024 * 1024,
        },
        file_transfers: Vec::new(),
        input_handoff_config: UiInputHandoffConfig {
            block_screen_corners: true,
            corner_block_px: 24,
            relative_mouse: false,
            hide_cursor_at_edge: false,
            draw_cursor_marker: false,
        },
        input_runtime: UiInputRuntime {
            owner_peer_id: String::new(),
            configured_capture_target_peer_id: String::new(),
            active_capture_target_peer_id: String::new(),
            lock_active: false,
            lock_supported: true,
            capture_backend_mode: "windows_hooks".to_string(),
            pending_inject_frames: 0,
            pending_inject_high_water: 0,
        },
        clipboard_runtime: UiClipboardRuntime {
            backend_mode: "direct".to_string(),
        },
    }
}

fn sample_paired_snapshot() -> UiSnapshot {
    UiSnapshot {
        paired_peers: vec![UiPairedPeer {
            peer_id: "peer-1234".to_string(),
            display_name: "Office Desktop".to_string(),
            address: "10.0.0.25:15100".to_string(),
            connected: false,
            health_state: "disconnected".to_string(),
            health_reason: "no recent peer event".to_string(),
            trust_state: "trusted".to_string(),
            trusted_since: "2026-03-03T18:00:00Z".to_string(),
            trust_fingerprint: "abcdef1234567890".to_string(),
            device_identity: "peer-1234".to_string(),
        }],
        ..sample_first_run_snapshot()
    }
}

fn connected_snapshot() -> UiSnapshot {
    let mut snapshot = sample_paired_snapshot();
    snapshot.layout_matrix = "self,peer-1234".to_string();
    snapshot.paired_peers[0].connected = true;
    snapshot.paired_peers[0].health_state = "connected".to_string();
    snapshot.paired_peers[0].health_reason.clear();
    snapshot
}

fn app(snapshot: UiSnapshot, tab: Tab) -> DashboardModel {
    let mut model = DashboardModel::new(None, 0);
    model.apply_app_msg(AppMsg::SnapshotUpdated(snapshot), 0);
    model.selected_tab = tab;
    model
}

#[test]
fn sharing_health_distinguishes_healthy_degraded_and_unknown_backends() {
    assert_eq!(
        input_sharing_health("user_session_broker"),
        SharingHealth::Healthy
    );
    assert_eq!(
        input_sharing_health("service_session_unsupported"),
        SharingHealth::Degraded
    );
    assert_eq!(
        clipboard_sharing_health("broker_unavailable"),
        SharingHealth::Degraded
    );
    assert_eq!(clipboard_sharing_health(""), SharingHealth::Unknown);
}

#[test]
fn file_sender_records_peer_once_and_picker_cancel_leaves_no_transfer() {
    let mut app = app(connected_snapshot(), Tab::TransferCenter);
    let mut commands: Vec<DashboardCommand> = Vec::new();
    app.choose_receiver();
    commands.extend(app.send_file());
    assert_eq!(commands.len(), 1);
    assert!(matches!(
        &commands[0],
        DashboardCommand::ChooseAndSendFile(peer_id) if peer_id == "peer-1234"
    ));
    assert!(app.file_send_pending);
    app.choose_receiver();
    commands.extend(app.send_file());
    assert_eq!(commands.len(), 1);
    app.apply_app_msg(AppMsg::FileSendComplete(Ok(None)), 0);
    assert!(!app.file_send_pending);
    assert!(app.snapshot.file_transfers.is_empty());
    assert!(app.toasts.toasts.is_empty());
    assert_eq!(commands.len(), 1);
    app.choose_receiver();
    commands.extend(app.send_file());
    assert_eq!(commands.len(), 2);
    app.apply_app_msg(
        AppMsg::FileSendComplete(Err("Fixture selection failed".to_string())),
        0,
    );
    assert!(!app.file_send_pending);
    assert_eq!(app.toasts.toasts[0].message, "Fixture selection failed");
    assert!(app.toasts.toasts[0].is_error);

    let mut disconnected = self::app(sample_paired_snapshot(), Tab::TransferCenter);
    disconnected.choose_receiver();
    assert!(disconnected.send_file().is_none());
    assert_eq!(
        disconnected.send_hint().text(),
        "Connect a paired PC before sending a file."
    );
}

#[test]
fn disabled_file_sharing_blocks_send_and_toggle_preserves_folder_draft() {
    let mut snapshot = connected_snapshot();
    snapshot.features.insert("transfer_file".to_string(), false);
    let mut app = app(snapshot, Tab::TransferCenter);
    let draft = r"C:\Fixture\Folder Not Saved";
    app.drafts.receive_dir = draft.to_string();
    app.choose_receiver();
    assert!(app.send_file().is_none());
    assert!(app.send_hint().text().contains("File sharing is off."));
    app.selected_tab = Tab::Settings;
    match app.toggle_feature("transfer_file") {
        Some(DashboardCommand::SetFeature { name, enabled }) => {
            assert_eq!(name, "transfer_file");
            assert!(enabled);
        }
        other => panic!("{other:?}"),
    }
    assert_eq!(app.drafts.receive_dir, draft);
}

#[test]
fn primary_pause_action_dispatches_once_without_native_runtime() {
    let mut app = app(connected_snapshot(), Tab::Status);
    assert_eq!(app.input_control(false), InputControl::Pause);
    assert!(matches!(app.pause_input(), DashboardCommand::SetInputSharing(false)));
    assert!(app.input_pause_requested);
    assert_eq!(
        app.input_control(false),
        InputControl::Resume { confirmed: false, available: false }
    );
    assert!(app.input_change_pending);
    assert!(!app.apply_app_msg(AppMsg::InputSharingComplete(false), 0));
    assert!(!app.input_change_pending);
    assert_eq!(
        app.input_control(false),
        InputControl::Resume { confirmed: true, available: true }
    );
}

#[test]
fn forgetting_a_pc_requires_confirmation_and_cancel_preserves_trust() {
    let mut app = app(connected_snapshot(), Tab::Status);
    app.request_forget("peer-1234".to_string());
    assert_eq!(app.pending_peer_removal.as_deref(), Some("peer-1234"));
    assert_eq!(app.forget_confirmation().as_deref(), Some("Office Desktop"));
    app.cancel_forget();
    assert!(app.pending_peer_removal.is_none());
    assert!(app.confirm_forget().is_none());
    assert_eq!(app.snapshot.paired_peers.len(), 1);
    app.request_forget("peer-1234".to_string());
    assert!(matches!(
        app.confirm_forget(),
        Some(DashboardCommand::RemovePeer(peer_id)) if peer_id == "peer-1234"
    ));
    assert!(app.pending_peer_removal.is_none());
}

#[test]
fn losing_current_status_does_not_show_remembered_peer_as_connected() {
    let mut app = app(connected_snapshot(), Tab::Status);
    let shown = |app: &DashboardModel| {
        peer_status_label(app.snapshot.daemon_online, app.snapshot.paired_peers[0].connected)
    };
    assert_eq!(shown(&app), "Connected");
    app.apply_app_msg(AppMsg::SnapshotError("Connection closed".to_string()), 0);
    assert!(home_notice(&app.snapshot, app.snapshot_error.is_some()).is_some());
    assert_eq!(shown(&app), "Status unavailable");
    assert!(!app.snapshot.paired_peers[0].connected);
    app.apply_app_msg(AppMsg::SnapshotUpdated(connected_snapshot()), 0);
    assert_eq!(shown(&app), "Connected");
    assert!(app.snapshot_error.is_none());
}

#[test]
fn home_readiness_distinguishes_arrangement_backend_and_sharing_state() {
    for (name, expected) in [
        (
            "unarranged",
            "Arrange your PCs before switching at screen edges.",
        ),
        ("input_unavailable", "desktop input is not ready"),
        ("paused", "Keyboard and mouse sharing is paused."),
        ("edge_disabled", "Screen-edge switching is off in Sharing."),
        (
            "ready",
            "connected and arranged. Move across a shared screen edge",
        ),
    ] {
        let mut snapshot = connected_snapshot();
        match name {
            "unarranged" => snapshot.layout_matrix = "self".to_string(),
            "input_unavailable" => {
                snapshot.input_runtime.capture_backend_mode =
                    "service_session_unsupported".to_string();
            }
            "paused" => {
                snapshot.features.insert("share_input".to_string(), false);
            }
            "edge_disabled" => {
                snapshot.features.insert("easy_mouse".to_string(), false);
            }
            _ => {}
        }
        let guidance = home_guidance(&snapshot, false);
        assert!(guidance.contains(expected), "{name}: {guidance}");
        assert_eq!(needs_arrangement(&snapshot), name == "unarranged");
        assert_eq!(
            capture_backend_ready(snapshot.input_runtime.capture_backend_mode.as_str()),
            name != "input_unavailable"
        );
    }
}

#[test]
fn changing_receive_options_does_not_save_a_folder_draft() {
    let snapshot = connected_snapshot();
    let saved_folder = snapshot.file_transfer_config.receive_dir.clone();
    let draft_folder = r"C:\Fixture\Not Yet Saved";
    let mut app = app(snapshot, Tab::Settings);
    assert_eq!(app.drafts.receive_dir, saved_folder);
    app.drafts.receive_dir = draft_folder.to_string();
    match app.change_file_config(FileConfigChange::OrganizeByPeer) {
        DashboardCommand::SetFileTransferConfig(config) => {
            assert_eq!(config.receive_dir, saved_folder);
            assert!(config.organize_by_peer);
        }
        other => panic!("{other:?}"),
    }
    assert_eq!(app.drafts.receive_dir, draft_folder);
    match app.save_receive_dir() {
        Some(DashboardCommand::SetFileTransferConfig(config)) => {
            assert_eq!(config.receive_dir, draft_folder);
        }
        other => panic!("{other:?}"),
    }
    app.drafts.receive_dir.clear();
    app.apply_app_msg(AppMsg::SnapshotUpdated(connected_snapshot()), 0);
    assert!(
        app.drafts.receive_dir.is_empty(),
        "a fresh snapshot must preserve an intentionally cleared folder draft"
    );
}

#[test]
fn support_export_is_recorded_and_completion_is_visible() {
    let mut app = app(connected_snapshot(), Tab::Support);
    assert!(matches!(app.export_support(), Some(DashboardCommand::ExportSupport)));
    assert_eq!(app.support_status.as_deref(), Some("Saving report..."));
    app.apply_app_msg(
        AppMsg::SupportExportComplete(
            "Saved fixture report to C:\\Fixture\\support.json".to_string(),
        ),
        0,
    );
    assert_eq!(
        app.support_status.as_deref(),
        Some("Saved fixture report to C:\\Fixture\\support.json")
    );
}

#[test]
fn paired_testing_permission_requires_click_and_keeps_failures_explicit() {
    let mut app = app(connected_snapshot(), Tab::Support);
    app.choose_testing_peer();
    assert_eq!(
        app.testing_line(0),
        "Permission status has not been checked in this window."
    );
    match app.allow_testing() {
        Some(DashboardCommand::ChangeTestingPermission(TestingChange::Allow {
            allowed,
            duration_seconds,
        })) => {
            assert_eq!(allowed, "peer-1234");
            assert_eq!(duration_seconds, 600);
        }
        other => panic!("{other:?}"),
    }
    assert!(app.testing.pending);
    assert!(app.refresh_testing().is_none(), "a change is under way");
    app.apply_app_msg(
        AppMsg::PairedTestingUpdated(Ok(PairedTestConsent {
            peer_id: Some("peer-1234".to_string()),
            enabled: true,
            remaining_seconds: 600,
        })),
        1000,
    );
    assert!(!app.testing.pending);
    assert_eq!(
        app.testing_line(1000),
        "Last reported: allowed for Office Desktop; expires within 600s."
    );
    assert_eq!(
        app.testing_line(2999),
        "Last reported: allowed for Office Desktop; expires within 599s."
    );
    assert_eq!(app.testing_line(601_000), "Permission is off or has expired.");
    let stopped = |command: Option<DashboardCommand>| match command {
        Some(DashboardCommand::ChangeTestingPermission(TestingChange::Allow {
            allowed,
            duration_seconds,
        })) => (allowed, duration_seconds),
        other => panic!("{other:?}"),
    };
    assert_eq!(stopped(app.stop_testing()), ("peer-1234".to_string(), 0));
    app.apply_app_msg(
        AppMsg::PairedTestingUpdated(Err("The local service stopped responding.".to_string())),
        1000,
    );
    assert!(!app.testing.pending);
    assert_eq!(
        app.testing_error_line().as_deref(),
        Some("Could not check or change permission: The local service stopped responding.")
    );
    assert!(app.testing_line(1000).starts_with("Last reported: allowed for Office Desktop"));
    assert_eq!(stopped(app.stop_testing()), ("peer-1234".to_string(), 0));
    app.apply_app_msg(
        AppMsg::PairedTestingUpdated(Ok(PairedTestConsent {
            peer_id: None,
            enabled: false,
            remaining_seconds: 0,
        })),
        1000,
    );
    assert_eq!(app.testing_line(1000), "Permission is off or has expired.");
    assert!(app.testing.error.is_none());
}

#[test]
fn arranging_without_dragging_keeps_edits_local_until_apply_confirmation() {
    let mut app = app(connected_snapshot(), Tab::Layout);
    app.sync_layout();
    let place = |app: &DashboardModel| {
        app.layout
            .grid
            .cells
            .iter()
            .find(|cell| cell.id == "peer-1234")
            .map(|cell| (cell.x, cell.y))
            .expect("the peer is on the grid")
    };
    let (x, y) = place(&app);
    assert!(app.layout.move_peer(x, y, MoveDirection::Up));
    let (x, y) = place(&app);
    assert!(app.layout.move_peer(x, y, MoveDirection::Left));
    assert!(app.confirm_layout_apply().is_none());
    let check = app.layout_check();
    assert_eq!(check.matrix, "peer-1234;self");
    assert_eq!(check.machine_id, app.snapshot.machine_id);
    assert_eq!(check.peers.len(), app.snapshot.paired_peers.len());
    assert_eq!(check.peers[0].peer_id, "peer-1234");
    assert_eq!(
        check.peers[0].display_name,
        app.snapshot.paired_peers[0].display_name
    );
    app.request_layout_apply(Ok(()), 0);
    assert!(app.layout.confirm_apply_pending);
    assert!(app.toasts.toasts.is_empty());
    match app.confirm_layout_apply() {
        Some(DashboardCommand::ApplyLayout(matrix)) => assert_eq!(matrix, "peer-1234;self"),
        other => panic!("{other:?}"),
    }
    assert!(!app.layout.confirm_apply_pending);
}

#[test]
fn a_layout_that_is_refused_is_not_applied() {
    let mut app = app(connected_snapshot(), Tab::Layout);
    app.sync_layout();
    let cells: Vec<(i32, i32)> = app
        .layout
        .grid
        .cells
        .iter()
        .filter(|cell| cell.id == "local-machine-1234")
        .map(|cell| (cell.x, cell.y))
        .collect();
    // This machine stays on the grid; others can be taken off.
    assert!(!app.layout.can_remove(cells[0].0, cells[0].1, "local-machine-1234"));
    assert!(!app.remove_from_grid(cells[0].0, cells[0].1));
    assert!(!app.remove_from_grid(0, 0));
    assert!(app.layout.previous.is_none());
    let other: Vec<(i32, i32)> = app
        .layout
        .grid
        .cells
        .iter()
        .filter(|cell| cell.id == "peer-1234")
        .map(|cell| (cell.x, cell.y))
        .collect();
    assert!(app.remove_from_grid(other[0].0, other[0].1));
    assert_eq!(app.layout.unassigned, vec!["peer-1234".to_string()]);

    app.request_layout_apply(Err("unknown layout token: den".to_string()), 5);
    assert!(!app.layout.confirm_apply_pending);
    assert_eq!(app.toasts.toasts[0].message, "unknown layout token: den");
    assert!(app.toasts.toasts[0].is_error);
    app.reset_layout();
    assert!(app.snapshot.layout_matrix.is_empty());
    assert!(!app.layout.initialized);
}

#[test]
fn toasts_go_after_their_age() {
    let mut app = DashboardModel::new(Some("no shell".to_string()), 100);
    assert_eq!(app.toasts.toasts[0].message, "tray initialization failed: no shell");
    app.apply_app_msg(AppMsg::ActionComplete("done".to_string()), 100);
    app.toasts.tick_toasts(4099);
    assert_eq!(app.toasts.toasts.len(), 2);
    app.toasts.tick_toasts(4100);
    assert_eq!(app.toasts.toasts.len(), 1);
    assert!(app.toasts.has_active_toasts());
    app.toasts.tick_toasts(12_100);
    assert!(!app.toasts.has_active_toasts());
    app.apply_app_msg(AppMsg::ActionFailed("again".to_string()), 20_000);
    assert_eq!(app.toasts.toasts[0].id, 3);
    app.toasts.dismiss_toast(2);
    assert_eq!(app.toasts.toasts.len(), 1);
    app.toasts.dismiss_toast(3);
    assert!(app.toasts.toasts.is_empty());
}

#[test]
fn the_first_run_brings_the_window_forward_once() {
    let mut app = app(sample_first_run_snapshot(), Tab::Status);
    assert!(should_offer_first_run_onboarding(&app.snapshot));
    assert!(app.take_focus_requests());
    app.apply_app_msg(AppMsg::SnapshotUpdated(sample_first_run_snapshot()), 0);
    assert!(!app.take_focus_requests());
    assert!(!should_offer_first_run_onboarding(&sample_paired_snapshot()));
}

#[test]
fn closing_hides_the_window_while_there_is_a_tray() {
    let mut app = DashboardModel::new(None, 0);
    assert!(app.close_requested(false, true, true));
    assert!(!app.exit_requested);
    assert!(!app.close_requested(false, true, false));
    assert!(app.exit_requested);
    assert!(!should_hide_on_close(true, true));
    let mut quitting = DashboardModel::new(None, 0);
    assert!(!quitting.close_requested(true, true, true));
    assert!(quitting.exit_requested);
}

#[test]
fn the_service_recovery_runs_once() {
    let offer = |message: &str| ServiceRecoveryOffer {
        state: "Stopped".to_string(),
        message: message.to_string(),
        action_label: "Start service".to_string(),
    };
    let mut app = DashboardModel::new(None, 0);
    assert!(app.start_service_recovery().is_none());
    app.apply_app_msg(AppMsg::ServiceRecoveryRequired(offer("one")), 0);
    assert!(app.take_focus_requests());
    assert!(app.start_service_recovery().is_some());
    assert!(app.start_service_recovery().is_none());
    app.apply_app_msg(AppMsg::ServiceRecoveryRequired(offer("two")), 0);
    let message = |app: &DashboardModel| {
        app.service_recovery.as_ref().map(|recovery| recovery.offer.message.clone())
    };
    assert_eq!(message(&app).as_deref(), Some("one"));
    app.apply_app_msg(AppMsg::ServiceRecoveryFailed("failed".to_string()), 0);
    assert_eq!(message(&app).as_deref(), Some("failed"));
    app.apply_app_msg(AppMsg::ServiceRecoveryComplete("fine".to_string()), 0);
    app.apply_app_msg(AppMsg::SnapshotUpdated(connected_snapshot()), 0);
    assert!(app.service_recovery.is_none());
}

#[test]
fn resuming_waits_for_the_daemon() {
    let mut app = app(connected_snapshot(), Tab::Status);
    assert!(matches!(
        app.toggle_feature("share_input"),
        Some(DashboardCommand::SetInputSharing(false))
    ));
    assert!(app.toggle_feature("share_input").is_none());
    assert!(app.resume_input().is_none());
    app.apply_app_msg(AppMsg::InputSharingFailed("no".to_string()), 0);
    assert!(app.input_pause_requested, "capture stays paused");
    assert!(matches!(
        app.resume_input(),
        Some(DashboardCommand::SetInputSharing(true))
    ));
    assert!(app.apply_app_msg(AppMsg::InputSharingComplete(true), 0));
    assert_eq!(app.input_control(false), InputControl::Pause);
}

#[test]
fn resets_ask_first() {
    let mut app = app(connected_snapshot(), Tab::Support);
    assert!(app.confirm_network_reset().is_none());
    app.request_network_reset();
    app.cancel_network_reset();
    assert!(app.confirm_network_reset().is_none());
    app.request_network_reset();
    match app.confirm_network_reset() {
        Some(DashboardCommand::SafeReset { network_only, all, confirm }) => {
            assert!(network_only && !all);
            assert_eq!(confirm, "safe-reset-network:local-machine-1234");
        }
        other => panic!("{other:?}"),
    }
    app.request_safe_reset();
    match app.confirm_safe_reset() {
        Some(DashboardCommand::SafeReset { network_only, all, confirm }) => {
            assert!(!network_only && all);
            assert_eq!(confirm, "safe-reset-all:local-machine-1234");
        }
        other => panic!("{other:?}"),
    }
    assert!(app.confirm_safe_reset().is_none());
}

#[test]
fn pairing_requests_with_a_code_cannot_be_approved() {
    let mut snapshot = connected_snapshot();
    for requires_verification_code in [true, false] {
        snapshot.pending_requests.push(UiPendingRequest {
            request_id: format!("request-{requires_verification_code}"),
            requester_machine_id: String::new(),
            requester_display_name: String::new(),
            created_at: String::new(),
            verification_code: String::new(),
            verification_expires_at: String::new(),
            requires_verification_code,
        });
    }
    let app = app(snapshot, Tab::Status);
    assert!(app.approve_request(0).is_none());
    assert!(matches!(
        app.approve_request(1),
        Some(DashboardCommand::ApproveRequest(id)) if id == "request-false"
    ));
    assert!(matches!(
        app.reject_request(0),
        Some(DashboardCommand::RejectRequest(id)) if id == "request-true"
    ));
    assert!(app.reject_request(2).is_none());
}

#[test]
fn connecting_by_address() {
    let mut app = DashboardModel::new(None, 0);
    assert!(app.connect_by_address(0).is_none());
    assert!(app.toasts.toasts.is_empty());
    app.manual_host = "desk".to_string();
    match app.connect_by_address(0) {
        Some(DashboardCommand::RequestPairingCode { attempt_id, flow }) => {
            assert_eq!(attempt_id, 1);
            assert_eq!(flow.host, "desk");
            assert_eq!(flow.pairing_port, 15200);
        }
        other => panic!("{other:?}"),
    }
    app.manual_port = " 15200".to_string();
    assert!(app.connect_by_address(0).is_none());
    assert_eq!(app.toasts.toasts[0].message, "pairing port must be a number");
    assert!(app.retry_pairing().is_none());
    app.pairing.in_progress = false;
    app.pairing.retry_available = true;
    assert!(matches!(
        app.retry_pairing(),
        Some(DashboardCommand::RequestPairingCode { attempt_id: 2, .. })
    ));
}

#[test]
fn dropped_files_go_to_connected_machines_only() {
    let mut app = app(connected_snapshot(), Tab::Layout);
    app.sync_layout();
    let cell = |app: &DashboardModel, id: &str| {
        app.layout
            .grid
            .cells
            .iter()
            .find(|cell| cell.id == id)
            .map(|cell| (cell.x, cell.y))
    };
    let paths = || vec!["a.txt".to_string()];
    let peer_cell = cell(&app, "peer-1234");
    let local_cell = cell(&app, "local-machine-1234");
    match app.drop_files(peer_cell, paths(), 0) {
        Some(DashboardCommand::SendFilesToPeer { receiver, paths }) => {
            assert_eq!(receiver, "peer-1234");
            assert_eq!(paths, vec!["a.txt".to_string()]);
        }
        other => panic!("{other:?}"),
    }
    assert!(app.drop_files(None, Vec::new(), 0).is_none());
    assert!(app.toasts.toasts.is_empty());
    assert!(app.drop_files(local_cell, paths(), 0).is_none());
    assert!(app.drop_files(Some((0, 0)), paths(), 0).is_none());
    app.snapshot.paired_peers[0].connected = false;
    assert!(app.drop_files(peer_cell, paths(), 0).is_none());
    let messages: Vec<&str> =
        app.toasts.toasts.iter().map(|toast| toast.message.as_str()).collect();
    assert_eq!(
        messages,
        vec![
            "Drop files on a connected peer to send them",
            "Drop files directly on a connected peer tile to send them",
            "Office Desktop is offline; connect it before sending files",
        ]
    );
}

#[test]
fn settings_change_one_thing_at_a_time() {
    let mut app = app(connected_snapshot(), Tab::Settings);
    match app.change_handoff(HandoffChange::CornerBlock { px: 48 }) {
        DashboardCommand::SetInputHandoffConfig(config) => {
            assert_eq!(config.corner_block_px, 48);
            assert!(config.block_screen_corners);
        }
        other => panic!("{other:?}"),
    }
    match app.change_anti_idle(AntiIdleChange::RecentActivity { minutes: 15 }) {
        Some(DashboardCommand::SetAntiIdleConfig(config)) => {
            assert_eq!(config.recent_activity_window_secs, 900);
            assert!(config.enabled);
        }
        other => panic!("{other:?}"),
    }
    app.snapshot.anti_idle_status.supported = false;
    assert!(app.change_anti_idle(AntiIdleChange::Enabled).is_none());
    assert_eq!(app.hotkey_text("reconnect"), "Ctrl+Alt+Shift+R");
    assert!(app
        .edit_hotkey("reconnect".to_string(), "Ctrl+R".to_string(), false)
        .is_none());
    assert_eq!(app.hotkey_text("reconnect"), "Ctrl+R");
    assert!(app
        .edit_hotkey("reconnect".to_string(), "Ctrl+R".to_string(), true)
        .is_some());
    app.apply_app_msg(AppMsg::SnapshotUpdated(connected_snapshot()), 0);
    assert_eq!(app.hotkey_text("reconnect"), "Ctrl+R", "an edit survives a snapshot");
    assert!(app.retry_connections().is_some());
    app.report_helper_start(false, 0);
    assert!(app.toasts.toasts[0].is_error);
    app.report_helper_stop(false, 0);
    assert_eq!(app.toasts.toasts.len(), 1);
}

#[test]
fn status_lines() {
    let mut snapshot = connected_snapshot();
    assert_eq!(
        input_runtime_line(&snapshot.input_runtime),
        "Capture: idle  |  Backend: windows_hooks  |  Queue: 0/0"
    );
    assert_eq!(capture_targets_line(&snapshot.input_runtime), None);
    snapshot.input_runtime.owner_peer_id = "me".to_string();
    assert_eq!(
        capture_targets_line(&snapshot.input_runtime).as_deref(),
        Some("Owner: me  |  Configured target: none  |  Active target: none")
    );
    assert_eq!(
        anti_idle_status_line(&snapshot.anti_idle_status),
        "Status: Inactive (enabled=true display_required=false)"
    );
    assert_eq!(file_limit_line(100 * 1024 * 1024), "Limit: 100 MB");
    assert_eq!(
        sharing_health_label("Input", SharingHealth::Degraded),
        "Input backend degraded"
    );
}

#[test]
fn small_texts() {
    assert_eq!(short_token("0123456789"), "01234567");
    assert_eq!(short_token("0123"), "0123");
    assert_eq!(short_token("0123456\u{e9}9"), "0123456\u{e9}9");
    assert_eq!(empty_as_none(""), "none");
    assert_eq!(empty_as_none("x"), "x");
    assert_eq!(
        format_timestamp("2026-04-12T22:57:03.840916700+00:00"),
        "2026-04-12 22:57:03"
    );
    assert_eq!(format_timestamp("yesterday"), "yesterday");
    assert_eq!(format_timestamp("2026-04-12T22:57:03"), "2026-04-12 22:57:03");
    assert_eq!(format_timestamp("2026-04-12T22:57:0"), "2026-04-12T22:57:0");
    assert_eq!(
        format_timestamp("2026-04-12 22:57:03.8"),
        "2026-04-12 22:57:03.8"
    );
    // The nineteenth byte lies inside of a character.
    assert_eq!(
        format_timestamp("2026-04-12T22:57:0\u{e9}+00:00"),
        "2026-04-12T22:57:0\u{e9}+00:00"
    );
    // The date is not written in single bytes.
    assert_eq!(
        format_timestamp("2026-04-\u{e9}T22:57:03Z"),
        "2026-04-\u{e9} 22:57:03"
    );
    assert_eq!(
        tray_single_instance_event_name("Local\\Tray", "S-1-5", 7),
        "Local\\Tray.S-1-5.7"
    );
}
