//! What holds of the dashboard: of its messages, its actions and its settings.

use crate::actions::{InputControl, LayoutPeerToken};
use crate::dashboard::{
    AppMsg, DashboardModel, PairedTestConsent, Tab,
};
use crate::files::{connected_as, first_connected, receives_as};
use crate::maps::flag_on;
use crate::service::ServiceRecoveryOffer;
use crate::session::PairingMsg;
use crate::settings::{
    anti_idle_changed, file_config_changed, handoff_changed, AntiIdleChange, FileConfigChange,
    HandoffChange,
};
use crate::testing::seconds_left;
use crate::text;
use crate::toasts::ToastQueue;
use crate::ui::{
    first_run, UiAntiIdleConfig, UiFileTransferConfig, UiInputHandoffConfig, UiPairedPeer,
    UiSnapshot,
};
use vstd::prelude::*;

verus! {

/// Each message touches only what it speaks of.
#[verifier::rlimit(80)]
#[verifier::spinoff_prover]
pub proof fn law_messages_touch_only_what_they_speak_of(
    model: DashboardModel,
    msg: AppMsg,
    now_ms: u64,
    next: DashboardModel,
)
    requires
        model.message_applied(msg, now_ms, next),
    ensures
        !(msg is SnapshotUpdated || msg is SnapshotError || msg is InputSharingComplete)
            ==> next.snapshot == model.snapshot,
        !(msg is SnapshotUpdated || msg is SnapshotError) ==> next.snapshot_error
            == model.snapshot_error,
        !(msg is SupportExportComplete) ==> next.support_status == model.support_status,
        !(msg is InputSharingComplete) ==> next.input_pause_requested
            == model.input_pause_requested,
        !(msg is InputSharingComplete || msg is InputSharingFailed) ==> next.input_change_pending
            == model.input_change_pending,
        !(msg is PairedTestingUpdated) ==> next.testing == model.testing,
        !(msg is FileSendComplete) ==> next.file_send_pending == model.file_send_pending,
        !(msg is Pairing) ==> next.pairing == model.pairing && next.layout == model.layout
            && next.selected_tab == model.selected_tab,
        !(msg is SnapshotUpdated) ==> next.drafts == model.drafts && next.pending_onboarding_focus
            == model.pending_onboarding_focus,
        !(msg is SnapshotUpdated || msg is ServiceRecoveryRequired || msg is ServiceRecoveryComplete
            || msg is ServiceRecoveryFailed) ==> next.service_recovery == model.service_recovery,
        !(msg is ServiceRecoveryRequired) ==> next.pending_service_recovery_focus
            == model.pending_service_recovery_focus,
        next.pending_peer_removal == model.pending_peer_removal,
        next.file_send_peer == model.file_send_peer,
        next.manual_host == model.manual_host && next.manual_port == model.manual_port,
        next.onboarding_focus_shown == model.onboarding_focus_shown,
        next.exit_requested == model.exit_requested,
        next.confirm_network_reset_pending == model.confirm_network_reset_pending,
        next.confirm_safe_reset_pending == model.confirm_safe_reset_pending,
        msg is SnapshotUpdated || msg is SnapshotError || msg is SupportExportComplete
            || msg is InputSharingComplete || msg is PairedTestingUpdated
            || msg is ServiceRecoveryRequired ==> next.toasts == model.toasts,
{
    match msg {
        AppMsg::SnapshotUpdated(_) => {},
        AppMsg::SnapshotError(_) => {},
        AppMsg::Pairing { .. } => {},
        AppMsg::ActionComplete(_) => {},
        AppMsg::ActionFailed(_) => {},
        AppMsg::SupportExportComplete(_) => {},
        AppMsg::InputSharingComplete(_) => {},
        AppMsg::InputSharingFailed(_) => {},
        AppMsg::FileSendComplete(result) => {
            assert(next == (DashboardModel {
                file_send_pending: false,
                toasts: next.toasts,
                ..model
            }));
        },
        AppMsg::PairedTestingUpdated(_) => {},
        AppMsg::ServiceRecoveryRequired(_) => {},
        AppMsg::ServiceRecoveryComplete(_) => {},
        AppMsg::ServiceRecoveryFailed(_) => {},
    }
}

/// What a message reports is added behind what is shown, marked as an error exactly
/// where it is one.
pub proof fn law_messages_are_reported(
    model: DashboardModel,
    text: String,
    now_ms: u64,
    next: DashboardModel,
    is_error: bool,
)
    requires
        ({
            ||| !is_error && model.message_applied(AppMsg::ActionComplete(text), now_ms, next)
            ||| is_error && model.message_applied(AppMsg::ActionFailed(text), now_ms, next)
            ||| is_error && model.message_applied(AppMsg::InputSharingFailed(text), now_ms, next)
            ||| !is_error && model.message_applied(
                AppMsg::FileSendComplete(Ok(Some(text))),
                now_ms,
                next,
            )
            ||| is_error && model.message_applied(
                AppMsg::FileSendComplete(Err(text)),
                now_ms,
                next,
            )
            ||| !is_error && model.message_applied(
                AppMsg::ServiceRecoveryComplete(text),
                now_ms,
                next,
            )
            ||| is_error && model.message_applied(
                AppMsg::ServiceRecoveryFailed(text),
                now_ms,
                next,
            )
        }),
    ensures
        ({
            let shown = next.toasts.toasts@;
            let before = model.toasts.toasts@;
            &&& shown.len() == before.len() + 1
            &&& forall|i: int| 0 <= i < before.len() ==> #[trigger] shown[i] == before[i]
            &&& shown.last().message@ == text@
            &&& shown.last().is_error == is_error
            &&& shown.last().created_at_ms == now_ms
            &&& shown.last().id == model.toasts.seq + 1
            &&& next.toasts.seq == model.toasts.seq + 1
        }),
{
    let shown = next.toasts.toasts@;
    let before = model.toasts.toasts@;
    assert(shown.drop_last() == before);
    assert forall|i: int| 0 <= i < before.len() implies #[trigger] shown[i] == before[i] by {
        assert(shown.drop_last()[i] == shown[i]);
    }
}

/// A new status replaces the last one and takes its error and a recovery away. It asks
/// for the onboarding only at a first run, and once.
pub proof fn law_status_replaces_the_last(
    model: DashboardModel,
    snap: UiSnapshot,
    now_ms: u64,
    next: DashboardModel,
)
    requires
        model.message_applied(AppMsg::SnapshotUpdated(snap), now_ms, next),
    ensures
        next.snapshot == snap,
        next.snapshot_error is None,
        next.service_recovery is None,
        next.pending_onboarding_focus <==> model.pending_onboarding_focus || (first_run(snap)
            && !model.onboarding_focus_shown),
        next.drafts.receive_dir_last_snapshot@ == snap.file_transfer_config.receive_dir@,
        next.drafts.hotkeys_last_snapshot@ == snap.hotkeys@,
        model.drafts.receive_dir@ == model.drafts.receive_dir_last_snapshot@
            ==> next.drafts.receive_dir@ == snap.file_transfer_config.receive_dir@,
        model.drafts.receive_dir@ != model.drafts.receive_dir_last_snapshot@
            ==> next.drafts.receive_dir@ == model.drafts.receive_dir@,
        model.drafts.hotkeys@ == model.drafts.hotkeys_last_snapshot@ || model.drafts.hotkeys@
            == Map::<Seq<char>, Seq<char>>::empty() ==> next.drafts.hotkeys@ == snap.hotkeys@,
        model.drafts.hotkeys@ != model.drafts.hotkeys_last_snapshot@ && model.drafts.hotkeys@
            != Map::<Seq<char>, Seq<char>>::empty() ==> next.drafts.hotkeys@
            == model.drafts.hotkeys@,
{
}

/// Without a status the last one stays, offline, with every machine unknown.
pub proof fn law_lost_status_is_told(
    model: DashboardModel,
    error: String,
    now_ms: u64,
    next: DashboardModel,
    i: int,
)
    requires
        model.message_applied(AppMsg::SnapshotError(error), now_ms, next),
        0 <= i < model.snapshot.paired_peers@.len(),
    ensures
        next.snapshot_error == Some(error),
        !next.snapshot.daemon_online,
        next.snapshot.machine_id == model.snapshot.machine_id,
        next.snapshot.features == model.snapshot.features,
        next.snapshot.layout_matrix == model.snapshot.layout_matrix,
        next.snapshot.file_transfers == model.snapshot.file_transfers,
        next.snapshot.paired_peers@.len() == model.snapshot.paired_peers@.len(),
        ({
            let peer = next.snapshot.paired_peers@[i];
            &&& !peer.connected
            &&& peer.health_state@ == "unknown"@
            &&& peer.health_reason@ == "Waiting for current status from this PC"@
            &&& peer.peer_id == model.snapshot.paired_peers@[i].peer_id
            &&& peer.display_name == model.snapshot.paired_peers@[i].display_name
        }),
{
    assert(crate::dashboard::peer_unknown(
        model.snapshot.paired_peers@[i],
        next.snapshot.paired_peers@[i],
    ));
}

/// A machine that was paired with is selected in the layout, which is shown.
pub proof fn law_paired_machine_is_arranged_next(
    model: DashboardModel,
    attempt_id: u64,
    msg: PairingMsg,
    now_ms: u64,
    next: DashboardModel,
)
    requires
        model.message_applied(AppMsg::Pairing { attempt_id, msg }, now_ms, next),
    ensures
        model.pairing.told(attempt_id, msg, next.pairing),
        ({
            let paired = msg is Complete && model.pairing.active_attempt_id == Some(attempt_id);
            &&& paired ==> {
                &&& next.selected_tab == Tab::Layout
                &&& next.layout.selected_peer == msg->Complete_0.peer_machine_id
                &&& next.toasts.toasts@.len() == model.toasts.toasts@.len() + 1
                &&& next.toasts.toasts@.last().message@ == "Paired with "@
                    + msg->Complete_0.orientation_selector@
                    + ". Arrange your PCs to start sharing."@
                &&& !next.toasts.toasts@.last().is_error
            }
            &&& !paired ==> next.selected_tab == model.selected_tab && next.layout == model.layout
                && next.toasts == model.toasts
        }),
{
}

/// An answer on input sharing ends the waiting for it; only a success is shown as the
/// new state.
pub proof fn law_input_sharing_is_answered(
    model: DashboardModel,
    enabled: bool,
    error: String,
    now_ms: u64,
    next: DashboardModel,
)
    ensures
        model.message_applied(AppMsg::InputSharingComplete(enabled), now_ms, next) ==> {
            &&& !next.input_change_pending
            &&& next.input_pause_requested == !enabled
            &&& flag_on(next.snapshot.features@, "share_input"@) == enabled
            &&& forall|name: Seq<char>|
                name != "share_input"@ ==> #[trigger] flag_on(next.snapshot.features@, name)
                    == flag_on(model.snapshot.features@, name)
            &&& next.snapshot.paired_peers == model.snapshot.paired_peers
        },
        model.message_applied(AppMsg::InputSharingFailed(error), now_ms, next) ==> {
            &&& !next.input_change_pending
            &&& next.input_pause_requested == model.input_pause_requested
            &&& next.snapshot == model.snapshot
        },
{
}

/// A finished sending makes room for the next one; one that was given up says nothing.
pub proof fn law_sending_ends(
    model: DashboardModel,
    result: Result<Option<String>, String>,
    now_ms: u64,
    next: DashboardModel,
)
    requires
        model.message_applied(AppMsg::FileSendComplete(result), now_ms, next),
    ensures
        !next.file_send_pending,
        result == Ok::<Option<String>, String>(None) ==> next.toasts == model.toasts,
        result is Err || result->Ok_0 is Some ==> next.toasts.toasts@.len()
            == model.toasts.toasts@.len() + 1,
{
}

/// A report on the permission to measure ends the waiting for it; a failure leaves what
/// was last reported.
pub proof fn law_permission_is_reported(
    model: DashboardModel,
    consent: PairedTestConsent,
    error: String,
    now_ms: u64,
    next: DashboardModel,
)
    ensures
        model.message_applied(AppMsg::PairedTestingUpdated(Ok(consent)), now_ms, next) ==> {
            &&& next.testing.consent == Some(consent)
            &&& next.testing.updated_at_ms == Some(now_ms)
            &&& !next.testing.pending
            &&& next.testing.error is None
            &&& next.testing.peer == model.testing.peer
        },
        model.message_applied(AppMsg::PairedTestingUpdated(Err(error)), now_ms, next) ==> {
            &&& next.testing.consent == model.testing.consent
            &&& next.testing.updated_at_ms == model.testing.updated_at_ms
            &&& !next.testing.pending
            &&& next.testing.error == Some(error)
            &&& next.testing.peer == model.testing.peer
        },
{
}

/// A recovery is offered anew unless one is going on; the first offer asks for the
/// focus. Its end leaves the offer, with the error as its words where it failed.
pub proof fn law_recovery_is_offered_and_ends(
    model: DashboardModel,
    offer: ServiceRecoveryOffer,
    message: String,
    now_ms: u64,
    next: DashboardModel,
)
    ensures
        model.message_applied(AppMsg::ServiceRecoveryRequired(offer), now_ms, next) ==> {
            let running = model.service_recovery is Some && model.service_recovery->0.in_progress;
            &&& next.service_recovery is Some
            &&& running ==> next.service_recovery == model.service_recovery
            &&& !running ==> next.service_recovery->0.offer == offer
                && !next.service_recovery->0.in_progress
            &&& next.pending_service_recovery_focus <==> model.pending_service_recovery_focus
                || model.service_recovery is None
        },
        model.message_applied(AppMsg::ServiceRecoveryComplete(message), now_ms, next) ==> {
            &&& next.service_recovery is Some <==> model.service_recovery is Some
            &&& next.service_recovery is Some ==> !next.service_recovery->0.in_progress
                && next.service_recovery->0.offer == model.service_recovery->0.offer
        },
        model.message_applied(AppMsg::ServiceRecoveryFailed(message), now_ms, next) ==> {
            &&& next.service_recovery is Some <==> model.service_recovery is Some
            &&& next.service_recovery is Some ==> !next.service_recovery->0.in_progress
                && next.service_recovery->0.offer.message == message
        },
{
}

/// The first run is the one with a daemon that knows this machine, without any other
/// machine, paired or asking, and with a layout of this machine alone.
pub proof fn law_first_run(snapshot: UiSnapshot)
    ensures
        first_run(snapshot) <==> snapshot.daemon_online && text::trimmed(
            snapshot.machine_id@,
        ).len() > 0 && snapshot.paired_peers@.len() == 0 && snapshot.pending_requests@.len() == 0
            && text::trimmed(snapshot.layout_matrix@) == "self"@,
{
}

/// A report is shown for four seconds, an error for twelve; reports are numbered in
/// their order.
pub proof fn law_reports_are_numbered(
    queue: ToastQueue,
    next: ToastQueue,
    message: Seq<char>,
    is_error: bool,
    now_ms: u64,
)
    requires
        queue.wf(),
        queue.reports(next, message, is_error, now_ms),
    ensures
        next.wf(),
        next.toasts@.last().max_age() == (if is_error {
            12000u64
        } else {
            4000u64
        }),
        next.toasts@.last().fresh(now_ms),
        forall|i: int|
            0 <= i < queue.toasts@.len() ==> (#[trigger] queue.toasts@[i]).id
                < next.toasts@.last().id,
{
    let shown = next.toasts@;
    let before = queue.toasts@;
    assert forall|i: int| 0 <= i < before.len() implies #[trigger] shown[i] == before[i] by {
        assert(shown.drop_last()[i] == shown[i]);
    }
    assert forall|i: int, j: int| 0 <= i < j < shown.len() implies (#[trigger] shown[i]).id < (
    #[trigger] shown[j]).id by {
        assert(shown[i] == before[i]);
        if j < before.len() {
            assert(shown[j] == before[j]);
        }
    }
}

/// The time of a permission runs down by the second from the report on; without a time
/// of the report it stands.
pub proof fn law_permission_runs_down(reported: u32, at_ms: u64, now_ms: u64)
    ensures
        seconds_left(reported, None, now_ms) == reported,
        now_ms <= at_ms ==> seconds_left(reported, Some(at_ms), now_ms) == reported,
        at_ms <= now_ms && now_ms - at_ms < reported * 1000 ==> {
            let left = seconds_left(reported, Some(at_ms), now_ms);
            &&& 0 < left <= reported
            &&& (reported - left) * 1000 <= now_ms - at_ms < (reported - left + 1) * 1000
        },
        seconds_left(reported, Some(at_ms), now_ms) >= 0,
{
}

/// Asking for the permission waits for the answer, without the last error; it is
/// possible while the daemon answers and nothing is waited for.
pub proof fn law_permission_is_asked_for(model: DashboardModel)
    ensures
        model.testing_available() <==> model.snapshot.daemon_online && !model.testing.pending,
        !model.testing_asked().testing_available(),
        model.testing_asked().testing.pending,
        model.testing_asked().testing.error is None,
        model.testing_asked().testing.consent == model.testing.consent,
        model.testing_asked().testing.updated_at_ms == model.testing.updated_at_ms,
        model.testing_asked().testing.peer == model.testing.peer,
        model.testing_asked() == (DashboardModel { testing: model.testing_asked().testing, ..model }),
{
}

/// The permission is shown with its machine and the seconds that are left of it.
pub proof fn law_permission_is_shown(model: DashboardModel, now_ms: u64)
    ensures
        model.testing.consent is None ==> model.testing_text(now_ms)
            == "Permission status has not been checked in this window."@,
        model.testing.consent matches Some(consent) ==> {
            let left = seconds_left(consent.remaining_seconds, model.testing.updated_at_ms, now_ms);
            &&& consent.enabled && left > 0 ==> model.testing_text(now_ms)
                == "Last reported: allowed for "@ + model.allowed_name() + "; expires within "@
                + text::decimal(left as nat) + "s."@
            &&& !(consent.enabled && left > 0) ==> model.testing_text(now_ms)
                == "Permission is off or has expired."@
        },
{
}

/// A receiver that is connected stays chosen; else the first connected machine is, or
/// none where none is connected. Nothing else changes.
pub proof fn law_receiver_is_connected_or_none(
    model: DashboardModel,
    next: DashboardModel,
    at: int,
)
    requires
        model.receiver_chosen(next),
        0 <= at < model.snapshot.paired_peers@.len(),
    ensures
        ({
            let peers = model.snapshot.paired_peers@;
            &&& peers[at].connected && peers[at].peer_id@ == model.file_send_peer@
                ==> next.file_send_peer == model.file_send_peer
            &&& !receives_as(peers, model.file_send_peer@) && peers[at].connected && (forall|k: int|
                0 <= k < at ==> !(#[trigger] peers[k]).connected) ==> next.file_send_peer
                == peers[at].peer_id
            &&& (forall|k: int| 0 <= k < peers.len() ==> !(#[trigger] peers[k]).connected)
                ==> next.file_send_peer@.len() == 0
        }),
        next == (DashboardModel { file_send_peer: next.file_send_peer, ..model }),
{
    let peers = model.snapshot.paired_peers@;
    if peers[at].connected && peers[at].peer_id@ == model.file_send_peer@ {
        assert(connected_as(peers, at, model.file_send_peer@));
    }
    if peers[at].connected && (forall|k: int| 0 <= k < at ==> !(#[trigger] peers[k]).connected) {
        assert(first_connected(peers, at));
        assert forall|other: int| #[trigger] first_connected(peers, other) implies other == at by {
            if other < at {
                assert(!peers[other].connected);
            } else if at < other {
                assert(!peers[at].connected);
            }
        }
    }
}

/// A file can be sent while files are shared, a receiver is chosen and none is being
/// sent.
pub proof fn law_sending_needs_a_receiver(model: DashboardModel)
    ensures
        model.sending_possible() <==> model.shares_files() && model.file_send_peer@.len() > 0
            && !model.file_send_pending,
        model.shares_files() <==> model.snapshot.features@.contains_key("transfer_file"@)
            && model.snapshot.features@["transfer_file"@],
{
}

/// A name is on only where it is known and on.
pub proof fn law_unknown_features_are_off(flags: Map<Seq<char>, bool>, name: Seq<char>)
    ensures
        !flags.contains_key(name) ==> !flag_on(flags, name),
        flag_on(flags.insert(name, true), name),
        !flag_on(flags.insert(name, false), name),
        flags.contains_key(name) ==> flag_on(flags, name) == flags[name],
{
}

/// Input sharing is offered to be paused only while it is on and no pause is asked for;
/// it can be resumed while the daemon answers and no change is on its way.
pub proof fn law_input_control_is_offered(model: DashboardModel, locally_paused: bool)
    ensures
        ({
            let on = flag_on(model.snapshot.features@, "share_input"@);
            let online = model.snapshot.daemon_online;
            let shown = model.shown_input_control(locally_paused);
            &&& shown is Pause <==> !model.input_pause_requested && !locally_paused && (!online || on)
            &&& shown matches InputControl::Resume { confirmed, available } ==> {
                &&& confirmed <==> online && !on
                &&& available <==> online && !model.input_change_pending
            }
        }),
{
}

/// Asking for a change of input sharing pauses the input at once and waits.
pub proof fn law_sharing_change_pauses_first(model: DashboardModel, name: Seq<char>)
    ensures
        model.sharing_asked().input_pause_requested,
        model.sharing_asked().input_change_pending,
        model.sharing_asked() == (DashboardModel {
            input_pause_requested: true,
            input_change_pending: true,
            ..model
        }),
        !model.sharing_asked().feature_shown_on("share_input"@),
        name != "share_input"@ ==> model.feature_shown_on(name) == flag_on(
            model.snapshot.features@,
            name,
        ),
        model.feature_shown_on("share_input"@) <==> flag_on(
            model.snapshot.features@,
            "share_input"@,
        ) && !model.input_pause_requested,
{
}

/// A machine that is to be forgotten is meant by its id among the paired ones.
pub proof fn law_forgetting_means_one_machine(model: DashboardModel, id: String)
    ensures
        model.pending_peer_removal is None ==> model.forgetting() is None,
        model.pending_peer_removal == Some(id) ==> {
            &&& model.forgetting() matches Some(at) ==> {
                &&& 0 <= at < model.snapshot.paired_peers@.len()
                &&& model.snapshot.paired_peers@[at].peer_id@ == id@
            }
            &&& model.forgetting() is None ==> forall|i: int|
                0 <= i < model.snapshot.paired_peers@.len() ==> (
                #[trigger] model.snapshot.paired_peers@[i]).peer_id@ != id@
        },
{
    crate::layout_laws::lemma_place_of_id(model.snapshot.paired_peers@, id@);
}

/// A token of the layout names the machine with its id and its name.
pub proof fn law_layout_token_names_its_machine(token: LayoutPeerToken, peer: UiPairedPeer)
    ensures
        token.names(peer) <==> token.peer_id@ == peer.peer_id@ && token.display_name@
            == peer.display_name@,
{
}

/// Each change of the file settings switches its own option over and no other.
pub proof fn law_file_settings_change_one_option(config: UiFileTransferConfig)
    ensures
        ({
            let next = file_config_changed(config, FileConfigChange::OrganizeByPeer);
            &&& next.organize_by_peer == !config.organize_by_peer
            &&& next.auto_accept_trusted_peers == config.auto_accept_trusted_peers
            &&& next.receive_dir == config.receive_dir
            &&& next.max_file_bytes == config.max_file_bytes
        }),
        ({
            let next = file_config_changed(config, FileConfigChange::AutoAcceptTrustedPeers);
            &&& next.auto_accept_trusted_peers == !config.auto_accept_trusted_peers
            &&& next.organize_by_peer == config.organize_by_peer
            &&& next.receive_dir == config.receive_dir
            &&& next.max_file_bytes == config.max_file_bytes
        }),
{
}

/// Each change of the handoff settings changes its own option and no other.
pub proof fn law_handoff_settings_change_one_option(
    config: UiInputHandoffConfig,
    change: HandoffChange,
)
    ensures
        ({
            let next = handoff_changed(config, change);
            &&& (next.block_screen_corners != config.block_screen_corners)
                == (change is BlockScreenCorners)
            &&& (next.relative_mouse != config.relative_mouse) == (change is RelativeMouse)
            &&& (next.hide_cursor_at_edge != config.hide_cursor_at_edge)
                == (change is HideCursorAtEdge)
            &&& (next.draw_cursor_marker != config.draw_cursor_marker)
                == (change is DrawCursorMarker)
            &&& change matches HandoffChange::CornerBlock { px } ==> next.corner_block_px == px
            &&& !(change is CornerBlock) ==> next.corner_block_px == config.corner_block_px
        }),
{
}

/// Each change of the settings against idling changes its own option and no other; the
/// time of recent activity is entered in minutes and kept in seconds.
pub proof fn law_idle_settings_change_one_option(config: UiAntiIdleConfig, change: AntiIdleChange)
    ensures
        ({
            let next = anti_idle_changed(config, change);
            &&& (next.enabled != config.enabled) == (change is Enabled)
            &&& (next.allow_on_battery != config.allow_on_battery) == (change is AllowOnBattery)
            &&& (next.keep_display_on != config.keep_display_on) == (change is KeepDisplayOn)
            &&& change matches AntiIdleChange::RecentActivity { minutes } ==> minutes * 60
                <= u32::MAX ==> next.recent_activity_window_secs == minutes * 60
            &&& !(change is RecentActivity) ==> next.recent_activity_window_secs
                == config.recent_activity_window_secs
        }),
{
}

/// A hotkey is shown as the daemon has it, an unknown one as none.
pub proof fn law_hotkeys_are_those_of_the_daemon(model: DashboardModel, action: Seq<char>)
    ensures
        model.snapshot.hotkeys@.contains_key(action) ==> model.current_hotkey(action)
            == model.snapshot.hotkeys@[action],
        !model.snapshot.hotkeys@.contains_key(action) ==> model.current_hotkey(action).len() == 0,
{
}

/// What an export of support files came to is kept to be shown.
pub proof fn law_export_is_kept(
    model: DashboardModel,
    message: String,
    now_ms: u64,
    next: DashboardModel,
)
    requires
        model.message_applied(AppMsg::SupportExportComplete(message), now_ms, next),
    ensures
        next.support_status == Some(message),
{
}

/// The permission is shown under the name of the machine that has it, while that is
/// paired.
pub proof fn law_permission_names_its_machine(model: DashboardModel, id: String, at: int)
    requires
        model.testing.consent is Some,
        model.testing.consent->0.peer_id == Some(id),
        0 <= at < model.snapshot.paired_peers@.len(),
    ensures
        model.snapshot.paired_peers@[at].peer_id@ == id@ && (forall|j: int|
            0 <= j < at ==> (#[trigger] model.snapshot.paired_peers@[j]).peer_id@ != id@)
            ==> model.allowed_name() == model.snapshot.paired_peers@[at].display_name@,
        (forall|j: int|
            0 <= j < model.snapshot.paired_peers@.len() ==> (
            #[trigger] model.snapshot.paired_peers@[j]).peer_id@ != id@) ==> model.allowed_name()
            == "previously selected PC"@,
{
    let peers = model.snapshot.paired_peers@;
    crate::layout_laws::lemma_place_of_id(peers, id@);
    if peers[at].peer_id@ == id@ && (forall|j: int|
        0 <= j < at ==> (#[trigger] peers[j]).peer_id@ != id@) {
        let found = crate::layout::place_of_id(peers, id@)->0;
        if found < at {
            assert(peers[found].peer_id@ != id@);
        } else if at < found {
            assert(peers[at].peer_id@ != id@);
        }
    }
}

} // verus!
