//! The dashboard's state, and what each message from the background does to it.

use crate::arrange::LayoutModel;
use crate::maps::TextMap;
use crate::service::ServiceRecoveryOffer;
use crate::session::{PairingMsg, PairingSession};
use crate::text;
use crate::toasts::ToastQueue;
use crate::ui::{
    first_run, should_hide_on_close, should_offer_first_run_onboarding, UiPairedPeer, UiSnapshot,
};
use vstd::prelude::*;

verus! {

#[derive(Debug, Clone, Copy, PartialEq, Eq, Structural)]
pub enum Tab {
    Status,
    Layout,
    TransferCenter,
    Settings,
    Support,
}

#[derive(Debug)]
pub struct ServiceRecoveryUiState {
    pub offer: ServiceRecoveryOffer,
    pub in_progress: bool,
}

/// What another machine may measure, as it was last reported.
#[derive(Debug)]
pub struct PairedTestConsent {
    pub peer_id: Option<String>,
    pub enabled: bool,
    pub remaining_seconds: u32,
}

/// The permission for another machine to measure the connection.
#[derive(Debug)]
pub struct TestingPermission {
    pub consent: Option<PairedTestConsent>,
    pub updated_at_ms: Option<u64>,
    pub pending: bool,
    pub error: Option<String>,
    pub peer: String,
}

/// What the user has typed into the settings, beside what the daemon last said.
#[derive(Debug)]
pub struct SettingsDrafts {
    pub receive_dir: String,
    pub receive_dir_last_snapshot: String,
    pub hotkeys: TextMap,
    pub hotkeys_last_snapshot: TextMap,
}

/// A message from the background.
#[derive(Debug)]
pub enum AppMsg {
    SnapshotUpdated(UiSnapshot),
    SnapshotError(String),
    Pairing { attempt_id: u64, msg: PairingMsg },
    ActionComplete(String),
    ActionFailed(String),
    SupportExportComplete(String),
    InputSharingComplete(bool),
    InputSharingFailed(String),
    FileSendComplete(Result<Option<String>, String>),
    PairedTestingUpdated(Result<PairedTestConsent, String>),
    ServiceRecoveryRequired(ServiceRecoveryOffer),
    ServiceRecoveryComplete(String),
    ServiceRecoveryFailed(String),
}

/// The dashboard's state.
#[derive(Debug)]
pub struct DashboardModel {
    pub snapshot: UiSnapshot,
    pub snapshot_error: Option<String>,
    pub pending_peer_removal: Option<String>,
    pub support_status: Option<String>,
    pub input_pause_requested: bool,
    pub input_change_pending: bool,
    pub testing: TestingPermission,
    pub file_send_peer: String,
    pub file_send_pending: bool,
    pub toasts: ToastQueue,
    pub pairing: PairingSession,
    pub selected_tab: Tab,
    pub manual_host: String,
    pub manual_port: String,
    pub pending_onboarding_focus: bool,
    pub onboarding_focus_shown: bool,
    pub pending_service_recovery_focus: bool,
    pub service_recovery: Option<ServiceRecoveryUiState>,
    pub exit_requested: bool,
    pub layout: LayoutModel,
    pub drafts: SettingsDrafts,
    pub confirm_network_reset_pending: bool,
    pub confirm_safe_reset_pending: bool,
}

impl SettingsDrafts {
    pub open spec fn no_hotkeys() -> Map<Seq<char>, Seq<char>> {
        Map::empty()
    }

    /// Drafts that the user has not changed follow the daemon; others stay.
    pub open spec fn follows(self, snap: UiSnapshot, next: SettingsDrafts) -> bool {
        let dir = snap.file_transfer_config.receive_dir@;
        &&& next.receive_dir@ == (if self.receive_dir@ == self.receive_dir_last_snapshot@ {
            dir
        } else {
            self.receive_dir@
        })
        &&& next.receive_dir_last_snapshot@ == dir
        &&& next.hotkeys@ == (if self.hotkeys@ == Self::no_hotkeys() || self.hotkeys@
            == self.hotkeys_last_snapshot@ {
            snap.hotkeys@
        } else {
            self.hotkeys@
        })
        &&& next.hotkeys_last_snapshot@ == snap.hotkeys@
    }

    fn follow(&mut self, snap: &UiSnapshot)
        ensures
            old(self).follows(*snap, *final(self)),
    {
        if text::same(self.receive_dir.as_str(), self.receive_dir_last_snapshot.as_str()) {
            self.receive_dir = snap.file_transfer_config.receive_dir.clone();
        }
        self.receive_dir_last_snapshot = snap.file_transfer_config.receive_dir.clone();
        if self.hotkeys.is_empty() || self.hotkeys.same_as(&self.hotkeys_last_snapshot) {
            self.hotkeys = snap.hotkeys.copy();
        }
        self.hotkeys_last_snapshot = snap.hotkeys.copy();
    }
}

/// `next` is `peer` of which nothing current is known.
pub open spec fn peer_unknown(peer: UiPairedPeer, next: UiPairedPeer) -> bool {
    &&& next == (UiPairedPeer {
        connected: false,
        health_state: next.health_state,
        health_reason: next.health_reason,
        ..peer
    })
    &&& next.health_state@ == "unknown"@
    &&& next.health_reason@ == "Waiting for current status from this PC"@
}

pub open spec fn peers_unknown(peers: Seq<UiPairedPeer>, next: Seq<UiPairedPeer>) -> bool {
    &&& next.len() == peers.len()
    &&& forall|i: int| 0 <= i < next.len() ==> peer_unknown(peers[i], #[trigger] next[i])
}

fn forget_peer_status(peers: Vec<UiPairedPeer>) -> (r: Vec<UiPairedPeer>)
    ensures
        peers_unknown(peers@, r@),
{
    let ghost all = peers@;
    let mut rest = peers;
    let count: usize = rest.len();
    let mut i: usize = 0;
    let mut changed: Vec<UiPairedPeer> = Vec::new();
    while i < count
        invariant
            i <= count == all.len(),
            rest@ == all.subrange(i as int, count as int),
            changed@.len() == i,
            forall|k: int| 0 <= k < i ==> peer_unknown(all[k], #[trigger] changed@[k]),
        decreases count - i,
    {
        let mut peer = rest.remove(0);
        assert(peer == all[i as int]);
        peer.connected = false;
        peer.health_state = text::owned("unknown");
        peer.health_reason = text::owned("Waiting for current status from this PC");
        changed.push(peer);
        i = i + 1;
        assert(rest@ =~= all.subrange(i as int, count as int));
    }
    changed
}

impl DashboardModel {
    /// The state at the start; a tray that could not be shown is reported.
    pub fn new(tray_error: Option<String>, now_ms: u64) -> (r: DashboardModel)
        ensures
            r.wf(),
            r.snapshot.unset(),
            r.layout.fresh(),
            r.selected_tab == Tab::Status,
            r.manual_host@.len() == 0 && r.manual_port@ == "15200"@,
            r.pairing.fresh(),
            r.snapshot_error is None && r.pending_peer_removal is None && r.support_status is None,
            !r.input_pause_requested && !r.input_change_pending,
            r.testing.consent is None && r.testing.updated_at_ms is None && !r.testing.pending
                && r.testing.error is None && r.testing.peer@.len() == 0,
            r.file_send_peer@.len() == 0 && !r.file_send_pending,
            !r.pending_onboarding_focus && !r.onboarding_focus_shown
                && !r.pending_service_recovery_focus && r.service_recovery is None
                && !r.exit_requested,
            r.drafts.receive_dir@.len() == 0 && r.drafts.receive_dir_last_snapshot@.len() == 0,
            r.drafts.hotkeys@ == SettingsDrafts::no_hotkeys(),
            r.drafts.hotkeys_last_snapshot@ == SettingsDrafts::no_hotkeys(),
            !r.confirm_network_reset_pending && !r.confirm_safe_reset_pending,
            match tray_error {
                Some(error) => {
                    &&& r.toasts.seq == 1 && r.toasts.toasts@.len() == 1
                    &&& r.toasts.toasts@[0].id == 1 && r.toasts.toasts@[0].is_error
                    &&& r.toasts.toasts@[0].created_at_ms == now_ms
                    &&& r.toasts.toasts@[0].message@ == "tray initialization failed: "@ + error@
                },
                None => r.toasts.seq == 0 && r.toasts.toasts@.len() == 0,
            },
    {
        let mut toasts = ToastQueue::new();
        if let Some(error) = tray_error {
            let message = text::cat2("tray initialization failed: ", error.as_str());
            toasts.push_toast(message, true, now_ms);
        }
        DashboardModel {
            snapshot: UiSnapshot::default(),
            snapshot_error: None,
            pending_peer_removal: None,
            support_status: None,
            input_pause_requested: false,
            input_change_pending: false,
            testing: TestingPermission {
                consent: None,
                updated_at_ms: None,
                pending: false,
                error: None,
                peer: String::new(),
            },
            file_send_peer: String::new(),
            file_send_pending: false,
            toasts,
            pairing: PairingSession::new(),
            selected_tab: Tab::Status,
            manual_host: String::new(),
            manual_port: text::owned("15200"),
            pending_onboarding_focus: false,
            onboarding_focus_shown: false,
            pending_service_recovery_focus: false,
            service_recovery: None,
            exit_requested: false,
            layout: LayoutModel::new(),
            drafts: SettingsDrafts {
                receive_dir: String::new(),
                receive_dir_last_snapshot: String::new(),
                hotkeys: TextMap::new(),
                hotkeys_last_snapshot: TextMap::new(),
            },
            confirm_network_reset_pending: false,
            confirm_safe_reset_pending: false,
        }
    }

    pub open spec fn wf(self) -> bool {
        self.layout.wf() && self.toasts.wf()
    }

    /// There is a number left for another report.
    pub open spec fn can_report(self) -> bool {
        self.toasts.seq < u64::MAX
    }

    /// `next` only shows one more report.
    pub open spec fn reports(
        self,
        next: DashboardModel,
        message: Seq<char>,
        is_error: bool,
        now_ms: u64,
    ) -> bool {
        &&& next == (DashboardModel { toasts: next.toasts, ..self })
        &&& self.toasts.reports(next.toasts, message, is_error, now_ms)
    }

    /// Shows a report.
    pub fn push_toast(&mut self, message: String, is_error: bool, now_ms: u64)
        requires
            old(self).can_report(),
        ensures
            old(self).reports(*final(self), message@, is_error, now_ms),
            old(self).wf() ==> final(self).wf(),
    {
        self.toasts.push_toast(message, is_error, now_ms);
    }

    /// `next` shows a new snapshot.
    pub open spec fn snapshot_taken(self, snap: UiSnapshot, next: DashboardModel) -> bool {
        &&& next == (DashboardModel {
            snapshot: snap,
            snapshot_error: None,
            service_recovery: None,
            drafts: next.drafts,
            pending_onboarding_focus: self.pending_onboarding_focus || (first_run(snap)
                && !self.onboarding_focus_shown),
            ..self
        })
        &&& self.drafts.follows(snap, next.drafts)
    }

    fn take_snapshot(&mut self, snap: UiSnapshot)
        ensures
            old(self).snapshot_taken(snap, *final(self)),
    {
        self.drafts.follow(&snap);
        let onboarding = should_offer_first_run_onboarding(&snap) && !self.onboarding_focus_shown;
        self.snapshot = snap;
        self.snapshot_error = None;
        self.service_recovery = None;
        if onboarding {
            self.pending_onboarding_focus = true;
        }
    }

    /// Without a current status every machine counts as not connected.
    pub open spec fn status_lost(self, error: String, next: DashboardModel) -> bool {
        &&& next == (DashboardModel {
            snapshot: UiSnapshot {
                daemon_online: false,
                paired_peers: next.snapshot.paired_peers,
                ..self.snapshot
            },
            snapshot_error: Some(error),
            ..self
        })
        &&& peers_unknown(self.snapshot.paired_peers@, next.snapshot.paired_peers@)
    }

    fn lose_status(&mut self, error: String)
        ensures
            old(self).status_lost(error, *final(self)),
    {
        let mut peers: Vec<UiPairedPeer> = Vec::new();
        std::mem::swap(&mut peers, &mut self.snapshot.paired_peers);
        self.snapshot.paired_peers = forget_peer_status(peers);
        self.snapshot.daemon_online = false;
        self.snapshot_error = Some(error);
    }

    /// `next` has taken a message of a pairing attempt. Once paired, the layout is
    /// shown, with the new machine selected.
    pub open spec fn pairing_told(
        self,
        attempt_id: u64,
        msg: PairingMsg,
        now_ms: u64,
        next: DashboardModel,
    ) -> bool {
        &&& self.pairing.told(attempt_id, msg, next.pairing)
        &&& if msg is Complete && self.pairing.listens_to(attempt_id) {
            let result = msg->Complete_0;
            &&& next == (DashboardModel {
                pairing: next.pairing,
                toasts: next.toasts,
                layout: LayoutModel { selected_peer: result.peer_machine_id, ..self.layout },
                selected_tab: Tab::Layout,
                ..self
            })
            &&& self.toasts.reports(
                next.toasts,
                "Paired with "@ + result.orientation_selector@
                    + ". Arrange your PCs to start sharing."@,
                false,
                now_ms,
            )
        } else {
            next == (DashboardModel { pairing: next.pairing, ..self })
        }
    }

    fn take_pairing_msg(&mut self, attempt_id: u64, msg: PairingMsg, now_ms: u64)
        requires
            old(self).can_report(),
        ensures
            old(self).pairing_told(attempt_id, msg, now_ms, *final(self)),
            old(self).wf() ==> final(self).wf(),
    {
        if let Some(result) = self.pairing.apply_pairing_msg(attempt_id, msg) {
            let report = text::cat3(
                "Paired with ",
                result.orientation_selector.as_str(),
                ". Arrange your PCs to start sharing.",
            );
            self.selected_tab = Tab::Layout;
            self.layout.selected_peer = result.peer_machine_id;
            self.push_toast(report, false, now_ms);
        }
    }

    /// `next` offers to recover the service, unless that is going on already.
    pub open spec fn recovery_offered(self, offer: ServiceRecoveryOffer, next: DashboardModel) -> bool {
        next == (DashboardModel {
            service_recovery: if self.service_recovery is Some
                && self.service_recovery->0.in_progress {
                self.service_recovery
            } else {
                Some(ServiceRecoveryUiState { offer, in_progress: false })
            },
            pending_service_recovery_focus: self.pending_service_recovery_focus
                || self.service_recovery is None,
            ..self
        })
    }

    fn offer_recovery(&mut self, offer: ServiceRecoveryOffer)
        ensures
            old(self).recovery_offered(offer, *final(self)),
    {
        let first_offer = self.service_recovery.is_none();
        let busy = match &self.service_recovery {
            Some(recovery) => recovery.in_progress,
            None => false,
        };
        if !busy {
            self.service_recovery = Some(ServiceRecoveryUiState { offer, in_progress: false });
        }
        if first_offer {
            self.pending_service_recovery_focus = true;
        }
    }

    /// The recovery is over; an error takes the place of the offer's text.
    pub open spec fn recovery_over(self, error: Option<String>) -> Option<ServiceRecoveryUiState> {
        match self.service_recovery {
            Some(recovery) => Some(
                ServiceRecoveryUiState {
                    in_progress: false,
                    offer: match error {
                        Some(error) => ServiceRecoveryOffer { message: error, ..recovery.offer },
                        None => recovery.offer,
                    },
                },
            ),
            None => None,
        }
    }

    fn end_recovery(&mut self, error: Option<String>)
        ensures
            *final(self) == (DashboardModel {
                service_recovery: old(self).recovery_over(error),
                ..*old(self)
            }),
    {
        if let Some(recovery) = self.service_recovery.take() {
            let offer = match error {
                Some(error) => ServiceRecoveryOffer { message: error, ..recovery.offer },
                None => recovery.offer,
            };
            self.service_recovery = Some(ServiceRecoveryUiState { in_progress: false, offer });
        }
    }

    /// `next` has taken what a change of the permission to measure came to.
    pub open spec fn testing_updated(
        self,
        result: Result<PairedTestConsent, String>,
        now_ms: u64,
        next: DashboardModel,
    ) -> bool {
        next == (DashboardModel {
            testing: match result {
                Ok(consent) => TestingPermission {
                    consent: Some(consent),
                    updated_at_ms: Some(now_ms),
                    pending: false,
                    error: None,
                    ..self.testing
                },
                Err(error) => TestingPermission {
                    pending: false,
                    error: Some(error),
                    ..self.testing
                },
            },
            ..self
        })
    }

    fn update_testing(&mut self, result: Result<PairedTestConsent, String>, now_ms: u64)
        ensures
            old(self).testing_updated(result, now_ms, *final(self)),
    {
        self.testing.pending = false;
        match result {
            Ok(consent) => {
                self.testing.consent = Some(consent);
                self.testing.updated_at_ms = Some(now_ms);
                self.testing.error = None;
            },
            Err(error) => {
                self.testing.error = Some(error);
            },
        }
    }

    /// `next` knows whether input is shared.
    pub open spec fn sharing_changed(self, enabled: bool, next: DashboardModel) -> bool {
        &&& next == (DashboardModel {
            input_change_pending: false,
            input_pause_requested: !enabled,
            snapshot: UiSnapshot { features: next.snapshot.features, ..self.snapshot },
            ..self
        })
        &&& next.snapshot.features@ == self.snapshot.features@.insert("share_input"@, enabled)
    }

    fn change_sharing(&mut self, enabled: bool)
        ensures
            old(self).sharing_changed(enabled, *final(self)),
    {
        self.input_change_pending = false;
        self.snapshot.features.insert(text::owned("share_input"), enabled);
        self.input_pause_requested = !enabled;
    }

    /// `next` knows what came of a file that was to be sent.
    pub open spec fn file_sent(
        self,
        result: Result<Option<String>, String>,
        now_ms: u64,
        next: DashboardModel,
    ) -> bool {
        let idle = DashboardModel { file_send_pending: false, ..self };
        match result {
            Ok(Some(message)) => idle.reports(next, message@, false, now_ms),
            Ok(None) => next == idle,
            Err(error) => idle.reports(next, error@, true, now_ms),
        }
    }

    fn end_file_send(&mut self, result: Result<Option<String>, String>, now_ms: u64)
        requires
            old(self).can_report(),
        ensures
            old(self).file_sent(result, now_ms, *final(self)),
            old(self).wf() ==> final(self).wf(),
    {
        self.file_send_pending = false;
        match result {
            Ok(Some(message)) => {
                self.push_toast(message, false, now_ms);
            },
            Ok(None) => {},
            Err(error) => {
                self.push_toast(error, true, now_ms);
            },
        }
    }

    /// What a message changes.
    pub open spec fn message_applied(
        self,
        msg: AppMsg,
        now_ms: u64,
        next: DashboardModel,
    ) -> bool {
        match msg {
            AppMsg::SnapshotUpdated(snap) => self.snapshot_taken(snap, next),
            AppMsg::SnapshotError(error) => self.status_lost(error, next),
            AppMsg::Pairing { attempt_id, msg } => self.pairing_told(attempt_id, msg, now_ms, next),
            AppMsg::ActionComplete(message) => self.reports(next, message@, false, now_ms),
            AppMsg::ActionFailed(error) => self.reports(next, error@, true, now_ms),
            AppMsg::SupportExportComplete(message) => next == (DashboardModel {
                support_status: Some(message),
                ..self
            }),
            AppMsg::InputSharingComplete(enabled) => self.sharing_changed(enabled, next),
            AppMsg::InputSharingFailed(error) => (DashboardModel {
                input_change_pending: false,
                ..self
            }).reports(next, error@, true, now_ms),
            AppMsg::FileSendComplete(result) => self.file_sent(result, now_ms, next),
            AppMsg::PairedTestingUpdated(result) => self.testing_updated(result, now_ms, next),
            AppMsg::ServiceRecoveryRequired(offer) => self.recovery_offered(offer, next),
            AppMsg::ServiceRecoveryComplete(message) => (DashboardModel {
                service_recovery: self.recovery_over(None),
                ..self
            }).reports(next, message@, false, now_ms),
            AppMsg::ServiceRecoveryFailed(error) => (DashboardModel {
                service_recovery: self.recovery_over(Some(error)),
                ..self
            }).reports(next, error@, true, now_ms),
        }
    }

    /// Takes a message from the background: whether the input broker is to
    /// resume.
    #[verifier::rlimit(80)]
    pub fn apply_app_msg(&mut self, msg: AppMsg, now_ms: u64) -> (r: bool)
        requires
            old(self).can_report(),
        ensures
            old(self).message_applied(msg, now_ms, *final(self)),
            r == (msg matches AppMsg::InputSharingComplete(enabled) && enabled),
            old(self).wf() ==> final(self).wf(),
    {
        match msg {
            AppMsg::SnapshotUpdated(snap) => {
                self.take_snapshot(snap);
            },
            AppMsg::SnapshotError(error) => {
                self.lose_status(error);
            },
            AppMsg::Pairing { attempt_id, msg } => {
                self.take_pairing_msg(attempt_id, msg, now_ms);
            },
            AppMsg::ActionComplete(message) => {
                self.push_toast(message, false, now_ms);
            },
            AppMsg::ActionFailed(error) => {
                self.push_toast(error, true, now_ms);
            },
            AppMsg::SupportExportComplete(message) => {
                self.support_status = Some(message);
            },
            AppMsg::InputSharingComplete(enabled) => {
                self.change_sharing(enabled);
                return enabled;
            },
            AppMsg::InputSharingFailed(error) => {
                self.input_change_pending = false;
                self.push_toast(error, true, now_ms);
            },
            AppMsg::FileSendComplete(result) => {
                self.end_file_send(result, now_ms);
            },
            AppMsg::PairedTestingUpdated(result) => {
                self.update_testing(result, now_ms);
            },
            AppMsg::ServiceRecoveryRequired(offer) => {
                self.offer_recovery(offer);
            },
            AppMsg::ServiceRecoveryComplete(message) => {
                self.end_recovery(None);
                self.push_toast(message, false, now_ms);
            },
            AppMsg::ServiceRecoveryFailed(error) => {
                let report = error.clone();
                self.end_recovery(Some(error));
                self.push_toast(report, true, now_ms);
            },
        }
        false
    }

    /// At the start of a frame: whether the window is to be hidden in place of
    /// being closed.
    pub fn close_requested(
        &mut self,
        exit_signal: bool,
        close_requested: bool,
        tray_available: bool,
    ) -> (r: bool)
        ensures
            r == (close_requested && tray_available && !old(self).exit_requested && !exit_signal),
            *final(self) == (DashboardModel {
                exit_requested: old(self).exit_requested || exit_signal || (close_requested && !r),
                ..*old(self)
            }),
    {
        if exit_signal {
            self.exit_requested = true;
        }
        if close_requested {
            if should_hide_on_close(self.exit_requested, tray_available) {
                return true;
            }
            self.exit_requested = true;
        }
        false
    }

    /// Once the messages are taken: whether the window is to be shown.
    pub fn take_focus_requests(&mut self) -> (r: bool)
        ensures
            r == (old(self).pending_onboarding_focus || old(self).pending_service_recovery_focus),
            *final(self) == (DashboardModel {
                pending_onboarding_focus: false,
                onboarding_focus_shown: old(self).onboarding_focus_shown || old(
                    self,
                ).pending_onboarding_focus,
                pending_service_recovery_focus: false,
                ..*old(self)
            }),
    {
        let show = self.pending_onboarding_focus || self.pending_service_recovery_focus;
        if self.pending_onboarding_focus {
            self.pending_onboarding_focus = false;
            self.onboarding_focus_shown = true;
        }
        self.pending_service_recovery_focus = false;
        show
    }
}

/// No message takes back what the user has edited: a folder or a set of shortcuts
/// that differs from the last snapshot stays as it is.
pub proof fn law_messages_keep_drafts(
    model: DashboardModel,
    msg: AppMsg,
    now_ms: u64,
    next: DashboardModel,
)
    requires
        model.message_applied(msg, now_ms, next),
    ensures
        model.drafts.receive_dir@ != model.drafts.receive_dir_last_snapshot@
            ==> next.drafts.receive_dir@ == model.drafts.receive_dir@,
        model.drafts.hotkeys@ != model.drafts.hotkeys_last_snapshot@ && model.drafts.hotkeys@
            != SettingsDrafts::no_hotkeys() ==> next.drafts.hotkeys@ == model.drafts.hotkeys@,
{
}

/// No message but those of a pairing touches the pairing dialog, and none of them
/// does once the pairing was cancelled.
pub proof fn law_only_the_active_pairing_is_told(
    model: DashboardModel,
    msg: AppMsg,
    now_ms: u64,
    next: DashboardModel,
)
    requires
        model.message_applied(msg, now_ms, next),
        msg matches AppMsg::Pairing { attempt_id, .. } ==> !model.pairing.listens_to(attempt_id),
    ensures
        next.pairing == model.pairing,
        msg is Pairing ==> next == model,
{
}

/// Once the status is lost, no machine is shown as connected, and none is
/// forgotten.
pub proof fn law_lost_status_shows_nothing_connected(
    model: DashboardModel,
    error: String,
    now_ms: u64,
    next: DashboardModel,
)
    requires
        model.message_applied(AppMsg::SnapshotError(error), now_ms, next),
    ensures
        !next.snapshot.daemon_online,
        next.snapshot.paired_peers@.len() == model.snapshot.paired_peers@.len(),
        forall|i: int|
            0 <= i < next.snapshot.paired_peers@.len() ==> {
                let peer = #[trigger] next.snapshot.paired_peers@[i];
                &&& !peer.connected
                &&& peer.peer_id == model.snapshot.paired_peers@[i].peer_id
                &&& peer.display_name == model.snapshot.paired_peers@[i].display_name
            },
{
}

/// A recovery that is going on is not replaced by another offer.
pub proof fn law_running_recovery_is_not_replaced(
    model: DashboardModel,
    offer: ServiceRecoveryOffer,
    now_ms: u64,
    next: DashboardModel,
)
    requires
        model.service_recovery is Some,
        model.service_recovery->0.in_progress,
        model.message_applied(AppMsg::ServiceRecoveryRequired(offer), now_ms, next),
    ensures
        next == model,
{
}

} // verus!
