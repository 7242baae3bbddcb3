//! What the user does on the dashboard, and what the background is asked for.

use crate::arrange::LayoutModel;
use crate::dashboard::{DashboardModel, ServiceRecoveryUiState};
use crate::layout::{find_peer, place_of_id, placement_of, written_as};
use crate::maps::flag_on;
use crate::pairing::{
    endpoint_host, guided_flow_from_discovered_peer, guided_flow_from_manual_input,
    manual_address_ready, manual_port_valid, same_flow, GuidedPairingFlow, DEFAULT_PAIRING_PORT,
};
use crate::text;
use crate::ui::{
    UiAntiIdleConfig, UiDiscoveredPeer, UiFileTransferConfig, UiInputHandoffConfig,
    UiPairedPeer, UiSnapshot,
};
use vstd::prelude::*;

verus! {

/// What the background is asked for.
#[derive(Debug)]
pub enum DashboardCommand {
    RequestPairingCode { attempt_id: u64, flow: GuidedPairingFlow },
    ApproveRequest(String),
    RejectRequest(String),
    SetInputSharing(bool),
    SetFeature { name: String, enabled: bool },
    SetFileTransferConfig(UiFileTransferConfig),
    OpenReceiveFolder(String),
    SetInputHandoffConfig(UiInputHandoffConfig),
    SetAntiIdleConfig(UiAntiIdleConfig),
    SetHotkey { action: String, combo: String },
    ChooseAndSendFile(String),
    SendFilesToPeer { receiver: String, paths: Vec<String> },
    CancelFileTransfer(String),
    RetryFileTransfer(String),
    OpenReceivedFileLocation(String),
    ClearCompletedFileTransfers,
    RemovePeer(String),
    ReconnectAllPeers,
    ExportSupport,
    SafeReset { network_only: bool, all: bool, confirm: String },
    ChangeTestingPermission(TestingChange),
    ApplyLayout(String),
    RecoverBoundlessService,
}

/// What is asked of the permission for another machine to measure.
#[derive(Debug)]
pub enum TestingChange {
    Refresh,
    Allow { allowed: String, duration_seconds: u32 },
}

/// How long another machine may measure, in seconds.
pub const TESTING_SECONDS: u32 = 600;

// Pairing.

impl DashboardModel {
    /// `next` asks for a code for a pairing.
    pub open spec fn pairing_started(
        self,
        flow: GuidedPairingFlow,
        next: DashboardModel,
        command: DashboardCommand,
    ) -> bool {
        &&& next == (DashboardModel { pairing: next.pairing, ..self })
        &&& next.pairing.flow is Some
        &&& same_flow(next.pairing.flow->0, flow)
        &&& self.pairing.begun(next.pairing.flow->0, next.pairing)
        &&& command matches DashboardCommand::RequestPairingCode { attempt_id, flow: asked }
        &&& Some(attempt_id) == next.pairing.active_attempt_id
        &&& same_flow(asked, flow)
    }

    /// Starts a pairing.
    pub fn start_pairing(&mut self, flow: GuidedPairingFlow) -> (r: DashboardCommand)
        ensures
            old(self).pairing_started(flow, *final(self), r),
            old(self).wf() ==> final(self).wf(),
    {
        let attempt_id = self.pairing.begin_pairing_flow(flow.clone());
        DashboardCommand::RequestPairingCode { attempt_id, flow }
    }

    /// Connects to a machine that was found nearby; a bad address is reported.
    pub fn connect_discovered_peer(&mut self, peer: &UiDiscoveredPeer, now_ms: u64) -> (r: Option<
        DashboardCommand,
    >)
        requires
            old(self).can_report(),
        ensures
            r is Some <==> endpoint_host(peer.endpoint@) is Some,
            r matches Some(command) ==> exists|flow: GuidedPairingFlow|
                {
                    &&& #[trigger] old(self).pairing_started(flow, *final(self), command)
                    &&& flow.dialog_title@ == "Pair with "@ + peer.display_name@
                    &&& Some(flow.host@) == endpoint_host(peer.endpoint@)
                    &&& flow.pairing_port == DEFAULT_PAIRING_PORT
                    &&& flow.default_alias@ == peer.display_name@
                    &&& flow.orientation_selector_fallback@ == peer.display_name@
                    &&& flow.endpoint_candidates@ == peer.endpoint_candidates@
                },
            r is None ==> old(self).reports(
                *final(self),
                "Failed to parse peer endpoint"@,
                true,
                now_ms,
            ),
            old(self).wf() ==> final(self).wf(),
    {
        match guided_flow_from_discovered_peer(peer) {
            Ok(flow) => Some(self.start_pairing(flow)),
            Err(error) => {
                self.push_toast(error.message(), true, now_ms);
                None
            },
        }
    }

    /// Connects to the address that was typed in, where it can be one: a host that
    /// is not blank and, but for white space around it, a port. A port with white
    /// space around it is reported.
    pub fn connect_by_address(&mut self, now_ms: u64) -> (r: Option<DashboardCommand>)
        requires
            old(self).can_report(),
        ensures
            ({
                let ready = text::trimmed(old(self).manual_host@).len() > 0 && manual_port_valid(
                    old(self).manual_port@,
                );
                let number = text::parsed(old(self).manual_port@, u64::MAX as nat);
                &&& r is Some <==> ready && number is Some && 0 < number->0 <= u16::MAX
                &&& !ready ==> *final(self) == *old(self)
                &&& ready && r is None ==> old(self).reports(
                    *final(self),
                    if number is None {
                        "pairing port must be a number"@
                    } else {
                        "pairing port must be in 1..=65535"@
                    },
                    true,
                    now_ms,
                )
            }),
            r matches Some(command) ==> exists|flow: GuidedPairingFlow|
                {
                    &&& #[trigger] old(self).pairing_started(flow, *final(self), command)
                    &&& flow.dialog_title@ == "Manual Pair "@ + old(self).manual_host@
                    &&& flow.host@ == old(self).manual_host@
                    &&& text::parsed(old(self).manual_port@, u16::MAX as nat) == Some(
                        flow.pairing_port as nat,
                    )
                    &&& flow.default_alias@.len() == 0
                    &&& flow.orientation_selector_fallback@ == old(self).manual_host@
                    &&& flow.endpoint_candidates@.len() == 0
                },
            old(self).wf() ==> final(self).wf(),
    {
        if !manual_address_ready(self.manual_host.as_str(), self.manual_port.as_str()) {
            return None;
        }
        match guided_flow_from_manual_input(self.manual_host.as_str(), self.manual_port.as_str()) {
            Ok(flow) => Some(self.start_pairing(flow)),
            Err(error) => {
                self.push_toast(error.message(), true, now_ms);
                None
            },
        }
    }

    /// Asks again for a code, where that may help.
    pub fn retry_pairing(&mut self) -> (r: Option<DashboardCommand>)
        ensures
            r is Some <==> old(self).pairing.retry_available && !old(self).pairing.in_progress
                && old(self).pairing.flow is Some,
            r is None ==> *final(self) == *old(self),
            r matches Some(command) ==> exists|flow: GuidedPairingFlow|
                #[trigger] old(self).pairing_started(flow, *final(self), command) && same_flow(
                    flow,
                    old(self).pairing.flow->0,
                ),
            old(self).wf() ==> final(self).wf(),
    {
        if !self.pairing.retry_available || self.pairing.in_progress {
            return None;
        }
        let flow = match &self.pairing.flow {
            Some(flow) => flow.clone(),
            None => {
                return None;
            },
        };
        Some(self.start_pairing(flow))
    }
}

// Requests of other machines.

impl DashboardModel {
    /// Approves a machine that asks to pair; one that has to enter a code cannot be
    /// approved.
    pub fn approve_request(&self, index: usize) -> (r: Option<DashboardCommand>)
        ensures
            r == (if index < self.snapshot.pending_requests@.len()
                && !self.snapshot.pending_requests@[index as int].requires_verification_code {
                Some(
                    DashboardCommand::ApproveRequest(
                        self.snapshot.pending_requests@[index as int].request_id,
                    ),
                )
            } else {
                None
            }),
    {
        if index >= self.snapshot.pending_requests.len() {
            return None;
        }
        let request = &self.snapshot.pending_requests[index];
        if request.requires_verification_code {
            return None;
        }
        Some(DashboardCommand::ApproveRequest(request.request_id.clone()))
    }

    /// Turns a machine away that asks to pair.
    pub fn reject_request(&self, index: usize) -> (r: Option<DashboardCommand>)
        ensures
            r == (if index < self.snapshot.pending_requests@.len() {
                Some(
                    DashboardCommand::RejectRequest(
                        self.snapshot.pending_requests@[index as int].request_id,
                    ),
                )
            } else {
                None
            }),
    {
        if index >= self.snapshot.pending_requests.len() {
            return None;
        }
        Some(
            DashboardCommand::RejectRequest(
                self.snapshot.pending_requests[index].request_id.clone(),
            ),
        )
    }
}

// Sharing input.

/// The button that pauses or resumes the sharing of input.
#[derive(Debug, Clone, Copy, PartialEq, Eq, Structural)]
pub enum InputControl {
    Pause,
    /// Paused, as the daemon confirmed or not yet; resuming may be unavailable.
    Resume { confirmed: bool, available: bool },
}

impl DashboardModel {
    /// A change of the sharing of input is under way.
    pub open spec fn sharing_asked(self) -> DashboardModel {
        DashboardModel { input_pause_requested: true, input_change_pending: true, ..self }
    }

    /// Pauses: the local capture is released at once, and stays so if the daemon
    /// cannot be reached.
    pub fn pause_input(&mut self) -> (r: DashboardCommand)
        ensures
            *final(self) == old(self).sharing_asked(),
            r == DashboardCommand::SetInputSharing(false),
    {
        self.input_pause_requested = true;
        self.input_change_pending = true;
        DashboardCommand::SetInputSharing(false)
    }

    /// Resumes, unless a change is under way; capture stays paused until the daemon
    /// has confirmed it.
    pub fn resume_input(&mut self) -> (r: Option<DashboardCommand>)
        ensures
            old(self).input_change_pending ==> r is None && *final(self) == *old(self),
            !old(self).input_change_pending ==> *final(self) == old(self).sharing_asked() && r
                == Some(DashboardCommand::SetInputSharing(true)),
    {
        if self.input_change_pending {
            return None;
        }
        self.input_pause_requested = true;
        self.input_change_pending = true;
        Some(DashboardCommand::SetInputSharing(true))
    }

    pub open spec fn shown_input_control(self, locally_paused: bool) -> InputControl {
        let enabled = flag_on(self.snapshot.features@, "share_input"@);
        let online = self.snapshot.daemon_online;
        if self.input_pause_requested || locally_paused || (online && !enabled) {
            InputControl::Resume {
                confirmed: online && !enabled,
                available: online && !self.input_change_pending,
            }
        } else {
            InputControl::Pause
        }
    }

    pub fn input_control(&self, locally_paused: bool) -> (r: InputControl)
        ensures
            r == self.shown_input_control(locally_paused),
    {
        let enabled = self.snapshot.features.is_on("share_input");
        let online = self.snapshot.daemon_online;
        if self.input_pause_requested || locally_paused || (online && !enabled) {
            InputControl::Resume {
                confirmed: online && !enabled,
                available: online && !self.input_change_pending,
            }
        } else {
            InputControl::Pause
        }
    }

    /// A feature is shown as switched on.
    pub open spec fn feature_shown_on(self, name: Seq<char>) -> bool {
        flag_on(self.snapshot.features@, name) && !(name == "share_input"@
            && self.input_pause_requested)
    }

    /// Whether a feature is shown as switched on.
    pub fn feature_shown(&self, name: &str) -> (r: bool)
        ensures
            r == self.feature_shown_on(name@),
    {
        self.snapshot.features.is_on(name) && !(text::same(name, "share_input")
            && self.input_pause_requested)
    }

    /// Whether a feature can be switched over now.
    pub fn feature_free(&self, name: &str) -> (r: bool)
        ensures
            r == !(name@ == "share_input"@ && self.input_change_pending),
    {
        !(text::same(name, "share_input") && self.input_change_pending)
    }

    /// Switches a feature over, from what is shown. Sharing input goes through a
    /// pause or a resumption, and not while one is under way.
    pub fn toggle_feature(&mut self, name: &str) -> (r: Option<DashboardCommand>)
        ensures
            name@ != "share_input"@ ==> {
                &&& *final(self) == *old(self)
                &&& r matches Some(DashboardCommand::SetFeature { name: asked, enabled })
                &&& asked@ == name@
                &&& enabled == !old(self).feature_shown_on(name@)
            },
            name@ == "share_input"@ && old(self).input_change_pending ==> r is None
                && *final(self) == *old(self),
            name@ == "share_input"@ && !old(self).input_change_pending ==> *final(self) == old(
                self,
            ).sharing_asked() && r == Some(
                DashboardCommand::SetInputSharing(!old(self).feature_shown_on(name@)),
            ),
    {
        let on = self.snapshot.features.is_on(name);
        if !text::same(name, "share_input") {
            return Some(DashboardCommand::SetFeature { name: text::owned(name), enabled: !on });
        }
        if self.input_change_pending {
            return None;
        }
        if on && !self.input_pause_requested {
            Some(self.pause_input())
        } else {
            self.resume_input()
        }
    }
}

// Forgetting a machine.

impl DashboardModel {
    /// Asks whether a machine is to be forgotten.
    pub fn request_forget(&mut self, peer_id: String)
        ensures
            *final(self) == (DashboardModel {
                pending_peer_removal: if old(self).snapshot.daemon_online {
                    Some(peer_id)
                } else {
                    old(self).pending_peer_removal
                },
                ..*old(self)
            }),
    {
        if self.snapshot.daemon_online {
            self.pending_peer_removal = Some(peer_id);
        }
    }

    /// The machine of which it is asked whether to forget it, if it is still there.
    pub open spec fn forgetting(self) -> Option<int> {
        match self.pending_peer_removal {
            Some(peer_id) => place_of_id(self.snapshot.paired_peers@, peer_id@),
            None => None,
        }
    }

    /// The name of the machine that the question is about. The question is over
    /// once the machine is gone.
    pub fn forget_confirmation(&mut self) -> (r: Option<String>)
        ensures
            r is Some <==> old(self).forgetting() is Some,
            r is Some ==> r->0 == old(self).snapshot.paired_peers@[old(
                self,
            ).forgetting()->0].display_name && *final(self) == *old(self),
            r is None ==> *final(self) == (DashboardModel {
                pending_peer_removal: None,
                ..*old(self)
            }),
    {
        let found = match &self.pending_peer_removal {
            Some(peer_id) => find_peer(&self.snapshot.paired_peers, peer_id.as_str()),
            None => None,
        };
        match found {
            Some(at) => Some(self.snapshot.paired_peers[at].display_name.clone()),
            None => {
                self.pending_peer_removal = None;
                None
            },
        }
    }

    pub fn cancel_forget(&mut self)
        ensures
            *final(self) == (DashboardModel { pending_peer_removal: None, ..*old(self) }),
    {
        self.pending_peer_removal = None;
    }

    /// Forgets the machine that was asked about, where the daemon can be reached.
    pub fn confirm_forget(&mut self) -> (r: Option<DashboardCommand>)
        ensures
            old(self).snapshot.daemon_online && old(self).pending_peer_removal is Some ==> {
                &&& r == Some(DashboardCommand::RemovePeer(old(self).pending_peer_removal->0))
                &&& *final(self) == (DashboardModel { pending_peer_removal: None, ..*old(self) })
            },
            !(old(self).snapshot.daemon_online && old(self).pending_peer_removal is Some) ==> r
                is None && *final(self) == *old(self),
    {
        if !self.snapshot.daemon_online {
            return None;
        }
        match self.pending_peer_removal.take() {
            Some(peer_id) => Some(DashboardCommand::RemovePeer(peer_id)),
            None => None,
        }
    }
}

// Support.

impl DashboardModel {
    /// Asks every paired machine to connect again.
    pub fn retry_connections(&self) -> (r: Option<DashboardCommand>)
        ensures
            r == (if self.snapshot.daemon_online {
                Some(DashboardCommand::ReconnectAllPeers)
            } else {
                None
            }),
    {
        if self.snapshot.daemon_online {
            Some(DashboardCommand::ReconnectAllPeers)
        } else {
            None
        }
    }

    /// Saves a report.
    pub fn export_support(&mut self) -> (r: Option<DashboardCommand>)
        ensures
            !old(self).snapshot.daemon_online ==> r is None && *final(self) == *old(self),
            old(self).snapshot.daemon_online ==> {
                &&& r == Some(DashboardCommand::ExportSupport)
                &&& *final(self) == (DashboardModel {
                    support_status: final(self).support_status,
                    ..*old(self)
                })
                &&& final(self).support_status matches Some(status) && status@
                    == "Saving report..."@
            },
    {
        if !self.snapshot.daemon_online {
            return None;
        }
        self.support_status = Some(text::owned("Saving report..."));
        Some(DashboardCommand::ExportSupport)
    }

    /// Asks whether every pairing is to be removed.
    pub fn request_network_reset(&mut self)
        ensures
            *final(self) == (DashboardModel {
                confirm_network_reset_pending: old(self).confirm_network_reset_pending || old(
                    self,
                ).snapshot.daemon_online,
                ..*old(self)
            }),
    {
        if self.snapshot.daemon_online {
            self.confirm_network_reset_pending = true;
        }
    }

    pub fn cancel_network_reset(&mut self)
        ensures
            *final(self) == (DashboardModel { confirm_network_reset_pending: false, ..*old(self) }),
    {
        self.confirm_network_reset_pending = false;
    }

    /// Removes every pairing, once that was asked about.
    pub fn confirm_network_reset(&mut self) -> (r: Option<DashboardCommand>)
        ensures
            ({
                let asked = old(self).snapshot.daemon_online && old(
                    self,
                ).confirm_network_reset_pending;
                &&& !asked ==> r is None && *final(self) == *old(self)
                &&& asked ==> *final(self) == (DashboardModel {
                    confirm_network_reset_pending: false,
                    ..*old(self)
                })
                &&& asked ==> {
                    &&& r matches Some(
                        DashboardCommand::SafeReset { network_only: true, all: false, confirm },
                    )
                    &&& confirm@ == "safe-reset-network:"@ + old(self).snapshot.machine_id@
                }
            }),
    {
        if !self.snapshot.daemon_online || !self.confirm_network_reset_pending {
            return None;
        }
        self.confirm_network_reset_pending = false;
        Some(
            DashboardCommand::SafeReset {
                network_only: true,
                all: false,
                confirm: text::cat2("safe-reset-network:", self.snapshot.machine_id.as_str()),
            },
        )
    }

    /// Asks whether all configuration is to be reset.
    pub fn request_safe_reset(&mut self)
        ensures
            *final(self) == (DashboardModel {
                confirm_safe_reset_pending: old(self).confirm_safe_reset_pending || old(
                    self,
                ).snapshot.daemon_online,
                ..*old(self)
            }),
    {
        if self.snapshot.daemon_online {
            self.confirm_safe_reset_pending = true;
        }
    }

    pub fn cancel_safe_reset(&mut self)
        ensures
            *final(self) == (DashboardModel { confirm_safe_reset_pending: false, ..*old(self) }),
    {
        self.confirm_safe_reset_pending = false;
    }

    /// Resets all configuration, once that was asked about.
    pub fn confirm_safe_reset(&mut self) -> (r: Option<DashboardCommand>)
        ensures
            ({
                let asked = old(self).snapshot.daemon_online && old(
                    self,
                ).confirm_safe_reset_pending;
                &&& !asked ==> r is None && *final(self) == *old(self)
                &&& asked ==> *final(self) == (DashboardModel {
                    confirm_safe_reset_pending: false,
                    ..*old(self)
                })
                &&& asked ==> {
                    &&& r matches Some(
                        DashboardCommand::SafeReset { network_only: false, all: true, confirm },
                    )
                    &&& confirm@ == "safe-reset-all:"@ + old(self).snapshot.machine_id@
                }
            }),
    {
        if !self.snapshot.daemon_online || !self.confirm_safe_reset_pending {
            return None;
        }
        self.confirm_safe_reset_pending = false;
        Some(
            DashboardCommand::SafeReset {
                network_only: false,
                all: true,
                confirm: text::cat2("safe-reset-all:", self.snapshot.machine_id.as_str()),
            },
        )
    }

    /// Recovers the service, where that is offered and not going on.
    pub fn start_service_recovery(&mut self) -> (r: Option<DashboardCommand>)
        ensures
            ({
                let possible = old(self).service_recovery matches Some(recovery)
                    && !recovery.in_progress;
                &&& !possible ==> r is None && *final(self) == *old(self)
                &&& possible ==> r == Some(DashboardCommand::RecoverBoundlessService)
                    && *final(self) == (DashboardModel {
                    service_recovery: Some(
                        ServiceRecoveryUiState {
                            in_progress: true,
                            ..old(self).service_recovery->0
                        },
                    ),
                    ..*old(self)
                })
            }),
    {
        match self.service_recovery.take() {
            Some(recovery) => {
                if recovery.in_progress {
                    self.service_recovery = Some(recovery);
                    return None;
                }
                self.service_recovery = Some(
                    ServiceRecoveryUiState { offer: recovery.offer, in_progress: true },
                );
                Some(DashboardCommand::RecoverBoundlessService)
            },
            None => None,
        }
    }
}

// The arrangement.

/// A paired machine as the tokens of a layout may name it.
#[derive(Debug)]
pub struct LayoutPeerToken {
    pub peer_id: String,
    pub display_name: String,
}

impl LayoutPeerToken {
    pub open spec fn names(self, peer: UiPairedPeer) -> bool {
        self.peer_id@ == peer.peer_id@ && self.display_name@ == peer.display_name@
    }
}

/// A layout that is to be judged: as it is written, and whom it may name.
#[derive(Debug)]
pub struct LayoutCheck {
    pub matrix: String,
    pub machine_id: String,
    pub peers: Vec<LayoutPeerToken>,
}

impl DashboardModel {
    /// Reads the arrangement anew where that is due.
    pub fn sync_layout(&mut self)
        requires
            old(self).wf(),
        ensures
            final(self).wf(),
            *final(self) == (DashboardModel { layout: final(self).layout, ..*old(self) }),
            old(self).layout.synced(old(self).snapshot, final(self).layout),
    {
        self.layout.sync(&self.snapshot);
    }

    /// What has to be judged before the arrangement can be applied.
    pub fn layout_check(&self) -> (r: LayoutCheck)
        requires
            self.wf(),
        ensures
            written_as(self.layout.grid@, self.snapshot.machine_id@, r.matrix@),
            r.machine_id@ == self.snapshot.machine_id@,
            r.peers@.len() == self.snapshot.paired_peers@.len(),
            forall|i: int|
                0 <= i < r.peers@.len() ==> (#[trigger] r.peers@[i]).names(
                    self.snapshot.paired_peers@[i],
                ),
    {
        let mut peers: Vec<LayoutPeerToken> = Vec::new();
        let mut i: usize = 0;
        while i < self.snapshot.paired_peers.len()
            invariant
                i <= self.snapshot.paired_peers.len(),
                peers@.len() == i,
                forall|k: int|
                    0 <= k < i ==> (#[trigger] peers@[k]).names(self.snapshot.paired_peers@[k]),
            decreases self.snapshot.paired_peers.len() - i,
        {
            let peer = &self.snapshot.paired_peers[i];
            peers.push(
                LayoutPeerToken {
                    peer_id: peer.peer_id.clone(),
                    display_name: peer.display_name.clone(),
                },
            );
            i = i + 1;
        }
        LayoutCheck {
            matrix: self.layout.written(self.snapshot.machine_id.as_str()),
            machine_id: self.snapshot.machine_id.clone(),
            peers,
        }
    }

    /// Takes the verdict on the arrangement: the user is asked whether it is to be
    /// applied, or told why it cannot be.
    pub fn request_layout_apply(&mut self, verdict: Result<(), String>, now_ms: u64)
        requires
            old(self).can_report(),
        ensures
            old(self).wf() ==> final(self).wf(),
            match verdict {
                Ok(_) => *final(self) == (DashboardModel {
                    layout: LayoutModel { confirm_apply_pending: true, ..old(self).layout },
                    ..*old(self)
                }),
                Err(error) => old(self).reports(*final(self), error@, true, now_ms),
            },
    {
        match verdict {
            Ok(_) => {
                self.layout.confirm_apply_pending = true;
            },
            Err(error) => {
                self.push_toast(error, true, now_ms);
            },
        }
    }

    /// Takes the machine at a cell off the grid, unless it is this one: whether a
    /// machine was taken off.
    pub fn remove_from_grid(&mut self, x: i32, y: i32) -> (r: bool)
        requires
            old(self).wf(),
        ensures
            final(self).wf(),
            r == old(self).layout.removable(x, y, old(self).snapshot.machine_id@),
            !r ==> *final(self) == *old(self),
            r ==> old(self).layout.removed(x, y, final(self).layout) && *final(self) == (
            DashboardModel { layout: final(self).layout, ..*old(self) }),
    {
        if !self.layout.can_remove(x, y, self.snapshot.machine_id.as_str()) {
            return false;
        }
        self.layout.remove_from_grid(x, y);
        true
    }

    /// Applies the arrangement, once that was asked about.
    pub fn confirm_layout_apply(&mut self) -> (r: Option<DashboardCommand>)
        requires
            old(self).wf(),
        ensures
            final(self).wf(),
            !old(self).layout.confirm_apply_pending ==> r is None && *final(self) == *old(self),
            old(self).layout.confirm_apply_pending ==> {
                &&& *final(self) == (DashboardModel {
                    layout: LayoutModel { confirm_apply_pending: false, ..old(self).layout },
                    ..*old(self)
                })
                &&& r matches Some(DashboardCommand::ApplyLayout(matrix))
                &&& written_as(old(self).layout.grid@, old(self).snapshot.machine_id@, matrix@)
            },
    {
        if !self.layout.confirm_apply_pending {
            return None;
        }
        Some(
            DashboardCommand::ApplyLayout(
                self.layout.confirm_apply(self.snapshot.machine_id.as_str()),
            ),
        )
    }

    /// Discards the arrangement; it is read anew as if the daemon had none.
    pub fn reset_layout(&mut self)
        requires
            old(self).wf(),
        ensures
            final(self).wf(),
            *final(self) == (DashboardModel {
                layout: final(self).layout,
                snapshot: UiSnapshot {
                    layout_matrix: final(self).snapshot.layout_matrix,
                    ..old(self).snapshot
                },
                ..*old(self)
            }),
            final(self).snapshot.layout_matrix@.len() == 0,
            final(self).layout == (LayoutModel {
                initialized: false,
                previous: final(self).layout.previous,
                ..old(self).layout
            }),
            final(self).layout.previous matches Some(stash) && placement_of(
                stash.grid,
                stash.unassigned,
            ) == old(self).layout.placement(),
    {
        self.layout.reset_layout();
        self.snapshot.layout_matrix = String::new();
    }
}

// The elevated helper.

impl DashboardModel {
    /// Reports whether the elevated helper could be asked for.
    pub fn report_helper_start(&mut self, started: bool, now_ms: u64)
        requires
            old(self).can_report(),
        ensures
            old(self).reports(
                *final(self),
                if started {
                    "Approve the Windows permission prompt on this PC"@
                } else {
                    "Administrator-app control could not start; check its status and restart the tray if shutdown is incomplete"@
                },
                !started,
                now_ms,
            ),
            old(self).wf() ==> final(self).wf(),
    {
        if started {
            let report = text::owned("Approve the Windows permission prompt on this PC");
            self.push_toast(report, false, now_ms);
        } else {
            let report = text::owned(
                "Administrator-app control could not start; check its status and restart the tray if shutdown is incomplete",
            );
            self.push_toast(report, true, now_ms);
        }
    }

    /// Reports that the elevated helper is stopping, if it could be asked to.
    pub fn report_helper_stop(&mut self, requested: bool, now_ms: u64)
        requires
            old(self).can_report(),
        ensures
            !requested ==> *final(self) == *old(self),
            requested ==> old(self).reports(
                *final(self),
                "Administrator-app control is stopping and releasing held input"@,
                false,
                now_ms,
            ),
            old(self).wf() ==> final(self).wf(),
    {
        if requested {
            let report = text::owned(
                "Administrator-app control is stopping and releasing held input",
            );
            self.push_toast(report, false, now_ms);
        }
    }
}

} // verus!
