//! The elevated input helper as the tray sees it: its status, and what each
//! command, reply and loss of the helper does to that status.

use crate::input::InputEvent;
use crate::text;
use vstd::prelude::*;

verus! {

#[derive(Debug, Clone, Copy, PartialEq, Eq, Structural)]
pub enum InputInjectorState {
    Off,
    Prompting,
    ReadyPendingIdle,
    Active,
    Stopping,
    Unavailable,
}

#[derive(Debug, Clone, Copy, PartialEq, Eq, Structural)]
pub enum InputInjectorReason {
    Unspecified,
    UserCancelled,
    Duplicate,
    NotInstalled,
    SignatureInvalid,
    IdentityRejected,
    WrongPath,
    ProtocolMismatch,
    IpcUnavailable,
    DeliveryUncertain,
    ShutdownIncomplete,
    ParentExited,
}

#[derive(Debug, Clone, Copy, PartialEq, Eq, Structural)]
pub enum InputInjectorSignatureTrust {
    Unspecified,
    Trusted,
    UnsignedDogfood,
}

/// What is known of the elevated helper.
#[derive(Debug)]
pub struct ElevatedInputControllerStatus {
    pub state: InputInjectorState,
    pub reason: InputInjectorReason,
    pub signature_trust: InputInjectorSignatureTrust,
    pub helper_version: String,
    /// Input may go through the ordinary lane.
    pub direct_fallback_safe: bool,
    /// The helper went away without releasing what it held: the broker has to
    /// release it before the ordinary lane is safe.
    pub direct_recovery_cleanup_required: bool,
}

/// The mathematical view of a status.
pub struct StatusView {
    pub state: InputInjectorState,
    pub reason: InputInjectorReason,
    pub signature_trust: InputInjectorSignatureTrust,
    pub helper_version: Seq<char>,
    pub direct_fallback_safe: bool,
    pub direct_recovery_cleanup_required: bool,
}

impl View for ElevatedInputControllerStatus {
    type V = StatusView;

    open spec fn view(&self) -> StatusView {
        StatusView {
            state: self.state,
            reason: self.reason,
            signature_trust: self.signature_trust,
            helper_version: self.helper_version@,
            direct_fallback_safe: self.direct_fallback_safe,
            direct_recovery_cleanup_required: self.direct_recovery_cleanup_required,
        }
    }
}

impl Clone for ElevatedInputControllerStatus {
    fn clone(&self) -> (r: ElevatedInputControllerStatus)
        ensures
            r@ == self@,
    {
        ElevatedInputControllerStatus {
            state: self.state,
            reason: self.reason,
            signature_trust: self.signature_trust,
            helper_version: self.helper_version.clone(),
            direct_fallback_safe: self.direct_fallback_safe,
            direct_recovery_cleanup_required: self.direct_recovery_cleanup_required,
        }
    }
}

impl StatusView {
    pub open spec fn off() -> StatusView {
        StatusView {
            state: InputInjectorState::Off,
            reason: InputInjectorReason::Unspecified,
            signature_trust: InputInjectorSignatureTrust::Unspecified,
            helper_version: Seq::empty(),
            direct_fallback_safe: true,
            direct_recovery_cleanup_required: false,
        }
    }

    /// The ordinary lane is never called safe while a recovery is still owed.
    pub open spec fn consistent(self) -> bool {
        !(self.direct_fallback_safe && self.direct_recovery_cleanup_required)
    }

    /// The user may ask for the helper.
    pub open spec fn enable_allowed(self) -> bool {
        &&& self.direct_fallback_safe
        &&& !self.direct_recovery_cleanup_required
        &&& self.state == InputInjectorState::Off || self.state == InputInjectorState::Unavailable
    }

    pub open spec fn prompting(self) -> StatusView {
        StatusView {
            state: InputInjectorState::Prompting,
            reason: InputInjectorReason::Unspecified,
            signature_trust: InputInjectorSignatureTrust::Unspecified,
            helper_version: Seq::empty(),
            ..self
        }
    }

    pub open spec fn unavailable(self, reason: InputInjectorReason) -> StatusView {
        StatusView { state: InputInjectorState::Unavailable, reason, ..self }
    }

    pub open spec fn delivery_uncertain(self) -> StatusView {
        StatusView {
            direct_fallback_safe: false,
            ..self.unavailable(InputInjectorReason::DeliveryUncertain)
        }
    }

    pub open spec fn launch_failed(self, reason: InputInjectorReason) -> StatusView {
        StatusView {
            state: if reason == InputInjectorReason::UserCancelled {
                InputInjectorState::Off
            } else {
                InputInjectorState::Unavailable
            },
            reason,
            direct_fallback_safe: true,
            direct_recovery_cleanup_required: false,
            ..self
        }
    }

    pub open spec fn connect_failed(
        self,
        reason: InputInjectorReason,
        launch_trust: InputInjectorSignatureTrust,
    ) -> StatusView {
        StatusView {
            signature_trust: launch_trust,
            direct_fallback_safe: true,
            direct_recovery_cleanup_required: false,
            ..self.unavailable(reason)
        }
    }

    pub open spec fn reported(self, state: InputInjectorState, report: ReportView) -> StatusView {
        StatusView {
            state,
            reason: report.reason,
            signature_trust: report.signature_trust,
            helper_version: report.helper_version,
            direct_fallback_safe: true,
            direct_recovery_cleanup_required: false,
        }
    }

    pub open spec fn activated(self) -> StatusView {
        StatusView {
            state: InputInjectorState::Active,
            reason: InputInjectorReason::Unspecified,
            direct_fallback_safe: false,
            direct_recovery_cleanup_required: false,
            ..self
        }
    }

    pub open spec fn recovery_required(self, helper_lane_absent: bool) -> StatusView {
        StatusView {
            direct_fallback_safe: false,
            direct_recovery_cleanup_required: true,
            ..self.unavailable(
                if helper_lane_absent {
                    InputInjectorReason::ParentExited
                } else {
                    InputInjectorReason::ShutdownIncomplete
                },
            )
        }
    }

    pub open spec fn recovered(self) -> StatusView {
        if self.direct_recovery_cleanup_required {
            StatusView {
                state: InputInjectorState::Off,
                reason: InputInjectorReason::ParentExited,
                direct_fallback_safe: true,
                direct_recovery_cleanup_required: false,
                ..self
            }
        } else {
            self
        }
    }

    /// The status after the helper was found absent by a stop.
    pub open spec fn stopped_without_client(self, helper_lane_absent: bool) -> StatusView {
        if self.direct_recovery_cleanup_required || !self.direct_fallback_safe {
            self.recovery_required(helper_lane_absent)
        } else {
            StatusView {
                state: InputInjectorState::Off,
                direct_fallback_safe: true,
                direct_recovery_cleanup_required: false,
                ..self
            }
        }
    }
}

/// What a connected helper reports of itself.
#[derive(Debug)]
pub struct HelperReport {
    pub reason: InputInjectorReason,
    pub signature_trust: InputInjectorSignatureTrust,
    pub helper_version: String,
}

pub struct ReportView {
    pub reason: InputInjectorReason,
    pub signature_trust: InputInjectorSignatureTrust,
    pub helper_version: Seq<char>,
}

impl View for HelperReport {
    type V = ReportView;

    open spec fn view(&self) -> ReportView {
        ReportView {
            reason: self.reason,
            signature_trust: self.signature_trust,
            helper_version: self.helper_version@,
        }
    }
}

/// What came of a run of events handed to the helper.
#[derive(Debug)]
pub enum ElevatedInputApplyResult {
    NotActive,
    Applied {
        committed_event_count: usize,
        remaining_events: Vec<InputEvent>,
        reason: InputInjectorReason,
        destination_num_lock_on: bool,
    },
    Uncertain,
}

#[derive(Debug, Clone, Copy, PartialEq, Eq, Structural)]
pub enum ElevatedInputActivationResult {
    NotReady,
    Activated,
    Uncertain,
}

impl Default for ElevatedInputControllerStatus {
    fn default() -> (r: ElevatedInputControllerStatus)
        ensures
            r@ == StatusView::off(),
    {
        ElevatedInputControllerStatus {
            state: InputInjectorState::Off,
            reason: InputInjectorReason::Unspecified,
            signature_trust: InputInjectorSignatureTrust::Unspecified,
            helper_version: String::new(),
            direct_fallback_safe: true,
            direct_recovery_cleanup_required: false,
        }
    }
}

impl ElevatedInputControllerStatus {
    /// What is reported of the helper with each exchange.
    pub fn telemetry_fields(&self) -> (r: (
        InputInjectorState,
        InputInjectorReason,
        InputInjectorSignatureTrust,
    ))
        ensures
            r == (self.state, self.reason, self.signature_trust),
    {
        (self.state, self.reason, self.signature_trust)
    }

    /// Takes a request of the user to start the helper: whether it may be
    /// started, which the status then shows.
    pub fn request_enable(&mut self) -> (r: bool)
        ensures
            r == old(self)@.enable_allowed(),
            final(self)@ == (if r {
                old(self)@.prompting()
            } else {
                old(self)@
            }),
    {
        if !self.direct_fallback_safe || self.direct_recovery_cleanup_required || !(self.state
            == InputInjectorState::Off || self.state == InputInjectorState::Unavailable) {
            return false;
        }
        self.state = InputInjectorState::Prompting;
        self.reason = InputInjectorReason::Unspecified;
        self.signature_trust = InputInjectorSignatureTrust::Unspecified;
        self.helper_version = String::new();
        true
    }

    /// The helper's worker can no longer be reached.
    pub fn mark_ipc_unavailable(&mut self)
        ensures
            final(self)@ == old(self)@.unavailable(InputInjectorReason::IpcUnavailable),
    {
        self.state = InputInjectorState::Unavailable;
        self.reason = InputInjectorReason::IpcUnavailable;
    }

    pub fn mark_delivery_uncertain(&mut self)
        ensures
            final(self)@ == old(self)@.delivery_uncertain(),
    {
        self.state = InputInjectorState::Unavailable;
        self.reason = InputInjectorReason::DeliveryUncertain;
        self.direct_fallback_safe = false;
    }

    pub fn mark_shutdown_incomplete(&mut self)
        ensures
            final(self)@ == old(self)@.unavailable(InputInjectorReason::ShutdownIncomplete),
    {
        self.state = InputInjectorState::Unavailable;
        self.reason = InputInjectorReason::ShutdownIncomplete;
    }

    /// Starts to stop the helper: whether it has to be asked to. A helper that
    /// is off is stopped already.
    pub fn begin_disable(&mut self) -> (r: bool)
        ensures
            r == (old(self)@.state != InputInjectorState::Off),
            final(self)@ == (if r {
                StatusView { state: InputInjectorState::Stopping, ..old(self)@ }
            } else {
                old(self)@
            }),
    {
        if self.state == InputInjectorState::Off {
            return false;
        }
        self.state = InputInjectorState::Stopping;
        true
    }

    /// The broker has released what the vanished helper held.
    pub fn complete_direct_recovery_cleanup(&mut self)
        ensures
            final(self)@ == old(self)@.recovered(),
            old(self)@.consistent() ==> final(self)@.consistent(),
            !final(self)@.direct_recovery_cleanup_required,
    {
        if self.direct_recovery_cleanup_required {
            self.state = InputInjectorState::Off;
            self.reason = InputInjectorReason::ParentExited;
            self.direct_fallback_safe = true;
            self.direct_recovery_cleanup_required = false;
        }
    }

    fn accept_report(&mut self, state: InputInjectorState, report: HelperReport)
        ensures
            final(self)@ == old(self)@.reported(state, report@),
    {
        self.state = state;
        self.reason = report.reason;
        self.signature_trust = report.signature_trust;
        self.helper_version = report.helper_version;
        self.direct_fallback_safe = true;
        self.direct_recovery_cleanup_required = false;
    }
}

/// The helper went away while it may have held input: the ordinary lane is not
/// safe until the broker has released that input.
pub fn mark_direct_recovery_required_after_helper_exit(
    status: &mut ElevatedInputControllerStatus,
    helper_lane_absent: bool,
)
    ensures
        final(status)@ == old(status)@.recovery_required(helper_lane_absent),
        final(status)@.consistent(),
{
    status.state = InputInjectorState::Unavailable;
    status.reason = if helper_lane_absent {
        InputInjectorReason::ParentExited
    } else {
        InputInjectorReason::ShutdownIncomplete
    };
    status.direct_fallback_safe = false;
    status.direct_recovery_cleanup_required = true;
}

/// A helper that is connected and waits for the ordinary lane to go idle lets
/// that lane finish what it holds.
pub fn ready_helper_allows_direct_drain(status: &ElevatedInputControllerStatus) -> (r: bool)
    ensures
        r == (status@.direct_fallback_safe && status@.state
            == InputInjectorState::ReadyPendingIdle),
{
    status.direct_fallback_safe && status.state == InputInjectorState::ReadyPendingIdle
}

/// What a stop of the helper met.
#[derive(Debug)]
pub enum StopReply {
    /// No helper was connected; whether its lane marker is gone.
    NoClient { helper_lane_absent: bool },
    /// The connected helper released everything and shut down.
    Released(HelperReport),
    /// The connected helper did not confirm; whether its lane marker is gone.
    Failed { helper_lane_absent: bool },
}

pub enum StopReplyView {
    NoClient { helper_lane_absent: bool },
    Released(ReportView),
    Failed { helper_lane_absent: bool },
}

impl View for StopReply {
    type V = StopReplyView;

    open spec fn view(&self) -> StopReplyView {
        match self {
            StopReply::NoClient { helper_lane_absent } => StopReplyView::NoClient {
                helper_lane_absent: *helper_lane_absent,
            },
            StopReply::Released(report) => StopReplyView::Released(report@),
            StopReply::Failed { helper_lane_absent } => StopReplyView::Failed {
                helper_lane_absent: *helper_lane_absent,
            },
        }
    }
}

/// The status after a stop, given what the stop met.
pub open spec fn stopped_status(status: StatusView, reply: StopReplyView) -> StatusView {
    match reply {
        StopReplyView::NoClient { helper_lane_absent } => status.stopped_without_client(
            helper_lane_absent,
        ),
        StopReplyView::Released(report) => status.reported(InputInjectorState::Off, report),
        StopReplyView::Failed { helper_lane_absent } => status.recovery_required(
            helper_lane_absent,
        ),
    }
}

/// Whether a stop counts as confirmed.
pub open spec fn stop_confirmed(status: StatusView, reply: StopReplyView) -> bool {
    match reply {
        StopReplyView::NoClient { helper_lane_absent } => {
            if status.direct_recovery_cleanup_required || !status.direct_fallback_safe {
                helper_lane_absent
            } else {
                true
            }
        },
        StopReplyView::Released(_) => true,
        StopReplyView::Failed { .. } => false,
    }
}

/// Takes what a stop of the helper met: whether the stop is confirmed. A stop
/// that a connected helper did not confirm never makes the ordinary lane safe.
pub fn stop_elevated_input_client(
    status: &mut ElevatedInputControllerStatus,
    reply: StopReply,
) -> (r: bool)
    ensures
        final(status)@ == stopped_status(old(status)@, reply@),
        r == stop_confirmed(old(status)@, reply@),
        old(status)@.consistent() ==> final(status)@.consistent(),
        reply@ is Failed ==> !final(status)@.direct_fallback_safe,
{
    match reply {
        StopReply::NoClient { helper_lane_absent } => {
            if status.direct_recovery_cleanup_required || !status.direct_fallback_safe {
                mark_direct_recovery_required_after_helper_exit(status, helper_lane_absent);
                return helper_lane_absent;
            }
            status.state = InputInjectorState::Off;
            status.direct_fallback_safe = true;
            status.direct_recovery_cleanup_required = false;
            true
        },
        StopReply::Released(report) => {
            status.accept_report(InputInjectorState::Off, report);
            true
        },
        StopReply::Failed { helper_lane_absent } => {
            mark_direct_recovery_required_after_helper_exit(status, helper_lane_absent);
            false
        },
    }
}

/// What the helper's worker is woken by.
#[derive(Debug, Clone, Copy, PartialEq, Eq, Structural)]
pub enum WorkerCommand {
    Enable,
    Activate,
    Apply,
    Disable,
    Shutdown,
    /// No command came before the next heartbeat was due.
    HeartbeatDue,
    /// Nobody can send commands any more.
    Disconnected,
}

/// What the worker does next.
#[derive(Debug, Clone, Copy, PartialEq, Eq, Structural)]
pub enum WorkerAction {
    /// Nothing: wait for the next command.
    Wait,
    /// Launch the helper and connect to it.
    Launch,
    /// Answer the activation.
    AnswerActivation(bool),
    /// Answer that the helper is not active.
    AnswerNotActive,
    /// Hand the events to the helper.
    Deliver,
    /// Stop the helper, then wait.
    Stop,
    /// Stop the helper, then end.
    StopAndEnd,
    /// Send a heartbeat.
    Heartbeat,
    /// Count the heartbeat as sent.
    SkipHeartbeat,
}

/// The worker's answer to a command, given whether a helper is connected.
pub open spec fn worker_action(
    status: StatusView,
    connected: bool,
    command: WorkerCommand,
) -> WorkerAction {
    match command {
        WorkerCommand::Enable => if connected {
            WorkerAction::Wait
        } else {
            WorkerAction::Launch
        },
        WorkerCommand::Activate => WorkerAction::AnswerActivation(
            connected && status.state == InputInjectorState::ReadyPendingIdle,
        ),
        WorkerCommand::Apply => if connected && status.state == InputInjectorState::Active {
            WorkerAction::Deliver
        } else {
            WorkerAction::AnswerNotActive
        },
        WorkerCommand::Disable => WorkerAction::Stop,
        WorkerCommand::Shutdown | WorkerCommand::Disconnected => WorkerAction::StopAndEnd,
        WorkerCommand::HeartbeatDue => if connected {
            WorkerAction::Heartbeat
        } else {
            WorkerAction::SkipHeartbeat
        },
    }
}

/// One turn of the helper's worker: takes a command and says what to do. Only
/// an activation that is granted changes the status.
pub fn elevated_input_controller_worker(
    status: &mut ElevatedInputControllerStatus,
    connected: bool,
    command: WorkerCommand,
) -> (r: WorkerAction)
    ensures
        r == worker_action(old(status)@, connected, command),
        final(status)@ == (if r == WorkerAction::AnswerActivation(true) {
            old(status)@.activated()
        } else {
            old(status)@
        }),
        old(status)@.consistent() ==> final(status)@.consistent(),
{
    match command {
        WorkerCommand::Enable => {
            if connected {
                WorkerAction::Wait
            } else {
                WorkerAction::Launch
            }
        },
        WorkerCommand::Activate => {
            let activated = connected && status.state == InputInjectorState::ReadyPendingIdle;
            if activated {
                status.state = InputInjectorState::Active;
                status.reason = InputInjectorReason::Unspecified;
                status.direct_fallback_safe = false;
                status.direct_recovery_cleanup_required = false;
            }
            WorkerAction::AnswerActivation(activated)
        },
        WorkerCommand::Apply => {
            if connected && status.state == InputInjectorState::Active {
                WorkerAction::Deliver
            } else {
                WorkerAction::AnswerNotActive
            }
        },
        WorkerCommand::Disable => WorkerAction::Stop,
        WorkerCommand::Shutdown => WorkerAction::StopAndEnd,
        WorkerCommand::Disconnected => WorkerAction::StopAndEnd,
        WorkerCommand::HeartbeatDue => {
            if connected {
                WorkerAction::Heartbeat
            } else {
                WorkerAction::SkipHeartbeat
            }
        },
    }
}

/// What came of launching the helper and connecting to it.
#[derive(Debug)]
pub enum LaunchReply {
    LaunchFailed(String),
    ConnectFailed { message: String, launch_trust: InputInjectorSignatureTrust },
    Connected(HelperReport),
}

/// The status after a launch attempt.
pub open spec fn launched_status(status: StatusView, reply: LaunchReply) -> StatusView {
    match reply {
        LaunchReply::LaunchFailed(message) => status.launch_failed(launch_error_reason(message@)),
        LaunchReply::ConnectFailed { message, launch_trust } => status.connect_failed(
            launch_error_reason(message@),
            launch_trust,
        ),
        LaunchReply::Connected(report) => status.reported(
            InputInjectorState::ReadyPendingIdle,
            report@,
        ),
    }
}

/// Takes what came of launching the helper: whether it is connected now. As no
/// helper that failed to attach can have accepted input, the ordinary lane is
/// safe in every case.
pub fn finish_launch(status: &mut ElevatedInputControllerStatus, reply: LaunchReply) -> (r: bool)
    ensures
        final(status)@ == launched_status(old(status)@, reply),
        r == (reply is Connected),
        final(status)@.direct_fallback_safe,
        final(status)@.consistent(),
{
    match reply {
        LaunchReply::LaunchFailed(message) => {
            let reason = classify_injector_launch_error(message.as_str());
            status.state = if reason == InputInjectorReason::UserCancelled {
                InputInjectorState::Off
            } else {
                InputInjectorState::Unavailable
            };
            status.reason = reason;
            status.direct_fallback_safe = true;
            status.direct_recovery_cleanup_required = false;
            false
        },
        LaunchReply::ConnectFailed { message, launch_trust } => {
            let reason = classify_injector_launch_error(message.as_str());
            status.state = InputInjectorState::Unavailable;
            status.reason = reason;
            status.signature_trust = launch_trust;
            status.direct_fallback_safe = true;
            status.direct_recovery_cleanup_required = false;
            false
        },
        LaunchReply::Connected(report) => {
            status.accept_report(InputInjectorState::ReadyPendingIdle, report);
            true
        },
    }
}

/// What the helper answered to a run of events.
#[derive(Debug)]
pub struct HelperOutcome {
    pub committed_event_count: usize,
    pub remaining_events: Vec<InputEvent>,
    pub reason: InputInjectorReason,
    pub destination_num_lock_on: bool,
}

/// Takes the helper's answer to a run of events; no answer in time makes the
/// delivery uncertain, and the ordinary lane unsafe.
pub fn finish_delivery(
    status: &mut ElevatedInputControllerStatus,
    answer: Option<HelperOutcome>,
) -> (r: ElevatedInputApplyResult)
    ensures
        match answer {
            Some(outcome) => {
                &&& final(status)@ == (StatusView { reason: outcome.reason, ..old(status)@ })
                &&& r == (ElevatedInputApplyResult::Applied {
                    committed_event_count: outcome.committed_event_count,
                    remaining_events: outcome.remaining_events,
                    reason: outcome.reason,
                    destination_num_lock_on: outcome.destination_num_lock_on,
                })
            },
            None => {
                &&& final(status)@ == old(status)@.delivery_uncertain()
                &&& r == ElevatedInputApplyResult::Uncertain
            },
        },
        old(status)@.consistent() ==> final(status)@.consistent(),
{
    match answer {
        Some(outcome) => {
            status.reason = outcome.reason;
            ElevatedInputApplyResult::Applied {
                committed_event_count: outcome.committed_event_count,
                remaining_events: outcome.remaining_events,
                reason: outcome.reason,
                destination_num_lock_on: outcome.destination_num_lock_on,
            }
        },
        None => {
            status.mark_delivery_uncertain();
            ElevatedInputApplyResult::Uncertain
        },
    }
}

/// Takes whether a heartbeat was answered: whether the helper has to be stopped.
pub fn finish_heartbeat(status: &mut ElevatedInputControllerStatus, answered: bool) -> (r: bool)
    ensures
        r == !answered,
        final(status)@ == (if answered {
            old(status)@
        } else {
            old(status)@.unavailable(InputInjectorReason::IpcUnavailable)
        }),
{
    if !answered {
        status.mark_ipc_unavailable();
    }
    !answered
}

/// Whether an activation is worth asking the worker for.
pub fn activation_worth_asking(status: &ElevatedInputControllerStatus) -> (r: bool)
    ensures
        r == (status@.state == InputInjectorState::ReadyPendingIdle),
{
    status.state == InputInjectorState::ReadyPendingIdle
}

/// Takes the worker's answer to an activation. Without an answer the worker may
/// still activate later, so the ordinary lane is no longer safe.
pub fn activate_if_ready(
    status: &mut ElevatedInputControllerStatus,
    answer: Option<bool>,
) -> (r: ElevatedInputActivationResult)
    ensures
        r == (match answer {
            Some(true) => ElevatedInputActivationResult::Activated,
            Some(false) => ElevatedInputActivationResult::NotReady,
            None => ElevatedInputActivationResult::Uncertain,
        }),
        final(status)@ == (if answer is None {
            old(status)@.delivery_uncertain()
        } else {
            old(status)@
        }),
{
    match answer {
        Some(true) => ElevatedInputActivationResult::Activated,
        Some(false) => ElevatedInputActivationResult::NotReady,
        None => {
            status.mark_delivery_uncertain();
            ElevatedInputActivationResult::Uncertain
        },
    }
}

/// Whether events are worth handing to the worker.
pub fn delivery_worth_asking(status: &ElevatedInputControllerStatus) -> (r: bool)
    ensures
        r == (status@.state == InputInjectorState::Active),
{
    status.state == InputInjectorState::Active
}

/// Takes the worker's answer to a run of events. Without one it is not known what
/// was delivered, and the ordinary lane is no longer safe.
pub fn finish_apply(
    status: &mut ElevatedInputControllerStatus,
    answer: Option<ElevatedInputApplyResult>,
) -> (r: ElevatedInputApplyResult)
    ensures
        match answer {
            Some(result) => r == result && final(status)@ == old(status)@,
            None => r == ElevatedInputApplyResult::Uncertain && final(status)@ == old(
                status,
            )@.delivery_uncertain(),
        },
{
    match answer {
        Some(result) => result,
        None => {
            status.mark_delivery_uncertain();
            ElevatedInputApplyResult::Uncertain
        },
    }
}

/// What became of a request to stop the helper.
#[derive(Debug, Clone, Copy, PartialEq, Eq, Structural)]
pub enum DisableReply {
    /// The worker is gone.
    NotSent,
    /// The request was handed over, and nobody waits for it.
    NotAwaited,
    /// The worker's answer, or none in time.
    Awaited(Option<bool>),
}

/// Takes what became of a request to stop the helper: whether it is stopped, or is
/// going to be where nobody waits.
pub fn finish_disable(status: &mut ElevatedInputControllerStatus, reply: DisableReply) -> (r: bool)
    ensures
        r == (reply == DisableReply::NotAwaited || reply == DisableReply::Awaited(Some(true))),
        final(status)@ == (if reply == DisableReply::NotSent {
            old(status)@.unavailable(InputInjectorReason::ShutdownIncomplete)
        } else {
            old(status)@
        }),
{
    match reply {
        DisableReply::NotSent => {
            status.mark_shutdown_incomplete();
            false
        },
        DisableReply::NotAwaited => true,
        DisableReply::Awaited(Some(stopped)) => stopped,
        DisableReply::Awaited(None) => false,
    }
}

/// The reason that a failed launch of the helper stands for.
pub open spec fn launch_error_reason(text: Seq<char>) -> InputInjectorReason {
    let m = text::lowered(text);
    if text::occurs(m, "permission prompt was canceled"@) {
        InputInjectorReason::UserCancelled
    } else if text::occurs(m, "another elevated input injector"@) || text::occurs(
        m,
        "duplicate"@,
    ) || text::occurs(m, "already exists"@) {
        InputInjectorReason::Duplicate
    } else if text::occurs(m, "was not found"@) {
        InputInjectorReason::NotInstalled
    } else if text::occurs(m, "invalid authenticode"@) || (text::occurs(m, "invalid"@)
        && text::occurs(m, "signature"@)) {
        InputInjectorReason::SignatureInvalid
    } else if text::occurs(m, "administrator-app control"@) || text::occurs(m, "identity"@)
        || text::occurs(m, "session"@) || text::occurs(m, "permission_denied"@) || text::occurs(
        m,
        "permission denied"@,
    ) || text::occurs(m, "client process validation"@) || text::occurs(
        m,
        "launch handshake rejected"@,
    ) {
        InputInjectorReason::IdentityRejected
    } else if text::occurs(m, "path"@) {
        InputInjectorReason::WrongPath
    } else if text::occurs(m, "protocol"@) {
        InputInjectorReason::ProtocolMismatch
    } else {
        InputInjectorReason::IpcUnavailable
    }
}

/// The reason that a failed launch of the helper stands for.
pub fn classify_injector_launch_error(error: &str) -> (r: InputInjectorReason)
    ensures
        r == launch_error_reason(error@),
{
    let lower = text::to_lower(error);
    let message = lower.as_str();
    if text::contains(message, "permission prompt was canceled") {
        InputInjectorReason::UserCancelled
    } else if text::contains(message, "another elevated input injector") || text::contains(
        message,
        "duplicate",
    ) || text::contains(message, "already exists") {
        InputInjectorReason::Duplicate
    } else if text::contains(message, "was not found") {
        InputInjectorReason::NotInstalled
    } else if text::contains(message, "invalid authenticode") || (text::contains(message, "invalid")
        && text::contains(message, "signature")) {
        InputInjectorReason::SignatureInvalid
    } else if text::contains(message, "administrator-app control") || text::contains(
        message,
        "identity",
    ) || text::contains(message, "session") || text::contains(message, "permission_denied")
        || text::contains(message, "permission denied") || text::contains(
        message,
        "client process validation",
    ) || text::contains(message, "launch handshake rejected") {
        InputInjectorReason::IdentityRejected
    } else if text::contains(message, "path") {
        InputInjectorReason::WrongPath
    } else if text::contains(message, "protocol") {
        InputInjectorReason::ProtocolMismatch
    } else {
        InputInjectorReason::IpcUnavailable
    }
}

/// An activated helper owns the input lane; a helper that is lost then stays an
/// obstacle to the ordinary lane until the broker has cleaned up after it: no
/// stop that the helper did not confirm makes the ordinary lane safe, and the
/// completed cleanup does.
pub proof fn law_lost_helper_blocks_direct_lane_until_cleanup(
    status: StatusView,
    helper_lane_absent: bool,
)
    ensures
        ({
            let active = status.activated();
            let lost = stopped_status(active, StopReplyView::Failed { helper_lane_absent });
            let again = stopped_status(lost, StopReplyView::NoClient { helper_lane_absent });
            &&& !active.direct_fallback_safe
            &&& !lost.direct_fallback_safe && lost.direct_recovery_cleanup_required
            &&& !lost.enable_allowed()
            &&& !again.direct_fallback_safe && again.direct_recovery_cleanup_required
            &&& stop_confirmed(lost, StopReplyView::NoClient { helper_lane_absent })
                == helper_lane_absent
            &&& again.recovered().direct_fallback_safe
            &&& again.recovered().enable_allowed()
        }),
{
}

/// The helper is started only on a request, from off or unavailable, and while the
/// ordinary lane is safe; the request forgets what an earlier helper said of itself.
pub proof fn law_helper_starts_only_from_rest(status: StatusView)
    ensures
        status.enable_allowed() <==> status.direct_fallback_safe
            && !status.direct_recovery_cleanup_required && (status.state == InputInjectorState::Off
            || status.state == InputInjectorState::Unavailable),
        StatusView::off().enable_allowed(),
        ({
            let next = status.prompting();
            &&& next.state == InputInjectorState::Prompting
            &&& next.reason == InputInjectorReason::Unspecified
            &&& next.signature_trust == InputInjectorSignatureTrust::Unspecified
            &&& next.helper_version.len() == 0
            &&& next.direct_fallback_safe == status.direct_fallback_safe
            &&& next.direct_recovery_cleanup_required == status.direct_recovery_cleanup_required
            &&& !next.enable_allowed()
        }),
{
}

/// What the helper's worker does with each command: it launches only a helper that is
/// not there, delivers only to an active one, and activates only one that is ready.
pub proof fn law_worker_serves_only_a_ready_helper(status: StatusView, connected: bool)
    ensures
        worker_action(status, connected, WorkerCommand::Enable) == WorkerAction::Launch
            <==> !connected,
        worker_action(status, connected, WorkerCommand::Enable) == WorkerAction::Wait <==> connected,
        worker_action(status, connected, WorkerCommand::Activate)
            == WorkerAction::AnswerActivation(true) <==> connected && status.state
            == InputInjectorState::ReadyPendingIdle,
        worker_action(status, connected, WorkerCommand::Activate) is AnswerActivation,
        worker_action(status, connected, WorkerCommand::Apply) == WorkerAction::Deliver
            <==> connected && status.state == InputInjectorState::Active,
        worker_action(status, connected, WorkerCommand::Apply) == WorkerAction::AnswerNotActive
            <==> !(connected && status.state == InputInjectorState::Active),
        worker_action(status, connected, WorkerCommand::Disable) == WorkerAction::Stop,
        worker_action(status, connected, WorkerCommand::Shutdown) == WorkerAction::StopAndEnd,
        worker_action(status, connected, WorkerCommand::Disconnected) == WorkerAction::StopAndEnd,
        worker_action(status, connected, WorkerCommand::HeartbeatDue) == WorkerAction::Heartbeat
            <==> connected,
        worker_action(status, connected, WorkerCommand::HeartbeatDue)
            == WorkerAction::SkipHeartbeat <==> !connected,
{
}

/// A helper that is connected waits until it is activated, with what it says of itself;
/// once activated it owns the lane. One that could not be launched leaves the ordinary
/// lane safe, and counts as off only where the user declined.
pub proof fn law_launch_shows_in_the_status(
    status: StatusView,
    report: HelperReport,
    message: String,
    trust: InputInjectorSignatureTrust,
)
    ensures
        ({
            let ready = launched_status(status, LaunchReply::Connected(report));
            let active = ready.activated();
            &&& ready.state == InputInjectorState::ReadyPendingIdle
            &&& ready.reason == report.reason && ready.signature_trust == report.signature_trust
                && ready.helper_version == report.helper_version@
            &&& ready.direct_fallback_safe && !ready.direct_recovery_cleanup_required
            &&& active.state == InputInjectorState::Active && !active.direct_fallback_safe
                && !active.direct_recovery_cleanup_required && active.reason
                == InputInjectorReason::Unspecified && active.helper_version
                == report.helper_version@ && active.signature_trust == report.signature_trust
        }),
        ({
            let failed = launched_status(status, LaunchReply::LaunchFailed(message));
            let reason = launch_error_reason(message@);
            &&& failed.reason == reason
            &&& failed.state == InputInjectorState::Off <==> reason
                == InputInjectorReason::UserCancelled
            &&& failed.state == InputInjectorState::Unavailable <==> reason
                != InputInjectorReason::UserCancelled
            &&& failed.direct_fallback_safe && !failed.direct_recovery_cleanup_required
            &&& failed.signature_trust == status.signature_trust
        }),
        ({
            let failed = launched_status(
                status,
                LaunchReply::ConnectFailed { message, launch_trust: trust },
            );
            &&& failed.state == InputInjectorState::Unavailable
            &&& failed.reason == launch_error_reason(message@) && failed.signature_trust == trust
            &&& failed.direct_fallback_safe && !failed.direct_recovery_cleanup_required
        }),
{
}

/// A helper that confirms its stop has released everything: it is off and the ordinary
/// lane is safe. One that was not there is off too, unless its input is unaccounted
/// for. A delivery that got no answer, or a heartbeat that got none, makes the helper
/// unavailable, and only the former the ordinary lane unsafe.
pub proof fn law_stop_shows_in_the_status(status: StatusView, report: ReportView, absent: bool)
    ensures
        ({
            let next = stopped_status(status, StopReplyView::Released(report));
            &&& stop_confirmed(status, StopReplyView::Released(report))
            &&& next.state == InputInjectorState::Off && next.reason == report.reason
            &&& next.direct_fallback_safe && !next.direct_recovery_cleanup_required
            &&& next.helper_version == report.helper_version
        }),
        ({
            let next = stopped_status(
                status,
                StopReplyView::NoClient { helper_lane_absent: absent },
            );
            let owed = status.direct_recovery_cleanup_required || !status.direct_fallback_safe;
            &&& stop_confirmed(status, StopReplyView::NoClient { helper_lane_absent: absent })
                <==> !owed || absent
            &&& !owed ==> next.state == InputInjectorState::Off && next.direct_fallback_safe
                && next.reason == status.reason
            &&& owed ==> next.state == InputInjectorState::Unavailable
                && !next.direct_fallback_safe && next.direct_recovery_cleanup_required
                && next.reason == (if absent {
                InputInjectorReason::ParentExited
            } else {
                InputInjectorReason::ShutdownIncomplete
            })
        }),
        !stop_confirmed(status, StopReplyView::Failed { helper_lane_absent: absent }),
        ({
            let next = status.delivery_uncertain();
            &&& next.state == InputInjectorState::Unavailable && next.reason
                == InputInjectorReason::DeliveryUncertain && !next.direct_fallback_safe
            &&& next.direct_recovery_cleanup_required == status.direct_recovery_cleanup_required
        }),
        ({
            let next = status.unavailable(InputInjectorReason::IpcUnavailable);
            &&& next.state == InputInjectorState::Unavailable && next.reason
                == InputInjectorReason::IpcUnavailable
            &&& next.direct_fallback_safe == status.direct_fallback_safe
            &&& next.direct_recovery_cleanup_required == status.direct_recovery_cleanup_required
        }),
        ({
            let next = status.recovered();
            &&& !status.direct_recovery_cleanup_required ==> next == status
            &&& status.direct_recovery_cleanup_required ==> next.state == InputInjectorState::Off
                && next.reason == InputInjectorReason::ParentExited && next.direct_fallback_safe
                && !next.direct_recovery_cleanup_required
        }),
{
}

/// A failed launch means the first of these that its words speak of: a declined
/// prompt, another helper, no helper, a bad signature, a rejected identity, a wrong
/// path, another protocol; nothing of that means that it cannot be reached.
pub proof fn law_launch_failures_are_told_apart(message: Seq<char>)
    ensures
        ({
            let says = |words: Seq<char>| text::occurs(text::lowered(message), words);
            let declined = says("permission prompt was canceled"@);
            let another = says("another elevated input injector"@) || says("duplicate"@) || says(
                "already exists"@,
            );
            let missing = says("was not found"@);
            let unsigned = says("invalid authenticode"@) || (says("invalid"@) && says(
                "signature"@,
            ));
            let rejected = says("administrator-app control"@) || says("identity"@) || says(
                "session"@,
            ) || says("permission_denied"@) || says("permission denied"@) || says(
                "client process validation"@,
            ) || says("launch handshake rejected"@);
            let reason = launch_error_reason(message);
            &&& reason == InputInjectorReason::UserCancelled <==> declined
            &&& reason == InputInjectorReason::Duplicate <==> !declined && another
            &&& reason == InputInjectorReason::NotInstalled <==> !declined && !another && missing
            &&& reason == InputInjectorReason::SignatureInvalid <==> !declined && !another
                && !missing && unsigned
            &&& reason == InputInjectorReason::IdentityRejected <==> !declined && !another
                && !missing && !unsigned && rejected
            &&& !declined && !another && !missing && !unsigned && !rejected ==> reason == (if says(
                "path"@,
            ) {
                InputInjectorReason::WrongPath
            } else if says("protocol"@) {
                InputInjectorReason::ProtocolMismatch
            } else {
                InputInjectorReason::IpcUnavailable
            })
        }),
{
}

/// A lane that is safe for direct input has no cleanup due, and a status of a helper
/// never says otherwise.
pub proof fn law_safe_lane_needs_no_cleanup(status: StatusView)
    ensures
        status.consistent() <==> (status.direct_fallback_safe
            ==> !status.direct_recovery_cleanup_required),
        StatusView::off().consistent(),
        StatusView::off().direct_fallback_safe,
{
}

} // verus!
