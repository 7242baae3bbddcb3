//! Broker sessions: attaching to the daemon, exchanging input with it, and
//! leaving it with everything released.

use crate::batch::{
    frame_views, BatchView, BrokerInjectBatchState, BrokerInjectProgress, InjectReplyError,
};
use crate::elevated::{
    ElevatedInputControllerStatus, InputInjectorReason, InputInjectorSignatureTrust,
    InputInjectorState, StatusView,
};
use crate::injected::{DirectLane, InjectedInputState, InjectedView, InputDeliveryLane};
use crate::input::InputEvent;
use crate::safety::{
    clamp_u64, BrokerCaptureForwardingGate, GateView, HookControlAction, SafetyUnlockReconciler,
};
use crate::text;
use vstd::prelude::*;

verus! {

/// The capture mode of a daemon that needs a broker.
pub open spec fn service_unsupported_mode() -> Seq<char> {
    "service_session_unsupported"@
}

#[derive(Debug, Clone, Copy, PartialEq, Eq, Structural)]
pub enum BrokerSessionEnd {
    NotNeeded,
    Detached,
    Shutdown,
}

/// The daemon's answer to an attach.
#[derive(Debug)]
pub struct InputBrokerAttachReply {
    pub accepted: bool,
    pub broker_token: String,
    pub message: String,
    pub protocol_revision: u32,
    pub delivery_epoch: String,
}

/// Why a session cannot go on.
#[derive(Debug)]
pub enum BrokerSessionError {
    ProtocolMismatch { daemon: u32, expected: u32 },
    CleanupPendingAtPreflight,
    HelperCleanupUnconfirmed,
    HelperCleanupWithoutBroker,
    HelperExited,
    ExchangeRejected(String),
    UndecodableEvents { batch_id: u64, sequence: u64, count: u64 },
    Reply(InjectReplyError),
    CleanupPendingAfterAuthorizationChange,
    FreshSessionRequired,
}

impl BrokerSessionError {
    pub open spec fn text(self) -> Seq<char> {
        match self {
            BrokerSessionError::ProtocolMismatch { daemon, expected } =>
                "input broker protocol mismatch: daemon="@ + text::decimal(daemon as nat)
                    + " expected="@ + text::decimal(expected as nat),
            BrokerSessionError::CleanupPendingAtPreflight =>
                "pending local input cleanup reached broker-session preflight"@,
            BrokerSessionError::HelperCleanupUnconfirmed =>
                "elevated input cleanup was not confirmed before a replacement broker session"@,
            BrokerSessionError::HelperCleanupWithoutBroker =>
                "elevated input cleanup remained pending without a service-session broker"@,
            BrokerSessionError::HelperExited =>
                "elevated input helper exited before held-input cleanup; resetting broker authorization"@,
            BrokerSessionError::ExchangeRejected(message) => "input broker exchange rejected: "@
                + message@,
            BrokerSessionError::UndecodableEvents { batch_id, sequence, count } =>
                "input broker inject batch "@ + text::decimal(batch_id as nat) + " frame "@
                    + text::decimal(sequence as nat) + " contained "@ + text::decimal(count as nat)
                    + " undecodable events"@,
            BrokerSessionError::Reply(error) => error.text(),
            BrokerSessionError::CleanupPendingAfterAuthorizationChange =>
                "local held-input cleanup remains pending after daemon authorization change"@,
            BrokerSessionError::FreshSessionRequired =>
                "local held-input cleanup requires a fresh broker session"@,
        }
    }

    /// The error in words.
    pub fn message(&self) -> (r: String)
        ensures
            r@ == self.text(),
    {
        match self {
            BrokerSessionError::ProtocolMismatch { daemon, expected } => {
                let mut out = text::owned("input broker protocol mismatch: daemon=");
                text::push_decimal(&mut out, *daemon as u64);
                out.append(" expected=");
                text::push_decimal(&mut out, *expected as u64);
                out
            },
            BrokerSessionError::CleanupPendingAtPreflight => text::owned(
                "pending local input cleanup reached broker-session preflight",
            ),
            BrokerSessionError::HelperCleanupUnconfirmed => text::owned(
                "elevated input cleanup was not confirmed before a replacement broker session",
            ),
            BrokerSessionError::HelperCleanupWithoutBroker => text::owned(
                "elevated input cleanup remained pending without a service-session broker",
            ),
            BrokerSessionError::HelperExited => text::owned(
                "elevated input helper exited before held-input cleanup; resetting broker authorization",
            ),
            BrokerSessionError::ExchangeRejected(message) => {
                let mut out = text::owned("input broker exchange rejected: ");
                out.append(message.as_str());
                out
            },
            BrokerSessionError::UndecodableEvents { batch_id, sequence, count } => {
                let mut out = text::owned("input broker inject batch ");
                text::push_decimal(&mut out, *batch_id);
                out.append(" frame ");
                text::push_decimal(&mut out, *sequence);
                out.append(" contained ");
                text::push_decimal(&mut out, *count);
                out.append(" undecodable events");
                out
            },
            BrokerSessionError::Reply(error) => error.message(),
            BrokerSessionError::CleanupPendingAfterAuthorizationChange => text::owned(
                "local held-input cleanup remains pending after daemon authorization change",
            ),
            BrokerSessionError::FreshSessionRequired => text::owned(
                "local held-input cleanup requires a fresh broker session",
            ),
        }
    }
}

/// Only a daemon of the expected protocol revision is talked to.
pub fn validate_input_broker_attach_revision(
    attach: &InputBrokerAttachReply,
    expected_revision: u32,
) -> (r: Result<(), BrokerSessionError>)
    ensures
        r is Ok <==> attach.protocol_revision == expected_revision,
        r is Err ==> r->Err_0 == (BrokerSessionError::ProtocolMismatch {
            daemon: attach.protocol_revision,
            expected: expected_revision,
        }),
{
    if attach.protocol_revision == expected_revision {
        return Ok(());
    }
    Err(
        BrokerSessionError::ProtocolMismatch {
            daemon: attach.protocol_revision,
            expected: expected_revision,
        },
    )
}

/// The token that a daemon of another revision handed out, which has to be given
/// back.
pub fn mismatched_attach_cleanup_token(
    attach: &InputBrokerAttachReply,
    expected_revision: u32,
) -> (r: Option<&str>)
    ensures
        r is Some <==> attach.protocol_revision != expected_revision && attach.accepted
            && attach.broker_token@.len() > 0,
        r is Some ==> r->0@ == attach.broker_token@,
{
    let token = attach.broker_token.as_str();
    if attach.protocol_revision != expected_revision && attach.accepted && !token.is_empty() {
        Some(token)
    } else {
        None
    }
}

/// Whether the daemon is told that a session is over. A session that lost its
/// connection keeps its place while something of it is to be continued.
pub open spec fn detaches(session_end: BrokerSessionEnd, batch: BatchView) -> bool {
    match session_end {
        BrokerSessionEnd::Shutdown => true,
        BrokerSessionEnd::Detached => batch.reset_required || (batch.active is None
            && batch.resume is None && !batch.cleanup_pending()),
        BrokerSessionEnd::NotNeeded => false,
    }
}

pub fn should_detach_input_broker_session(
    session_end: BrokerSessionEnd,
    inject_batches: &BrokerInjectBatchState,
) -> (r: bool)
    ensures
        r == detaches(session_end, inject_batches@),
{
    match session_end {
        BrokerSessionEnd::Shutdown => true,
        BrokerSessionEnd::Detached => inject_batches.input_session_reset_required || (
        !inject_batches.backpressure_active() && inject_batches.held_input_resume.is_none()
            && !inject_batches.local_cleanup_pending()),
        BrokerSessionEnd::NotNeeded => false,
    }
}

/// What the reconciliation of a helper between sessions does next.
#[derive(Debug, Clone, Copy, PartialEq, Eq, Structural)]
pub enum ReconcileStep {
    /// Stop the helper; so many stops are left after this one.
    Stop { stops_left: u8 },
    /// The reconciliation is over: whether the ordinary lane is safe.
    Done(bool),
}

pub open spec fn reconcile_begin(status: StatusView) -> ReconcileStep {
    if status.direct_fallback_safe {
        ReconcileStep::Done(true)
    } else {
        ReconcileStep::Stop { stops_left: 1 }
    }
}

/// The status after a stop that was or was not confirmed.
pub open spec fn reconciled_status(status: StatusView, stopped: bool) -> StatusView {
    if stopped {
        status.recovered()
    } else {
        status
    }
}

pub open spec fn reconcile_next(status: StatusView, stops_left: u8) -> ReconcileStep {
    if status.direct_fallback_safe {
        ReconcileStep::Done(true)
    } else if status.direct_recovery_cleanup_required && stops_left > 0 {
        ReconcileStep::Stop { stops_left: (stops_left - 1) as u8 }
    } else {
        ReconcileStep::Done(false)
    }
}

/// Begins to reconcile the helper between sessions, when no session holds input:
/// the helper is stopped, at most twice, until the ordinary lane is safe.
pub fn reconcile_elevated_controller_without_input_state(
    status: &ElevatedInputControllerStatus,
) -> (r: ReconcileStep)
    ensures
        r == reconcile_begin(status@),
{
    if status.direct_fallback_safe {
        ReconcileStep::Done(true)
    } else {
        ReconcileStep::Stop { stops_left: 1 }
    }
}

/// Goes on after a stop, with the status read after it. As nothing is held, a
/// confirmed stop completes a recovery that is owed.
pub fn reconcile_stopped(
    status: &mut ElevatedInputControllerStatus,
    stops_left: u8,
    stopped: bool,
) -> (r: ReconcileStep)
    ensures
        final(status)@ == reconciled_status(old(status)@, stopped),
        r == reconcile_next(final(status)@, stops_left),
        r == ReconcileStep::Done(true) ==> final(status)@.direct_fallback_safe,
        r matches ReconcileStep::Stop { stops_left: left } ==> left < stops_left,
{
    if stopped && status.direct_recovery_cleanup_required {
        status.complete_direct_recovery_cleanup();
    }
    if status.direct_fallback_safe {
        return ReconcileStep::Done(true);
    }
    if !status.direct_recovery_cleanup_required {
        return ReconcileStep::Done(false);
    }
    if stops_left > 0 {
        ReconcileStep::Stop { stops_left: stops_left - 1 }
    } else {
        ReconcileStep::Done(false)
    }
}

/// What a session does once the daemon's capture mode is known.
#[derive(Debug, Clone, Copy, PartialEq, Eq, Structural)]
pub enum SessionPlan {
    /// The daemon captures by itself, and no helper is running.
    NotNeeded,
    /// The daemon captures by itself: stop the helper, then stay detached.
    CloseHelper,
    /// Attach to the daemon.
    Attach,
}

/// A session may only begin when nothing is left to be released.
pub fn session_preflight(inject_batches: &BrokerInjectBatchState) -> (r: Result<
    (),
    BrokerSessionError,
>)
    ensures
        r is Err <==> inject_batches@.cleanup_pending(),
        r is Err ==> r->Err_0 == BrokerSessionError::CleanupPendingAtPreflight,
{
    if inject_batches.local_cleanup_pending() {
        Err(BrokerSessionError::CleanupPendingAtPreflight)
    } else {
        Ok(())
    }
}

/// Decides on a session after the helper was reconciled.
pub fn plan_input_broker_session(
    reconciled: bool,
    backend_mode: &str,
    status: &ElevatedInputControllerStatus,
) -> (r: Result<SessionPlan, BrokerSessionError>)
    ensures
        r is Ok <==> reconciled,
        r is Err ==> r->Err_0 == BrokerSessionError::HelperCleanupUnconfirmed,
        r is Ok ==> r->Ok_0 == (if backend_mode@ == service_unsupported_mode() {
            SessionPlan::Attach
        } else if status@.state == InputInjectorState::Off {
            SessionPlan::NotNeeded
        } else {
            SessionPlan::CloseHelper
        }),
{
    if !reconciled {
        return Err(BrokerSessionError::HelperCleanupUnconfirmed);
    }
    if text::same(backend_mode, "service_session_unsupported") {
        Ok(SessionPlan::Attach)
    } else if status.state == InputInjectorState::Off {
        Ok(SessionPlan::NotNeeded)
    } else {
        Ok(SessionPlan::CloseHelper)
    }
}

/// The end of a session that was not needed, after its helper was closed.
pub fn finish_unneeded_session(reconciled: bool) -> (r: Result<BrokerSessionEnd, BrokerSessionError>)
    ensures
        r is Ok <==> reconciled,
        r is Ok ==> r->Ok_0 == BrokerSessionEnd::NotNeeded,
        r is Err ==> r->Err_0 == BrokerSessionError::HelperCleanupWithoutBroker,
{
    if reconciled {
        Ok(BrokerSessionEnd::NotNeeded)
    } else {
        Err(BrokerSessionError::HelperCleanupWithoutBroker)
    }
}

/// Takes the daemon's answer to an attach: whether the session is on. Only an
/// accepted answer of the expected revision touches the batches.
pub fn accept_attach(
    inject_batches: &mut BrokerInjectBatchState,
    attach: &InputBrokerAttachReply,
    expected_revision: u32,
) -> (r: Result<bool, BrokerSessionError>)
    ensures
        match r {
            Err(error) => if attach.protocol_revision != expected_revision {
                error == (BrokerSessionError::ProtocolMismatch {
                    daemon: attach.protocol_revision,
                    expected: expected_revision,
                })
            } else {
                &&& attach.accepted && attach.delivery_epoch@.len() == 0
                &&& error == BrokerSessionError::Reply(InjectReplyError::MissingDeliveryEpoch)
            },
            Ok(on) => {
                &&& attach.protocol_revision == expected_revision
                &&& on == attach.accepted
                &&& on ==> attach.delivery_epoch@.len() > 0
            },
        },
        final(inject_batches)@ == (if r is Ok && r->Ok_0 {
            old(inject_batches)@.begin_epoch(attach.delivery_epoch@)
        } else {
            old(inject_batches)@
        }),
        old(inject_batches).wf() ==> final(inject_batches).wf(),
{
    match validate_input_broker_attach_revision(attach, expected_revision) {
        Err(error) => {
            return Err(error);
        },
        Ok(_) => {},
    }
    if !attach.accepted {
        return Ok(false);
    }
    match inject_batches.begin_delivery_epoch(attach.delivery_epoch.as_str()) {
        Err(error) => Err(BrokerSessionError::Reply(error)),
        Ok(_) => Ok(true),
    }
}

/// What a session that ended keeps of its held input: all of it, to be restored,
/// where the connection was lost; nothing where the daemon is told, the session
/// has to be reset, or the lane is blocked.
pub open spec fn left_behind(
    batch: BatchView,
    session_end: BrokerSessionEnd,
    state: InjectedView,
) -> BatchView {
    if session_end == BrokerSessionEnd::Detached && !batch.reset_required && state.lane
        != InputDeliveryLane::Blocked {
        batch.prepared_resume(state.held_downs())
    } else {
        BatchView { resume: None, ..batch }
    }
}

/// Ends a session: what is held is remembered or forgotten, the last safety
/// unlocks are kept for the next session's report, and everything that is held
/// is staged to be released, which the tray does before it talks to the daemon.
pub fn end_input_broker_session(
    session_end: BrokerSessionEnd,
    inject_batches: &mut BrokerInjectBatchState,
    injected_state: &mut InjectedInputState,
    safety_unlock: &mut SafetyUnlockReconciler,
    control_actions: Vec<HookControlAction>,
    probe: DirectLane,
)
    requires
        old(injected_state).wf(),
    ensures
        final(inject_batches)@ == left_behind(
            old(inject_batches)@,
            session_end,
            old(injected_state)@,
        ).staged_cleanup(old(injected_state)@, probe),
        final(injected_state)@ == old(injected_state)@.after_elevated_cleanup_check(probe),
        *final(safety_unlock) == old(safety_unlock).observed(control_actions@),
        final(injected_state).wf(),
        old(inject_batches).wf() ==> final(inject_batches).wf(),
{
    if session_end == BrokerSessionEnd::Detached && !inject_batches.input_session_reset_required
        && injected_state.delivery_lane != InputDeliveryLane::Blocked {
        inject_batches.prepare_held_input_resume(injected_state);
    } else {
        inject_batches.clear_held_input_resume();
    }
    safety_unlock.observe(control_actions);
    inject_batches.stage_local_cleanup(injected_state, probe);
}

/// What the daemon is told when a session detaches.
#[derive(Debug, Clone, Copy, PartialEq, Eq, Structural)]
pub struct DetachRequest {
    pub acked_inject_batch_id: u64,
    pub reset_input_session: bool,
}

/// What the daemon is told after a session, if it is told anything: always the
/// latest receipt, so that nothing delivered is queued again.
pub fn detach_request(
    session_end: BrokerSessionEnd,
    inject_batches: &BrokerInjectBatchState,
) -> (r: Option<DetachRequest>)
    ensures
        r == (if detaches(session_end, inject_batches@) {
            Some(
                DetachRequest {
                    acked_inject_batch_id: inject_batches@.completed,
                    reset_input_session: inject_batches@.reset_required,
                },
            )
        } else {
            None
        }),
{
    if should_detach_input_broker_session(session_end, inject_batches) {
        Some(
            DetachRequest {
                acked_inject_batch_id: inject_batches.acked_batch_id(),
                reset_input_session: inject_batches.input_session_reset_required,
            },
        )
    } else {
        None
    }
}

/// Takes the daemon's answer to a detach; without a confirmation the reset stays
/// owed.
pub fn finish_detach(
    inject_batches: &mut BrokerInjectBatchState,
    request: DetachRequest,
    confirmed: bool,
)
    ensures
        final(inject_batches)@ == (if request.reset_input_session && confirmed {
            old(inject_batches)@.session_reset()
        } else {
            old(inject_batches)@
        }),
        old(inject_batches).wf() ==> final(inject_batches).wf(),
{
    if request.reset_input_session && confirmed {
        inject_batches.complete_input_session_reset();
    }
}

/// What the platform was seen to do since the last exchange.
#[derive(Debug)]
pub struct ExchangeObservation {
    pub control_actions: Vec<HookControlAction>,
    pub observed_events: Vec<InputEvent>,
    pub lock_active: bool,
    pub cursor: Option<(i32, i32)>,
    pub bounds: Option<(i32, i32, i32, i32)>,
    pub pump_dropped_event_count: u64,
    pub raw_device_wheel_event_count: u64,
    pub raw_system_wheel_event_count: u64,
    pub hook_wheel_event_count: u64,
}

/// What is sent to the daemon with each exchange.
#[derive(Debug)]
pub struct InputBrokerExchangeRequest {
    pub captured_events: Vec<InputEvent>,
    pub cursor_valid: bool,
    pub cursor_x: i32,
    pub cursor_y: i32,
    pub bounds_valid: bool,
    pub bounds_left: i32,
    pub bounds_top: i32,
    pub bounds_right: i32,
    pub bounds_bottom: i32,
    pub escape_unlock_count: u32,
    pub lease_expired_unlock_count: u32,
    pub detector_unavailable_unlock_count: u32,
    pub handoff_probe_dx: i32,
    pub handoff_probe_dy: i32,
    pub lock_active: bool,
    pub dropped_event_count: u64,
    pub injected_frame_count: u32,
    pub inject_failure_count: u32,
    pub inject_backpressure: bool,
    pub acked_inject_batch_id: u64,
    pub held_input_authorization_generation: u64,
    pub raw_device_wheel_event_count: u64,
    pub raw_system_wheel_event_count: u64,
    pub hook_wheel_event_count: u64,
    pub elevated_injector_state: InputInjectorState,
    pub elevated_injector_reason: InputInjectorReason,
    pub elevated_injector_signature_trust: InputInjectorSignatureTrust,
    pub failed_inject_batch_id: u64,
}

/// A frame of the daemon's reply, decoded as far as it could be.
#[derive(Debug)]
pub struct InjectFrame {
    pub sequence: u64,
    pub events: Vec<InputEvent>,
    pub undecodable: u64,
}

/// The daemon's reply to an exchange.
#[derive(Debug)]
pub struct InputBrokerExchangeReply {
    pub accepted: bool,
    pub message: String,
    pub lock_should_be_active: bool,
    pub capture_active: bool,
    pub capture_forwarding_authorized: bool,
    pub inject_batch_id: u64,
    pub inject_batch_cancelled: bool,
    pub inject_authorization_generation: u64,
    pub held_input_authorized: bool,
}

/// What an exchange loop remembers from one exchange to the next.
#[derive(Debug)]
pub struct ExchangeLoop {
    pub injected_frame_count: u32,
    pub inject_failure_count: u32,
    pub capture_forwarding: BrokerCaptureForwardingGate,
    /// Something was captured since the last exchange.
    pub observed_events: bool,
    /// The generation for which held input was asked to be authorized.
    pub held_generation: u64,
}

pub struct LoopView {
    pub injected_frames: u32,
    pub inject_failures: u32,
    pub gate: GateView,
    pub observed_events: bool,
    pub held_generation: u64,
}

impl View for ExchangeLoop {
    type V = LoopView;

    open spec fn view(&self) -> LoopView {
        LoopView {
            injected_frames: self.injected_frame_count,
            inject_failures: self.inject_failure_count,
            gate: self.capture_forwarding@,
            observed_events: self.observed_events,
            held_generation: self.held_generation,
        }
    }
}

/// The request reports the platform as it was seen.
pub open spec fn reports_platform(
    request: InputBrokerExchangeRequest,
    seen: ExchangeObservation,
) -> bool {
    &&& request.lock_active == seen.lock_active
    &&& request.cursor_valid == (seen.cursor is Some)
    &&& (request.cursor_x, request.cursor_y) == (match seen.cursor {
        Some(cursor) => cursor,
        None => (0i32, 0i32),
    })
    &&& request.bounds_valid == (seen.bounds is Some)
    &&& (
        request.bounds_left,
        request.bounds_top,
        request.bounds_right,
        request.bounds_bottom,
    ) == (match seen.bounds {
        Some(bounds) => bounds,
        None => (0i32, 0i32, 0i32, 0i32),
    })
    &&& request.raw_device_wheel_event_count == seen.raw_device_wheel_event_count
    &&& request.raw_system_wheel_event_count == seen.raw_system_wheel_event_count
    &&& request.hook_wheel_event_count == seen.hook_wheel_event_count
}

/// The request reports what was injected and what is held.
pub open spec fn reports_injection(
    request: InputBrokerExchangeRequest,
    exchange: LoopView,
    batch: BatchView,
    state: InjectedView,
) -> bool {
    let status = state.elevated_status();
    &&& request.injected_frame_count == exchange.injected_frames
    &&& request.inject_failure_count == exchange.inject_failures
    &&& request.inject_backpressure == (batch.active is Some)
    &&& request.acked_inject_batch_id == batch.completed
    &&& request.failed_inject_batch_id == (match batch.failed {
        Some(id) => id,
        None => 0u64,
    })
    &&& request.held_input_authorization_generation == batch.held_request(state.held_downs())
    &&& request.elevated_injector_state == status.state
    &&& request.elevated_injector_reason == status.reason
    &&& request.elevated_injector_signature_trust == status.signature_trust
}

impl Default for ExchangeLoop {
    fn default() -> (r: ExchangeLoop)
        ensures
            r@ == (LoopView {
                injected_frames: 0,
                inject_failures: 0,
                gate: GateView { authorized: false, staged: Seq::empty(), dropped: 0 },
                observed_events: false,
                held_generation: 0,
            }),
    {
        ExchangeLoop {
            injected_frame_count: 0,
            inject_failure_count: 0,
            capture_forwarding: BrokerCaptureForwardingGate::default(),
            observed_events: false,
            held_generation: 0,
        }
    }
}

impl ExchangeLoop {
    /// Begins an exchange: the request to send, or the end of the session where
    /// the helper was lost with input held.
    pub fn input_broker_exchange_request(
        &mut self,
        safety_unlock: &mut SafetyUnlockReconciler,
        inject_batches: &mut BrokerInjectBatchState,
        injected_state: &InjectedInputState,
        seen: ExchangeObservation,
    ) -> (r: Result<InputBrokerExchangeRequest, BrokerSessionError>)
        ensures
            ({
                let status = injected_state@.elevated_status();
                let safety = old(safety_unlock).observed(seen.control_actions@);
                let (gate, batch) = old(self)@.gate.prepared(
                    seen.observed_events@,
                    seen.lock_active,
                    !safety.waiting_for_daemon_release,
                );
                &&& *final(safety_unlock) == safety
                &&& final(self)@ == (LoopView {
                    gate: GateView { dropped: 0, ..gate },
                    observed_events: seen.observed_events@.len() > 0,
                    held_generation: old(inject_batches)@.held_request(
                        injected_state@.held_downs(),
                    ),
                    ..old(self)@
                })
                &&& r is Err <==> status.direct_recovery_cleanup_required
                &&& r is Err ==> {
                    &&& r->Err_0 == BrokerSessionError::HelperExited
                    &&& final(inject_batches)@.reset_required
                    &&& final(inject_batches)@ == (BatchView {
                        failed: if old(inject_batches)@.failed is None {
                            old(inject_batches)@.active
                        } else {
                            old(inject_batches)@.failed
                        },
                        reset_required: true,
                        ..old(inject_batches)@
                    })
                }
                &&& r is Ok ==> {
                    let request = r->Ok_0;
                    &&& final(inject_batches)@ == old(inject_batches)@
                    &&& reports_platform(request, seen)
                    &&& reports_injection(
                        request,
                        old(self)@,
                        old(inject_batches)@,
                        injected_state@,
                    )
                    &&& request.captured_events@ == batch.captured
                    &&& (request.handoff_probe_dx, request.handoff_probe_dy) == (match batch.probe {
                        Some(probe) => probe,
                        None => (0i32, 0i32),
                    })
                    &&& request.escape_unlock_count == safety.pending_escape_count
                    &&& request.lease_expired_unlock_count == safety.pending_lease_expired_count
                    &&& request.detector_unavailable_unlock_count
                        == safety.pending_detector_unavailable_count
                    &&& request.dropped_event_count == clamp_u64(
                        seen.pump_dropped_event_count + gate.dropped,
                    )
                }
            }),
            old(inject_batches).wf() ==> final(inject_batches).wf(),
    {
        safety_unlock.observe(seen.control_actions);
        self.observed_events = seen.observed_events.len() > 0;
        let capture = self.capture_forwarding.prepare_batch(
            seen.observed_events,
            seen.lock_active,
            safety_unlock.should_forward_captured_events(),
        );
        let (escape_unlock_count, lease_expired_unlock_count, detector_unavailable_unlock_count) =
            safety_unlock.report_counts();
        let dropped_event_count = seen.pump_dropped_event_count.saturating_add(
            self.capture_forwarding.take_dropped_event_count(),
        );
        self.held_generation = inject_batches.held_authorization_request(injected_state);
        let status = injected_state.elevated_status();
        if status.direct_recovery_cleanup_required {
            inject_batches.require_session_reset_for_elevated_recovery();
            return Err(BrokerSessionError::HelperExited);
        }
        let (elevated_injector_state, elevated_injector_reason, elevated_injector_signature_trust) =
            status.telemetry_fields();
        let (cursor_x, cursor_y) = match seen.cursor {
            Some((x, y)) => (x, y),
            None => (0, 0),
        };
        let (bounds_left, bounds_top, bounds_right, bounds_bottom) = match seen.bounds {
            Some((left, top, right, bottom)) => (left, top, right, bottom),
            None => (0, 0, 0, 0),
        };
        let (handoff_probe_dx, handoff_probe_dy) = match capture.handoff_probe {
            Some((dx, dy)) => (dx, dy),
            None => (0, 0),
        };
        Ok(
            InputBrokerExchangeRequest {
                captured_events: capture.captured_events,
                cursor_valid: seen.cursor.is_some(),
                cursor_x,
                cursor_y,
                bounds_valid: seen.bounds.is_some(),
                bounds_left,
                bounds_top,
                bounds_right,
                bounds_bottom,
                escape_unlock_count,
                lease_expired_unlock_count,
                detector_unavailable_unlock_count,
                handoff_probe_dx,
                handoff_probe_dy,
                lock_active: seen.lock_active,
                dropped_event_count,
                injected_frame_count: self.injected_frame_count,
                inject_failure_count: self.inject_failure_count,
                inject_backpressure: inject_batches.backpressure_active(),
                acked_inject_batch_id: inject_batches.acked_batch_id(),
                held_input_authorization_generation: self.held_generation,
                raw_device_wheel_event_count: seen.raw_device_wheel_event_count,
                raw_system_wheel_event_count: seen.raw_system_wheel_event_count,
                hook_wheel_event_count: seen.hook_wheel_event_count,
                elevated_injector_state,
                elevated_injector_reason,
                elevated_injector_signature_trust,
                failed_inject_batch_id: inject_batches.failed_batch_id(),
            },
        )
    }

    /// Takes the daemon's reply, with the safety unlocks that came meanwhile:
    /// whether the local lock is to be changed, and to what. An unlock that
    /// raced the reply wins over it.
    pub fn accept_exchange_reply(
        &mut self,
        safety_unlock: &mut SafetyUnlockReconciler,
        reply: &InputBrokerExchangeReply,
        control_actions: Vec<HookControlAction>,
        lock_active: bool,
    ) -> (r: Result<Option<bool>, BrokerSessionError>)
        ensures
            r is Ok <==> reply.accepted,
            r is Err ==> {
                &&& r->Err_0 == BrokerSessionError::ExchangeRejected(reply.message)
                &&& *final(safety_unlock) == *old(safety_unlock)
                &&& final(self)@ == old(self)@
            },
            r is Ok ==> {
                let reported = SafetyUnlockReconciler {
                    pending_escape_count: 0,
                    pending_lease_expired_count: 0,
                    pending_detector_unavailable_count: 0,
                    ..*old(safety_unlock)
                };
                let safety = reported.observed(control_actions@);
                let wanted = safety.lock_wanted(reply.lock_should_be_active, reply.capture_active);
                &&& *final(safety_unlock) == safety.after_wish(
                    reply.lock_should_be_active,
                    reply.capture_active,
                )
                &&& r->Ok_0 == (if lock_active == wanted {
                    None
                } else {
                    Some(wanted)
                })
                &&& final(self)@ == (LoopView { injected_frames: 0, inject_failures: 0, ..old(self)@
                })
            },
    {
        if !reply.accepted {
            return Err(BrokerSessionError::ExchangeRejected(reply.message.clone()));
        }
        safety_unlock.mark_report_delivered();
        safety_unlock.observe(control_actions);
        self.injected_frame_count = 0;
        self.inject_failure_count = 0;
        let wanted = safety_unlock.lock_should_be_active(
            reply.lock_should_be_active,
            reply.capture_active,
        );
        if lock_active != wanted {
            Ok(Some(wanted))
        } else {
            Ok(None)
        }
    }

    /// Takes the daemon's word on forwarding captured events.
    pub fn authorize_capture(
        &mut self,
        safety_unlock: &SafetyUnlockReconciler,
        reply: &InputBrokerExchangeReply,
        lock_active: bool,
    )
        ensures
            ({
                let open = lock_active && !safety_unlock.waiting_for_daemon_release;
                final(self)@ == (LoopView {
                    gate: GateView {
                        authorized: reply.capture_forwarding_authorized && open,
                        staged: if open {
                            old(self)@.gate.staged
                        } else {
                            Seq::empty()
                        },
                        ..old(self)@.gate
                    },
                    ..old(self)@
                })
            }),
    {
        self.capture_forwarding.observe_daemon_authorization(
            reply.capture_forwarding_authorized,
            lock_active,
            safety_unlock.should_forward_captured_events(),
        );
    }

    /// Takes the payload of a reply: whether what is held has to be released
    /// first, as the batch was cancelled or the held input is not authorized any
    /// more.
    pub fn accept_exchange_payload(
        &self,
        inject_batches: &mut BrokerInjectBatchState,
        reply: &InputBrokerExchangeReply,
        frames: Vec<InjectFrame>,
    ) -> (r: Result<bool, BrokerSessionError>)
        ensures
            match first_undecodable(frames@) {
                Some(frame) => {
                    &&& final(inject_batches)@ == old(inject_batches)@
                    &&& r == Err::<bool, BrokerSessionError>(
                        BrokerSessionError::UndecodableEvents {
                            batch_id: reply.inject_batch_id,
                            sequence: frame.sequence,
                            count: frame.undecodable,
                        },
                    )
                },
                None => {
                    let old_batch = old(inject_batches)@;
                    let payload = inject_frame_views(frames@);
                    let taken = old_batch.with_reply(
                        reply.inject_batch_id,
                        reply.inject_batch_cancelled,
                        payload,
                        reply.inject_authorization_generation,
                    );
                    match old_batch.reply_error(
                        reply.inject_batch_id,
                        reply.inject_batch_cancelled,
                        payload,
                        reply.inject_authorization_generation,
                    ) {
                        Some(error) => {
                            &&& r == Err::<bool, BrokerSessionError>(
                                BrokerSessionError::Reply(error),
                            )
                            &&& final(inject_batches)@ == old_batch
                        },
                        None => if self@.held_generation == 0 && reply.held_input_authorized {
                            &&& r == Err::<bool, BrokerSessionError>(
                                BrokerSessionError::Reply(InjectReplyError::HeldInputNotRequested),
                            )
                            &&& final(inject_batches)@ == taken
                        } else {
                            &&& final(inject_batches)@ == taken.held_reply(
                                self@.held_generation,
                                reply.held_input_authorized,
                            )
                            &&& r == Ok::<bool, BrokerSessionError>(
                                (reply.inject_batch_cancelled && old_batch.completed
                                    != reply.inject_batch_id) || (self@.held_generation != 0
                                    && !reply.held_input_authorized),
                            )
                        },
                    }
                },
            },
            old(inject_batches).wf() ==> final(inject_batches).wf(),
    {
        let ghost all = frames@;
        let count: usize = frames.len();
        let mut i: usize = 0;
        while i < count
            invariant
                i <= count == frames.len(),
                frames@ == all,
                forall|j: int| 0 <= j < i ==> (#[trigger] all[j]).undecodable == 0,
                inject_batches@ == old(inject_batches)@,
                inject_batches.wf() == old(inject_batches).wf(),
            decreases count - i,
        {
            if frames[i].undecodable > 0 {
                proof {
                    lemma_first_undecodable(all, i as int);
                }
                return Err(
                    BrokerSessionError::UndecodableEvents {
                        batch_id: reply.inject_batch_id,
                        sequence: frames[i].sequence,
                        count: frames[i].undecodable,
                    },
                );
            }
            i = i + 1;
        }
        proof {
            lemma_all_decodable(all);
        }
        let mut decoded: Vec<Vec<InputEvent>> = Vec::new();
        let mut rest = frames;
        let mut k: usize = 0;
        while k < count
            invariant
                k <= count == all.len(),
                rest@ == all.subrange(k as int, count as int),
                frame_views(decoded@) == inject_frame_views(all.take(k as int)),
                inject_batches@ == old(inject_batches)@,
                inject_batches.wf() == old(inject_batches).wf(),
            decreases count - k,
        {
            let ghost before = decoded@;
            let frame = rest.remove(0);
            assert(frame == all[k as int]);
            decoded.push(frame.events);
            k = k + 1;
            assert(rest@ =~= all.subrange(k as int, count as int));
            proof {
                let longer = all.take(k as int);
                assert(longer =~= all.take(k - 1).push(all[k - 1]));
                assert(inject_frame_views(longer) =~= inject_frame_views(all.take(k - 1)).push(
                    all[k - 1].events@,
                ));
                assert(frame_views(decoded@) =~= frame_views(before).push(frame.events@));
            }
        }
        assert(all.take(k as int) =~= all);
        let cancelled_now = match inject_batches.accept_reply(
            reply.inject_batch_id,
            reply.inject_batch_cancelled,
            decoded,
            reply.inject_authorization_generation,
        ) {
            Ok(now) => now,
            Err(error) => {
                return Err(BrokerSessionError::Reply(error));
            },
        };
        let revoked = match inject_batches.observe_held_authorization_reply(
            self.held_generation,
            reply.held_input_authorized,
        ) {
            Ok(revoked) => revoked,
            Err(error) => {
                return Err(BrokerSessionError::Reply(error));
            },
        };
        Ok(cancelled_now || revoked)
    }

    /// Ends an exchange with what the pass of injection came to: how long to
    /// wait before the next exchange, in milliseconds, or the end of the session.
    pub fn finish_exchange(
        &mut self,
        reply: &InputBrokerExchangeReply,
        progress: BrokerInjectProgress,
    ) -> (r: Result<u64, BrokerSessionError>)
        ensures
            final(self)@ == (LoopView {
                injected_frames: crate::safety::counted_up(
                    old(self)@.injected_frames,
                    progress.completed_frames as nat,
                ),
                inject_failures: crate::safety::counted_up(
                    old(self)@.inject_failures,
                    progress.failed_attempts as nat,
                ),
                ..old(self)@
            }),
            r is Err <==> progress.requires_session_teardown,
            r is Err ==> r->Err_0 == BrokerSessionError::FreshSessionRequired,
            r is Ok ==> r->Ok_0 == (if reply.capture_active || reply.inject_batch_id != 0 || old(
                self,
            )@.observed_events {
                8u64
            } else {
                40u64
            }),
    {
        self.injected_frame_count = self.injected_frame_count.saturating_add(
            progress.completed_frames,
        );
        self.inject_failure_count = self.inject_failure_count.saturating_add(
            progress.failed_attempts,
        );
        if progress.requires_session_teardown {
            return Err(BrokerSessionError::FreshSessionRequired);
        }
        if reply.capture_active || reply.inject_batch_id != 0 || self.observed_events {
            Ok(8)
        } else {
            Ok(40)
        }
    }
}

/// The events of each frame of a reply.
pub open spec fn inject_frame_views(frames: Seq<InjectFrame>) -> Seq<Seq<InputEvent>> {
    frames.map_values(|f: InjectFrame| f.events@)
}

/// The first frame of which something could not be decoded.
pub open spec fn first_undecodable(frames: Seq<InjectFrame>) -> Option<InjectFrame>
    decreases frames.len(),
{
    if frames.len() == 0 {
        None
    } else if frames[0].undecodable > 0 {
        Some(frames[0])
    } else {
        first_undecodable(frames.skip(1))
    }
}

proof fn lemma_first_undecodable(frames: Seq<InjectFrame>, at: int)
    requires
        0 <= at < frames.len(),
        frames[at].undecodable > 0,
        forall|j: int| 0 <= j < at ==> (#[trigger] frames[j]).undecodable == 0,
    ensures
        first_undecodable(frames) == Some(frames[at]),
    decreases at,
{
    if at > 0 {
        let rest = frames.skip(1);
        assert(frames[0].undecodable == 0);
        assert forall|j: int| 0 <= j < at - 1 implies (#[trigger] rest[j]).undecodable == 0 by {
            assert(rest[j] == frames[j + 1]);
        }
        lemma_first_undecodable(rest, at - 1);
    }
}

proof fn lemma_all_decodable(frames: Seq<InjectFrame>)
    requires
        forall|j: int| 0 <= j < frames.len() ==> (#[trigger] frames[j]).undecodable == 0,
    ensures
        first_undecodable(frames) is None,
    decreases frames.len(),
{
    if frames.len() > 0 {
        assert(frames[0].undecodable == 0);
        let rest = frames.skip(1);
        assert forall|j: int| 0 <= j < rest.len() implies (#[trigger] rest[j]).undecodable == 0 by {
            assert(rest[j] == frames[j + 1]);
        }
        lemma_all_decodable(rest);
    }
}

/// What the supervisor of the broker does next.
#[derive(Debug, Clone, Copy, PartialEq, Eq, Structural)]
pub enum SupervisorStep {
    /// Try to release what is still pending.
    RetryCleanup,
    /// Run a session.
    RunSession,
    /// Wait before the next turn; a shutdown meanwhile ends the supervisor after
    /// a last cleanup.
    Wait,
    /// Release what is still pending, then end.
    CleanUpAndStop,
}

/// Begins a turn of the supervisor: no session while something is pending.
/// `retried` says whether a cleanup was tried in this turn, and completed.
pub fn supervisor_turn(
    inject_batches: &BrokerInjectBatchState,
    retried: Option<bool>,
) -> (r: SupervisorStep)
    ensures
        r == (match retried {
            Some(true) => SupervisorStep::RunSession,
            Some(false) => SupervisorStep::Wait,
            None => if inject_batches@.cleanup_pending() {
                SupervisorStep::RetryCleanup
            } else {
                SupervisorStep::RunSession
            },
        }),
{
    match retried {
        Some(true) => SupervisorStep::RunSession,
        Some(false) => SupervisorStep::Wait,
        None => {
            if inject_batches.local_cleanup_pending() {
                SupervisorStep::RetryCleanup
            } else {
                SupervisorStep::RunSession
            }
        },
    }
}

/// Ends a turn of the supervisor: only a shutdown ends the supervisor, a session
/// that failed (`None`) is tried again.
pub fn supervisor_after_session(session_end: Option<BrokerSessionEnd>) -> (r: SupervisorStep)
    ensures
        r == (if session_end == Some(BrokerSessionEnd::Shutdown) {
            SupervisorStep::CleanUpAndStop
        } else {
            SupervisorStep::Wait
        }),
{
    match session_end {
        Some(BrokerSessionEnd::Shutdown) => SupervisorStep::CleanUpAndStop,
        _ => SupervisorStep::Wait,
    }
}

/// Two confirmed stops always reconcile a helper that was lost between sessions,
/// even where the first stop only finds out that it is gone.
pub proof fn law_lost_helper_is_reconciled_in_two_stops(
    status: StatusView,
    helper_lane_absent: bool,
)
    requires
        !status.direct_fallback_safe,
    ensures
        ({
            let found = status.recovery_required(helper_lane_absent);
            let first = reconciled_status(found, false);
            let second = reconciled_status(first, true);
            &&& reconcile_begin(status) == (ReconcileStep::Stop { stops_left: 1 })
            &&& reconcile_next(first, 1) == (ReconcileStep::Stop { stops_left: 0 })
            &&& reconcile_next(second, 0) == ReconcileStep::Done(true)
            &&& second.direct_fallback_safe && !second.direct_recovery_cleanup_required
        }),
{
}

/// A session that was interrupted keeps its place at the daemon while payload,
/// held input or a cleanup of it is pending; a shutdown and a reset always tell
/// the daemon.
pub proof fn law_interrupted_session_keeps_its_place(batch: BatchView)
    ensures
        detaches(BrokerSessionEnd::Shutdown, batch),
        batch.reset_required ==> detaches(BrokerSessionEnd::Detached, batch),
        !batch.reset_required && (batch.active is Some || batch.resume is Some
            || batch.cleanup_pending()) ==> !detaches(BrokerSessionEnd::Detached, batch),
{
}

/// The daemon is left for good at a shutdown, and at an interruption exactly where
/// nothing of the session is kept or a reset is due.
pub proof fn law_session_is_left_only_when_done(batch: BatchView)
    ensures
        !detaches(BrokerSessionEnd::NotNeeded, batch),
        detaches(BrokerSessionEnd::Detached, batch) <==> batch.reset_required || (batch.active
            is None && batch.resume is None && batch.elevated_cleanup is None
            && batch.releases.len() == 0 && !(batch.cleanup_native is Some
            && batch.cleanup_native->0.native_cleanup_pending)),
{
}

/// A helper is reconciled by stops until the direct lane is safe, at most one after the
/// first, and only while a cleanup is due.
pub proof fn law_helper_is_stopped_until_safe(status: StatusView, stops_left: u8)
    ensures
        status.direct_fallback_safe ==> reconcile_begin(status) == ReconcileStep::Done(true)
            && reconcile_next(status, stops_left) == ReconcileStep::Done(true),
        !status.direct_fallback_safe ==> reconcile_begin(status) == (ReconcileStep::Stop {
            stops_left: 1,
        }),
        !status.direct_fallback_safe && stops_left == 0 ==> reconcile_next(status, stops_left)
            == ReconcileStep::Done(false),
        !status.direct_fallback_safe && !status.direct_recovery_cleanup_required
            ==> reconcile_next(status, stops_left) == ReconcileStep::Done(false),
        !status.direct_fallback_safe && status.direct_recovery_cleanup_required && stops_left > 0
            ==> reconcile_next(status, stops_left) == (ReconcileStep::Stop {
            stops_left: (stops_left - 1) as u8,
        }),
        reconciled_status(status, false) == status,
        status.direct_recovery_cleanup_required ==> reconciled_status(
            status,
            true,
        ).direct_fallback_safe,
{
}

/// Held input is kept for the next session only by an interrupted one on an open lane
/// that needs no reset; every other end forgets it.
pub proof fn law_held_input_outlives_only_an_interruption(
    batch: BatchView,
    session_end: BrokerSessionEnd,
    state: InjectedView,
)
    ensures
        ({
            let left = left_behind(batch, session_end, state);
            let kept = session_end == BrokerSessionEnd::Detached && !batch.reset_required
                && state.lane != InputDeliveryLane::Blocked;
            &&& !kept ==> left.resume is None
            &&& kept ==> left == batch.prepared_resume(state.held_downs())
            &&& left == (BatchView { resume: left.resume, ..batch })
        }),
{
}

/// A request tells the platform as it was seen; what was not seen is zero and marked so.
pub proof fn law_request_tells_the_platform(
    request: InputBrokerExchangeRequest,
    seen: ExchangeObservation,
)
    requires
        reports_platform(request, seen),
    ensures
        request.lock_active == seen.lock_active,
        seen.cursor matches Some((x, y)) ==> request.cursor_valid && request.cursor_x == x
            && request.cursor_y == y,
        seen.cursor is None ==> !request.cursor_valid && request.cursor_x == 0 && request.cursor_y
            == 0,
        seen.bounds matches Some((left, top, right, bottom)) ==> {
            &&& request.bounds_valid
            &&& request.bounds_left == left && request.bounds_top == top
            &&& request.bounds_right == right && request.bounds_bottom == bottom
        },
        seen.bounds is None ==> {
            &&& !request.bounds_valid
            &&& request.bounds_left == 0 && request.bounds_top == 0
            &&& request.bounds_right == 0 && request.bounds_bottom == 0
        },
        request.raw_device_wheel_event_count == seen.raw_device_wheel_event_count,
        request.raw_system_wheel_event_count == seen.raw_system_wheel_event_count,
        request.hook_wheel_event_count == seen.hook_wheel_event_count,
{
}

/// A request tells what became of the input: the counts, the batch that was taken last
/// and the one that failed, whether one is going out, and how the helper stands.
pub proof fn law_request_tells_the_injection(
    request: InputBrokerExchangeRequest,
    exchange: LoopView,
    batch: BatchView,
    state: InjectedView,
)
    requires
        reports_injection(request, exchange, batch, state),
    ensures
        request.injected_frame_count == exchange.injected_frames,
        request.inject_failure_count == exchange.inject_failures,
        request.inject_backpressure <==> batch.active is Some,
        request.acked_inject_batch_id == batch.completed,
        batch.failed matches Some(id) ==> request.failed_inject_batch_id == id,
        batch.failed is None ==> request.failed_inject_batch_id == 0,
        batch.resume matches Some(resume) ==> request.held_input_authorization_generation
            == resume.generation,
        batch.resume is None && (state.held_downs().len() == 0 || batch.held_generation is None)
            ==> request.held_input_authorization_generation == 0,
        batch.resume is None && state.held_downs().len() > 0 && batch.held_generation is Some
            ==> request.held_input_authorization_generation == batch.held_generation->0,
        state.elevated matches Some(status) ==> {
            &&& request.elevated_injector_state == status.state
            &&& request.elevated_injector_reason == status.reason
            &&& request.elevated_injector_signature_trust == status.signature_trust
        },
        state.elevated is None ==> request.elevated_injector_state == InputInjectorState::Off,
{
}

/// The frames of a batch are its events in their order; the first frame that could not
/// be read is the one complained of.
pub proof fn law_frames_keep_their_order(frames: Seq<InjectFrame>, at: int)
    requires
        0 <= at < frames.len(),
        forall|i: int| 0 <= i < at ==> (#[trigger] frames[i]).undecodable == 0,
    ensures
        inject_frame_views(frames).len() == frames.len(),
        inject_frame_views(frames)[at] == frames[at].events@,
        frames[at].undecodable > 0 ==> first_undecodable(frames) == Some(frames[at]),
        at == frames.len() - 1 && frames[at].undecodable == 0 ==> first_undecodable(frames) is None,
    decreases frames.len(),
{
    reveal_with_fuel(first_undecodable, 2);
    if at > 0 {
        assert(frames[0].undecodable == 0);
        let rest = frames.skip(1);
        assert forall|i: int| 0 <= i < at - 1 implies (#[trigger] rest[i]).undecodable == 0 by {
            assert(rest[i] == frames[i + 1]);
        }
        law_frames_keep_their_order(rest, at - 1);
    }
}

} // verus!
