use boundless_tray::batch::{BrokerInjectBatchState, BrokerInjectProgress, InjectReplyError};
use boundless_tray::broker::{
    accept_attach, detach_request, end_input_broker_session, finish_detach,
    finish_unneeded_session, plan_input_broker_session, session_preflight,
    supervisor_after_session, supervisor_turn, BrokerSessionEnd, BrokerSessionError,
    DetachRequest, ExchangeLoop, ExchangeObservation, InjectFrame, InputBrokerAttachReply,
    InputBrokerExchangeReply, SessionPlan, SupervisorStep,
};
use boundless_tray::elevated::{
    mark_direct_recovery_required_after_helper_exit, ElevatedInputActivationResult,
    ElevatedInputApplyResult, ElevatedInputControllerStatus, InputInjectorReason,
    InputInjectorState,
};
use boundless_tray::injected::{
    DirectLane, InjectedInputState, InputDeliveryLane, SendReply, SendStep, WindowsInputState,
};
use boundless_tray::input::{
    InputEvent, InputSendOutcome, KeySemantics, KeyState, MouseButton, SendError,
};
use boundless_tray::safety::{HookControlAction, SafetyUnlockReconciler};

const FREE_LANE: DirectLane = DirectLane::Available { num_lock_on: true };

fn key(scan_code: u16, state: KeyState) -> InputEvent {
    InputEvent::Key {
        scan_code,
        state,
        semantics: KeySemantics::Physical,
    }
}

fn nothing_seen() -> ExchangeObservation {
    ExchangeObservation {
        control_actions: Vec::new(),
        observed_events: Vec::new(),
        lock_active: false,
        cursor: None,
        bounds: None,
        pump_dropped_event_count: 0,
        raw_device_wheel_event_count: 0,
        raw_system_wheel_event_count: 0,
        hook_wheel_event_count: 0,
    }
}

fn plain_reply() -> InputBrokerExchangeReply {
    InputBrokerExchangeReply {
        accepted: true,
        message: String::new(),
        lock_should_be_active: false,
        capture_active: false,
        capture_forwarding_authorized: false,
        inject_batch_id: 0,
        inject_batch_cancelled: false,
        inject_authorization_generation: 0,
        held_input_authorized: false,
    }
}

fn attach(revision: u32) -> InputBrokerAttachReply {
    InputBrokerAttachReply {
        accepted: true,
        broker_token: "token".to_string(),
        message: String::new(),
        protocol_revision: revision,
        delivery_epoch: "epoch-1".to_string(),
    }
}

fn ready_status() -> ElevatedInputControllerStatus {
    ElevatedInputControllerStatus {
        state: InputInjectorState::ReadyPendingIdle,
        ..ElevatedInputControllerStatus::default()
    }
}

#[test]
fn a_request_reports_what_was_seen_and_what_is_held_back() {
    let mut turn = ExchangeLoop::default();
    let mut safety = SafetyUnlockReconciler::default();
    let mut batches = BrokerInjectBatchState::default();
    let state = InjectedInputState::new(false);
    let seen = ExchangeObservation {
        control_actions: vec![HookControlAction::EscapeUnlock],
        observed_events: vec![InputEvent::MouseMove { dx: 4, dy: -2 }],
        cursor: Some((10, 20)),
        bounds: Some((0, 0, 1920, 1080)),
        pump_dropped_event_count: 3,
        raw_device_wheel_event_count: 5,
        raw_system_wheel_event_count: 6,
        hook_wheel_event_count: 7,
        ..nothing_seen()
    };
    let request = turn
        .input_broker_exchange_request(&mut safety, &mut batches, &state, seen)
        .expect("no helper to recover from");
    assert!(request.captured_events.is_empty());
    assert!(request.cursor_valid && request.bounds_valid);
    assert_eq!((request.cursor_x, request.cursor_y), (10, 20));
    assert_eq!((request.bounds_right, request.bounds_bottom), (1920, 1080));
    assert_eq!(request.escape_unlock_count, 1);
    assert_eq!(request.lease_expired_unlock_count, 0);
    assert_eq!(request.dropped_event_count, 3);
    assert_eq!(request.raw_device_wheel_event_count, 5);
    assert_eq!(request.raw_system_wheel_event_count, 6);
    assert_eq!(request.hook_wheel_event_count, 7);
    assert_eq!(request.elevated_injector_state, InputInjectorState::Off);
    assert!(!request.inject_backpressure);
    assert!(turn.observed_events);
    assert!(safety.waiting_for_daemon_release);
}

#[test]
fn an_unlock_that_races_the_reply_wins_over_it() {
    let mut turn = ExchangeLoop::default();
    let mut safety = SafetyUnlockReconciler::default();
    let reply = InputBrokerExchangeReply {
        lock_should_be_active: true,
        capture_active: true,
        ..plain_reply()
    };
    let change = turn
        .accept_exchange_reply(&mut safety, &reply, Vec::new(), false)
        .expect("accepted");
    assert_eq!(change, Some(true));

    let change = turn
        .accept_exchange_reply(
            &mut safety,
            &reply,
            vec![HookControlAction::LeaseExpiredUnlock],
            true,
        )
        .expect("accepted");
    assert_eq!(change, Some(false));
    assert_eq!(safety.report_counts(), (0, 1, 0));

    turn.authorize_capture(
        &safety,
        &InputBrokerExchangeReply {
            capture_forwarding_authorized: true,
            ..plain_reply()
        },
        true,
    );
    assert!(!turn.capture_forwarding.daemon_authorized);
}

#[test]
fn a_refused_exchange_keeps_the_safety_report() {
    let mut turn = ExchangeLoop::default();
    let mut safety = SafetyUnlockReconciler::default();
    safety.observe(vec![HookControlAction::DetectorUnavailableUnlock]);
    let refused = InputBrokerExchangeReply {
        accepted: false,
        message: "no longer attached".to_string(),
        ..plain_reply()
    };
    let error = turn
        .accept_exchange_reply(&mut safety, &refused, Vec::new(), false)
        .expect_err("refused");
    assert_eq!(
        error.message(),
        "input broker exchange rejected: no longer attached"
    );
    assert_eq!(safety.report_counts(), (0, 0, 1));
}

#[test]
fn a_payload_is_taken_whole_or_not_at_all() {
    let turn = ExchangeLoop::default();
    let mut batches = BrokerInjectBatchState::default();
    let reply = InputBrokerExchangeReply {
        inject_batch_id: 7,
        inject_authorization_generation: 2,
        ..plain_reply()
    };
    let damaged = vec![
        InjectFrame {
            sequence: 1,
            events: vec![key(30, KeyState::Down)],
            undecodable: 0,
        },
        InjectFrame {
            sequence: 2,
            events: Vec::new(),
            undecodable: 4,
        },
    ];
    let error = turn
        .accept_exchange_payload(&mut batches, &reply, damaged)
        .expect_err("undecodable");
    assert_eq!(
        error.message(),
        "input broker inject batch 7 frame 2 contained 4 undecodable events"
    );
    assert!(!batches.backpressure_active());

    let whole = vec![InjectFrame {
        sequence: 1,
        events: vec![key(30, KeyState::Down)],
        undecodable: 0,
    }];
    let release_first = turn
        .accept_exchange_payload(&mut batches, &reply, whole)
        .expect("decodable");
    assert!(!release_first);
    assert!(batches.backpressure_active());

    let cancelled = InputBrokerExchangeReply {
        inject_batch_id: 7,
        inject_batch_cancelled: true,
        ..plain_reply()
    };
    let release_first = turn
        .accept_exchange_payload(&mut batches, &cancelled, Vec::new())
        .expect("a cancellation of the batch in hand");
    assert!(release_first);
    assert!(!batches.backpressure_active());
}

#[test]
fn the_pause_between_exchanges_is_short_while_something_happens() {
    let mut turn = ExchangeLoop::default();
    let quiet = BrokerInjectProgress {
        completed_frames: 0,
        failed_attempts: 0,
        requires_session_teardown: false,
    };
    assert_eq!(turn.finish_exchange(&plain_reply(), quiet).expect("ok"), 40);
    let capturing = InputBrokerExchangeReply {
        capture_active: true,
        ..plain_reply()
    };
    assert_eq!(turn.finish_exchange(&capturing, quiet).expect("ok"), 8);
    let busy = BrokerInjectProgress {
        completed_frames: 3,
        failed_attempts: 1,
        requires_session_teardown: true,
    };
    let error = turn
        .finish_exchange(&plain_reply(), busy)
        .expect_err("a fresh session is due");
    assert!(matches!(error, BrokerSessionError::FreshSessionRequired));
    assert_eq!(turn.injected_frame_count, 3);
    assert_eq!(turn.inject_failure_count, 1);
}

#[test]
fn a_lost_helper_ends_the_session_and_owes_a_reset() {
    let mut status = ready_status();
    mark_direct_recovery_required_after_helper_exit(&mut status, true);
    let state = InjectedInputState::with_elevated_controller(false, status);
    let mut turn = ExchangeLoop::default();
    let mut safety = SafetyUnlockReconciler::default();
    let mut batches = BrokerInjectBatchState::default();
    let error = turn
        .input_broker_exchange_request(&mut safety, &mut batches, &state, nothing_seen())
        .expect_err("the helper is gone");
    assert!(matches!(error, BrokerSessionError::HelperExited));
    assert!(batches.input_session_reset_required);
}

#[test]
fn sessions_are_planned_by_backend_and_helper() {
    let off = ElevatedInputControllerStatus::default();
    let plan = plan_input_broker_session(true, "service_session_unsupported", &off);
    assert!(matches!(plan, Ok(SessionPlan::Attach)));
    let plan = plan_input_broker_session(true, "windows_hooks", &off);
    assert!(matches!(plan, Ok(SessionPlan::NotNeeded)));
    let plan = plan_input_broker_session(true, "windows_hooks", &ready_status());
    assert!(matches!(plan, Ok(SessionPlan::CloseHelper)));
    let plan = plan_input_broker_session(false, "service_session_unsupported", &off);
    assert!(matches!(
        plan,
        Err(BrokerSessionError::HelperCleanupUnconfirmed)
    ));
    assert!(matches!(
        finish_unneeded_session(true),
        Ok(BrokerSessionEnd::NotNeeded)
    ));
    assert!(matches!(
        finish_unneeded_session(false),
        Err(BrokerSessionError::HelperCleanupWithoutBroker)
    ));
}

#[test]
fn only_an_accepted_attach_begins_an_epoch() {
    let mut batches = BrokerInjectBatchState::default();
    assert!(matches!(
        accept_attach(&mut batches, &attach(2), 3),
        Err(BrokerSessionError::ProtocolMismatch {
            daemon: 2,
            expected: 3
        })
    ));
    let refused = InputBrokerAttachReply {
        accepted: false,
        ..attach(3)
    };
    assert!(matches!(accept_attach(&mut batches, &refused, 3), Ok(false)));
    let without_epoch = InputBrokerAttachReply {
        delivery_epoch: String::new(),
        ..attach(3)
    };
    assert!(matches!(
        accept_attach(&mut batches, &without_epoch, 3),
        Err(BrokerSessionError::Reply(
            InjectReplyError::MissingDeliveryEpoch
        ))
    ));
    assert_eq!(batches.delivery_epoch, None);
    assert!(matches!(accept_attach(&mut batches, &attach(3), 3), Ok(true)));
    assert_eq!(batches.delivery_epoch.as_deref(), Some("epoch-1"));
}

#[test]
fn an_ended_session_releases_what_it_held_and_is_told_last() {
    let mut batches = BrokerInjectBatchState::default();
    let mut safety = SafetyUnlockReconciler::default();
    let mut state = InjectedInputState::new(false);
    state.observe(&[
        key(29, KeyState::Down),
        InputEvent::MouseButton {
            button: MouseButton::Left,
            state: KeyState::Down,
        },
    ]);
    assert!(session_preflight(&batches).is_ok());
    end_input_broker_session(
        BrokerSessionEnd::Shutdown,
        &mut batches,
        &mut state,
        &mut safety,
        vec![HookControlAction::EscapeUnlock],
        FREE_LANE,
    );
    assert!(batches.local_cleanup_pending());
    assert!(session_preflight(&batches).is_err());
    assert_eq!(batches.pending_local_releases.len(), 2);
    assert_eq!(safety.report_counts(), (1, 0, 0));
    assert_eq!(
        supervisor_turn(&batches, None),
        SupervisorStep::RetryCleanup
    );
    assert_eq!(supervisor_turn(&batches, Some(false)), SupervisorStep::Wait);
    assert_eq!(
        supervisor_turn(&batches, Some(true)),
        SupervisorStep::RunSession
    );
    assert_eq!(
        detach_request(BrokerSessionEnd::Shutdown, &batches),
        Some(DetachRequest {
            acked_inject_batch_id: 0,
            reset_input_session: false
        })
    );
    assert_eq!(detach_request(BrokerSessionEnd::Detached, &batches), None);
}

#[test]
fn a_reset_stays_owed_until_it_is_confirmed() {
    let mut batches = BrokerInjectBatchState::default();
    batches.require_session_reset_for_elevated_recovery();
    let request = detach_request(BrokerSessionEnd::Detached, &batches).expect("told");
    assert!(request.reset_input_session);
    finish_detach(&mut batches, request, false);
    assert!(batches.input_session_reset_required);
    finish_detach(&mut batches, request, true);
    assert!(!batches.input_session_reset_required);
}

#[test]
fn only_a_shutdown_ends_the_supervisor() {
    assert_eq!(
        supervisor_after_session(Some(BrokerSessionEnd::Shutdown)),
        SupervisorStep::CleanUpAndStop
    );
    for end in [
        None,
        Some(BrokerSessionEnd::NotNeeded),
        Some(BrokerSessionEnd::Detached),
    ] {
        assert_eq!(supervisor_after_session(end), SupervisorStep::Wait);
    }
}

fn delivered(events: &[InputEvent]) -> InputSendOutcome {
    InputSendOutcome {
        committed_event_count: events.len(),
        remaining_events: Vec::new(),
        error: None,
    }
}

#[test]
fn without_a_helper_events_go_straight_to_the_ordinary_lane() {
    let events = [key(42, KeyState::Down)];
    let mut state = InjectedInputState::new(false);
    assert!(matches!(
        state.send_events(&events, SendReply::Begin),
        SendStep::SendNative
    ));
    let step = state.send_events(
        &events,
        SendReply::Native {
            outcome: delivered(&events),
            windows_input: WindowsInputState::new(true),
        },
    );
    match step {
        SendStep::Done {
            outcome,
            request_disable,
        } => {
            assert_eq!(outcome.committed_event_count, 1);
            assert!(!request_disable);
        }
        other => panic!("unexpected step {other:?}"),
    }
    assert!(state.windows_input.num_lock_on);
    assert_eq!(state.held_down_events(), vec![key(42, KeyState::Down)]);
}

#[test]
fn a_ready_helper_takes_over_an_idle_lane() {
    let events = [key(42, KeyState::Down)];
    let mut state = InjectedInputState::with_elevated_controller(true, ready_status());
    assert!(matches!(
        state.send_events(&events, SendReply::Begin),
        SendStep::Activate
    ));
    let step = state.send_events(
        &events,
        SendReply::Activation(ElevatedInputActivationResult::Activated),
    );
    assert!(matches!(step, SendStep::ApplyElevated { num_lock_on: true }));
    assert_eq!(state.delivery_lane, InputDeliveryLane::Elevated);
    let step = state.send_events(
        &events,
        SendReply::Applied(ElevatedInputApplyResult::Applied {
            committed_event_count: 5,
            remaining_events: Vec::new(),
            reason: InputInjectorReason::Unspecified,
            destination_num_lock_on: false,
        }),
    );
    match step {
        SendStep::Done { outcome, .. } => {
            assert_eq!(outcome.committed_event_count, 1);
            assert!(outcome.error.is_none());
        }
        other => panic!("unexpected step {other:?}"),
    }
    assert!(!state.windows_input.num_lock_on);
}

#[test]
fn a_helper_that_is_not_ready_leaves_the_ordinary_lane_to_be_checked() {
    let events = [key(42, KeyState::Down)];
    let off = ElevatedInputControllerStatus::default();
    let mut state = InjectedInputState::with_elevated_controller(false, off);
    let _ = state.send_events(&events, SendReply::Begin);
    let step = state.send_events(
        &events,
        SendReply::Activation(ElevatedInputActivationResult::NotReady),
    );
    assert!(matches!(step, SendStep::CheckLane));
    let step = state.send_events(
        &events,
        SendReply::LaneCheck(Some(SendError::LaneOwnedByHelper)),
    );
    match step {
        SendStep::Done { outcome, .. } => {
            assert_eq!(outcome.remaining_events, events.to_vec());
            assert_eq!(outcome.error, Some(SendError::LaneOwnedByHelper));
        }
        other => panic!("unexpected step {other:?}"),
    }
    assert!(matches!(
        state.send_events(&events, SendReply::LaneCheck(None)),
        SendStep::SendNative
    ));
}

#[test]
fn an_uncertain_delivery_blocks_the_lane_and_stops_the_helper() {
    let events = [key(42, KeyState::Down)];
    let mut state = InjectedInputState::with_elevated_controller(false, ready_status());
    let _ = state.send_events(
        &events,
        SendReply::Activation(ElevatedInputActivationResult::Activated),
    );
    let step = state.send_events(
        &events,
        SendReply::Applied(ElevatedInputApplyResult::Uncertain),
    );
    match step {
        SendStep::Done {
            outcome,
            request_disable,
        } => {
            assert!(request_disable);
            assert_eq!(outcome.error, Some(SendError::ElevatedDeliveryUncertain));
        }
        other => panic!("unexpected step {other:?}"),
    }
    assert_eq!(state.delivery_lane, InputDeliveryLane::Blocked);
    assert_eq!(state.held_down_events(), vec![key(42, KeyState::Down)]);

    // The helper is known to have let go: the ordinary lane is taken again.
    state.refresh_elevated_status(ElevatedInputControllerStatus::default());
    assert!(matches!(
        state.send_events(&events, SendReply::Begin),
        SendStep::ProbeLane
    ));
    assert!(matches!(
        state.send_events(&events, SendReply::Lane(FREE_LANE)),
        SendStep::Activate
    ));
    assert_eq!(state.delivery_lane, InputDeliveryLane::Direct);
    assert!(state.held_down_events().is_empty());
}

#[test]
fn an_inactive_helper_falls_back_only_where_that_is_safe() {
    let events = [key(42, KeyState::Down)];
    let mut state = InjectedInputState::with_elevated_controller(false, ready_status());
    let _ = state.send_events(
        &events,
        SendReply::Activation(ElevatedInputActivationResult::Activated),
    );
    let not_active = SendReply::Applied(ElevatedInputApplyResult::NotActive);
    assert!(matches!(
        state.send_events(&events, not_active),
        SendStep::ProbeFallbackLane
    ));
    let refused = DirectLane::Refused(SendError::NumLockRefreshFailed);
    match state.send_events(&events, SendReply::FallbackLane(refused)) {
        SendStep::Done { outcome, .. } => {
            assert_eq!(outcome.error, Some(SendError::NumLockRefreshFailed));
        }
        other => panic!("unexpected step {other:?}"),
    }
    assert!(matches!(
        state.send_events(&events, SendReply::FallbackLane(FREE_LANE)),
        SendStep::SendNative
    ));

    let mut unsafe_status = ready_status();
    unsafe_status.mark_delivery_uncertain();
    let mut state = InjectedInputState::with_elevated_controller(false, unsafe_status);
    assert_eq!(state.delivery_lane, InputDeliveryLane::Blocked);
    match state.send_events(&events, SendReply::Begin) {
        SendStep::Done { outcome, .. } => {
            assert_eq!(outcome.error, Some(SendError::ElevatedDeliveryUncertain));
        }
        other => panic!("unexpected step {other:?}"),
    }
}
