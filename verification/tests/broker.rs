use boundless_tray::batch::{
    BrokerInjectBatchState, BrokerInjectProgress, CleanupStep, InjectReplyError,
    INPUT_BROKER_INJECT_BATCH_CAP, LOCAL_INPUT_CLEANUP_SHUTDOWN_ATTEMPTS,
};
use boundless_tray::broker::{
    mismatched_attach_cleanup_token, reconcile_elevated_controller_without_input_state,
    reconcile_stopped, should_detach_input_broker_session, validate_input_broker_attach_revision,
    BrokerSessionEnd, InputBrokerAttachReply, ReconcileStep,
};
use boundless_tray::delivery::InjectAction;
use boundless_tray::elevated::{
    mark_direct_recovery_required_after_helper_exit, ready_helper_allows_direct_drain,
    stop_elevated_input_client, ElevatedInputControllerStatus, InputInjectorReason,
    InputInjectorState, StopReply,
};
use boundless_tray::injected::{
    observe_injected_input_outcome, DirectLane, InjectedInputState, InputDeliveryLane,
    WindowsInputState,
};
use boundless_tray::input::{
    InputEvent, InputSendOutcome, KeySemantics, KeyState, MouseButton, SendError,
};

const INPUT_BROKER_PROTOCOL_REVISION: u32 = 3;

const FREE_LANE: DirectLane = DirectLane::Available { num_lock_on: false };

/// Runs a cleanup to its end; the helper, if there is one, is gone.
fn process_elevated_cleanup_with<F>(
    batch: &mut BrokerInjectBatchState,
    controller: &mut ElevatedInputControllerStatus,
    injected: &mut InjectedInputState,
    mut apply: F,
) -> bool
where
    F: FnMut(&[InputEvent], &mut InjectedInputState) -> InputSendOutcome,
{
    let mut step = batch.process_local_cleanup(injected);
    loop {
        step = match step {
            CleanupStep::Stop => {
                let reply = StopReply::NoClient { helper_lane_absent: true };
                let stopped = stop_elevated_input_client(controller, reply);
                injected.refresh_elevated_status(controller.clone());
                batch.local_cleanup_stopped(injected, stopped, FREE_LANE)
            }
            CleanupStep::Release(events) => {
                let outcome = apply(&events, injected);
                batch.local_cleanup_released(injected, outcome)
            }
            CleanupStep::Done { complete, recover } => {
                if recover {
                    controller.complete_direct_recovery_cleanup();
                    injected.refresh_elevated_status(controller.clone());
                }
                return complete;
            }
        };
    }
}

fn process_local_cleanup_with<F>(
    batch: &mut BrokerInjectBatchState,
    injected: &mut InjectedInputState,
    apply: F,
) -> bool
where
    F: FnMut(&[InputEvent], &mut InjectedInputState) -> InputSendOutcome,
{
    let mut controller = ElevatedInputControllerStatus::default();
    process_elevated_cleanup_with(batch, &mut controller, injected, apply)
}

const NO_PROGRESS: BrokerInjectProgress = BrokerInjectProgress {
    completed_frames: 0,
    failed_attempts: 0,
    requires_session_teardown: false,
};

/// Runs a pass to its end; what is sent goes to `apply`.
fn process_with<F>(
    batch: &mut BrokerInjectBatchState,
    injected: &mut InjectedInputState,
    mut apply: F,
) -> BrokerInjectProgress
where
    F: FnMut(&[InputEvent], &mut InjectedInputState) -> InputSendOutcome,
{
    let mut progress = NO_PROGRESS;
    let mut action = batch.process(injected);
    loop {
        action = match action {
            InjectAction::StopElevatedLane { phase } => {
                batch.process_stopped(injected, progress, phase, true, FREE_LANE)
            }
            InjectAction::Send { events, purpose } => {
                let outcome = apply(&events, injected);
                batch.process_sent(injected, &mut progress, purpose, outcome)
            }
            InjectAction::CompleteRecovery { phase } => {
                batch.process_recovered(injected, progress, phase)
            }
            InjectAction::ProbeLane => batch.process_probed(injected, progress, FREE_LANE),
            InjectAction::Done(progress) => return progress,
        };
    }
}

fn process_local_cleanup_bounded_with<F>(
    batch: &mut BrokerInjectBatchState,
    injected: &mut InjectedInputState,
    attempts: usize,
    mut apply: F,
) -> bool
where
    F: FnMut(&[InputEvent], &mut InjectedInputState) -> InputSendOutcome,
{
    let mut left = attempts;
    let mut complete = false;
    loop {
        if let Some(done) = batch.process_local_cleanup_bounded(left, complete) {
            return done;
        }
        left -= 1;
        complete = process_local_cleanup_with(batch, injected, &mut apply);
    }
}

#[test]
fn unversioned_accepted_attach_is_rejected_and_scheduled_for_cleanup() {
    let old_daemon_reply = InputBrokerAttachReply {
        accepted: true,
        broker_token: "stale-token".to_string(),
        message: String::new(),
        protocol_revision: 0,
        delivery_epoch: String::new(),
    };

    let error = validate_input_broker_attach_revision(&old_daemon_reply, INPUT_BROKER_PROTOCOL_REVISION)
        .expect_err("new tray must reject an unversioned daemon");
    assert!(error.message().contains("daemon=0"));
    assert_eq!(
        mismatched_attach_cleanup_token(&old_daemon_reply, INPUT_BROKER_PROTOCOL_REVISION),
        Some("stale-token")
    );

    let current = InputBrokerAttachReply {
        protocol_revision: INPUT_BROKER_PROTOCOL_REVISION,
        delivery_epoch: "daemon-epoch".to_string(),
        ..old_daemon_reply
    };
    validate_input_broker_attach_revision(&current, INPUT_BROKER_PROTOCOL_REVISION)
        .expect("current daemon revision");
    assert_eq!(mismatched_attach_cleanup_token(&current, INPUT_BROKER_PROTOCOL_REVISION), None);
}

#[test]
fn connected_idle_helper_allows_direct_held_input_to_drain_before_activation() {
    let mut status = ElevatedInputControllerStatus {
        state: InputInjectorState::ReadyPendingIdle,
        ..ElevatedInputControllerStatus::default()
    };
    assert!(ready_helper_allows_direct_drain(&status));

    status.direct_fallback_safe = false;
    assert!(!ready_helper_allows_direct_drain(&status));
    status.direct_fallback_safe = true;
    status.state = InputInjectorState::Active;
    assert!(!ready_helper_allows_direct_drain(&status));
}

#[test]
fn elevated_cleanup_retains_confirmed_and_possible_direct_releases() {
    let mut controller = ElevatedInputControllerStatus::default();
    controller.state = InputInjectorState::Unavailable;
    controller.reason =
            InputInjectorReason::DeliveryUncertain;
    controller.direct_fallback_safe = false;
    let ctrl_down = InputEvent::Key {
        scan_code: 29,
        state: KeyState::Down,
        semantics: KeySemantics::Physical,
    };
    let ctrl_up = InputEvent::Key {
        scan_code: 29,
        state: KeyState::Up,
        semantics: KeySemantics::Physical,
    };
    let button_down = InputEvent::MouseButton {
        button: MouseButton::Left,
        state: KeyState::Down,
    };
    let button_up = InputEvent::MouseButton {
        button: MouseButton::Left,
        state: KeyState::Up,
    };
    let mut injected = InjectedInputState::with_elevated_controller(false, controller.clone());
    injected.delivery_lane = InputDeliveryLane::Elevated;
    injected.observe(std::slice::from_ref(&ctrl_down));
    injected.observe_possible_downs(std::slice::from_ref(&button_down));

    let mut batch = BrokerInjectBatchState::default();
    batch.stage_local_cleanup(&mut injected, FREE_LANE);
    assert!(batch.pending_elevated_cleanup.is_some());
    assert!(batch.pending_local_releases.contains(&ctrl_up));
    assert!(batch.pending_local_releases.contains(&button_up));

    let mut applied_releases = Vec::new();
    assert!(process_elevated_cleanup_with(&mut batch, &mut controller, &mut injected,
        |events, state| {
            applied_releases.extend_from_slice(events);
            observe_injected_input_outcome(
                events,
                state,
                InputSendOutcome {
                    committed_event_count: events.len(),
                    remaining_events: Vec::new(),
                    error: None,
                },
            )
        }
    ));
    assert!(applied_releases.contains(&ctrl_up));
    assert!(applied_releases.contains(&button_up));
    assert_eq!(injected.delivery_lane, InputDeliveryLane::Direct);
    assert!(injected.elevated_status().direct_fallback_safe);
}

#[test]
fn hard_helper_exit_resets_authorization_and_releases_held_ctrl_before_direct_resume() {
    let mut controller = ElevatedInputControllerStatus::default();
    controller.state = InputInjectorState::Unavailable;
    controller.reason = InputInjectorReason::ParentExited;
    controller.direct_fallback_safe = false;
    controller.direct_recovery_cleanup_required = true;
    let ctrl_down = InputEvent::Key {
        scan_code: 29,
        state: KeyState::Down,
        semantics: KeySemantics::Physical,
    };
    let ctrl_up = InputEvent::Key {
        scan_code: 29,
        state: KeyState::Up,
        semantics: KeySemantics::Physical,
    };
    let unrelated_move = InputEvent::MouseMove { dx: 1, dy: 0 };
    let mut injected = InjectedInputState::with_elevated_controller(false, controller.clone());
    injected.delivery_lane = InputDeliveryLane::Elevated;
    injected.observe(std::slice::from_ref(&ctrl_down));

    let mut batch = BrokerInjectBatchState::default();
    batch
        .accept_batch(41, vec![vec![unrelated_move.clone()]])
        .expect("stage next unrelated event");
    batch.require_session_reset_for_elevated_recovery();
    assert!(batch.input_session_reset_required);
    assert_eq!(batch.failed_batch_id(), 41);

    batch.stage_local_cleanup(&mut injected, FREE_LANE);
    let mut applied_releases = Vec::new();
    assert!(process_elevated_cleanup_with(&mut batch, &mut controller, &mut injected,
        |events, state| {
            applied_releases.extend_from_slice(events);
            observe_injected_input_outcome(
                events,
                state,
                InputSendOutcome {
                    committed_event_count: events.len(),
                    remaining_events: Vec::new(),
                    error: None,
                },
            )
        }
    ));
    assert_eq!(applied_releases, vec![ctrl_up]);
    assert!(!applied_releases.contains(&unrelated_move));
    assert_eq!(injected.delivery_lane, InputDeliveryLane::Direct);
    let recovered = injected.elevated_status();
    assert!(recovered.direct_fallback_safe);
    assert!(!recovered.direct_recovery_cleanup_required);

    batch.complete_input_session_reset();
    assert!(batch.frames.is_empty());
    assert!(!batch.input_session_reset_required);
}

#[test]
fn hard_helper_exit_while_direct_and_idle_clears_recovery_latch_during_cleanup() {
    let mut controller = ElevatedInputControllerStatus::default();
    controller.state = InputInjectorState::Unavailable;
    controller.reason = InputInjectorReason::ParentExited;
    controller.direct_fallback_safe = false;
    controller.direct_recovery_cleanup_required = true;
    let mut injected = InjectedInputState::with_elevated_controller(false, controller.clone());
    injected.delivery_lane = InputDeliveryLane::Direct;
    assert!(injected.held_down_events().is_empty());

    let mut batch = BrokerInjectBatchState::default();
    batch.require_session_reset_for_elevated_recovery();
    batch.stage_local_cleanup(&mut injected, FREE_LANE);
    assert!(batch.pending_elevated_cleanup.is_some());
    assert!(process_elevated_cleanup_with(&mut batch, &mut controller, &mut injected,
        |events, _state| panic!("idle recovery emitted unexpected releases: {events:?}")
    ));

    let recovered = injected.elevated_status();
    assert!(recovered.direct_fallback_safe);
    assert!(!recovered.direct_recovery_cleanup_required);
    assert!(!batch.local_cleanup_pending());
}

#[test]
fn hard_helper_exit_between_sessions_completes_controller_only_recovery() {
    let mut controller = ElevatedInputControllerStatus::default();
    controller.state = InputInjectorState::Active;
    controller.direct_fallback_safe = false;
    controller.direct_recovery_cleanup_required = false;
    let mut stop_attempts = 0usize;
    let mut step = reconcile_elevated_controller_without_input_state(&controller);
    let reconciled = loop {
        match step {
            ReconcileStep::Done(safe) => break safe,
            ReconcileStep::Stop { stops_left } => {
                stop_attempts += 1;
                let stopped = if stop_attempts == 1 {
                    mark_direct_recovery_required_after_helper_exit(&mut controller, true);
                    false
                } else {
                    true
                };
                step = reconcile_stopped(&mut controller, stops_left, stopped);
            }
        }
    };
    assert!(reconciled);
    assert_eq!(stop_attempts, 2);
    let recovered = controller;
    assert!(recovered.direct_fallback_safe);
    assert!(!recovered.direct_recovery_cleanup_required);
}

#[test]
fn inject_batch_retries_exact_suffix_before_later_frames_and_then_acks() {
    let key_down = InputEvent::Key {
        scan_code: 30,
        state: KeyState::Down,
        semantics: KeySemantics::Physical,
    };
    let mouse_down = InputEvent::MouseButton {
        button: MouseButton::Left,
        state: KeyState::Down,
    };
    let key_up = InputEvent::Key {
        scan_code: 30,
        state: KeyState::Up,
        semantics: KeySemantics::Physical,
    };
    let mut batch = BrokerInjectBatchState::default();
    batch
        .accept_batch(
            7,
            vec![
                vec![key_down.clone(), mouse_down.clone()],
                vec![key_up.clone()],
            ],
        )
        .expect("stage batch");
    let mut injected = InjectedInputState::new(false);
    let mut attempts = Vec::new();
    let first = process_with(&mut batch, &mut injected, |events, state| {
        attempts.push(events.to_vec());
        observe_injected_input_outcome(
            events,
            state,
            InputSendOutcome {
                committed_event_count: 1,
                remaining_events: vec![mouse_down.clone()],
                error: Some(SendError::Native),
            },
        )
    });
    assert_eq!(
        first,
        BrokerInjectProgress {
            completed_frames: 0,
            failed_attempts: 1,
            requires_session_teardown: false,
        }
    );
    assert!(batch.backpressure_active());
    assert_eq!(batch.acked_batch_id(), 0);

    let second = process_with(&mut batch, &mut injected, |events, state| {
        attempts.push(events.to_vec());
        observe_injected_input_outcome(
            events,
            state,
            InputSendOutcome {
                committed_event_count: events.len(),
                remaining_events: Vec::new(),
                error: None,
            },
        )
    });
    assert_eq!(
        second,
        BrokerInjectProgress {
            completed_frames: 2,
            failed_attempts: 0,
            requires_session_teardown: false,
        }
    );
    assert_eq!(
        attempts,
        vec![
            vec![key_down, mouse_down.clone()],
            vec![mouse_down],
            vec![key_up],
        ]
    );
    assert!(!batch.backpressure_active());
    assert_eq!(batch.acked_batch_id(), 7);

    batch
        .accept_batch(7, vec![vec![InputEvent::MouseMove { dx: 1, dy: 0 }]])
        .expect("completed batch replay is deduplicated");
    assert!(!batch.backpressure_active());
}

#[test]
fn uncertain_elevated_delivery_forces_atomic_session_reset_without_replay() {
    let event = InputEvent::MouseButton {
        button: MouseButton::Left,
        state: KeyState::Down,
    };
    let mut batch = BrokerInjectBatchState::default();
    batch
        .accept_batch(9, vec![vec![event.clone()]])
        .expect("stage elevated batch");
    let mut injected = InjectedInputState::new(false);

    let first = process_with(&mut batch, &mut injected, |events, _state| InputSendOutcome {
        committed_event_count: 0,
        remaining_events: events.to_vec(),
        error: Some(SendError::ElevatedDeliveryUncertain),
    });
    assert_eq!(first.failed_attempts, 1);
    assert!(first.requires_session_teardown);
    assert_eq!(batch.failed_batch_id(), 9);
    assert!(batch.backpressure_active());
    assert!(should_detach_input_broker_session(
        BrokerSessionEnd::Detached,
        &batch
    ));

    let mut replayed = false;
    let waiting = process_with(&mut batch, &mut injected, |_events, _state| {
        replayed = true;
        InputSendOutcome {
            committed_event_count: 1,
            remaining_events: Vec::new(),
            error: None,
        }
    });
    assert_eq!(waiting.failed_attempts, 1);
    assert!(!replayed, "uncertain elevated input must never be replayed");

    batch.complete_input_session_reset();
    assert_eq!(batch.failed_batch_id(), 0);
    assert!(!batch.backpressure_active());
    assert_eq!(batch.acked_batch_id(), 0);
}

#[test]
fn completed_receipt_survives_same_epoch_reattach_without_reinjection() {
    let event = InputEvent::MouseMove { dx: 1, dy: 0 };
    let mut batch = BrokerInjectBatchState::default();
    batch
        .begin_delivery_epoch("daemon-epoch")
        .expect("begin first broker session");
    batch
        .accept_batch(7, vec![vec![event.clone()]])
        .expect("stage batch");
    let mut injected = InjectedInputState::new(false);
    let mut inject_calls = 0;
    let completed = process_with(&mut batch, &mut injected, |events, state| {
        inject_calls += 1;
        observe_injected_input_outcome(
            events,
            state,
            InputSendOutcome {
                committed_event_count: events.len(),
                remaining_events: Vec::new(),
                error: None,
            },
        )
    });
    assert_eq!(completed.completed_frames, 1);
    assert_eq!(inject_calls, 1);
    assert_eq!(batch.acked_batch_id(), 7);

    batch
        .begin_delivery_epoch("daemon-epoch")
        .expect("reattach to same daemon epoch");
    batch
        .accept_batch(7, vec![vec![event]])
        .expect("replayed response after lost acknowledgement");
    let replay = process_with(&mut batch, &mut injected, |_events, _state| {
        panic!("same-epoch completed delivery must not reach SendInput twice")
    });
    assert_eq!(replay, NO_PROGRESS);
    assert_eq!(batch.acked_batch_id(), 7);
}

#[test]
fn completed_down_only_batch_preserves_held_intent_for_reattach() {
    let ctrl_down = InputEvent::Key {
        scan_code: 29,
        state: KeyState::Down,
        semantics: KeySemantics::Physical,
    };
    let ctrl_up = InputEvent::Key {
        scan_code: 29,
        state: KeyState::Up,
        semantics: KeySemantics::Physical,
    };
    let c_down = InputEvent::Key {
        scan_code: 46,
        state: KeyState::Down,
        semantics: KeySemantics::Physical,
    };
    let c_up = InputEvent::Key {
        scan_code: 46,
        state: KeyState::Up,
        semantics: KeySemantics::Physical,
    };
    let mut batch = BrokerInjectBatchState::default();
    batch
        .begin_delivery_epoch("daemon-epoch")
        .expect("begin broker session");
    batch
        .accept_batch(8, vec![vec![ctrl_down.clone()]])
        .expect("stage completed Down-only batch");
    let mut injected = InjectedInputState::new(false);
    let completed = process_with(&mut batch, &mut injected, |events, state| {
        observe_injected_input_outcome(
            events,
            state,
            InputSendOutcome {
                committed_event_count: events.len(),
                remaining_events: Vec::new(),
                error: None,
            },
        )
    });
    assert_eq!(completed.completed_frames, 1);
    assert!(!batch.backpressure_active());

    batch.prepare_held_input_resume(&injected);
    assert!(
        batch.held_input_resume.is_some(),
        "a completed receipt must not erase a still-held modifier before same-epoch reattach"
    );
    batch.stage_local_cleanup(&mut injected, FREE_LANE);
    let mut cleanup_attempts = Vec::new();
    assert!(process_local_cleanup_with(&mut batch, &mut injected,
        |events, state| {
            cleanup_attempts.push(events.to_vec());
            observe_injected_input_outcome(
                events,
                state,
                InputSendOutcome {
                    committed_event_count: events.len(),
                    remaining_events: Vec::new(),
                    error: None,
                },
            )
        }
    ));
    assert_eq!(cleanup_attempts, vec![vec![ctrl_up.clone()]]);

    // Lost request: the daemon has not consumed the receipt yet and the
    // replacement exchange returns no later payload.
    batch
        .begin_delivery_epoch("daemon-epoch")
        .expect("reattach to same epoch");
    let mut replacement = InjectedInputState::new(false);
    let requested = batch.held_authorization_request(&replacement);
    assert_eq!(requested, 1);
    batch
        .observe_held_authorization_reply(requested, true)
        .expect("fresh daemon authorization");
    batch
        .accept_authorized_batch(0, Vec::new(), 0)
        .expect("receipt-only reply");
    let mut attempts = Vec::new();
    process_with(&mut batch, &mut replacement, |events, state| {
        attempts.push(events.to_vec());
        observe_injected_input_outcome(
            events,
            state,
            InputSendOutcome {
                committed_event_count: events.len(),
                remaining_events: Vec::new(),
                error: None,
            },
        )
    });

    let later_payload = vec![c_down, c_up, ctrl_up];
    batch
        .accept_authorized_batch(9, vec![later_payload.clone()], 1)
        .expect("later chord payload");
    process_with(&mut batch, &mut replacement, |events, state| {
        attempts.push(events.to_vec());
        observe_injected_input_outcome(
            events,
            state,
            InputSendOutcome {
                committed_event_count: events.len(),
                remaining_events: Vec::new(),
                error: None,
            },
        )
    });
    assert_eq!(attempts, vec![vec![ctrl_down], later_payload]);
    assert!(replacement.held_down_events().is_empty());
}

#[test]
fn response_lost_after_completed_button_receipt_restores_before_returned_payload() {
    let mouse_down = InputEvent::MouseButton {
        button: MouseButton::Left,
        state: KeyState::Down,
    };
    let mouse_up = InputEvent::MouseButton {
        button: MouseButton::Left,
        state: KeyState::Up,
    };
    let later_payload = vec![
        InputEvent::MouseMove { dx: 4, dy: 1 },
        mouse_up.clone(),
    ];
    let mut batch = BrokerInjectBatchState::default();
    batch
        .begin_delivery_epoch("daemon-epoch")
        .expect("begin broker session");
    batch
        .accept_authorized_batch(20, vec![vec![mouse_down.clone()]], 5)
        .expect("stage completed button batch");
    let mut first = InjectedInputState::new(false);
    process_with(&mut batch, &mut first, |events, state| {
        observe_injected_input_outcome(
            events,
            state,
            InputSendOutcome {
                committed_event_count: events.len(),
                remaining_events: Vec::new(),
                error: None,
            },
        )
    });
    batch.prepare_held_input_resume(&first);
    batch.stage_local_cleanup(&mut first, FREE_LANE);
    assert!(process_local_cleanup_with(&mut batch, &mut first, |events, state| {
        observe_injected_input_outcome(
            events,
            state,
            InputSendOutcome {
                committed_event_count: events.len(),
                remaining_events: Vec::new(),
                error: None,
            },
        )
    }));

    // The receipt request reached the daemon and its response (which also
    // carried batch 21) was lost. The next response repeats only batch 21;
    // the old button intent must still restore first.
    let mut replacement = InjectedInputState::new(false);
    let requested = batch.held_authorization_request(&replacement);
    batch
        .observe_held_authorization_reply(requested, true)
        .expect("reauthorize retained button");
    batch
        .accept_authorized_batch(21, vec![later_payload.clone()], 5)
        .expect("repeat later payload after response loss");
    let mut attempts = Vec::new();
    process_with(&mut batch, &mut replacement, |events, state| {
        attempts.push(events.to_vec());
        observe_injected_input_outcome(
            events,
            state,
            InputSendOutcome {
                committed_event_count: events.len(),
                remaining_events: Vec::new(),
                error: None,
            },
        )
    });
    assert_eq!(attempts, vec![vec![mouse_down], later_payload]);
}

#[test]
fn uncertain_elevated_restore_is_never_replayed() {
    let ctrl_down = InputEvent::Key {
        scan_code: 29,
        state: KeyState::Down,
        semantics: KeySemantics::Physical,
    };
    let ctrl_up = InputEvent::Key {
        scan_code: 29,
        state: KeyState::Up,
        semantics: KeySemantics::Physical,
    };
    let later = InputEvent::MouseMove { dx: 1, dy: 0 };
    let mut batch = BrokerInjectBatchState::default();
    batch
        .begin_delivery_epoch("daemon-epoch")
        .expect("begin broker session");
    batch
        .accept_authorized_batch(20, vec![vec![ctrl_down.clone()]], 5)
        .expect("stage held modifier");
    let mut first = InjectedInputState::new(false);
    process_with(&mut batch, &mut first, |events, state| {
        observe_injected_input_outcome(
            events,
            state,
            InputSendOutcome {
                committed_event_count: events.len(),
                remaining_events: Vec::new(),
                error: None,
            },
        )
    });
    batch.prepare_held_input_resume(&first);
    batch.stage_local_cleanup(&mut first, FREE_LANE);
    assert!(process_local_cleanup_with(&mut batch, &mut first, |events, state| {
        assert_eq!(events, std::slice::from_ref(&ctrl_up));
        observe_injected_input_outcome(
            events,
            state,
            InputSendOutcome {
                committed_event_count: events.len(),
                remaining_events: Vec::new(),
                error: None,
            },
        )
    }));

    let mut replacement = InjectedInputState::new(false);
    let requested = batch.held_authorization_request(&replacement);
    batch
        .observe_held_authorization_reply(requested, true)
        .expect("reauthorize retained modifier");
    batch
        .accept_authorized_batch(21, vec![vec![later]], 5)
        .expect("stage later payload");

    let mut attempts = Vec::new();
    let first = process_with(&mut batch, &mut replacement, |events, _state| {
        attempts.push(events.to_vec());
        InputSendOutcome {
            committed_event_count: 0,
            remaining_events: events.to_vec(),
            error: Some(SendError::ElevatedDeliveryUncertain),
        }
    });
    assert_eq!(first.failed_attempts, 1);
    assert_eq!(attempts, vec![vec![ctrl_down.clone()]]);
    assert!(batch.held_input_resume.is_none());
    assert_eq!(batch.failed_batch_id(), 21);

    let waiting = process_with(&mut batch, &mut replacement, |events, _state| {
        attempts.push(events.to_vec());
        InputSendOutcome {
            committed_event_count: events.len(),
            remaining_events: Vec::new(),
            error: None,
        }
    });
    assert_eq!(waiting.failed_attempts, 1);
    assert_eq!(attempts, vec![vec![ctrl_down]]);
}

#[test]
fn uncertain_completed_hold_with_failed_cleanup_requires_session_teardown() {
    let ctrl_down = InputEvent::Key {
        scan_code: 29,
        state: KeyState::Down,
        semantics: KeySemantics::Physical,
    };
    let ctrl_up = InputEvent::Key {
        scan_code: 29,
        state: KeyState::Up,
        semantics: KeySemantics::Physical,
    };
    let alt_down = InputEvent::Key {
        scan_code: 56,
        state: KeyState::Down,
        semantics: KeySemantics::Physical,
    };
    let alt_up = InputEvent::Key {
        scan_code: 56,
        state: KeyState::Up,
        semantics: KeySemantics::Physical,
    };
    let mut batch = BrokerInjectBatchState::default();
    batch
        .begin_delivery_epoch("daemon-epoch")
        .expect("begin broker session");
    batch
        .accept_authorized_batch(20, vec![vec![ctrl_down.clone()]], 5)
        .expect("stage held modifier");
    let mut first = InjectedInputState::new(false);
    process_with(&mut batch, &mut first, |events, state| {
        observe_injected_input_outcome(
            events,
            state,
            InputSendOutcome {
                committed_event_count: events.len(),
                remaining_events: Vec::new(),
                error: None,
            },
        )
    });
    batch.prepare_held_input_resume(&first);
    batch.stage_local_cleanup(&mut first, FREE_LANE);
    assert!(process_local_cleanup_with(&mut batch, &mut first, |events, state| {
        assert_eq!(events, std::slice::from_ref(&ctrl_up));
        observe_injected_input_outcome(
            events,
            state,
            InputSendOutcome {
                committed_event_count: events.len(),
                remaining_events: Vec::new(),
                error: None,
            },
        )
    }));
    assert_eq!(batch.failed_batch_id(), 0);

    let mut replacement = InjectedInputState::new(false);
    replacement.observe(std::slice::from_ref(&alt_down));
    let requested = batch.held_authorization_request(&replacement);
    batch
        .observe_held_authorization_reply(requested, true)
        .expect("reauthorize completed hold");

    let mut attempts = Vec::new();
    let progress = process_with(&mut batch, &mut replacement, |events, _state| {
        attempts.push(events.to_vec());
        InputSendOutcome {
            committed_event_count: 0,
            remaining_events: events.to_vec(),
            error: Some(if events == std::slice::from_ref(&ctrl_down) {
                SendError::ElevatedDeliveryUncertain
            } else {
                SendError::Native
            }),
        }
    });
    assert_eq!(attempts, vec![vec![ctrl_down], vec![alt_up]]);
    assert_eq!(batch.failed_batch_id(), 0);
    assert!(batch.local_cleanup_pending());
    assert!(progress.requires_session_teardown);
}

#[test]
fn completed_hold_real_cleanup_path_skips_transient_detach_and_restores() {
    let ctrl_down = InputEvent::Key {
        scan_code: 29,
        state: KeyState::Down,
        semantics: KeySemantics::Physical,
    };
    let ctrl_up = InputEvent::Key {
        scan_code: 29,
        state: KeyState::Up,
        semantics: KeySemantics::Physical,
    };
    let mut batch = BrokerInjectBatchState::default();
    batch
        .begin_delivery_epoch("daemon-epoch")
        .expect("begin session");
    batch
        .accept_authorized_batch(30, vec![vec![ctrl_down.clone()]], 7)
        .expect("stage completed hold");
    let mut first_session = InjectedInputState::new(false);
    assert_eq!(
        process_with(&mut batch, &mut first_session, |events, state| {
                observe_injected_input_outcome(
                    events,
                    state,
                    InputSendOutcome {
                        committed_event_count: events.len(),
                        remaining_events: Vec::new(),
                        error: None,
                    },
                )
            })
            .completed_frames,
        1
    );

    batch.prepare_held_input_resume(&first_session);
    batch.stage_local_cleanup(&mut first_session, FREE_LANE);
    assert!(process_local_cleanup_with(&mut batch, &mut first_session,
        |events, state| {
            assert_eq!(events, std::slice::from_ref(&ctrl_up));
            observe_injected_input_outcome(
                events,
                state,
                InputSendOutcome {
                    committed_event_count: events.len(),
                    remaining_events: Vec::new(),
                    error: None,
                },
            )
        }
    ));
    assert!(batch.held_input_resume.is_some());
    assert!(
        !should_detach_input_broker_session(BrokerSessionEnd::Detached, &batch),
        "successful transient cleanup must not release daemon owner authority before restore"
    );
    assert!(should_detach_input_broker_session(
        BrokerSessionEnd::Shutdown,
        &batch
    ));

    batch
        .begin_delivery_epoch("daemon-epoch")
        .expect("reattach to same daemon");
    let requested = batch.held_authorization_request(&first_session);
    batch
        .observe_held_authorization_reply(requested, true)
        .expect("daemon reauthorizes retained generation");
    let mut replacement = InjectedInputState::new(false);
    let mut restored = Vec::new();
    process_with(&mut batch, &mut replacement, |events, state| {
        restored.extend_from_slice(events);
        observe_injected_input_outcome(
            events,
            state,
            InputSendOutcome {
                committed_event_count: events.len(),
                remaining_events: Vec::new(),
                error: None,
            },
        )
    });
    assert_eq!(restored, vec![ctrl_down]);
}

#[test]
fn authorization_revocation_discards_completed_hold_before_new_payload() {
    let ctrl_down = InputEvent::Key {
        scan_code: 29,
        state: KeyState::Down,
        semantics: KeySemantics::Physical,
    };
    let ctrl_up = InputEvent::Key {
        scan_code: 29,
        state: KeyState::Up,
        semantics: KeySemantics::Physical,
    };
    let later = InputEvent::MouseMove { dx: 1, dy: 0 };
    let mut batch = BrokerInjectBatchState::default();
    batch
        .begin_delivery_epoch("daemon-epoch")
        .expect("begin broker session");
    batch
        .accept_authorized_batch(30, vec![vec![ctrl_down]], 7)
        .expect("stage held modifier");
    let mut first = InjectedInputState::new(false);
    process_with(&mut batch, &mut first, |events, state| {
        observe_injected_input_outcome(
            events,
            state,
            InputSendOutcome {
                committed_event_count: events.len(),
                remaining_events: Vec::new(),
                error: None,
            },
        )
    });
    batch.prepare_held_input_resume(&first);
    batch.stage_local_cleanup(&mut first, FREE_LANE);
    assert!(process_local_cleanup_with(&mut batch, &mut first, |events, state| {
        assert_eq!(events, std::slice::from_ref(&ctrl_up));
        observe_injected_input_outcome(
            events,
            state,
            InputSendOutcome {
                committed_event_count: events.len(),
                remaining_events: Vec::new(),
                error: None,
            },
        )
    }));

    let mut replacement = InjectedInputState::new(false);
    let requested = batch.held_authorization_request(&replacement);
    assert!(
        batch
            .observe_held_authorization_reply(requested, false)
            .expect("owner/policy revocation reply")
    );
    batch
        .accept_authorized_batch(31, vec![vec![later.clone()]], 8)
        .expect("new owner payload");
    let mut attempts = Vec::new();
    process_with(&mut batch, &mut replacement, |events, state| {
        attempts.push(events.to_vec());
        observe_injected_input_outcome(
            events,
            state,
            InputSendOutcome {
                committed_event_count: events.len(),
                remaining_events: Vec::new(),
                error: None,
            },
        )
    });
    assert_eq!(attempts, vec![vec![later]]);
}

#[test]
fn revoked_hold_is_not_rebound_when_cleanup_fails_beside_new_generation() {
    let ctrl_down = InputEvent::Key {
        scan_code: 29,
        state: KeyState::Down,
        semantics: KeySemantics::Physical,
    };
    let ctrl_up = InputEvent::Key {
        scan_code: 29,
        state: KeyState::Up,
        semantics: KeySemantics::Physical,
    };
    let mut batch = BrokerInjectBatchState::default();
    batch
        .accept_authorized_batch(50, vec![vec![ctrl_down]], 10)
        .expect("stage old owner hold");
    let mut injected = InjectedInputState::new(false);
    process_with(&mut batch, &mut injected, |events, state| {
        observe_injected_input_outcome(
            events,
            state,
            InputSendOutcome {
                committed_event_count: events.len(),
                remaining_events: Vec::new(),
                error: None,
            },
        )
    });
    let requested = batch.held_authorization_request(&injected);
    assert_eq!(requested, 10);
    assert!(
        batch
            .observe_held_authorization_reply(requested, false)
            .expect("old owner revoked")
    );
    batch
        .accept_authorized_batch(
            51,
            vec![vec![InputEvent::MouseMove { dx: 1, dy: 0 }]],
            11,
        )
        .expect("new generation payload");
    batch.stage_local_cleanup(&mut injected, FREE_LANE);
    assert!(!process_local_cleanup_with(&mut batch, &mut injected, |events, state| {
        assert_eq!(events, std::slice::from_ref(&ctrl_up));
        observe_injected_input_outcome(
            events,
            state,
            InputSendOutcome {
                committed_event_count: 0,
                remaining_events: events.to_vec(),
                error: Some(SendError::Native),
            },
        )
    }));

    batch.prepare_held_input_resume(&injected);
    assert!(
        batch.held_input_resume.is_none(),
        "revoked old-owner state must never inherit the new payload generation"
    );
    assert!(batch.local_cleanup_pending());
}

#[test]
fn partial_ctrl_chord_reattach_restores_modifier_before_suffix() {
    let ctrl_down = InputEvent::Key {
        scan_code: 29,
        state: KeyState::Down,
        semantics: KeySemantics::Physical,
    };
    let ctrl_up = InputEvent::Key {
        scan_code: 29,
        state: KeyState::Up,
        semantics: KeySemantics::Physical,
    };
    let c_down = InputEvent::Key {
        scan_code: 46,
        state: KeyState::Down,
        semantics: KeySemantics::Physical,
    };
    let c_up = InputEvent::Key {
        scan_code: 46,
        state: KeyState::Up,
        semantics: KeySemantics::Physical,
    };
    let suffix = vec![c_down, c_up, ctrl_up.clone()];
    let mut batch = BrokerInjectBatchState::default();
    batch
        .begin_delivery_epoch("daemon-epoch")
        .expect("begin first broker session");
    batch
        .accept_batch(
            7,
            vec![std::iter::once(ctrl_down.clone())
                .chain(suffix.clone())
                .collect()],
        )
        .expect("stage chord batch");
    let mut first_session = InjectedInputState::new(false);
    let first = process_with(&mut batch, &mut first_session, |events, state| {
        observe_injected_input_outcome(
            events,
            state,
            InputSendOutcome {
                committed_event_count: 1,
                remaining_events: suffix.clone(),
                error: Some(SendError::Native),
            },
        )
    });
    assert_eq!(first.failed_attempts, 1);
    batch.prepare_held_input_resume(&first_session);
    assert_eq!(first_session.drain_release_events(), vec![ctrl_up]);

    batch
        .begin_delivery_epoch("daemon-epoch")
        .expect("reattach to same daemon");
    batch
        .accept_batch(7, Vec::new())
        .expect("daemon reauthorizes retained batch under backpressure");
    let mut second_session = InjectedInputState::new(false);
    let requested = batch.held_authorization_request(&second_session);
    batch
        .observe_held_authorization_reply(requested, true)
        .expect("authorize held modifier restore");
    let mut attempts = Vec::new();
    process_with(&mut batch, &mut second_session, |events, state| {
        attempts.push(events.to_vec());
        observe_injected_input_outcome(
            events,
            state,
            InputSendOutcome {
                committed_event_count: events.len(),
                remaining_events: Vec::new(),
                error: None,
            },
        )
    });

    assert_eq!(attempts, vec![vec![ctrl_down], suffix]);
}

#[test]
fn partial_drag_reattach_restores_button_before_motion_suffix() {
    let mouse_down = InputEvent::MouseButton {
        button: MouseButton::Left,
        state: KeyState::Down,
    };
    let mouse_up = InputEvent::MouseButton {
        button: MouseButton::Left,
        state: KeyState::Up,
    };
    let suffix = vec![
        InputEvent::MouseMove { dx: 8, dy: 2 },
        mouse_up.clone(),
    ];
    let mut batch = BrokerInjectBatchState::default();
    batch
        .begin_delivery_epoch("daemon-epoch")
        .expect("begin first broker session");
    batch
        .accept_batch(
            9,
            vec![std::iter::once(mouse_down.clone())
                .chain(suffix.clone())
                .collect()],
        )
        .expect("stage drag batch");
    let mut first_session = InjectedInputState::new(false);
    let first = process_with(&mut batch, &mut first_session, |events, state| {
        observe_injected_input_outcome(
            events,
            state,
            InputSendOutcome {
                committed_event_count: 1,
                remaining_events: suffix.clone(),
                error: Some(SendError::Native),
            },
        )
    });
    assert_eq!(first.failed_attempts, 1);
    batch.prepare_held_input_resume(&first_session);
    assert_eq!(first_session.drain_release_events(), vec![mouse_up]);

    batch
        .begin_delivery_epoch("daemon-epoch")
        .expect("reattach to same daemon");
    batch
        .accept_batch(9, Vec::new())
        .expect("daemon reauthorizes retained drag batch");
    let mut second_session = InjectedInputState::new(false);
    let requested = batch.held_authorization_request(&second_session);
    batch
        .observe_held_authorization_reply(requested, true)
        .expect("authorize held button restore");
    let mut attempts = Vec::new();
    let completed = process_with(&mut batch, &mut second_session, |events, state| {
        attempts.push(events.to_vec());
        observe_injected_input_outcome(
            events,
            state,
            InputSendOutcome {
                committed_event_count: events.len(),
                remaining_events: Vec::new(),
                error: None,
            },
        )
    });

    assert_eq!(attempts, vec![vec![mouse_down], suffix]);
    assert_eq!(completed.completed_frames, 1);
    assert!(second_session.drain_release_events().is_empty());
}

#[test]
fn cancellation_before_reattach_restore_discards_held_intent() {
    let ctrl_down = InputEvent::Key {
        scan_code: 29,
        state: KeyState::Down,
        semantics: KeySemantics::Physical,
    };
    let ctrl_up = InputEvent::Key {
        scan_code: 29,
        state: KeyState::Up,
        semantics: KeySemantics::Physical,
    };
    let suffix = vec![InputEvent::Key {
        scan_code: 46,
        state: KeyState::Down,
        semantics: KeySemantics::Physical,
    }];
    let mut batch = BrokerInjectBatchState::default();
    batch
        .begin_delivery_epoch("daemon-epoch")
        .expect("begin broker session");
    batch
        .accept_batch(
            11,
            vec![std::iter::once(ctrl_down).chain(suffix.clone()).collect()],
        )
        .expect("stage chord batch");
    let mut first_session = InjectedInputState::new(false);
    process_with(&mut batch, &mut first_session, |events, state| {
        observe_injected_input_outcome(
            events,
            state,
            InputSendOutcome {
                committed_event_count: 1,
                remaining_events: suffix.clone(),
                error: Some(SendError::Native),
            },
        )
    });
    batch.prepare_held_input_resume(&first_session);
    assert_eq!(first_session.drain_release_events(), vec![ctrl_up]);

    batch
        .begin_delivery_epoch("daemon-epoch")
        .expect("reattach to same daemon");
    assert!(
        batch
            .accept_reply(11, true, Vec::new(), 0)
            .expect("daemon cancellation")
    );
    let mut second_session = InjectedInputState::new(false);
    let progress = process_with(&mut batch, &mut second_session, |_events, _state| {
        panic!("cancelled batch must not restore held input or retry its suffix")
    });
    assert_eq!(progress, NO_PROGRESS);
    assert_eq!(batch.acked_batch_id(), 11);
}

#[test]
fn new_epoch_discards_old_held_intent_before_new_batch() {
    let old_down = InputEvent::MouseButton {
        button: MouseButton::Left,
        state: KeyState::Down,
    };
    let old_up = InputEvent::MouseButton {
        button: MouseButton::Left,
        state: KeyState::Up,
    };
    let old_suffix = vec![InputEvent::MouseMove { dx: 5, dy: 0 }];
    let new_event = InputEvent::MouseMove { dx: 1, dy: 0 };
    let mut batch = BrokerInjectBatchState::default();
    batch
        .begin_delivery_epoch("old-epoch")
        .expect("begin old daemon epoch");
    batch
        .accept_batch(
            13,
            vec![std::iter::once(old_down)
                .chain(old_suffix.clone())
                .collect()],
        )
        .expect("stage old drag batch");
    let mut old_session = InjectedInputState::new(false);
    process_with(&mut batch, &mut old_session, |events, state| {
        observe_injected_input_outcome(
            events,
            state,
            InputSendOutcome {
                committed_event_count: 1,
                remaining_events: old_suffix.clone(),
                error: Some(SendError::Native),
            },
        )
    });
    batch.prepare_held_input_resume(&old_session);
    assert_eq!(old_session.drain_release_events(), vec![old_up]);

    batch
        .begin_delivery_epoch("new-epoch")
        .expect("start replacement daemon epoch");
    batch
        .accept_batch(1, vec![vec![new_event.clone()]])
        .expect("stage new daemon batch");
    let mut new_session = InjectedInputState::new(false);
    let mut attempts = Vec::new();
    process_with(&mut batch, &mut new_session, |events, state| {
        attempts.push(events.to_vec());
        observe_injected_input_outcome(
            events,
            state,
            InputSendOutcome {
                committed_event_count: events.len(),
                remaining_events: Vec::new(),
                error: None,
            },
        )
    });
    assert_eq!(attempts, vec![vec![new_event]]);
    assert_eq!(batch.acked_batch_id(), 1);
}

#[test]
fn partial_held_restore_retains_exact_suffix_and_defers_payload() {
    let ctrl_down = InputEvent::Key {
        scan_code: 29,
        state: KeyState::Down,
        semantics: KeySemantics::Physical,
    };
    let shift_down = InputEvent::Key {
        scan_code: 42,
        state: KeyState::Down,
        semantics: KeySemantics::Physical,
    };
    let ctrl_up = InputEvent::Key {
        scan_code: 29,
        state: KeyState::Up,
        semantics: KeySemantics::Physical,
    };
    let shift_up = InputEvent::Key {
        scan_code: 42,
        state: KeyState::Up,
        semantics: KeySemantics::Physical,
    };
    let payload_suffix = vec![
        InputEvent::MouseMove { dx: 2, dy: 0 },
        shift_up.clone(),
        ctrl_up.clone(),
    ];
    let mut batch = BrokerInjectBatchState::default();
    batch
        .begin_delivery_epoch("daemon-epoch")
        .expect("begin first broker session");
    batch
        .accept_batch(
            15,
            vec![vec![ctrl_down.clone(), shift_down.clone()]
                .into_iter()
                .chain(payload_suffix.clone())
                .collect::<Vec<_>>()],
        )
        .expect("stage held-state batch");
    let mut first_session = InjectedInputState::new(false);
    process_with(&mut batch, &mut first_session, |events, state| {
        observe_injected_input_outcome(
            events,
            state,
            InputSendOutcome {
                committed_event_count: 2,
                remaining_events: payload_suffix.clone(),
                error: Some(SendError::Native),
            },
        )
    });
    batch.prepare_held_input_resume(&first_session);
    assert_eq!(
        first_session.drain_release_events(),
        vec![ctrl_up, shift_up]
    );

    batch
        .begin_delivery_epoch("daemon-epoch")
        .expect("reattach to same daemon");
    batch
        .accept_batch(15, Vec::new())
        .expect("first retained-batch reauthorization");
    let mut second_session = InjectedInputState::new(false);
    let requested = batch.held_authorization_request(&second_session);
    batch
        .observe_held_authorization_reply(requested, true)
        .expect("authorize first held-state restore attempt");
    let mut attempts = Vec::new();
    let first_restore = process_with(&mut batch, &mut second_session, |events, state| {
        attempts.push(events.to_vec());
        observe_injected_input_outcome(
            events,
            state,
            InputSendOutcome {
                committed_event_count: 1,
                remaining_events: vec![shift_down.clone()],
                error: Some(SendError::Native),
            },
        )
    });
    assert_eq!(
        first_restore,
        BrokerInjectProgress {
            completed_frames: 0,
            failed_attempts: 1,
            requires_session_teardown: false,
        }
    );
    assert_eq!(attempts, vec![vec![ctrl_down.clone(), shift_down.clone()]]);

    batch
        .accept_batch(15, Vec::new())
        .expect("second retained-batch reauthorization");
    let requested = batch.held_authorization_request(&second_session);
    batch
        .observe_held_authorization_reply(requested, true)
        .expect("authorize second held-state restore attempt");
    let second_restore = process_with(&mut batch, &mut second_session, |events, state| {
        attempts.push(events.to_vec());
        observe_injected_input_outcome(
            events,
            state,
            InputSendOutcome {
                committed_event_count: events.len(),
                remaining_events: Vec::new(),
                error: None,
            },
        )
    });
    assert_eq!(second_restore.completed_frames, 1);
    assert_eq!(second_restore.failed_attempts, 0);
    assert_eq!(
        attempts,
        vec![
            vec![ctrl_down, shift_down.clone()],
            vec![shift_down],
            payload_suffix,
        ]
    );
    assert_eq!(batch.acked_batch_id(), 15);
    assert!(second_session.drain_release_events().is_empty());
}

#[test]
fn cancelled_batch_drops_partial_suffix_before_retry_and_allows_later_batch() {
    let key_down = InputEvent::Key {
        scan_code: 30,
        state: KeyState::Down,
        semantics: KeySemantics::Physical,
    };
    let mouse_down = InputEvent::MouseButton {
        button: MouseButton::Left,
        state: KeyState::Down,
    };
    let later = InputEvent::Key {
        scan_code: 31,
        state: KeyState::Down,
        semantics: KeySemantics::Physical,
    };
    let mut batch = BrokerInjectBatchState::default();
    batch
        .accept_reply(
            7,
            false,
            vec![vec![key_down.clone(), mouse_down.clone()]],
            1,
        )
        .expect("stage authorized batch");
    let mut injected = InjectedInputState::new(false);
    let first = process_with(&mut batch, &mut injected, |events, state| {
        observe_injected_input_outcome(
            events,
            state,
            InputSendOutcome {
                committed_event_count: 1,
                remaining_events: vec![mouse_down.clone()],
                error: Some(SendError::Native),
            },
        )
    });
    assert_eq!(first.failed_attempts, 1);
    assert!(batch.backpressure_active());

    let cancelled_now = batch
        .accept_reply(7, true, Vec::new(), 0)
        .expect("owner revocation cancels retained suffix");
    assert!(cancelled_now);
    assert_eq!(
        injected.drain_release_events(),
        vec![InputEvent::Key {
            scan_code: 30,
            state: KeyState::Up,
            semantics: KeySemantics::Physical,
        }],
        "cancelling a partially committed batch must release held local input"
    );
    let after_cancel = process_with(&mut batch, &mut injected, |_events, _state| {
        panic!("cancelled input suffix must not be retried")
    });
    assert_eq!(after_cancel, NO_PROGRESS);
    assert!(!batch.backpressure_active());
    assert_eq!(batch.acked_batch_id(), 7);

    assert!(
        !batch
        .accept_reply(7, true, Vec::new(), 0)
        .expect("lost cancellation response replays idempotently")
    );
    batch
        .accept_reply(8, false, vec![vec![later.clone()]], 1)
        .expect("later authorized batch proceeds");
    let mut attempted = Vec::new();
    let later_progress = process_with(&mut batch, &mut injected, |events, state| {
        attempted.extend_from_slice(events);
        observe_injected_input_outcome(
            events,
            state,
            InputSendOutcome {
                committed_event_count: events.len(),
                remaining_events: Vec::new(),
                error: None,
            },
        )
    });
    assert_eq!(later_progress.completed_frames, 1);
    assert_eq!(attempted, vec![later]);
    assert_eq!(batch.acked_batch_id(), 8);
}

#[test]
fn partial_and_zero_cleanup_failures_gate_payload_until_exact_suffix_completes() {
    let mouse_up = InputEvent::MouseButton {
        button: MouseButton::Left,
        state: KeyState::Up,
    };
    let ctrl_up = InputEvent::Key {
        scan_code: 29,
        state: KeyState::Up,
        semantics: KeySemantics::Physical,
    };
    let shift_up = InputEvent::Key {
        scan_code: 42,
        state: KeyState::Up,
        semantics: KeySemantics::Physical,
    };
    let mut injected = InjectedInputState::new(false);
    injected.observe(&[
        InputEvent::MouseButton {
            button: MouseButton::Left,
            state: KeyState::Down,
        },
        InputEvent::Key {
            scan_code: 29,
            state: KeyState::Down,
            semantics: KeySemantics::Physical,
        },
        InputEvent::Key {
            scan_code: 42,
            state: KeyState::Down,
            semantics: KeySemantics::Physical,
        },
    ]);
    let mut batch = BrokerInjectBatchState::default();
    batch.stage_local_cleanup(&mut injected, FREE_LANE);

    let full = vec![mouse_up, ctrl_up.clone(), shift_up.clone()];
    assert!(!process_local_cleanup_with(&mut batch, &mut injected, |events, state| {
        assert_eq!(events, full);
        observe_injected_input_outcome(
            events,
            state,
            InputSendOutcome {
                committed_event_count: 1,
                remaining_events: vec![ctrl_up.clone(), shift_up.clone()],
                error: Some(SendError::Native),
            },
        )
    }));
    assert_eq!(
        batch.pending_local_releases,
        vec![ctrl_up.clone(), shift_up.clone()]
    );

    batch
        .accept_authorized_batch(
            40,
            vec![vec![InputEvent::MouseMove { dx: 9, dy: 0 }]],
            3,
        )
        .expect("stage payload behind cleanup");
    let blocked = process_with(&mut batch, &mut injected, |_events, _state| {
        panic!("payload must stay deferred while cleanup remains pending")
    });
    assert_eq!(blocked.failed_attempts, 1);
    assert_eq!(blocked.completed_frames, 0);

    assert!(!process_local_cleanup_with(&mut batch, &mut injected, |events, state| {
        assert_eq!(events, [ctrl_up.clone(), shift_up.clone()]);
        observe_injected_input_outcome(
            events,
            state,
            InputSendOutcome {
                committed_event_count: 0,
                remaining_events: events.to_vec(),
                error: Some(SendError::Native),
            },
        )
    }));
    assert_eq!(
        batch.pending_local_releases,
        vec![ctrl_up.clone(), shift_up.clone()]
    );

    assert!(process_local_cleanup_with(&mut batch, &mut injected, |events, state| {
        assert_eq!(events, [ctrl_up.clone(), shift_up.clone()]);
        observe_injected_input_outcome(
            events,
            state,
            InputSendOutcome {
                committed_event_count: events.len(),
                remaining_events: Vec::new(),
                error: None,
            },
        )
    }));
    let mut payload_attempts = Vec::new();
    let completed = process_with(&mut batch, &mut injected, |events, state| {
        payload_attempts.push(events.to_vec());
        observe_injected_input_outcome(
            events,
            state,
            InputSendOutcome {
                committed_event_count: events.len(),
                remaining_events: Vec::new(),
                error: None,
            },
        )
    });
    assert_eq!(completed.completed_frames, 1);
    assert_eq!(payload_attempts.len(), 1);
}

#[test]
fn num_lock_native_cleanup_survives_session_loss_before_payload_retry() {
    let num_lock_down = InputEvent::Key {
        scan_code: 0x45,
        state: KeyState::Down,
        semantics: KeySemantics::Windows {
            virtual_key: 0x90,
            num_lock_on: true,
        },
    };
    let windows_input = WindowsInputState::new(false);
    let mut first_session = InjectedInputState::with_windows_input(windows_input);
    // The toggle went down and could not be taken back.
    first_session.windows_input.native_cleanup_pending = true;
    let partial_toggle = InputSendOutcome {
        committed_event_count: 0,
        remaining_events: vec![num_lock_down],
        error: Some(SendError::Native),
    };
    observe_injected_input_outcome(
        std::slice::from_ref(&num_lock_down),
        &mut first_session,
        partial_toggle,
    );
    assert!(first_session.windows_input.has_pending_native_cleanup());

    let payload = InputEvent::MouseMove { dx: 4, dy: 0 };
    let mut batch = BrokerInjectBatchState::default();
    batch
        .accept_authorized_batch(50, vec![vec![payload.clone()]], 9)
        .expect("stage payload behind native cleanup");
    batch.stage_local_cleanup(&mut first_session, FREE_LANE);
    drop(first_session);
    assert!(batch.local_cleanup_pending());
    assert_eq!(
        process_with(&mut batch, 
                &mut InjectedInputState::new(false),
                |_events, _state| panic!("payload must wait for native cleanup")
            )
            .failed_attempts,
        1
    );

    let mut retry_state = batch.pending_local_cleanup_state();
    let mut cleanup_calls = 0usize;
    assert!(process_local_cleanup_with(&mut batch, &mut retry_state,
        |events, state| {
            assert!(events.is_empty());
            cleanup_calls += 1;
            state.windows_input.native_cleanup_pending = false;
            InputSendOutcome {
                committed_event_count: 0,
                remaining_events: Vec::new(),
                error: None,
            }
        }
    ));
    assert_eq!(cleanup_calls, 1);
    assert!(!retry_state.windows_input.has_pending_native_cleanup());

    let mut payload_attempts = Vec::new();
    let completed = process_with(&mut batch, &mut retry_state, |events, state| {
        payload_attempts.extend_from_slice(events);
        observe_injected_input_outcome(
            events,
            state,
            InputSendOutcome {
                committed_event_count: events.len(),
                remaining_events: Vec::new(),
                error: None,
            },
        )
    });
    assert_eq!(completed.completed_frames, 1);
    assert_eq!(payload_attempts, vec![payload]);
}

#[test]
fn shutdown_cleanup_retries_are_bounded_and_keep_exact_suffix() {
    let key_up = InputEvent::Key {
        scan_code: 30,
        state: KeyState::Up,
        semantics: KeySemantics::Physical,
    };
    let mut injected = InjectedInputState::new(false);
    injected.observe(&[InputEvent::Key {
        scan_code: 30,
        state: KeyState::Down,
        semantics: KeySemantics::Physical,
    }]);
    let mut batch = BrokerInjectBatchState::default();
    batch.stage_local_cleanup(&mut injected, FREE_LANE);
    let mut attempts = 0usize;
    assert!(process_local_cleanup_bounded_with(
        &mut batch,
        &mut injected,
        LOCAL_INPUT_CLEANUP_SHUTDOWN_ATTEMPTS,
        |events, state| {
            attempts += 1;
            assert_eq!(events, std::slice::from_ref(&key_up));
            let succeeds = attempts == LOCAL_INPUT_CLEANUP_SHUTDOWN_ATTEMPTS;
            observe_injected_input_outcome(
                events,
                state,
                InputSendOutcome {
                    committed_event_count: usize::from(succeeds),
                    remaining_events: if succeeds {
                        Vec::new()
                    } else {
                        events.to_vec()
                    },
                    error: if succeeds { None } else { Some(SendError::Native) },
                },
            )
        }
    ));
    assert_eq!(attempts, LOCAL_INPUT_CLEANUP_SHUTDOWN_ATTEMPTS);
    assert!(!batch.local_cleanup_pending());
}

#[test]
fn replies_that_contradict_themselves_are_refused() {
    let frame = || vec![vec![InputEvent::MouseMove { dx: 1, dy: 0 }]];
    let mut batch = BrokerInjectBatchState::default();
    assert_eq!(
        batch.begin_delivery_epoch(""),
        Err(InjectReplyError::MissingDeliveryEpoch)
    );
    assert_eq!(
        batch.accept_reply(0, true, Vec::new(), 0),
        Err(InjectReplyError::CancelWithoutBatchId)
    );
    assert_eq!(
        batch.accept_reply(3, true, frame(), 0),
        Err(InjectReplyError::CancelWithFrames { batch_id: 3 })
    );
    assert_eq!(
        batch.accept_reply(3, true, Vec::new(), 1),
        Err(InjectReplyError::CancelWithAuthorization { batch_id: 3 })
    );
    assert_eq!(
        batch.accept_authorized_batch(0, frame(), 1),
        Err(InjectReplyError::PayloadWithoutBatchId)
    );
    assert_eq!(
        batch.accept_authorized_batch(3, frame(), 0),
        Err(InjectReplyError::MissingAuthorization { batch_id: 3 })
    );
    assert_eq!(
        batch.accept_authorized_batch(3, Vec::new(), 1),
        Err(InjectReplyError::NoFrames { batch_id: 3 })
    );
    let many: Vec<Vec<InputEvent>> = (0..INPUT_BROKER_INJECT_BATCH_CAP + 1)
        .map(|_| Vec::new())
        .collect();
    assert_eq!(
        batch.accept_authorized_batch(3, many, 1),
        Err(InjectReplyError::TooManyFrames {
            batch_id: 3,
            count: INPUT_BROKER_INJECT_BATCH_CAP + 1
        })
    );
    batch.accept_authorized_batch(3, frame(), 1).expect("staged");
    assert_eq!(
        batch.accept_authorized_batch(4, frame(), 1),
        Err(InjectReplyError::Advanced { batch_id: 4, active: 3 })
    );
    assert_eq!(
        batch.accept_authorized_batch(3, frame(), 1),
        Err(InjectReplyError::ReplayedActive { batch_id: 3 })
    );
    assert_eq!(
        batch.accept_authorized_batch(3, Vec::new(), 2),
        Err(InjectReplyError::AuthorizationChanged { batch_id: 3 })
    );
    assert_eq!(
        batch.accept_reply(4, true, Vec::new(), 0),
        Err(InjectReplyError::CancelledOther { batch_id: 4, active: 3 })
    );
    assert_eq!(
        batch.observe_held_authorization_reply(0, true),
        Err(InjectReplyError::HeldInputNotRequested)
    );
    assert_eq!(
        InjectReplyError::MissingDeliveryEpoch.message(),
        "input broker attach omitted the daemon delivery epoch"
    );
}

#[test]
fn a_new_epoch_keeps_what_is_still_to_be_released() {
    let mut batch = BrokerInjectBatchState::default();
    batch.begin_delivery_epoch("one").expect("epoch");
    let mut injected = InjectedInputState::new(false);
    injected.observe(&[InputEvent::MouseButton {
        button: MouseButton::Right,
        state: KeyState::Down,
    }]);
    batch.stage_local_cleanup(&mut injected, FREE_LANE);
    batch.begin_delivery_epoch("two").expect("epoch");
    assert!(batch.local_cleanup_pending());
    assert_eq!(
        batch.pending_local_releases,
        vec![InputEvent::MouseButton { button: MouseButton::Right, state: KeyState::Up }]
    );
}
