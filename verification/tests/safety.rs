use boundless_tray::input::{InputEvent, KeySemantics, KeyState};
use boundless_tray::safety::{
    BrokerCaptureForwardingGate, HookControlAction, SafetyUnlockReconciler,
};

#[test]
fn safety_unlock_suppresses_stale_relock_until_daemon_reconciles() {
    let mut state = SafetyUnlockReconciler::default();
    state.observe(vec![HookControlAction::EscapeUnlock]);

    assert_eq!(state.report_counts(), (1, 0, 0));
    assert!(!state.should_forward_captured_events());
    state.mark_report_delivered();
    assert_eq!(state.report_counts(), (0, 0, 0));
    assert!(
        !state.lock_should_be_active(true, true),
        "the reply racing the escape must not re-lock local input"
    );
    assert!(!state.should_forward_captured_events());
    assert!(!state.lock_should_be_active(false, false));
    assert!(state.should_forward_captured_events());
    assert!(state.lock_should_be_active(true, true));
}

#[test]
fn safety_unlocks_during_exchange_remain_pending_for_next_report() {
    let mut state = SafetyUnlockReconciler::default();
    state.observe(vec![HookControlAction::EscapeUnlock]);
    let submitted = state.report_counts();
    assert_eq!(submitted, (1, 0, 0));
    state.mark_report_delivered();

    state.observe(vec![HookControlAction::LeaseExpiredUnlock]);
    assert_eq!(state.report_counts(), (0, 1, 0));
    assert!(!state.lock_should_be_active(true, true));
}

#[test]
fn failed_exchange_preserves_safety_unlock_for_reattached_session() {
    // This value models the supervisor-owned reconciler shared by two
    // successive broker sessions. The first session submits an escape but
    // loses the RPC response before it can mark the report delivered.
    let mut supervisor_state = SafetyUnlockReconciler::default();
    {
        let first_session = &mut supervisor_state;
        first_session.observe(vec![HookControlAction::EscapeUnlock]);
        assert_eq!(first_session.report_counts(), (1, 0, 0));
        assert!(!first_session.lock_should_be_active(true, true));
    }

    // Reattachment must retry the exact pending cause and remain unlocked
    // through both the stale lock reply and the later daemon release.
    {
        let reattached_session = &mut supervisor_state;
        assert_eq!(reattached_session.report_counts(), (1, 0, 0));
        assert!(!reattached_session.should_forward_captured_events());
        assert!(!reattached_session.lock_should_be_active(true, true));
        reattached_session.mark_report_delivered();
        assert!(!reattached_session.lock_should_be_active(false, false));
        assert!(reattached_session.should_forward_captured_events());
    }
}

#[test]
fn session_teardown_actions_join_unacknowledged_safety_report() {
    let mut supervisor_state = SafetyUnlockReconciler::default();
    supervisor_state.observe(vec![HookControlAction::EscapeUnlock]);
    let submitted_before_rpc_failure = supervisor_state.report_counts();
    assert_eq!(submitted_before_rpc_failure, (1, 0, 0));

    // The lease can expire while the failed exchange future is unwinding.
    // Teardown drains that final pump action into the same durable state.
    supervisor_state.observe(vec![HookControlAction::LeaseExpiredUnlock]);
    assert_eq!(supervisor_state.report_counts(), (1, 1, 0));
    assert!(!supervisor_state.lock_should_be_active(true, true));
}

#[test]
fn refused_local_lock_becomes_a_safety_unlock_reconciliation() {
    let mut state = SafetyUnlockReconciler::default();
    state.observe_lock_update(true, false, Vec::new());

    assert_eq!(state.report_counts(), (0, 0, 1));
    assert!(!state.should_forward_captured_events());
    assert!(
        !state.lock_should_be_active(true, true),
        "the stale daemon reply must not keep capture active after local refusal"
    );
    state.mark_report_delivered();
    assert!(!state.lock_should_be_active(false, false));
    assert!(state.should_forward_captured_events());
}

#[test]
fn safety_unlock_reports_preserve_each_platform_cause() {
    let mut state = SafetyUnlockReconciler::default();
    state.observe(vec![
        HookControlAction::EscapeUnlock,
        HookControlAction::LeaseExpiredUnlock,
        HookControlAction::DetectorUnavailableUnlock,
    ]);

    assert_eq!(state.report_counts(), (1, 1, 1));
}

#[test]
fn captured_events_wait_for_lock_and_daemon_authorization() {
    let mut gate = BrokerCaptureForwardingGate::default();
    let local_batch = gate.prepare_batch(
        vec![
            InputEvent::MouseMove { dx: 7, dy: -2 },
            InputEvent::Key {
                scan_code: 30,
                state: KeyState::Down,
                semantics: KeySemantics::Physical,
            },
        ],
        false,
        true,
    );
    assert!(local_batch.captured_events.is_empty());
    assert_eq!(local_batch.handoff_probe, Some((7, -2)));

    let awaiting_ack = gate.prepare_batch(
        vec![InputEvent::Key {
            scan_code: 31,
            state: KeyState::Down,
            semantics: KeySemantics::Physical,
        }],
        true,
        true,
    );
    assert!(awaiting_ack.captured_events.is_empty());
    gate.observe_daemon_authorization(true, true, true);

    let authorized = gate.prepare_batch(
        vec![InputEvent::Key {
            scan_code: 31,
            state: KeyState::Up,
            semantics: KeySemantics::Physical,
        }],
        true,
        true,
    );
    assert_eq!(
        authorized.captured_events,
        vec![
            InputEvent::Key {
                scan_code: 31,
                state: KeyState::Down,
                semantics: KeySemantics::Physical,
            },
            InputEvent::Key {
                scan_code: 31,
                state: KeyState::Up,
                semantics: KeySemantics::Physical,
            },
        ]
    );
}

#[test]
fn lock_refusal_discards_staged_pre_ack_events() {
    let mut gate = BrokerCaptureForwardingGate::default();
    let awaiting_ack = gate.prepare_batch(
        vec![InputEvent::Key {
            scan_code: 30,
            state: KeyState::Down,
            semantics: KeySemantics::Physical,
        }],
        true,
        true,
    );
    assert!(awaiting_ack.captured_events.is_empty());

    gate.observe_daemon_authorization(false, false, false);
    gate.observe_daemon_authorization(true, true, true);
    let after_recovery = gate.prepare_batch(Vec::new(), true, true);

    assert!(
        after_recovery.captured_events.is_empty(),
        "a refused generation must never leak its staged batch after later recovery"
    );
}

#[test]
fn counts_stop_at_their_limit() {
    let mut state = SafetyUnlockReconciler::default();
    state.pending_escape_count = u32::MAX;
    state.observe(vec![HookControlAction::EscapeUnlock]);
    assert_eq!(state.report_counts(), (u32::MAX, 0, 0));
}
