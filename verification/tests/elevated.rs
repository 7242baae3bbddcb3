use boundless_tray::elevated::{
    delivery_worth_asking, finish_apply, finish_disable, DisableReply,
    activate_if_ready, activation_worth_asking, classify_injector_launch_error,
    elevated_input_controller_worker, finish_delivery, finish_heartbeat, finish_launch,
    mark_direct_recovery_required_after_helper_exit, stop_elevated_input_client,
    ElevatedInputActivationResult, ElevatedInputApplyResult, ElevatedInputControllerStatus,
    HelperOutcome, HelperReport, InputInjectorReason, InputInjectorSignatureTrust,
    InputInjectorState, LaunchReply, StopReply, WorkerAction, WorkerCommand,
};

fn report() -> HelperReport {
    HelperReport {
        reason: InputInjectorReason::Unspecified,
        signature_trust: InputInjectorSignatureTrust::Trusted,
        helper_version: "1.2".to_string(),
    }
}

#[test]
fn controller_starts_off_without_requesting_elevation() {
    let status = ElevatedInputControllerStatus::default();
    assert_eq!(status.state, InputInjectorState::Off);
    assert!(status.direct_fallback_safe);
}

#[test]
fn launch_errors_map_to_bounded_reasons() {
    let cases = [
        ("Windows permission prompt was canceled", InputInjectorReason::UserCancelled),
        ("another elevated input injector already exists", InputInjectorReason::Duplicate),
        ("elevated input injector rejected attachment: DUPLICATE", InputInjectorReason::Duplicate),
        ("installed elevated input injector was not found", InputInjectorReason::NotInstalled),
        ("invalid Authenticode state", InputInjectorReason::SignatureInvalid),
        ("elevated input injector reported invalid signature trust", InputInjectorReason::SignatureInvalid),
        ("administrator-app control requires the interactive session", InputInjectorReason::IdentityRejected),
        ("status: PermissionDenied, message: injector client process validation failed", InputInjectorReason::IdentityRejected),
        ("injector launch handshake rejected", InputInjectorReason::IdentityRejected),
        ("protocol revision mismatch", InputInjectorReason::ProtocolMismatch),
    ];
    for (message, expected) in cases {
        assert_eq!(classify_injector_launch_error(message), expected);
    }
    assert_eq!(
        classify_injector_launch_error("opaque transport error"),
        InputInjectorReason::IpcUnavailable
    );
}

#[test]
fn confirmed_helper_exit_requires_broker_cleanup_before_direct_fallback() {
    let mut status = ElevatedInputControllerStatus {
        state: InputInjectorState::Unavailable,
        reason: InputInjectorReason::DeliveryUncertain,
        direct_fallback_safe: false,
        ..ElevatedInputControllerStatus::default()
    };
    mark_direct_recovery_required_after_helper_exit(&mut status, true);
    let pending = status.clone();
    assert_eq!(pending.state, InputInjectorState::Unavailable);
    assert_eq!(pending.reason, InputInjectorReason::ParentExited);
    assert!(!pending.direct_fallback_safe);
    assert!(pending.direct_recovery_cleanup_required);

    status.complete_direct_recovery_cleanup();
    let recovered = status;
    assert_eq!(recovered.state, InputInjectorState::Off);
    assert_eq!(recovered.reason, InputInjectorReason::ParentExited);
    assert!(recovered.direct_fallback_safe);
    assert!(!recovered.direct_recovery_cleanup_required);
}

#[test]
fn launch_errors_name_a_wrong_path_last() {
    assert_eq!(
        classify_injector_launch_error("unexpected path"),
        InputInjectorReason::WrongPath
    );
}

#[test]
fn the_helper_is_asked_for_once() {
    let mut status = ElevatedInputControllerStatus::default();
    assert!(status.request_enable());
    assert_eq!(status.state, InputInjectorState::Prompting);
    assert!(!status.request_enable());
    assert!(finish_launch(&mut status, LaunchReply::Connected(report())));
    assert_eq!(status.state, InputInjectorState::ReadyPendingIdle);
    assert_eq!(
        status.telemetry_fields(),
        (
            InputInjectorState::ReadyPendingIdle,
            InputInjectorReason::Unspecified,
            InputInjectorSignatureTrust::Trusted,
        )
    );
    assert!(activation_worth_asking(&status));
    assert_eq!(
        elevated_input_controller_worker(&mut status, true, WorkerCommand::Activate),
        WorkerAction::AnswerActivation(true)
    );
    assert_eq!(status.state, InputInjectorState::Active);
    assert!(!status.direct_fallback_safe);
    assert!(!status.request_enable());
}

#[test]
fn a_cancelled_prompt_leaves_the_helper_off() {
    let mut status = ElevatedInputControllerStatus::default();
    assert!(status.request_enable());
    let reply = LaunchReply::LaunchFailed("permission prompt was canceled".to_string());
    assert!(!finish_launch(&mut status, reply));
    assert_eq!(status.state, InputInjectorState::Off);
    assert_eq!(status.reason, InputInjectorReason::UserCancelled);
    assert!(status.request_enable());
    let reply = LaunchReply::ConnectFailed {
        message: "protocol".to_string(),
        launch_trust: InputInjectorSignatureTrust::UnsignedDogfood,
    };
    assert!(!finish_launch(&mut status, reply));
    assert_eq!(status.state, InputInjectorState::Unavailable);
    assert_eq!(status.signature_trust, InputInjectorSignatureTrust::UnsignedDogfood);
}

#[test]
fn a_stop_that_is_not_confirmed_blocks_the_ordinary_lane() {
    let mut status = ElevatedInputControllerStatus::default();
    status.state = InputInjectorState::Active;
    status.direct_fallback_safe = false;
    assert!(!stop_elevated_input_client(
        &mut status,
        StopReply::Failed { helper_lane_absent: false }
    ));
    assert_eq!(status.reason, InputInjectorReason::ShutdownIncomplete);
    assert!(status.direct_recovery_cleanup_required);
    assert!(!status.request_enable());
    assert!(!stop_elevated_input_client(
        &mut status,
        StopReply::NoClient { helper_lane_absent: false }
    ));
    assert!(stop_elevated_input_client(
        &mut status,
        StopReply::NoClient { helper_lane_absent: true }
    ));
    assert!(!status.direct_fallback_safe, "what the helper held is still to be released");
    status.complete_direct_recovery_cleanup();
    assert!(status.direct_fallback_safe);
}

#[test]
fn a_confirmed_stop_frees_the_ordinary_lane() {
    let mut status = ElevatedInputControllerStatus::default();
    assert!(!status.begin_disable(), "off already");
    status.state = InputInjectorState::Active;
    status.direct_fallback_safe = false;
    assert!(status.begin_disable());
    assert_eq!(status.state, InputInjectorState::Stopping);
    assert!(stop_elevated_input_client(&mut status, StopReply::Released(report())));
    assert_eq!(status.state, InputInjectorState::Off);
    assert!(status.direct_fallback_safe);
}

#[test]
fn a_delivery_without_an_answer_is_uncertain() {
    let mut status = ElevatedInputControllerStatus::default();
    let answer = HelperOutcome {
        committed_event_count: 2,
        remaining_events: Vec::new(),
        reason: InputInjectorReason::Unspecified,
        destination_num_lock_on: true,
    };
    assert!(matches!(
        finish_delivery(&mut status, Some(answer)),
        ElevatedInputApplyResult::Applied { committed_event_count: 2, .. }
    ));
    assert!(matches!(
        finish_delivery(&mut status, None),
        ElevatedInputApplyResult::Uncertain
    ));
    assert_eq!(status.reason, InputInjectorReason::DeliveryUncertain);
    assert!(!status.direct_fallback_safe);
    let mut waiting = ElevatedInputControllerStatus::default();
    assert_eq!(
        activate_if_ready(&mut waiting, None),
        ElevatedInputActivationResult::Uncertain
    );
    assert!(!waiting.direct_fallback_safe);
    assert_eq!(
        activate_if_ready(&mut waiting, Some(false)),
        ElevatedInputActivationResult::NotReady
    );
    assert!(finish_heartbeat(&mut waiting, false));
    assert_eq!(waiting.reason, InputInjectorReason::IpcUnavailable);
    assert!(!finish_heartbeat(&mut waiting, true));
}

#[test]
fn a_worker_that_does_not_answer_leaves_the_lane_unsafe() {
    let mut status = ElevatedInputControllerStatus {
        state: InputInjectorState::Active,
        ..ElevatedInputControllerStatus::default()
    };
    assert!(delivery_worth_asking(&status));
    let answer = finish_apply(&mut status, Some(ElevatedInputApplyResult::NotActive));
    assert!(matches!(answer, ElevatedInputApplyResult::NotActive));
    assert!(status.direct_fallback_safe);
    let answer = finish_apply(&mut status, None);
    assert!(matches!(answer, ElevatedInputApplyResult::Uncertain));
    assert!(!status.direct_fallback_safe);
    assert!(!delivery_worth_asking(&status));
}

#[test]
fn a_stop_counts_once_it_is_answered_or_not_awaited() {
    let mut status = ElevatedInputControllerStatus::default();
    assert!(finish_disable(&mut status, DisableReply::NotAwaited));
    assert!(finish_disable(&mut status, DisableReply::Awaited(Some(true))));
    assert!(!finish_disable(&mut status, DisableReply::Awaited(Some(false))));
    assert!(!finish_disable(&mut status, DisableReply::Awaited(None)));
    assert_eq!(status.state, InputInjectorState::Off);
    assert!(!finish_disable(&mut status, DisableReply::NotSent));
    assert_eq!(status.reason, InputInjectorReason::ShutdownIncomplete);
}
