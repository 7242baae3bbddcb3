use boundless_tray::clipboard::{
    clipboard_broker_delay_ms, clipboard_broker_exchange_once,
    reconcile_local_payload_disposition, remote_apply_report, should_defer_remote_payload, validate_payload,
    ClipboardBrokerApplyReport, ClipboardBrokerExchangeReply,
    ClipboardBrokerLocalPayloadDisposition, ClipboardBrokerState, ClipboardPayload,
    ClipboardPolicy, ClipboardPolicyError, ClipboardPollOutcome, ClipboardPollStep,
    RemotePayloadAction,
};

const POLICY: ClipboardPolicy = ClipboardPolicy {
    max_text_bytes: 1024 * 1024,
    max_image_bytes: 4 * 1024 * 1024,
};

#[test]
fn clipboard_payload_survives_transient_read_and_rpc_failures() {
    let mut state = ClipboardBrokerState::default();
    assert!(state.should_read_sequence(41));

    let error = state
        .stage_local_read_result(POLICY, 41, Err("clipboard busy".to_string()))
        .expect_err("transient read failure must surface");
    assert!(error.contains("clipboard busy"));
    assert!(
        state.should_read_sequence(41),
        "a failed read must leave the sequence eligible for retry"
    );

    let rejection = state
        .stage_local_read_result(POLICY, 
            41,
            Ok(Some(ClipboardPayload::Text(
                "retry me".to_string(),
            ))),
        )
        .expect("successful retry");
    assert!(
        rejection.is_none(),
        "policy-valid payload must not be rejected"
    );
    assert_eq!(
        state.local_payload_for_request(),
        Some(ClipboardPayload::Text(
            "retry me".to_string()
        ))
    );
    assert_eq!(
        state.local_payload_for_request(),
        Some(ClipboardPayload::Text(
            "retry me".to_string()
        )),
        "a transport failure must leave the same payload pending"
    );
    assert_eq!(state.local_sequence_for_request(), Some(41));

    state.mark_local_payload_consumed();
    assert!(state.local_payload_for_request().is_none());
    assert!(state.local_sequence_for_request().is_none());
    assert!(
        !state.should_read_sequence(41),
        "only an accepted app reply consumes a staged payload sequence"
    );
}

#[test]
fn oversized_clipboard_payload_is_consumed_without_staging_rpc_retry() {
    let mut state = ClipboardBrokerState::default();
    let policy = POLICY;
    let rejection = state
        .stage_local_read_result(POLICY, 
            52,
            Ok(Some(ClipboardPayload::Image(vec![
                0;
                policy.max_image_bytes + 1
            ]))),
        )
        .expect("deterministic local validation")
        .expect("oversize payload must be rejected");

    assert!(matches!(
        rejection,
        ClipboardPolicyError::ImageTooLarge { .. }
    ));
    assert!(state.local_payload_for_request().is_none());
    assert!(
        !state.should_read_sequence(52),
        "an unchanged oversize sequence must not retry toward tonic"
    );
    assert!(state.should_read_sequence(53));
}

#[test]
fn newer_user_copy_supersedes_pending_payload_before_remote_apply() {
    let mut state = ClipboardBrokerState::default();
    assert!(state
        .stage_local_read_result(POLICY, 
            70,
            Ok(Some(ClipboardPayload::Text(
                "old pending".to_string(),
            ))),
        )
        .expect("stage old payload")
        .is_none());

    assert!(
        state.should_read_sequence(71),
        "a pending retry must not hide a newer clipboard sequence"
    );
    state
        .stage_local_read_result(POLICY, 71, Err("clipboard temporarily busy".to_string()))
        .expect_err("newer sequence read should remain pending");
    assert!(state.local_payload_for_request().is_none());
    assert!(state.local_sequence_for_request().is_none());
    assert!(should_defer_remote_payload(
        &ClipboardPollOutcome {
            suppress_remote_apply: true,
            error: None,
        },
        false,
        ClipboardBrokerLocalPayloadDisposition::NotSubmitted,
    ));
    assert!(
        state.should_read_sequence(71),
        "the unread newer sequence must be retried"
    );
    assert!(state
        .stage_local_read_result(POLICY, 
            71,
            Ok(Some(ClipboardPayload::Text(
                "new user copy".to_string(),
            ))),
        )
        .expect("stage newer payload")
        .is_none());
    assert_eq!(
        state.local_payload_for_request(),
        Some(ClipboardPayload::Text(
            "new user copy".to_string()
        )),
        "the request must carry the newest user copy, never the stale retry"
    );
    assert_eq!(state.local_sequence_for_request(), Some(71));
}

#[test]
fn transient_app_rejection_retries_but_deterministic_rejection_consumes() {
    let mut state = ClipboardBrokerState::default();
    assert!(state
        .stage_local_read_result(POLICY, 
            81,
            Ok(Some(ClipboardPayload::Text(
                "pending".to_string(),
            ))),
        )
        .expect("stage payload")
        .is_none());

    let transient = reconcile_local_payload_disposition(
        &mut state,
        true,
        ClipboardBrokerLocalPayloadDisposition::TransientRejected,
        &"temporary queue failure".to_string(),
    );
    assert!(transient.is_some());
    assert_eq!(
        state.local_payload_for_request(),
        Some(ClipboardPayload::Text("pending".to_string()))
    );

    let deterministic = reconcile_local_payload_disposition(
        &mut state,
        true,
        ClipboardBrokerLocalPayloadDisposition::DeterministicRejected,
        &"invalid payload".to_string(),
    );
    assert!(deterministic.is_none());
    assert!(state.local_payload_for_request().is_none());
    assert!(!state.should_read_sequence(81));
}

#[test]
fn clipboard_apply_report_is_retained_until_exchange_is_accepted() {
    let mut state = ClipboardBrokerState::default();
    state.stage_apply_report(ClipboardBrokerApplyReport {
        source_peer_id: "peer-a".to_string(),
        hash: "hash-a".to_string(),
        applied: true,
        message: String::new(),
    });

    assert_eq!(
        state
            .apply_report_for_request()
            .expect("first attempt")
            .hash,
        "hash-a"
    );
    assert_eq!(
        state
            .apply_report_for_request()
            .expect("retry after transport error")
            .hash,
        "hash-a"
    );
    state.mark_apply_report_accepted();
    assert!(state.apply_report_for_request().is_none());
}

#[test]
fn a_remote_copy_waits_for_a_local_one_that_was_not_taken() {
    let idle = ClipboardPollOutcome { suppress_remote_apply: false, error: None };
    assert!(should_defer_remote_payload(
        &idle,
        true,
        ClipboardBrokerLocalPayloadDisposition::TransientRejected,
    ));
    assert!(!should_defer_remote_payload(
        &idle,
        true,
        ClipboardBrokerLocalPayloadDisposition::DeterministicRejected,
    ));
    assert!(!should_defer_remote_payload(
        &idle,
        false,
        ClipboardBrokerLocalPayloadDisposition::NotSubmitted,
    ));
}

fn quiet_reply() -> ClipboardBrokerExchangeReply {
    ClipboardBrokerExchangeReply {
        accepted: true,
        message: String::new(),
        local_payload_disposition: ClipboardBrokerLocalPayloadDisposition::NotSubmitted,
        remote_payload_present: false,
    }
}

const SETTLED: ClipboardPollOutcome = ClipboardPollOutcome {
    suppress_remote_apply: false,
    error: None,
};

#[test]
fn the_clipboard_is_read_once_for_each_sequence() {
    let mut state = ClipboardBrokerState::default();
    assert!(matches!(
        state.poll_sequence(Ok(5)),
        ClipboardPollStep::Read(5)
    ));
    let text = ClipboardPayload::Text("copied".to_string());
    let (outcome, refused) =
        state.stage_clipboard_payload_if_changed(POLICY, 5, Ok(Some(text)));
    assert!(outcome.suppress_remote_apply);
    assert!(outcome.error.is_none() && refused.is_none());
    match state.poll_sequence(Ok(5)) {
        ClipboardPollStep::Done(outcome) => {
            assert!(!outcome.suppress_remote_apply && outcome.error.is_none());
        }
        other => panic!("unexpected step {other:?}"),
    }
    match state.poll_sequence(Err("no sequence".to_string())) {
        ClipboardPollStep::Done(outcome) => {
            assert!(outcome.suppress_remote_apply);
            assert_eq!(outcome.error.as_deref(), Some("no sequence"));
        }
        other => panic!("unexpected step {other:?}"),
    }
    let (outcome, refused) =
        state.stage_clipboard_payload_if_changed(POLICY, 6, Err("busy".to_string()));
    assert_eq!(outcome.error.as_deref(), Some("busy"));
    assert!(refused.is_none());
    assert_eq!(state.local_payload_for_request(), None);
}

#[test]
fn limits_of_the_policy_are_inclusive() {
    let policy = ClipboardPolicy {
        max_text_bytes: 4,
        max_image_bytes: 2,
    };
    let fits = ClipboardPayload::Text("a\u{e9}b".to_string());
    assert_eq!(validate_payload(policy, &fits), None);
    let long = ClipboardPayload::Text("ab\u{e9}b".to_string());
    assert_eq!(
        validate_payload(policy, &long),
        Some(ClipboardPolicyError::TextTooLarge {
            bytes: 5,
            max_bytes: 4
        })
    );
    assert_eq!(
        validate_payload(policy, &ClipboardPayload::Image(vec![1, 2])),
        None
    );
    assert_eq!(
        validate_payload(policy, &ClipboardPayload::Image(vec![1, 2, 3])),
        Some(ClipboardPolicyError::ImageTooLarge {
            bytes: 3,
            max_bytes: 2
        })
    );
}

#[test]
fn an_exchange_applies_a_remote_copy_only_where_nothing_local_waits() {
    let mut state = ClipboardBrokerState::default();
    let remote = ClipboardBrokerExchangeReply {
        remote_payload_present: true,
        ..quiet_reply()
    };
    let (action, error) =
        clipboard_broker_exchange_once(&mut state, SETTLED, false, remote).expect("accepted");
    assert_eq!(action, RemotePayloadAction::Apply);
    assert!(error.is_none());

    let text = ClipboardPayload::Text("newer".to_string());
    let (poll, _) = state.stage_clipboard_payload_if_changed(POLICY, 9, Ok(Some(text)));
    let remote = ClipboardBrokerExchangeReply {
        remote_payload_present: true,
        local_payload_disposition: ClipboardBrokerLocalPayloadDisposition::Accepted,
        ..quiet_reply()
    };
    let (action, error) =
        clipboard_broker_exchange_once(&mut state, poll, true, remote).expect("accepted");
    assert_eq!(action, RemotePayloadAction::Defer);
    assert!(error.is_none());
    assert_eq!(state.local_payload_for_request(), None);

    let unresolved = quiet_reply();
    let (action, error) =
        clipboard_broker_exchange_once(&mut state, SETTLED, true, unresolved).expect("accepted");
    assert_eq!(action, RemotePayloadAction::Absent);
    assert_eq!(
        error.expect("unresolved").message(),
        "daemon did not resolve submitted local clipboard payload: "
    );

    let refused = ClipboardBrokerExchangeReply {
        accepted: false,
        message: "no broker".to_string(),
        ..quiet_reply()
    };
    let error = clipboard_broker_exchange_once(&mut state, SETTLED, false, refused)
        .expect_err("refused");
    assert_eq!(
        error.message(),
        "clipboard broker exchange rejected: no broker"
    );

    let unread = ClipboardPollOutcome {
        suppress_remote_apply: true,
        error: Some("busy".to_string()),
    };
    let (_, error) =
        clipboard_broker_exchange_once(&mut state, unread, false, quiet_reply()).expect("accepted");
    assert_eq!(
        error.expect("deferred").message(),
        "local clipboard read deferred: busy"
    );
    assert_eq!(clipboard_broker_delay_ms(false), 200);
    assert_eq!(clipboard_broker_delay_ms(true), 3000);
}

#[test]
fn a_written_remote_copy_is_reported_with_its_outcome() {
    let report = |written: Result<(), String>| {
        remote_apply_report("peer-1".to_string(), "hash-1".to_string(), written)
    };
    let written = report(Ok(()));
    assert_eq!((written.source_peer_id.as_str(), written.hash.as_str()), ("peer-1", "hash-1"));
    assert!(written.applied && written.message.is_empty());
    let refused = report(Err("clipboard is locked".to_string()));
    assert_eq!((refused.source_peer_id.as_str(), refused.hash.as_str()), ("peer-1", "hash-1"));
    assert!(!refused.applied);
    assert_eq!(refused.message, "clipboard is locked");
}
