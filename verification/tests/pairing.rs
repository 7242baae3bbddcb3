use boundless_tray::dashboard::{AppMsg, DashboardModel, Tab};
use boundless_tray::pairing::{
    entered_alias, extract_attempts_remaining, extract_pairing_error_remote_port,
    filter_connectable_discovered_peers, format_error_for_dialog, guided_flow_from_discovered_peer,
    guided_flow_from_manual_input, host_and_pairing_port_from_endpoint, manual_address_ready,
    pair_nearby_request_code, pair_nearby_submit_code, parse_pairing_port, resolve_discovered_peer,
    should_offer_new_request_retry, validate_pairing_code, GuidedPairingFlow, GuidedPairingResult,
    NearbyCodeReply, NearbyRequestCodeStart, NearbySubmitReply, PairingChallengeState,
    PairingInputError, PairingSubmitResult, PeerSelectError,
};
use boundless_tray::session::{
    request_pairing_code_message, submit_pairing_code_message, PairingDialog, PairingMsg,
    RoleReversalOffer,
};
use boundless_tray::ui::{UiDiscoveredPeer, UiPairedPeer};

fn test_app() -> DashboardModel {
    DashboardModel::new(None, 0)
}

fn sample_discovered_peer() -> UiDiscoveredPeer {
    UiDiscoveredPeer {
        machine_id: "peer-machine-1234".to_string(),
        display_name: "Office Desktop".to_string(),
        endpoint: "10.0.0.25:15100".to_string(),
        endpoint_candidates: vec!["10.0.0.25:15100".to_string()],
    }
}

fn sample_guided_flow() -> GuidedPairingFlow {
    GuidedPairingFlow {
        dialog_title: "Pair with Office Desktop".to_string(),
        host: "10.0.0.25".to_string(),
        pairing_port: 15200,
        default_alias: "Office Desktop".to_string(),
        orientation_selector_fallback: "Office Desktop".to_string(),
        endpoint_candidates: vec!["10.0.0.25:15100".to_string()],
    }
}

fn sample_pairing_challenge() -> PairingChallengeState {
    PairingChallengeState {
        request_id: "request-1234".to_string(),
        verification_nonce: "nonce-1234".to_string(),
        expires_at: "2026-02-27T12:00:00Z".to_string(),
    }
}

fn sample_pairing_result() -> GuidedPairingResult {
    GuidedPairingResult {
        peer_machine_id: "peer-machine-1234".to_string(),
        orientation_selector: "Office Desktop".to_string(),
    }
}

fn challenge_msg(attempt_id: u64, challenge: PairingChallengeState) -> AppMsg {
    AppMsg::Pairing { attempt_id, msg: PairingMsg::Challenge(challenge) }
}

fn complete_msg(attempt_id: u64, result: GuidedPairingResult) -> AppMsg {
    AppMsg::Pairing { attempt_id, msg: PairingMsg::Complete(result) }
}

fn failed_msg(attempt_id: u64, error: &str) -> AppMsg {
    AppMsg::Pairing {
        attempt_id,
        msg: PairingMsg::Failed { error: error.to_string(), role_reversal: None },
    }
}

fn app_with_active_pairing_flow() -> DashboardModel {
    let mut app = test_app();
    app.pairing.begin_pairing_flow(sample_guided_flow());
    app
}

fn app_with_code_entry_flow() -> DashboardModel {
    let mut app = app_with_active_pairing_flow();
    let attempt_id = app
        .pairing
        .active_attempt_id
        .expect("begin_pairing_flow should create an attempt id");
    app.apply_app_msg(challenge_msg(attempt_id, sample_pairing_challenge()), 0);
    app
}

fn assert_flow_matches(app: &DashboardModel, expected: &GuidedPairingFlow) {
    let flow = app
        .pairing
        .flow
        .as_ref()
        .expect("expected pairing flow to remain active");
    assert_eq!(flow.dialog_title, expected.dialog_title);
    assert_eq!(flow.host, expected.host);
    assert_eq!(flow.pairing_port, expected.pairing_port);
    assert_eq!(flow.default_alias, expected.default_alias);
    assert_eq!(
        flow.orientation_selector_fallback,
        expected.orientation_selector_fallback
    );
}

fn assert_challenge_matches(app: &DashboardModel, expected: &PairingChallengeState) {
    let challenge = app
        .pairing
        .challenge
        .as_ref()
        .expect("expected pairing challenge to be present");
    assert_eq!(challenge.request_id, expected.request_id);
    assert_eq!(challenge.verification_nonce, expected.verification_nonce);
    assert_eq!(challenge.expires_at, expected.expires_at);
}

#[test]
fn guided_flow_from_discovered_peer_builds_the_correct_guided_pairing_flow() {
    let peer = sample_discovered_peer();

    let flow = guided_flow_from_discovered_peer(&peer).expect("discovered peer should parse");

    assert_eq!(flow.dialog_title, "Pair with Office Desktop");
    assert_eq!(flow.host, "10.0.0.25");
    assert_eq!(flow.pairing_port, 15200);
    assert_eq!(flow.default_alias, "Office Desktop");
    assert_eq!(flow.orientation_selector_fallback, "Office Desktop");
}

#[test]
fn guided_flow_from_manual_input_accepts_a_valid_host_and_port() {
    let flow = guided_flow_from_manual_input("desk.local", "15200")
        .expect("manual input should accept a valid host and port");

    assert_eq!(flow.dialog_title, "Manual Pair desk.local");
    assert_eq!(flow.host, "desk.local");
    assert_eq!(flow.pairing_port, 15200);
    assert!(
        flow.default_alias.is_empty(),
        "manual pairing should not prefill an alias"
    );
    assert_eq!(flow.orientation_selector_fallback, "desk.local");
}

#[test]
fn guided_flow_from_manual_input_rejects_invalid_ports() {
    let zero_port =
        guided_flow_from_manual_input("desk.local", "0").expect_err("port zero must be rejected");
    assert!(
        zero_port.message().contains("1..=65535"),
        "zero port error should explain the valid range"
    );

    let non_numeric = guided_flow_from_manual_input("desk.local", "not-a-number")
        .expect_err("non-numeric input must be rejected");
    assert!(
        non_numeric.message().contains("number"),
        "non-numeric port error should explain the parsing failure"
    );
}

#[test]
fn begin_pairing_flow_sets_pairing_request_state() {
    let mut app = test_app();
    let flow = sample_guided_flow();

    app.pairing.challenge = Some(sample_pairing_challenge());
    app.pairing.code = "123456".to_string();
    app.pairing.alias = "Old Alias".to_string();
    app.pairing.retry_available = true;
    app.pairing.banner = Some("previous failure".to_string());

    app.pairing.begin_pairing_flow(flow.clone());

    let active_flow = app
        .pairing
        .flow
        .as_ref()
        .expect("begin_pairing_flow should store the active flow");
    assert!(app.pairing.in_progress);
    assert_eq!(active_flow.dialog_title, flow.dialog_title);
    assert_eq!(active_flow.host, flow.host);
    assert_eq!(active_flow.pairing_port, flow.pairing_port);
    assert_eq!(active_flow.default_alias, flow.default_alias);
    assert_eq!(
        active_flow.orientation_selector_fallback,
        flow.orientation_selector_fallback
    );
    assert!(app.pairing.challenge.is_none());
    assert!(app.pairing.code.is_empty());
    assert_eq!(app.pairing.alias, "Office Desktop");
    assert!(!app.pairing.retry_available);
    assert!(app.pairing.banner.is_none());
}

#[test]
fn cancel_pairing_flow_after_request_stage_start_clears_pairing_state() {
    let mut app = test_app();

    app.pairing.begin_pairing_flow(sample_guided_flow());
    app.pairing.challenge = Some(sample_pairing_challenge());
    app.pairing.retry_available = true;

    app.pairing.cancel_pairing_flow();

    assert!(!app.pairing.in_progress);
    assert!(app.pairing.flow.is_none());
    assert!(app.pairing.challenge.is_none());
    assert!(!app.pairing.retry_available);
}

#[test]
fn cancel_pairing_flow_does_not_change_selected_tab() {
    let mut app = test_app();
    app.selected_tab = Tab::Settings;
    app.pairing.begin_pairing_flow(sample_guided_flow());

    app.pairing.cancel_pairing_flow();

    assert!(app.selected_tab == Tab::Settings);
}

#[test]
fn cancel_pairing_flow_does_not_emit_success_state() {
    let mut app = test_app();

    app.pairing.begin_pairing_flow(sample_guided_flow());
    app.pairing.banner = Some("still waiting for pairing".to_string());
    app.pairing.banner_is_error = true;

    app.pairing.cancel_pairing_flow();

    assert_eq!(app.pairing.banner.as_deref(), Some("still waiting for pairing"));
    assert!(
        app.pairing.banner_is_error,
        "cancel should not synthesize a success message"
    );
}

#[test]
fn apply_pairing_challenge_clears_progress_sets_challenge_and_preserves_flow() {
    let expected_flow = sample_guided_flow();
    let challenge = sample_pairing_challenge();
    let mut app = app_with_active_pairing_flow();
    let attempt_id = app
        .pairing
        .active_attempt_id
        .expect("active flow should have an attempt id");

    app.apply_app_msg(challenge_msg(attempt_id, challenge.clone()), 0);

    assert!(
        !app.pairing.in_progress,
        "challenge should stop the in-progress spinner"
    );
    assert_challenge_matches(&app, &challenge);
    assert_flow_matches(&app, &expected_flow);
}

#[test]
fn empty_code_validation_sets_error_and_keeps_current_flow_active() {
    let expected_flow = sample_guided_flow();
    let expected_challenge = sample_pairing_challenge();
    let mut app = app_with_code_entry_flow();
    app.pairing.code = "   ".to_string();
    app.pairing.banner = None;
    app.pairing.banner_is_error = false;

    assert!(app.pairing.confirm_pairing_code().is_none());

    assert_eq!(
        app.pairing.banner.as_deref(),
        Some("pairing code cannot be empty")
    );
    assert!(
        app.pairing.banner_is_error,
        "empty code validation should mark the banner as an error"
    );
    assert!(
        !app.pairing.in_progress,
        "validation failure should not start code submission"
    );
    assert_flow_matches(&app, &expected_flow);
    assert_challenge_matches(&app, &expected_challenge);
}

#[test]
fn cancel_pairing_flow_from_code_entry_clears_challenge_and_flow() {
    let mut app = app_with_code_entry_flow();

    app.pairing.cancel_pairing_flow();

    assert!(
        app.pairing.flow.is_none(),
        "cancel should clear the active flow"
    );
    assert!(
        app.pairing.challenge.is_none(),
        "cancel should clear the pending challenge"
    );
    assert!(!app.pairing.in_progress, "cancel should leave pairing idle");
}

#[test]
fn apply_pairing_complete_clears_pairing_state_and_shows_success_banner() {
    let result = sample_pairing_result();
    let mut app = app_with_code_entry_flow();
    app.pairing.in_progress = true;
    app.pairing.retry_available = true;
    let attempt_id = app
        .pairing
        .active_attempt_id
        .expect("active flow should have an attempt id");

    app.apply_app_msg(complete_msg(attempt_id, result.clone()), 0);

    assert!(
        !app.pairing.in_progress,
        "completion should stop the in-progress state"
    );
    assert!(
        app.pairing.challenge.is_none(),
        "completion should clear the challenge dialog"
    );
    assert!(
        app.pairing.flow.is_none(),
        "completion should close the pairing flow"
    );
    assert_eq!(app.selected_tab, Tab::Layout);
    assert_eq!(
        app.pairing.banner.as_deref(),
        Some("Pairing successful with peer-mac (selector: Office Desktop)")
    );
    assert!(
        !app.pairing.banner_is_error,
        "completion should show a success banner"
    );
    assert!(
        !app.pairing.retry_available,
        "completion should clear retry affordances"
    );
}

#[test]
fn apply_pairing_failed_preserves_flow_and_formats_error_for_retry_state() {
    let flow = sample_guided_flow();
    let raw_error = "timed out waiting for nearby pairing approval request_id=request-1234";
    let expected_banner = format_error_for_dialog(raw_error);
    let mut app = app_with_code_entry_flow();
    app.pairing.in_progress = true;
    let attempt_id = app
        .pairing
        .active_attempt_id
        .expect("active flow should have an attempt id");

    app.apply_app_msg(failed_msg(attempt_id, raw_error), 0);

    assert!(
        !app.pairing.in_progress,
        "failure should stop the in-progress state"
    );
    assert_flow_matches(&app, &flow);
    assert_eq!(app.pairing.banner.as_deref(), Some(expected_banner.as_str()));
    assert!(
        app.pairing.banner_is_error,
        "failure should show an error banner"
    );
    assert_eq!(
        app.pairing.retry_available,
        should_offer_new_request_retry(raw_error)
    );
}

#[test]
fn recoverable_pairing_failure_offers_retry() {
    let raw_error = "nearby pairing endpoint closed without a response";
    let mut app = app_with_code_entry_flow();
    let attempt_id = app
        .pairing
        .active_attempt_id
        .expect("active flow should have an attempt id");

    app.apply_app_msg(failed_msg(attempt_id, raw_error), 0);

    assert!(
        app.pairing.retry_available,
        "recoverable transport failures should offer a new request retry"
    );
}

#[test]
fn pairing_lockout_failure_does_not_offer_retry() {
    let raw_error = "verification temporarily locked after repeated invalid attempts; retry later";
    let mut app = app_with_code_entry_flow();
    let attempt_id = app
        .pairing
        .active_attempt_id
        .expect("active flow should have an attempt id");

    app.apply_app_msg(failed_msg(attempt_id, raw_error), 0);

    assert!(
        !app.pairing.retry_available,
        "lockout failures should not offer immediate retry"
    );
}

#[test]
fn stale_pairing_messages_are_ignored_after_cancel() {
    let challenge = sample_pairing_challenge();
    let result = sample_pairing_result();
    let mut app = app_with_code_entry_flow();
    let canceled_attempt_id = app
        .pairing
        .active_attempt_id
        .expect("active flow should have an attempt id");
    app.pairing.banner = Some("keep existing banner".to_string());
    app.pairing.banner_is_error = false;
    app.pairing.cancel_pairing_flow();

    app.apply_app_msg(challenge_msg(canceled_attempt_id, challenge), 0);
    app.apply_app_msg(complete_msg(canceled_attempt_id, result), 0);
    app.apply_app_msg(
        failed_msg(canceled_attempt_id, "pairing request rejected by target"),
        0,
    );

    assert!(
        app.pairing.flow.is_none(),
        "late messages must not reopen a canceled flow"
    );
    assert!(
        app.pairing.challenge.is_none(),
        "late messages must not restore stale challenge state"
    );
    assert!(
        !app.pairing.in_progress,
        "late messages must not mark pairing as active"
    );
    assert_eq!(app.selected_tab, Tab::Status);
    assert_eq!(app.pairing.banner.as_deref(), Some("keep existing banner"));
    assert!(
        !app.pairing.banner_is_error,
        "ignored late messages must leave the existing banner type unchanged"
    );
    assert!(
        !app.pairing.retry_available,
        "ignored late messages must not surface retry affordances"
    );
}

#[test]
fn stale_messages_from_a_canceled_attempt_are_ignored_after_restart() {
    let stale_challenge = PairingChallengeState {
        request_id: "request-stale".to_string(),
        verification_nonce: "nonce-stale".to_string(),
        expires_at: "2026-02-27T12:05:00Z".to_string(),
    };
    let fresh_challenge = sample_pairing_challenge();
    let mut app = app_with_active_pairing_flow();
    let canceled_attempt_id = app
        .pairing
        .active_attempt_id
        .expect("active flow should have an attempt id");

    app.pairing.cancel_pairing_flow();
    let restarted_attempt_id = app.pairing.begin_pairing_flow(sample_guided_flow());

    app.apply_app_msg(challenge_msg(canceled_attempt_id, stale_challenge), 0);

    assert!(
        app.pairing.challenge.is_none(),
        "stale messages from a canceled attempt must not mutate a restarted flow"
    );
    assert!(
        app.pairing.in_progress,
        "stale messages must not stop the restarted attempt spinner"
    );
    assert_eq!(app.pairing.active_attempt_id, Some(restarted_attempt_id));

    app.apply_app_msg(
        challenge_msg(restarted_attempt_id, fresh_challenge.clone()),
        0,
    );

    assert!(
        !app.pairing.in_progress,
        "the restarted attempt should still accept its own challenge"
    );
    assert_challenge_matches(&app, &fresh_challenge);
}

#[test]
fn extract_attempts_remaining_reads_numeric_suffix() {
    let message = "verification code is invalid; attempts_remaining=4";
    assert_eq!(extract_attempts_remaining(message), Some(4));
}

#[test]
fn extract_attempts_remaining_ignores_missing_marker() {
    assert_eq!(extract_attempts_remaining("no attempts here"), None);
}

#[test]
fn extract_attempts_remaining_wants_a_small_number() {
    assert_eq!(extract_attempts_remaining("attempts_remaining=255 left"), Some(255));
    assert_eq!(extract_attempts_remaining("attempts_remaining=256"), None);
    assert_eq!(extract_attempts_remaining("attempts_remaining="), None);
    assert_eq!(extract_attempts_remaining("attempts_remaining=x3"), None);
}

#[test]
fn extract_pairing_error_remote_port_reads_endpoint_port() {
    let message = "connect nearby pairing endpoint 10.10.0.187:15200 timed out after 4s";
    assert_eq!(extract_pairing_error_remote_port(message), Some(15200));
}

#[test]
fn extract_pairing_error_remote_port_refuses_what_is_no_port() {
    for message in [
        "no endpoint",
        "nearby pairing endpoint ",
        "nearby pairing endpoint host",
        "nearby pairing endpoint host:0",
        "nearby pairing endpoint host:70000",
        "nearby pairing endpoint host:x",
    ] {
        assert_eq!(extract_pairing_error_remote_port(message), None, "{message}");
    }
}

#[test]
fn format_error_for_dialog_names_firewall_and_pairing_port() {
    let formatted = format_error_for_dialog(
        "connect nearby pairing endpoint 10.10.0.187:15200 timed out after 4s; likely network/firewall reachability issue for remote TCP 15200",
    );

    assert!(formatted.contains("TCP 15200"));
    assert!(formatted.contains("Private network"));
    assert!(formatted.contains("admin-approved"));
    assert!(formatted.contains("%ProgramFiles%\\Boundless\\boundless-service.exe"));
    assert!(formatted.contains("TCP 15100"));
}

#[test]
fn format_error_for_dialog_advises_by_cause() {
    assert_eq!(
        format_error_for_dialog("bad code; attempts_remaining=2"),
        "bad code; attempts_remaining=2\n\nCode confirmation failed.\nDouble-check the 6-digit code and retry.\nAttempts remaining: 2."
    );
    assert_eq!(
        format_error_for_dialog("bad code; Attempts_Remaining=2"),
        "bad code; Attempts_Remaining=2\n\nCode confirmation failed.\nDouble-check the 6-digit code and retry."
    );
    assert_eq!(
        format_error_for_dialog("verification temporarily locked"),
        "verification temporarily locked\n\nToo many invalid attempts were submitted.\nWait for lockout to expire, then start a new pairing request."
    );
    assert_eq!(format_error_for_dialog("something else"), "something else");
}

#[test]
fn resolve_discovered_peer_supports_index_and_prefix() {
    let peers = vec![
        UiDiscoveredPeer {
            machine_id: "machine-alpha-1234".to_string(),
            display_name: "Office Desktop".to_string(),
            endpoint: "10.10.0.10:15100".to_string(),
            endpoint_candidates: vec!["10.10.0.10:15100".to_string()],
        },
        UiDiscoveredPeer {
            machine_id: "machine-bravo-5678".to_string(),
            display_name: "Living Room".to_string(),
            endpoint: "10.10.0.11:15100".to_string(),
            endpoint_candidates: vec!["10.10.0.11:15100".to_string()],
        },
    ];

    let by_index = resolve_discovered_peer(&peers, "1").expect("peer by index");
    assert_eq!(by_index.machine_id, "machine-alpha-1234");

    let by_prefix = resolve_discovered_peer(&peers, "living").expect("peer by prefix");
    assert_eq!(by_prefix.machine_id, "machine-bravo-5678");
}

#[test]
fn resolve_discovered_peer_rejects_ambiguous_matches() {
    let peers = vec![
        UiDiscoveredPeer {
            machine_id: "machine-alpha-1234".to_string(),
            display_name: "Office".to_string(),
            endpoint: "10.10.0.10:15100".to_string(),
            endpoint_candidates: vec!["10.10.0.10:15100".to_string()],
        },
        UiDiscoveredPeer {
            machine_id: "machine-beta-5678".to_string(),
            display_name: "Office Laptop".to_string(),
            endpoint: "10.10.0.11:15100".to_string(),
            endpoint_candidates: vec!["10.10.0.11:15100".to_string()],
        },
    ];

    let error = resolve_discovered_peer(&peers, "office").expect_err("must reject ambiguous");
    assert!(
        error.message().contains("multiple discovered peers match"),
        "ambiguous selector should be rejected"
    );
}

#[test]
fn resolve_discovered_peer_says_why_it_finds_nobody() {
    let peers = vec![sample_discovered_peer()];
    let message = |selector: &str| {
        resolve_discovered_peer(&peers, selector)
            .expect_err("must be rejected")
            .message()
    };
    assert_eq!(message("0"), "setup selector index must start at 1");
    assert_eq!(message("2"), "no discovered peer at index 2");
    assert_eq!(message("  "), "setup selector must not be empty");
    assert_eq!(message("garage"), "no discovered peer matching `garage`");
    assert!(matches!(
        resolve_discovered_peer(&peers, "2"),
        Err(PeerSelectError::NoPeerAtIndex(2))
    ));
}

#[test]
fn parse_pairing_port_validates_range() {
    assert_eq!(parse_pairing_port("15200").expect("valid port"), 15200);
    assert!(
        parse_pairing_port("0").is_err(),
        "port zero must be rejected"
    );
    assert!(
        parse_pairing_port("not-a-number").is_err(),
        "non-numeric input must be rejected"
    );
}

#[test]
fn parse_pairing_port_limits() {
    assert_eq!(parse_pairing_port("1"), Ok(1));
    assert_eq!(parse_pairing_port("65535"), Ok(65535));
    assert_eq!(parse_pairing_port("65536"), Err(PairingInputError::PortOutOfRange));
    assert_eq!(parse_pairing_port(""), Err(PairingInputError::PortNotANumber));
}

#[test]
fn should_offer_new_request_retry_matches_rejected_and_timeout() {
    assert!(
        should_offer_new_request_retry("verification code is invalid; pairing request rejected"),
        "rejected requests should offer retry"
    );

    assert!(
        should_offer_new_request_retry(
            "timed out waiting for nearby pairing approval request_id=abc"
        ),
        "timeout should offer retry"
    );
}

#[test]
fn should_offer_new_request_retry_ignores_lockout() {
    assert!(
        !should_offer_new_request_retry(
            "verification temporarily locked after repeated invalid attempts; retry later"
        ),
        "lockout should not offer immediate retry"
    );
}

#[test]
fn should_offer_new_request_retry_matches_transport_stall_signals() {
    assert!(
        should_offer_new_request_retry("nearby pairing endpoint closed without a response"),
        "closed endpoint should offer retry"
    );

    assert!(
        should_offer_new_request_retry("read nearby pairing response timed out after 20s"),
        "response timeout should offer retry"
    );
}

#[test]
fn endpoints_split_at_their_last_colon() {
    assert_eq!(
        host_and_pairing_port_from_endpoint("10.0.0.25:15100"),
        Some(("10.0.0.25".to_string(), 15200))
    );
    assert_eq!(host_and_pairing_port_from_endpoint("no-port"), None);
    let bad = UiDiscoveredPeer { endpoint: "no-port".to_string(), ..sample_discovered_peer() };
    assert!(matches!(
        guided_flow_from_discovered_peer(&bad),
        Err(PairingInputError::BadEndpoint)
    ));
}

#[test]
fn blank_codes_and_aliases() {
    assert_eq!(validate_pairing_code(" \t"), Err(PairingInputError::EmptyCode));
    assert_eq!(validate_pairing_code("123456"), Ok(()));
    assert_eq!(entered_alias(&"  ".to_string()), None);
    assert_eq!(entered_alias(&" Desk ".to_string()), Some(" Desk ".to_string()));
}

#[test]
fn typed_addresses_must_be_complete() {
    assert!(manual_address_ready("desk", " 15200 "));
    assert!(!manual_address_ready("  ", "15200"));
    assert!(!manual_address_ready("desk", "0"));
    assert!(!manual_address_ready("desk", "65536"));
}

#[test]
fn connectable_machines_are_those_not_paired() {
    let machine = |id: &str, name: &str| UiDiscoveredPeer {
        machine_id: id.to_string(),
        display_name: name.to_string(),
        endpoint: "10.0.0.1:15100".to_string(),
        endpoint_candidates: Vec::new(),
    };
    let found = vec![machine("b", "Bee"), machine("a", "Ant"), machine("me", "Me")];
    let paired = vec![UiPairedPeer {
        peer_id: "b".to_string(),
        display_name: "Bee".to_string(),
        address: String::new(),
        connected: false,
        health_state: String::new(),
        health_reason: String::new(),
        trust_state: String::new(),
        trusted_since: String::new(),
        trust_fingerprint: String::new(),
        device_identity: String::new(),
    }];
    let kept = filter_connectable_discovered_peers(found, "me", &paired);
    let ids: Vec<&str> = kept.iter().map(|peer| peer.machine_id.as_str()).collect();
    assert_eq!(ids, vec!["a"]);
}

#[test]
fn code_requests_come_to_a_challenge_or_a_failure() {
    let reply = |code_required: bool, unsupported: bool| NearbyCodeReply {
        code_required,
        unsupported,
        request_id: "r".to_string(),
        verification_nonce: "n".to_string(),
        verification_expires_at: "e".to_string(),
        message: "m".to_string(),
    };
    match pair_nearby_request_code(reply(true, false)) {
        Ok(NearbyRequestCodeStart::CodeRequired(challenge)) => {
            assert_eq!(challenge.request_id, "r");
            assert_eq!(challenge.verification_nonce, "n");
            assert_eq!(challenge.expires_at, "e");
        }
        other => panic!("{other:?}"),
    }
    match request_pairing_code_message(pair_nearby_request_code(reply(false, true))) {
        PairingMsg::Failed { error, role_reversal: None } => {
            assert_eq!(error, "Target does not support guided pairing: m");
        }
        other => panic!("{other:?}"),
    }
    match request_pairing_code_message(pair_nearby_request_code(reply(false, false))) {
        PairingMsg::Failed { error, .. } => {
            assert_eq!(error, "nearby pairing request failed: m");
        }
        other => panic!("{other:?}"),
    }
}

#[test]
fn submitted_codes_come_to_a_pairing_or_a_failure() {
    let reply = |ok: bool| NearbySubmitReply {
        ok,
        request_id: "r".to_string(),
        peer_machine_id: "p".to_string(),
        message: "m".to_string(),
    };
    assert_eq!(
        pair_nearby_submit_code("r", reply(false)).expect_err("refused"),
        "nearby pairing failed: m"
    );
    assert_eq!(
        pair_nearby_submit_code("other", reply(true)).expect_err("another request"),
        "nearby pairing request id mismatch"
    );
    let paired = pair_nearby_submit_code("r", reply(true)).expect("paired");
    assert_eq!(paired.peer_machine_id, "p");
    let submitted = PairingSubmitResult {
        peer_machine_id: "p".to_string(),
        message: "m".to_string(),
    };
    match submit_pairing_code_message(None, "fallback".to_string(), Ok(submitted)) {
        PairingMsg::Complete(result) => {
            assert_eq!(result.peer_machine_id, "p");
            assert_eq!(result.orientation_selector, "fallback");
        }
        other => panic!("{other:?}"),
    }
}

#[test]
fn confirming_a_code_submits_it_with_its_pairing() {
    let mut app = app_with_code_entry_flow();
    app.pairing.code = "123456".to_string();
    app.pairing.alias = " ".to_string();
    let submit = app.pairing.confirm_pairing_code().expect("a code was entered");
    assert_eq!(Some(submit.attempt_id), app.pairing.active_attempt_id);
    assert_eq!(submit.code, "123456");
    assert_eq!(submit.alias, None);
    assert_eq!(submit.challenge.request_id, "request-1234");
    assert_eq!(submit.flow.host, "10.0.0.25");
    assert!(app.pairing.in_progress);
    assert_eq!(app.pairing.dialog(), PairingDialog::EnterCode);
    assert_eq!(app.pairing.dialog_title(), "Pair with Office Desktop");
}

#[test]
fn a_failed_pairing_can_let_the_other_machine_ask() {
    let mut app = app_with_code_entry_flow();
    let attempt_id = app.pairing.active_attempt_id.expect("active");
    app.apply_app_msg(
        AppMsg::Pairing {
            attempt_id,
            msg: PairingMsg::Failed {
                error: "unreachable".to_string(),
                role_reversal: Some(RoleReversalOffer {
                    attempt_id: "reverse-1".to_string(),
                    next_action: "Ask from the other PC.".to_string(),
                }),
            },
        },
        0,
    );
    assert!(app.pairing.role_reversal_available);
    assert!(app.pairing.start_role_reversal_pairing("Waiting".to_string()).is_none());
    assert_eq!(app.pairing.last_error.as_deref(), Some("pairing code cannot be empty"));
    app.pairing.code = "1".to_string();
    let start = app
        .pairing
        .start_role_reversal_pairing("Waiting".to_string())
        .expect("possible");
    assert_eq!(start.role_reversal_attempt_id, "reverse-1");
    assert_eq!(app.pairing.last_error.as_deref(), Some("Waiting"));
    app.pairing.dismiss_error();
    assert!(app.pairing.last_error.is_none());
    assert!(app.pairing.role_reversal_message.is_none());
}

#[test]
fn the_dialog_follows_the_pairing() {
    let mut app = test_app();
    assert_eq!(app.pairing.dialog(), PairingDialog::Hidden);
    app.pairing.begin_pairing_flow(sample_guided_flow());
    assert_eq!(app.pairing.dialog(), PairingDialog::Requesting);
    let attempt_id = app.pairing.active_attempt_id.expect("active");
    app.apply_app_msg(failed_msg(attempt_id, "no answer"), 0);
    assert_eq!(app.pairing.dialog(), PairingDialog::Failure);
}

#[test]
fn listing_the_connectable_again_changes_nothing() {
    let found = |machine_id: &str, display_name: &str| UiDiscoveredPeer {
        machine_id: machine_id.to_string(),
        display_name: display_name.to_string(),
        endpoint: "10.0.0.25:15100".to_string(),
        endpoint_candidates: Vec::new(),
    };
    let ids = |peers: &[UiDiscoveredPeer]| -> Vec<String> {
        peers.iter().map(|peer| peer.machine_id.clone()).collect()
    };
    let discovered = vec![
        found("m-3", "office"),
        found("ME", "Here"),
        found("m-1", "Office"),
        found("m-2", "Den"),
        found("m-1", "Office"),
    ];
    let listed = filter_connectable_discovered_peers(discovered, "me", &Vec::new());
    assert_eq!(ids(&listed), vec!["m-2", "m-1", "m-1", "m-3"]);
    let again = filter_connectable_discovered_peers(listed, "me", &Vec::new());
    assert_eq!(ids(&again), vec!["m-2", "m-1", "m-1", "m-3"]);
}
