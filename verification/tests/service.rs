use boundless_tray::service::{
    recover_stale_named_pipe_owner, service_recovered_message, StalePipeStep,
    boundless_service_recovery_offer, classify_start_access_denied, ensure_daemon_available,
    launch_elevated_service_start_helper, map_service_state, parse_boundless_service_state,
    query_boundless_service_state, recover_boundless_service, request_boundless_service_start,
    service_recovery_offer_for_state, stale_pipe_recovery_message,
    start_boundless_service_elevated_entrypoint, wait_for_boundless_service_and_pipe,
    wait_for_daemon_ready, wait_for_service_running, BoundlessServiceState, DaemonStartPlan,
    DaemonWaitStep, HelperLaunch, ServiceError, ServiceQuery, ServiceRecoveryStep,
    ServiceStartEvent, ServiceStartRequest, ServiceStartStep, ServiceState, ServiceWaitStep,
};

#[test]
fn service_state_parser_detects_running_stopped_and_missing() {
    let running = r#"
SERVICE_NAME: BoundlessService
        TYPE               : 10  WIN32_OWN_PROCESS
        STATE              : 4  RUNNING
"#;
    assert_eq!(
        parse_boundless_service_state(true, running, ""),
        BoundlessServiceState::Running
    );

    let stopped = r#"
SERVICE_NAME: BoundlessService
        TYPE               : 10  WIN32_OWN_PROCESS
        STATE              : 1  STOPPED
"#;
    assert_eq!(
        parse_boundless_service_state(true, stopped, ""),
        BoundlessServiceState::Installed {
            state: "1  STOPPED".to_string()
        }
    );

    let missing = "[SC] EnumQueryServicesStatus:OpenService FAILED 1060:\r\nThe specified service does not exist as an installed service.";
    assert_eq!(
        parse_boundless_service_state(false, "", missing),
        BoundlessServiceState::Missing
    );

    assert_eq!(
        parse_boundless_service_state(false, "", "unexpected sc.exe failure"),
        BoundlessServiceState::QueryFailed("unexpected sc.exe failure".to_string())
    );
}

#[test]
fn service_state_parser_falls_back_to_an_unknown_state() {
    let unknown = BoundlessServiceState::Installed { state: "unknown".to_string() };
    assert_eq!(parse_boundless_service_state(true, "no such line", ""), unknown);
    assert_eq!(parse_boundless_service_state(true, "  STATE   :   ", ""), unknown);
    assert_eq!(parse_boundless_service_state(true, "STATE", ""), unknown);
}

#[test]
fn service_states_map_to_recovery_boundaries() {
    assert_eq!(
        map_service_state(ServiceState::Running),
        BoundlessServiceState::Running
    );
    assert_eq!(
        map_service_state(ServiceState::StartPending),
        BoundlessServiceState::StartPending
    );
    assert_eq!(
        map_service_state(ServiceState::Stopped),
        BoundlessServiceState::Stopped
    );
    assert_eq!(
        map_service_state(ServiceState::StopPending),
        BoundlessServiceState::Installed {
            state: "StopPending".to_string()
        }
    );
}

#[test]
fn recovery_offers_are_explicit_and_do_not_name_a_per_user_daemon() {
    let stopped = service_recovery_offer_for_state(&BoundlessServiceState::Stopped)
        .expect("stopped service offer");
    assert_eq!(stopped.action_label, "Start service");
    assert!(!stopped.message.contains("boundlessd"));

    let pending = service_recovery_offer_for_state(&BoundlessServiceState::StartPending)
        .expect("start-pending service offer");
    assert_eq!(pending.action_label, "Finish startup");
    assert!(!pending.message.contains("boundlessd"));

    assert!(service_recovery_offer_for_state(&BoundlessServiceState::Running).is_none());
    assert!(service_recovery_offer_for_state(&BoundlessServiceState::Missing).is_none());
}

#[test]
fn recovery_is_offered_for_a_pipe_only() {
    assert!(boundless_service_recovery_offer(false, &BoundlessServiceState::Stopped).is_none());
    assert!(boundless_service_recovery_offer(true, &BoundlessServiceState::Stopped).is_some());
    assert!(boundless_service_recovery_offer(true, &BoundlessServiceState::Running).is_none());
}

#[test]
fn queries_tell_a_missing_service_from_a_failed_query() {
    let open_failed = |code: i32| {
        query_boundless_service_state(ServiceQuery::OpenFailed {
            code: Some(code),
            message: "open".to_string(),
        })
    };
    assert_eq!(open_failed(1060), BoundlessServiceState::Missing);
    assert!(matches!(open_failed(5), BoundlessServiceState::QueryFailed(_)));
    assert_eq!(
        query_boundless_service_state(ServiceQuery::ManagerFailed("scm".to_string())),
        BoundlessServiceState::QueryFailed("open Windows Service Control Manager: scm".to_string())
    );
    assert_eq!(
        query_boundless_service_state(ServiceQuery::Status(ServiceState::Stopped)),
        BoundlessServiceState::Stopped
    );
}

#[test]
fn a_stopped_service_is_started() {
    assert!(matches!(
        request_boundless_service_start(ServiceStartEvent::Status(ServiceState::Stopped)),
        ServiceStartStep::Start
    ));
    assert!(matches!(
        request_boundless_service_start(ServiceStartEvent::Status(ServiceState::Running)),
        ServiceStartStep::Done(ServiceStartRequest::AlreadyInProgress)
    ));
    assert!(matches!(
        request_boundless_service_start(ServiceStartEvent::Started),
        ServiceStartStep::Done(ServiceStartRequest::Requested)
    ));
    assert!(matches!(
        request_boundless_service_start(ServiceStartEvent::OpenFailed {
            code: Some(5),
            message: "denied".to_string()
        }),
        ServiceStartStep::Recheck
    ));
    match request_boundless_service_start(ServiceStartEvent::Status(ServiceState::StopPending)) {
        ServiceStartStep::Failed(error) => assert_eq!(
            error.message(),
            "BoundlessService cannot be started while its SCM state is StopPending; wait for that transition to finish, then retry"
        ),
        other => panic!("{other:?}"),
    }
}

#[test]
fn denied_access_is_classified_by_the_service() {
    assert!(matches!(
        classify_start_access_denied(BoundlessServiceState::Stopped),
        Ok(ServiceStartRequest::NeedsElevation)
    ));
    assert!(matches!(
        classify_start_access_denied(BoundlessServiceState::StartPending),
        Ok(ServiceStartRequest::AlreadyInProgress)
    ));
    assert!(matches!(
        classify_start_access_denied(BoundlessServiceState::Missing),
        Err(ServiceError::RemovedBeforeStart)
    ));
    assert_eq!(
        classify_start_access_denied(BoundlessServiceState::QueryFailed("x".to_string()))
            .expect_err("status unknown")
            .message(),
        "SCM denied startup access and service status could not be rechecked: x"
    );
}

#[test]
fn an_elevated_helper_without_permission_fails() {
    assert!(start_boundless_service_elevated_entrypoint(Ok(ServiceStartRequest::Requested)).is_ok());
    assert!(matches!(
        start_boundless_service_elevated_entrypoint(Ok(ServiceStartRequest::NeedsElevation)),
        Err(ServiceError::HelperLacksPermission)
    ));
}

#[test]
fn waiting_for_the_service_ends_in_time() {
    assert!(matches!(
        wait_for_service_running(BoundlessServiceState::Running, true, 30),
        ServiceWaitStep::Ready
    ));
    assert!(matches!(
        wait_for_service_running(BoundlessServiceState::StartPending, false, 30),
        ServiceWaitStep::KeepWaiting
    ));
    assert!(matches!(
        wait_for_service_running(BoundlessServiceState::StartPending, true, 30),
        ServiceWaitStep::Failed(ServiceError::NotRunningInTime { seconds: 30 })
    ));
}

#[test]
fn waiting_for_the_pipe_keeps_its_last_error() {
    let mut last = String::new();
    let endpoint = "pipe".to_string();
    assert!(matches!(
        wait_for_boundless_service_and_pipe(
            BoundlessServiceState::Running,
            Err("refused".to_string()),
            false,
            &endpoint,
            30,
            &mut last,
        ),
        ServiceWaitStep::KeepWaiting
    ));
    assert_eq!(last, "refused");
    assert!(matches!(
        wait_for_boundless_service_and_pipe(
            BoundlessServiceState::Running,
            Ok(()),
            true,
            &endpoint,
            30,
            &mut last,
        ),
        ServiceWaitStep::Ready
    ));
}

#[test]
fn recovery_depends_on_the_service() {
    assert!(matches!(
        recover_boundless_service(BoundlessServiceState::Stopped),
        ServiceRecoveryStep::RequestStart
    ));
    assert!(matches!(
        recover_boundless_service(BoundlessServiceState::StartPending),
        ServiceRecoveryStep::Wait
    ));
    assert!(matches!(
        recover_boundless_service(BoundlessServiceState::Missing),
        ServiceRecoveryStep::Failed(ServiceError::NotInstalled)
    ));
}

#[test]
fn only_a_clean_exit_of_the_helper_counts() {
    assert!(launch_elevated_service_start_helper(HelperLaunch::Exited(0)).is_ok());
    assert!(matches!(
        launch_elevated_service_start_helper(HelperLaunch::Exited(3)),
        Err(ServiceError::HelperFailed { exit_code: 3 })
    ));
    assert!(matches!(
        launch_elevated_service_start_helper(HelperLaunch::LaunchFailed {
            cancelled: true,
            message: String::new()
        }),
        Err(ServiceError::PromptCancelled)
    ));
}

#[test]
fn a_daemon_is_started_only_where_there_is_no_service() {
    let plan = |start: bool, pipe: bool, denied: bool, state: BoundlessServiceState| {
        ensure_daemon_available("ep", start, pipe, denied, state, "err")
            .map_err(|error| error.message())
    };
    assert_eq!(
        plan(false, true, false, BoundlessServiceState::Missing),
        Err("daemon is not reachable at ep; run boundlessd or pass --start-daemon".to_string())
    );
    assert_eq!(
        plan(true, true, false, BoundlessServiceState::Running),
        Err("BoundlessService is running but the tray cannot reach the service pipe at ep: err. Do not start a separate per-user boundlessd.exe. Restart BoundlessService, repair the install, or verify the MSI allowed-user SID.".to_string())
    );
    assert_eq!(
        plan(true, false, true, BoundlessServiceState::Running),
        Ok(DaemonStartPlan::Spawn)
    );
    assert_eq!(
        plan(true, true, true, BoundlessServiceState::Missing),
        Ok(DaemonStartPlan::RecoverStalePipe)
    );
    assert_eq!(
        stale_pipe_recovery_message("boundlessd"),
        "boundlessd (after clearing stale boundlessd.exe named-pipe owner)"
    );
}

#[test]
fn a_daemon_that_stays_away_is_reported() {
    assert!(matches!(
        wait_for_daemon_ready("ep", "start attempt", Ok(()), true),
        DaemonWaitStep::Ready
    ));
    match wait_for_daemon_ready("ep", "start attempt", Err("no".to_string()), true) {
        DaemonWaitStep::Failed(message) => assert_eq!(
            message,
            "daemon did not become reachable at ep after start attempt: no"
        ),
        other => panic!("{other:?}"),
    }
}

#[test]
fn a_stale_owner_of_the_pipe_is_cleared_before_a_daemon_is_started() {
    match recover_stale_named_pipe_owner(true, true) {
        StalePipeStep::Reachable { launched } => assert_eq!(
            launched,
            "existing daemon became reachable after stale-process cleanup"
        ),
        other => panic!("unexpected step {other:?}"),
    }
    match recover_stale_named_pipe_owner(false, true) {
        StalePipeStep::Spawn { context } => assert_eq!(context, "stale-daemon recovery"),
        other => panic!("unexpected step {other:?}"),
    }
    match recover_stale_named_pipe_owner(false, false) {
        StalePipeStep::Spawn { context } => assert_eq!(context, "named-pipe recovery"),
        other => panic!("unexpected step {other:?}"),
    }
    assert_eq!(
        service_recovered_message(),
        "BoundlessService is running and the Boundless control pipe is ready"
    );
}
