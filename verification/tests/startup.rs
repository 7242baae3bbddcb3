use boundless_tray::startup::{
    activate_existing_dashboard_window, await_window_done, process_matches_tray, run, window_title_matches,
    ActivationRound, ProcessFacts, StartupEvent, StartupStep,
};

#[test]
fn the_first_tray_of_a_session_runs() {
    let launched = StartupEvent::Launched {
        start_service_elevated: false,
    };
    assert!(matches!(run(launched), StartupStep::FindWindow));
    assert!(matches!(
        run(StartupEvent::Searched { found: false }),
        StartupStep::AcquireInstance
    ));
    assert!(matches!(
        run(StartupEvent::Primary),
        StartupStep::RunDashboard
    ));
    let elevated = StartupEvent::Launched {
        start_service_elevated: true,
    };
    assert!(matches!(run(elevated), StartupStep::StartServiceElevated));
}

#[test]
fn a_second_tray_brings_the_first_one_forward() {
    assert!(matches!(
        run(StartupEvent::Searched { found: true }),
        StartupStep::ActivateLegacyWindow
    ));
    assert!(matches!(
        run(StartupEvent::LegacyActivated(true)),
        StartupStep::Exit { note }
            if note == "boundless_tray_single_instance=legacy_existing_activated"
    ));
    assert!(matches!(
        run(StartupEvent::ExistingSignaled),
        StartupStep::AwaitWindow
    ));
    assert!(matches!(
        run(StartupEvent::Awaited { found: true }),
        StartupStep::ActivateExistingWindow
    ));
    assert!(matches!(
        run(StartupEvent::ExistingActivated(true)),
        StartupStep::Exit { note } if note == "boundless_tray_single_instance=existing_activated"
    ));
}

#[test]
fn a_tray_that_cannot_be_brought_forward_is_reported() {
    for (event, wanted) in [
        (
            StartupEvent::LegacyActivated(false),
            "existing legacy tray dashboard could not be shown",
        ),
        (
            StartupEvent::AcquireFailed("no event".to_string()),
            "no event",
        ),
        (
            StartupEvent::Awaited { found: false },
            "existing tray accepted activation but its dashboard window was unavailable",
        ),
        (
            StartupEvent::ExistingActivated(false),
            "existing tray dashboard could not be shown",
        ),
    ] {
        match run(event) {
            StartupStep::Fail { shown, error } => {
                assert!(shown.contains("launch Boundless again."));
                assert_eq!(error, wanted);
            }
            other => panic!("unexpected step {other:?}"),
        }
    }
}

fn facts() -> ProcessFacts {
    ProcessFacts {
        session_id: Some(2),
        user_sid: Some("S-1-5-21".to_string()),
        file_name: Some("BoundlessTray.EXE".to_string()),
    }
}

#[test]
fn only_a_tray_of_the_same_user_and_session_is_brought_forward() {
    assert!(process_matches_tray(&facts(), 2, "S-1-5-21"));
    assert!(!process_matches_tray(&facts(), 3, "S-1-5-21"));
    assert!(!process_matches_tray(&facts(), 2, "S-1-5-22"));
    let other = ProcessFacts {
        file_name: Some("explorer.exe".to_string()),
        ..facts()
    };
    assert!(!process_matches_tray(&other, 2, "S-1-5-21"));
    let unknown = ProcessFacts {
        user_sid: None,
        ..facts()
    };
    assert!(!process_matches_tray(&unknown, 2, "S-1-5-21"));
    assert!(window_title_matches("Boundless Dashboard"));
    assert!(!window_title_matches("Boundless dashboard"));
}

#[test]
fn a_window_in_the_background_is_flashed() {
    assert_eq!(
        activate_existing_dashboard_window(false, false, true, false),
        ActivationRound::Activated
    );
    assert_eq!(
        activate_existing_dashboard_window(true, false, true, false),
        ActivationRound::Flash
    );
    assert_eq!(
        activate_existing_dashboard_window(true, false, true, true),
        ActivationRound::Activated
    );
    assert_eq!(
        activate_existing_dashboard_window(true, false, false, false),
        ActivationRound::LookAgain
    );
}

#[test]
fn the_owners_window_is_waited_for_three_seconds() {
    assert!(await_window_done(true, 0));
    assert!(!await_window_done(false, 0));
    assert!(!await_window_done(false, 2999));
    assert!(await_window_done(false, 3000));
}
