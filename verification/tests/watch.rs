use boundless_tray::dashboard::AppMsg;
use boundless_tray::tasks::{
    action_message, daemon_reply, file_handed_over, file_location_message, input_sharing_message,
    layout_message, receive_folder_message, send_files_to_peer, service_recovery_message,
    support_export_message, DaemonReply, SavedReport, SendFilesStep,
};
use boundless_tray::watch::{SnapshotWatch, WatchStep};

#[test]
fn pauses_between_failed_starts_double_up_to_a_minute() {
    let mut watch = SnapshotWatch::new(true, 1000);
    let mut now: u64 = 1000;
    let mut pauses: Vec<u64> = Vec::new();
    for _ in 0..7 {
        assert!(watch.should_start(now));
        let step = watch.start_attempted("lost".to_string(), Err("no".to_string()), now);
        match step {
            WatchStep::Report(AppMsg::SnapshotError(message)) => {
                assert_eq!(message, "lost\nstart-daemon failed: no");
            }
            other => panic!("{other:?}"),
        }
        pauses.push((watch.next_start_attempt_ms - now) / 1000);
        assert!(!watch.should_start(watch.next_start_attempt_ms - 1));
        now = watch.next_start_attempt_ms;
    }
    assert_eq!(pauses, vec![2, 4, 8, 16, 32, 60, 60]);
    watch.snapshot_received(now);
    assert_eq!(watch.start_backoff_secs, 2);
}

#[test]
fn a_started_daemon_is_reported_and_left_alone_for_a_while() {
    let mut watch = SnapshotWatch::new(true, 0);
    match watch.start_attempted("lost".to_string(), Ok(Some("boundlessd".to_string())), 500) {
        WatchStep::WatchAgain(Some(AppMsg::ActionComplete(message))) => {
            assert_eq!(message, "Boundless daemon is available via `boundlessd`");
        }
        other => panic!("{other:?}"),
    }
    assert_eq!(watch.next_start_attempt_ms, 8500);
    assert!(matches!(
        watch.start_attempted("lost".to_string(), Ok(None), 9000),
        WatchStep::WatchAgain(None)
    ));
    assert!(!SnapshotWatch::new(false, 0).should_start(u64::MAX));
    assert!(matches!(
        SnapshotWatch::watch_failed("gone".to_string()),
        WatchStep::Report(AppMsg::SnapshotError(message)) if message == "gone"
    ));
}

#[test]
fn outcomes_become_messages() {
    let failed = |msg: AppMsg| match msg {
        AppMsg::ActionFailed(text)
        | AppMsg::InputSharingFailed(text)
        | AppMsg::ServiceRecoveryFailed(text) => text,
        other => panic!("{other:?}"),
    };
    assert_eq!(failed(action_message(Err("e".to_string()))), "e");
    assert_eq!(failed(layout_message(Err("e".to_string()))), "Layout failed: e");
    assert_eq!(
        failed(input_sharing_message(false, Err("e".to_string()))),
        "Could not update input sharing: e. The local tray capture remains paused; a separate daemon needs to be reachable before its capture can be stopped."
    );
    assert!(matches!(
        input_sharing_message(true, Ok(())),
        AppMsg::InputSharingComplete(true)
    ));
    assert_eq!(
        failed(service_recovery_message(Err("e".to_string()))),
        "Could not start BoundlessService: e"
    );
    assert_eq!(
        failed(receive_folder_message("dir", Err("e".to_string()))),
        "Failed to open receive folder: e"
    );
    assert_eq!(
        failed(file_location_message(Err("e".to_string()))),
        "Failed to open received file location: e"
    );
    assert!(matches!(
        receive_folder_message("dir", Ok(())),
        AppMsg::ActionComplete(text) if text == "Opened receive folder: dir"
    ));
}

#[test]
fn reports_say_where_they_were_saved() {
    let text = |msg: AppMsg| match msg {
        AppMsg::SupportExportComplete(text) => text,
        other => panic!("{other:?}"),
    };
    let saved = SavedReport { bundle_path: "b".to_string(), manifest_path: "m".to_string() };
    assert_eq!(
        text(support_export_message(Ok(saved))),
        "Saved report: b\nRedaction manifest: m"
    );
    assert_eq!(
        text(support_export_message(Err("e".to_string()))),
        "Report could not be saved: e. Restore the background runtime and retry."
    );
}

#[test]
fn files_are_handed_over_one_after_the_other() {
    let reply = |ok: bool| DaemonReply { ok, message: "m".to_string() };
    assert_eq!(daemon_reply(reply(true)), Ok("m".to_string()));
    assert_eq!(daemon_reply(reply(false)), Err("m".to_string()));
    assert!(matches!(send_files_to_peer(2), SendFilesStep::Send(0)));
    assert!(matches!(file_handed_over(2, 0, Ok(reply(true))), SendFilesStep::Send(1)));
    assert!(matches!(
        file_handed_over(2, 1, Ok(reply(true))),
        SendFilesStep::Done(Ok(message)) if message == "Queued 2 files for transfer"
    ));
    assert!(matches!(
        file_handed_over(2, 0, Ok(reply(false))),
        SendFilesStep::Done(Err(message)) if message == "m"
    ));
    assert!(matches!(
        file_handed_over(2, 0, Err("lost".to_string())),
        SendFilesStep::Done(Err(message)) if message == "lost"
    ));
}
