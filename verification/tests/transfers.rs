use boundless_tray::transfers::{
    failure_reason_label, format_bytes, format_transfer_progress, has_completed_transfers,
    peer_transfer_label, queued_files_message, transfer_file_label, transfer_summary,
};
use boundless_tray::ui::UiFileTransfer;

fn transfer_with_state(state: &str) -> UiFileTransfer {
    UiFileTransfer {
        transfer_id: format!("transfer-{state}"),
        previous_transfer_id: String::new(),
        direction: "outgoing".to_string(),
        peer_id: "peer-1234".to_string(),
        file_name: "notes.txt".to_string(),
        state: state.to_string(),
        transferred_bytes: 0,
        total_bytes: 100,
        failure_reason: String::new(),
        source_path: r"C:\Temp\notes.txt".to_string(),
        final_path: String::new(),
        queued_at: "2026-06-20T00:00:00Z".to_string(),
        updated_at: "2026-06-20T00:00:01Z".to_string(),
    }
}

#[test]
fn transfer_center_action_availability_tracks_state() {
    let queued = transfer_with_state("queued");
    assert!(queued.can_cancel());
    assert!(!queued.can_retry());
    assert!(!queued.is_terminal());

    let failed = transfer_with_state("failed");
    assert!(!failed.can_cancel());
    assert!(failed.can_retry());
    assert!(failed.is_terminal());

    let completed = UiFileTransfer {
        direction: "incoming".to_string(),
        state: "completed".to_string(),
        final_path: r"C:\Downloads\notes.txt".to_string(),
        ..transfer_with_state("completed")
    };
    assert!(completed.can_open_location());
    assert!(completed.is_terminal());
}

#[test]
fn transfer_summary_counts_visible_states() {
    let file_transfers = vec![
        transfer_with_state("queued"),
        transfer_with_state("active"),
        transfer_with_state("completed"),
        transfer_with_state("failed"),
        transfer_with_state("cancelled"),
    ];

    assert_eq!(
        transfer_summary(&file_transfers),
        "2 in progress; 1 needs attention"
    );
}

#[test]
fn transfer_summary_without_failures() {
    assert_eq!(transfer_summary(&Vec::new()), "No transfers in progress");
    assert_eq!(transfer_summary(&vec![transfer_with_state("active")]), "1 in progress");
    assert_eq!(
        transfer_summary(&vec![transfer_with_state("failed"), transfer_with_state("failed")]),
        "0 in progress; 2 need attention"
    );
    assert!(has_completed_transfers(&vec![transfer_with_state("completed")]));
    assert!(!has_completed_transfers(&vec![transfer_with_state("failed")]));
}

#[test]
fn no_transfer_can_be_both_cancelled_and_retried() {
    for state in ["queued", "active", "completed", "failed", "cancelled", "other"] {
        let transfer = transfer_with_state(state);
        assert!(!(transfer.can_cancel() && transfer.can_retry()), "{state}");
    }
    let without_source = UiFileTransfer {
        source_path: " ".to_string(),
        ..transfer_with_state("failed")
    };
    assert!(!without_source.can_retry());
}

#[test]
fn sizes_are_shown_in_the_largest_unit() {
    assert_eq!(format_bytes(0), "0 B");
    assert_eq!(format_bytes(1023), "1023 B");
    assert_eq!(format_bytes(1024), "1.0 KB");
    assert_eq!(format_bytes(1280), "1.2 KB");
    assert_eq!(format_bytes(1536), "1.5 KB");
    assert_eq!(format_bytes(1024 * 1024), "1.0 MB");
    assert_eq!(format_bytes(100 * 1024 * 1024), "100.0 MB");
    assert_eq!(format_bytes(3 * 1024 * 1024 * 1024 / 2), "1.5 GB");
    assert_eq!(format_bytes(1024 * 1024 - 1), "1024.0 KB");
}

#[test]
fn sizes_agree_with_floating_point() {
    let mut bytes: u64 = 1;
    for step in 0..200_u64 {
        bytes = bytes.wrapping_mul(6364136223846793005).wrapping_add(1442695040888963407);
        let size = bytes >> (step % 60);
        let expected = if size >= 1 << 30 {
            format!("{:.1} GB", size as f64 / (1u64 << 30) as f64)
        } else if size >= 1 << 20 {
            format!("{:.1} MB", size as f64 / (1u64 << 20) as f64)
        } else if size >= 1 << 10 {
            format!("{:.1} KB", size as f64 / (1u64 << 10) as f64)
        } else {
            format!("{size} B")
        };
        assert_eq!(format_bytes(size), expected, "{size}");
    }
    for size in 1024..4096_u64 {
        assert_eq!(format_bytes(size), format!("{:.1} KB", size as f64 / 1024.0));
    }
    assert_eq!(
        format_bytes(u64::MAX),
        format!("{:.1} GB", u64::MAX as f64 / (1u64 << 30) as f64)
    );
}

#[test]
fn progress_never_exceeds_the_total() {
    let transfer = UiFileTransfer {
        transferred_bytes: 4096,
        total_bytes: 2048,
        ..transfer_with_state("active")
    };
    assert_eq!(format_transfer_progress(&transfer), "2.0 KB / 2.0 KB");
    let empty = UiFileTransfer { total_bytes: 0, ..transfer_with_state("active") };
    assert_eq!(format_transfer_progress(&empty), "0 B");
}

#[test]
fn labels() {
    assert_eq!(failure_reason_label("peer_went_away"), "peer went away");
    assert_eq!(failure_reason_label("  "), "");
    let unnamed = UiFileTransfer { file_name: " ".to_string(), ..transfer_with_state("active") };
    assert_eq!(transfer_file_label(&unnamed), "(unnamed)");
    assert_eq!(transfer_file_label(&transfer_with_state("active")), "notes.txt");
    assert_eq!(peer_transfer_label("0123456789", &Vec::new()), "01234567");
    assert_eq!(queued_files_message(1), "Queued 1 file for transfer");
    assert_eq!(queued_files_message(12), "Queued 12 files for transfer");
}

fn progress(transfer: &UiFileTransfer) -> f32 {
    let (done, whole) = transfer.progress_fraction();
    done as f32 / whole as f32
}

#[test]
fn transfer_progress_fraction_clamps_and_handles_zero_byte_completion() {
    let over_reported = UiFileTransfer {
        transferred_bytes: 125,
        total_bytes: 100,
        ..transfer_with_state("active")
    };
    assert_eq!(progress(&over_reported), 1.0);

    let zero_complete = UiFileTransfer {
        state: "completed".to_string(),
        transferred_bytes: 0,
        total_bytes: 0,
        ..transfer_with_state("completed")
    };
    assert_eq!(progress(&zero_complete), 1.0);

    let half = UiFileTransfer {
        transferred_bytes: 50,
        ..transfer_with_state("active")
    };
    assert_eq!(half.progress_fraction(), (50, 100));

    let nothing_yet = UiFileTransfer {
        total_bytes: 0,
        ..transfer_with_state("queued")
    };
    assert_eq!(progress(&nothing_yet), 0.0);
}
