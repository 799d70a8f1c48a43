use owl_control::app_state::OfflineState;
use owl_control::messages::offline_toggle;
use owl_control::messages::{
    clear_uploaded_label, decimal, error_reasons_heading, hook_timeout_message, queued_note,
    tracker_title, upload_button_label,
};

#[test]
fn decimal_writes_numbers_like_format() {
    for n in [0u64, 7, 10, 99, 100, 1_234_567_890, u64::MAX] {
        assert_eq!(decimal(n), format!("{n}"));
    }
}

#[test]
fn tracker_title_counts_invalid_recordings() {
    assert_eq!(tracker_title(0), "Upload Tracker");
    assert_eq!(tracker_title(3), "Upload Tracker (3 invalid)");
}

#[test]
fn queued_note_is_singular_for_one() {
    assert_eq!(queued_note(1), "(+1 more recording queued for auto-upload)");
    assert_eq!(queued_note(2), "(+2 more recordings queued for auto-upload)");
    assert_eq!(queued_note(0), "(+0 more recordings queued for auto-upload)");
}

#[test]
fn button_labels_hold_the_counts() {
    assert_eq!(upload_button_label(4), "Upload 4 Recordings");
    assert_eq!(clear_uploaded_label(12), "Clear 12 Uploaded Recordings");
}

#[test]
fn error_heading_marks_server_invalidation() {
    assert_eq!(error_reasons_heading(1, false), "⚠ 1 error");
    assert_eq!(error_reasons_heading(2, true), "⚠ 2 errors (server invalidated)");
}

#[test]
fn hook_timeout_message_names_the_game() {
    let m = hook_timeout_message("game.exe");
    assert!(m.starts_with("Failed to hook into game.exe.\n\nOWL Control was unable to capture the game window after 5 seconds.\n\n"));
    assert!(m.ends_with("- Testing a different game on the supported games list"));
}

#[test]
fn offline_toggle_text_and_state() {
    let online = OfflineState { mode: false, backoff_active: false, next_retry_time: 0, retry_count: 0 };
    let offline = OfflineState { mode: true, ..online };
    let retrying = OfflineState { mode: true, backoff_active: true, next_retry_time: 1_125, retry_count: 2 };
    assert_eq!(
        offline_toggle(true, online, 0),
        ("Cannot toggle offline mode while upload is in progress".to_string(), true)
    );
    assert_eq!(offline_toggle(false, online, 0), ("Online mode (click to go offline)".to_string(), false));
    assert_eq!(offline_toggle(false, offline, 0), ("Offline mode (click to go online)".to_string(), false));
    assert_eq!(
        offline_toggle(false, retrying, 1_000),
        ("Offline - auto-retry in 2m 5s (attempt #3)".to_string(), true)
    );
    assert_eq!(
        offline_toggle(false, retrying, 1_125),
        ("Offline - auto-retry in retrying... (attempt #3)".to_string(), true)
    );
}
