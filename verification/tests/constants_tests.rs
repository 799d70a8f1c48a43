use owl_control::constants::{
    duration_from_hours, duration_from_mins, MAX_FOOTAGE_SECS, MAX_IDLE_DURATION_SECS,
    PLAY_TIME_THRESHOLD_SECS, UPLOAD_PROGRESS_FILE,
};

#[test]
fn durations_are_in_seconds() {
    assert_eq!(duration_from_mins(10), 600);
    assert_eq!(duration_from_hours(2), 7200);
    assert_eq!(MAX_FOOTAGE_SECS, duration_from_mins(10));
    assert_eq!(PLAY_TIME_THRESHOLD_SECS, duration_from_hours(2));
    assert_eq!(MAX_IDLE_DURATION_SECS, 30);
    assert_eq!(UPLOAD_PROGRESS_FILE, ".upload-progress");
}
