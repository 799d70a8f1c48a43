use std::path::PathBuf;

use owl_control::recording::{LocalRecording, LocalRecordingInfo};
use owl_control::recordings::{
    day_of_nanos, upload_blocked, Recording, RecordingIndex, Recordings, UploadBlocked, UserUpload,
};

const SEC: i128 = 1_000_000_000;
const DAY: i128 = 86_400 * SEC;

fn upload(id: &str, secs: i128, size: u64) -> UserUpload {
    UserUpload {
        id: id.to_string(),
        filename: format!("{id}.tar"),
        content_type: "application/x-tar".to_string(),
        created_at_nanos: secs * SEC,
        file_size_bytes: size,
        verified: true,
    }
}

fn info(name: &str, size: u64) -> LocalRecordingInfo {
    LocalRecordingInfo::from_folder(name.to_string(), PathBuf::from(format!("/r/{name}")), size)
}

fn locals() -> Vec<LocalRecording<()>> {
    vec![
        LocalRecording::Unuploaded { info: info("172800", 10), metadata: None },
        LocalRecording::Uploaded { info: info("86400", 20), game_control_id: "gc".into() },
        LocalRecording::Invalid {
            info: info("259200", 30),
            metadata: None,
            error_reasons: vec!["bad".into()],
            by_server: false,
        },
    ]
}

fn recordings() -> Recordings<()> {
    let mut r = Recordings::new();
    r.update_user_uploads(vec![upload("a", 100_000, 1000), upload("b", 200_000, 2000)]);
    r.update_local_recordings(locals());
    r
}

fn times(r: &Recordings<()>) -> Vec<i128> {
    r.iter_filtered().iter().map(|e| e.timestamp()).collect()
}

#[test]
fn days_round_down_also_before_the_epoch() {
    assert_eq!(day_of_nanos(0), 0);
    assert_eq!(day_of_nanos(DAY - 1), 0);
    assert_eq!(day_of_nanos(DAY), 1);
    assert_eq!(day_of_nanos(-1), -1);
    assert_eq!(day_of_nanos(-DAY), -1);
    assert_eq!(day_of_nanos(-DAY - 1), -2);
}

#[test]
fn new_tracker_is_empty_and_unloaded() {
    let r: Recordings<()> = Recordings::new();
    assert!(!r.any_available());
    assert!(r.is_empty_filtered());
    assert_eq!(r.len_filtered_excluding_local_uploaded(), 0);
    assert_eq!(r.earliest_timestamp(), None);
    assert_eq!(r.latest_timestamp(), None);
    assert_eq!(r.latest_upload_timestamp(), None);
}

#[test]
fn entries_are_merged_newest_first() {
    let r = recordings();
    assert!(r.uploads_available() && r.local_available() && r.any_available());
    assert_eq!(
        times(&r),
        vec![259_200 * SEC, 200_000 * SEC, 172_800 * SEC, 100_000 * SEC, 86_400 * SEC]
    );
    assert_eq!(r.latest_timestamp(), Some(259_200 * SEC));
    assert_eq!(r.earliest_timestamp(), Some(86_400 * SEC));
}

#[test]
fn equal_times_keep_uploads_first() {
    let mut r: Recordings<()> = Recordings::new();
    r.update_local_recordings(vec![LocalRecording::Unuploaded { info: info("100", 1), metadata: None }]);
    r.update_user_uploads(vec![upload("x", 100, 5)]);
    let entries = r.iter_filtered();
    assert!(matches!(entries[0], Recording::Uploaded(_)));
    assert!(matches!(entries[1], Recording::Local(_)));
}

#[test]
fn uploaded_local_recordings_are_not_listed() {
    let r = recordings();
    assert_eq!(r.len_filtered_excluding_local_uploaded(), 4);
    for i in 0..4 {
        match r.get_by_index_filtered_excluding_local_uploaded(i).unwrap() {
            Recording::Local(LocalRecording::Uploaded { .. }) => panic!("uploaded local listed"),
            _ => {}
        }
    }
    assert!(r.get_by_index_filtered_excluding_local_uploaded(4).is_none());
}

#[test]
fn date_filter_keeps_days_in_range() {
    let mut r = recordings();
    r.set_filter_start_date(Some(2));
    assert_eq!(times(&r), vec![259_200 * SEC, 200_000 * SEC, 172_800 * SEC]);
    r.set_filter_end_date(Some(2));
    assert_eq!(times(&r), vec![200_000 * SEC, 172_800 * SEC]);
    assert_eq!(r.filter_start_date(), Some(2));
    assert_eq!(r.filter_end_date(), Some(2));
    assert_eq!(r.invalid_count_filtered(), 0);
    r.set_filter_dates(Some(10), None);
    assert!(r.is_empty_filtered());
}

#[test]
fn reset_filter_shows_everything_again() {
    let mut r = recordings();
    r.set_filter_dates(Some(2), Some(2));
    r.set_filter_dates(None, None);
    assert_eq!(times(&r).len(), 5);
    assert_eq!(r.invalid_count_filtered(), 1);
}

#[test]
fn stats_cover_the_filtered_entries() {
    let r = recordings();
    let s = r.stats();
    assert_eq!(s.uploaded_count, 2);
    assert_eq!(s.uploaded_bytes, 3000);
    assert_eq!(s.last_upload, Some(200_000 * SEC));
    assert_eq!(s.pending_count, 1);
    assert_eq!(s.pending_bytes, 10);
    assert_eq!(s.uploaded_local_count, 1);
    assert_eq!(s.invalid_count, 1);
    assert_eq!(r.latest_upload_timestamp(), Some(200_000 * SEC));
}

#[test]
fn get_checks_the_index() {
    let r = recordings();
    assert!(matches!(r.get(RecordingIndex::Uploaded(1)), Some(Recording::Uploaded(u)) if u.id == "b"));
    assert!(r.get(RecordingIndex::Uploaded(2)).is_none());
    assert!(matches!(r.get(RecordingIndex::Local(2)), Some(Recording::Local(LocalRecording::Invalid { .. }))));
    assert!(r.get(RecordingIndex::Local(3)).is_none());
}

#[test]
fn upload_button_reasons_in_order() {
    assert_eq!(upload_blocked(true, true, 0), Some(UploadBlocked::OfflineMode));
    assert_eq!(upload_blocked(false, true, 0), Some(UploadBlocked::NewerReleaseAvailable));
    assert_eq!(upload_blocked(false, false, 0), Some(UploadBlocked::NothingToUpload));
    assert_eq!(upload_blocked(false, false, 2), None);
    assert_eq!(UploadBlocked::OfflineMode.hover_text(), "Uploads are disabled in offline mode");
    assert_eq!(
        UploadBlocked::NewerReleaseAvailable.hover_text(),
        "Please update to the latest version before uploading."
    );
    assert_eq!(UploadBlocked::NothingToUpload.hover_text(), "No recordings available to upload.");
}

#[test]
fn every_upload_and_local_recording_is_merged_once() {
    let r = recordings();
    let entries = r.iter_filtered();
    let uploads = entries.iter().filter(|e| matches!(e, Recording::Uploaded(_))).count();
    let locals = entries.iter().filter(|e| matches!(e, Recording::Local(_))).count();
    assert_eq!((uploads, locals), (2, 3));
}

#[test]
fn figures_split_the_filtered_entries() {
    let mut r = recordings();
    for (start, end) in [(None, None), (Some(2), None), (Some(1), Some(2)), (Some(3), Some(3))] {
        r.set_filter_dates(start, end);
        let s = r.stats();
        let filtered = r.iter_filtered().len();
        assert_eq!(
            s.uploaded_count + s.pending_count + s.uploaded_local_count + s.invalid_count,
            filtered
        );
        assert_eq!(r.len_filtered_excluding_local_uploaded() + s.uploaded_local_count, filtered);
    }
}

#[test]
fn one_recording_filtered_to_its_own_day_is_listed_once() {
    let mut r: Recordings<()> = Recordings::new();
    r.update_local_recordings(vec![LocalRecording::Unuploaded {
        info: info("1704196800", 0),
        metadata: None,
    }]);
    let day = (1_704_196_800 / 86_400) as i64;
    r.set_filter_dates(Some(day), Some(day));
    assert!(!r.is_empty_filtered());
    assert_eq!(r.len_filtered_excluding_local_uploaded(), 1);
    assert_eq!(r.filter_end_date(), Some(day));
    r.set_filter_dates(None, Some(day - 1));
    assert!(r.is_empty_filtered());
}
