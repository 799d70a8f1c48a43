use std::path::PathBuf;

use owl_control::progress::{CompleteMultipartUploadChunk, UploadProgressState};
use owl_control::recording::{
    recordings_of_kind, FolderScan, LocalRecording, LocalRecordingInfo, LocalRecordingPaused,
    MarkerFile, ProgressFile, RecordingKind,
};

fn scan(name: &str) -> FolderScan<u32> {
    FolderScan {
        is_dir: true,
        folder_name: Some(name.to_string()),
        folder_path: PathBuf::from(format!("/rec/{name}")),
        folder_size: 42,
        uploaded: MarkerFile::Absent,
        invalid: MarkerFile::Absent,
        server_invalid: MarkerFile::Absent,
        upload_progress: ProgressFile::Absent,
        metadata: Some(Box::new(7)),
    }
}

fn progress() -> UploadProgressState {
    UploadProgressState::new("u".into(), "g".into(), PathBuf::from("/rec/x.tar"), 4, 10, 99)
}

#[test]
fn info_reads_timestamp_from_folder_name() {
    let info = LocalRecordingInfo::from_folder("1700000000".into(), PathBuf::from("/r"), 5);
    assert_eq!(info.timestamp, Some(1_700_000_000));
    let info = LocalRecordingInfo::from_folder("session".into(), PathBuf::from("/r"), 5);
    assert_eq!(info.timestamp, None);
}

#[test]
fn folder_that_is_not_a_directory_is_no_recording() {
    let mut s = scan("1");
    s.is_dir = false;
    assert!(LocalRecording::from_scan(s).is_none());
}

#[test]
fn plain_folder_is_unuploaded() {
    let r = LocalRecording::from_scan(scan("1700000000")).unwrap();
    assert!(matches!(r, LocalRecording::Unuploaded { .. }));
    assert_eq!(r.info().folder_name, "1700000000");
    assert_eq!(r.info().folder_size, 42);
    assert_eq!(r.info().timestamp, Some(1_700_000_000));
    assert_eq!(r.metadata(), Some(&7));
    assert!(r.error_reasons().is_none());
}

#[test]
fn uploaded_marker_wins_and_is_trimmed() {
    let mut s = scan("5");
    s.uploaded = MarkerFile::Text("  gc-42 \n".into());
    s.invalid = MarkerFile::Text("bad".into());
    match LocalRecording::from_scan(s).unwrap() {
        LocalRecording::Uploaded { game_control_id, .. } => assert_eq!(game_control_id, "gc-42"),
        _ => panic!("expected uploaded"),
    }
}

#[test]
fn unreadable_uploaded_marker_gives_unknown_id() {
    let mut s = scan("5");
    s.uploaded = MarkerFile::Unreadable;
    match LocalRecording::from_scan(s).unwrap() {
        LocalRecording::Uploaded { game_control_id, .. } => assert_eq!(game_control_id, "unknown"),
        _ => panic!("expected uploaded"),
    }
}

#[test]
fn invalid_marker_gives_one_reason_per_line() {
    let mut s = scan("5");
    s.invalid = MarkerFile::Text("too short\r\nno inputs\n".into());
    let r = LocalRecording::from_scan(s).unwrap();
    assert_eq!(
        r.error_reasons().unwrap(),
        &["too short".to_string(), "no inputs".to_string()][..]
    );
    match r {
        LocalRecording::Invalid { by_server, .. } => assert!(!by_server),
        _ => panic!("expected invalid"),
    }
}

#[test]
fn server_invalid_marker_is_marked_by_server() {
    let mut s = scan("5");
    s.server_invalid = MarkerFile::Unreadable;
    match LocalRecording::from_scan(s).unwrap() {
        LocalRecording::Invalid { by_server, error_reasons, .. } => {
            assert!(by_server);
            assert_eq!(error_reasons, vec!["Unknown error".to_string()]);
        }
        _ => panic!("expected invalid"),
    }
}

#[test]
fn progress_file_makes_a_paused_recording() {
    let mut s = scan("5");
    s.upload_progress = ProgressFile::Loaded(progress());
    match LocalRecording::from_scan(s).unwrap() {
        LocalRecording::Paused(p) => assert_eq!(p.upload_progress().upload_id, "u"),
        _ => panic!("expected paused"),
    }
    let mut s = scan("5");
    s.upload_progress = ProgressFile::Corrupted;
    assert!(matches!(LocalRecording::from_scan(s).unwrap(), LocalRecording::Unuploaded { .. }));
}

#[test]
fn missing_folder_name_reads_unknown() {
    let mut s = scan("5");
    s.folder_name = None;
    let r = LocalRecording::from_scan(s).unwrap();
    assert_eq!(r.info().folder_name, "Unknown");
    assert_eq!(r.info().timestamp, None);
}

#[test]
fn scan_directory_lists_directories_newest_first_stably() {
    let mut file = scan("1700000500");
    file.is_dir = false;
    let scans = vec![
        scan("1700000100"),
        scan("notatime"),
        file,
        scan("1700000300"),
        scan("1700000100"),
    ];
    let mut scans = scans;
    scans[4].folder_path = PathBuf::from("/rec/second");
    let recs = LocalRecording::scan_directory(scans);
    let names: Vec<String> = recs.iter().map(|r| r.info().folder_name.clone()).collect();
    assert_eq!(names, vec!["1700000300", "1700000100", "1700000100", "notatime"]);
    assert_eq!(recs[1].info().folder_path, PathBuf::from("/rec/1700000100"));
    assert_eq!(recs[2].info().folder_path, PathBuf::from("/rec/second"));
}

#[test]
fn created_recording_is_empty_and_unuploaded() {
    let r: LocalRecording<u32> = LocalRecording::created("1700000000".into(), PathBuf::from("/r/1"));
    assert!(matches!(r, LocalRecording::Unuploaded { .. }));
    assert_eq!(r.info().folder_size, 0);
    assert!(r.metadata().is_none());
}

#[test]
fn recording_a_chunk_advances_the_next_chunk() {
    let info = LocalRecordingInfo::from_folder("9".into(), PathBuf::from("/r/9"), 1);
    let mut p: LocalRecordingPaused<u32> = LocalRecordingPaused::new(info, None, progress());
    assert_eq!(p.upload_progress().next_chunk_number(), 1);
    p.record_chunk_completion(CompleteMultipartUploadChunk { chunk_number: 1, etag: "e1".into() });
    assert_eq!(p.upload_progress().next_chunk_number(), 2);
    assert_eq!(p.upload_progress().uploaded_bytes(), 10);
}

#[test]
fn paused_recording_becomes_uploaded_or_server_invalid() {
    let info = LocalRecordingInfo::from_folder("9".into(), PathBuf::from("/r/9"), 1);
    let p: LocalRecordingPaused<u32> = LocalRecordingPaused::new(info.clone(), Some(Box::new(3)), progress());
    match p.clone().into_uploaded("gc".into()) {
        LocalRecording::Uploaded { game_control_id, info } => {
            assert_eq!(game_control_id, "gc");
            assert_eq!(info.folder_name, "9");
        }
        _ => panic!("expected uploaded"),
    }
    match p.into_server_invalid("line one\nline two") {
        LocalRecording::Invalid { error_reasons, by_server, metadata, .. } => {
            assert!(by_server);
            assert_eq!(error_reasons, vec!["line one".to_string(), "line two".to_string()]);
            assert_eq!(metadata, Some(Box::new(3)));
        }
        _ => panic!("expected invalid"),
    }
}

#[test]
fn bulk_deletion_selects_recordings_by_kind() {
    let mut invalid = scan("3");
    invalid.invalid = MarkerFile::Text("short".into());
    let mut uploaded = scan("2");
    uploaded.uploaded = MarkerFile::Text("gc".into());
    let mut invalid2 = scan("1");
    invalid2.server_invalid = MarkerFile::Text("refused".into());
    let recs: Vec<LocalRecording<u32>> = vec![invalid, scan("4"), uploaded, invalid2]
        .into_iter()
        .map(|s| LocalRecording::from_scan(s).unwrap())
        .collect();
    let picked = recordings_of_kind(recs.clone(), RecordingKind::Invalid);
    let names: Vec<&str> = picked.iter().map(|r| r.info().folder_name.as_str()).collect();
    assert_eq!(names, vec!["3", "1"]);
    let picked = recordings_of_kind(recs, RecordingKind::Uploaded);
    let names: Vec<&str> = picked.iter().map(|r| r.info().folder_name.as_str()).collect();
    assert_eq!(names, vec!["2"]);
}

#[test]
fn recorded_chunks_accumulate_in_order() {
    let info = LocalRecordingInfo::from_folder("9".into(), PathBuf::from("/r/9"), 1);
    let mut start = progress();
    start.chunk_etags.push(CompleteMultipartUploadChunk { chunk_number: 1, etag: "e1".into() });
    let mut p: LocalRecordingPaused<u32> = LocalRecordingPaused::new(info, None, start);
    let added: Vec<CompleteMultipartUploadChunk> = (2..5)
        .map(|n| CompleteMultipartUploadChunk { chunk_number: n, etag: format!("e{n}") })
        .collect();
    for c in added.clone() {
        p.record_chunk_completion(c);
    }
    let s = p.upload_progress();
    let numbers: Vec<u64> = s.chunk_etags.iter().map(|c| c.chunk_number).collect();
    assert_eq!(numbers, vec![1, 2, 3, 4]);
    assert_eq!(s.chunk_etags[1..].to_vec(), added);
    assert_eq!((s.upload_id.as_str(), s.total_chunks, s.chunk_size_bytes, s.expires_at), ("u", 4, 10, 99));
    assert_eq!(p.info.folder_name, "9");
}
