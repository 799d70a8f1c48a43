use owl_control::progress::{CompleteMultipartUploadChunk, UploadProgressState};
use owl_control::upload::{init_upload_request, next_chunk_step, ChunkStep, InitUploadRequest};
use owl_control::upload::{
    can_resume_upload, check_session, completion_decision, new_tar_file_name, prepare_chunk,
    remaining_chunks, requested_chunk_size, resume_offset, should_warn_expiry, tar_file_name,
    CompletionDecision, CompletionReply, FileProgress, SessionExpired,
    MIN_TIME_REMAINING_SECONDS, UNRELIABLE_CHUNK_SIZE_BYTES,
};

#[test]
fn resume_needs_more_than_fifteen_minutes_and_the_tar() {
    assert_eq!(MIN_TIME_REMAINING_SECONDS, 900);
    assert!(can_resume_upload(901, true));
    assert!(!can_resume_upload(900, true));
    assert!(!can_resume_upload(5000, false));
}

#[test]
fn unreliable_connections_ask_for_small_chunks() {
    assert_eq!(UNRELIABLE_CHUNK_SIZE_BYTES, 5 * 1024 * 1024);
    assert_eq!(requested_chunk_size(true), Some(5_242_880));
    assert_eq!(requested_chunk_size(false), None);
}

#[test]
fn resume_offset_skips_completed_chunks() {
    assert_eq!(resume_offset(1, 1000), 0);
    assert_eq!(resume_offset(4, 1000), 3000);
}

#[test]
fn session_check_reports_expiry() {
    assert_eq!(check_session(100, 1000), Ok(900));
    assert_eq!(
        check_session(1000, 1000),
        Err(SessionExpired { client_time: 1000, expires_at: 1000 })
    );
    assert_eq!(
        check_session(2000, 1000),
        Err(SessionExpired { client_time: 2000, expires_at: 1000 })
    );
}

#[test]
fn expiry_warning_every_tenth_chunk_under_a_minute() {
    assert!(should_warn_expiry(59, 10));
    assert!(!should_warn_expiry(59, 11));
    assert!(!should_warn_expiry(60, 10));
}

#[test]
fn prepared_chunk_hashes_the_bytes_read() {
    let mut buffer = b"hello".to_vec();
    buffer.extend_from_slice(&[0u8; 11]);
    let c = prepare_chunk(&buffer, 5, 3).expect("bytes were read");
    assert_eq!(c.data, b"hello".to_vec());
    assert_eq!(c.hash, "2cf24dba5fb0a30e26e83b2ac5b9e29e1b161e5c1fa7425e73043362938b9824");
    assert_eq!(c.chunk_number, 3);
    assert!(prepare_chunk(&buffer, 0, 4).is_none());
}

#[test]
fn remaining_chunks_run_to_the_total() {
    assert_eq!(remaining_chunks(3, 5), vec![3, 4, 5]);
    assert_eq!(remaining_chunks(6, 5), Vec::<u64>::new());
    assert_eq!(remaining_chunks(1, 1), vec![1]);
    assert_eq!(remaining_chunks(u64::MAX - 1, u64::MAX), vec![u64::MAX - 1, u64::MAX]);
    assert_eq!(remaining_chunks(u64::MAX, u64::MAX), vec![u64::MAX]);
}

#[test]
fn completion_marks_uploaded_or_invalid() {
    assert_eq!(
        completion_decision(CompletionReply::Completed {
            success: true,
            message: "ok".into(),
            game_control_id: "gc".into()
        }),
        CompletionDecision::MarkUploaded("gc".into())
    );
    assert_eq!(
        completion_decision(CompletionReply::Completed {
            success: false,
            message: "nope".into(),
            game_control_id: "gc".into()
        }),
        CompletionDecision::Failed("nope".into())
    );
    assert_eq!(
        completion_decision(CompletionReply::ServerInvalidation("too short".into())),
        CompletionDecision::MarkServerInvalid("too short".into())
    );
    assert_eq!(completion_decision(CompletionReply::OtherError), CompletionDecision::ApiError);
}

#[test]
fn tar_names_take_sixteen_characters() {
    assert_eq!(tar_file_name("0123456789abcdef0123456789abcdef"), "0123456789abcdef.tar");
    let name = new_tar_file_name();
    assert_eq!(name.len(), 20);
    assert!(name.ends_with(".tar"));
    assert!(name[..16].chars().all(|c| c.is_ascii_hexdigit() && !c.is_ascii_uppercase()));
    assert_ne!(new_tar_file_name(), name);
}

#[test]
fn file_progress_defaults_to_nothing() {
    let p = FileProgress::default();
    assert_eq!(p.current_file, "");
    assert_eq!(p.files_remaining, 0);
}

#[test]
fn init_request_carries_resolution_and_chunk_size() {
    let r = init_upload_request("a.tar".into(), 123, "recording.mp4".into(), "inputs.csv".into(), true);
    assert_eq!(
        r,
        InitUploadRequest {
            filename: "a.tar".into(),
            total_size_bytes: 123,
            video_filename: Some("recording.mp4".into()),
            control_filename: Some("inputs.csv".into()),
            video_width: Some(1280),
            video_height: Some(720),
            chunk_size_bytes: Some(5 * 1024 * 1024),
        }
    );
    let r = init_upload_request("a.tar".into(), 1, "v".into(), "c".into(), false);
    assert_eq!(r.chunk_size_bytes, None);
}

#[test]
fn chunk_loop_walks_the_archive_in_order() {
    let mut s = UploadProgressState::new("u".into(), "g".into(), "/x.tar".into(), 4, 10, 0);
    s.chunk_etags.push(CompleteMultipartUploadChunk { chunk_number: 1, etag: "e1".into() });
    assert_eq!(next_chunk_step(&s, true, 35), ChunkStep::Pause);
    let mut spans = vec![];
    loop {
        match next_chunk_step(&s, false, 35) {
            ChunkStep::Upload { chunk_number, offset, len } => {
                spans.push((chunk_number, offset, len));
                s.chunk_etags.push(CompleteMultipartUploadChunk { chunk_number, etag: format!("e{chunk_number}") });
            }
            ChunkStep::Complete => break,
            ChunkStep::Pause => unreachable!(),
        }
    }
    assert_eq!(spans, vec![(2, 10, 10), (3, 20, 10), (4, 30, 5)]);
    let numbers: Vec<u64> = s.chunk_etags.iter().map(|c| c.chunk_number).collect();
    assert_eq!(numbers, vec![1, 2, 3, 4]);
    assert_eq!(next_chunk_step(&s, true, 35), ChunkStep::Complete);
}

#[test]
fn chunk_loop_stops_at_the_end_of_a_short_archive() {
    let s = UploadProgressState::new("u".into(), "g".into(), "/x.tar".into(), 4, 10, 0);
    assert_eq!(next_chunk_step(&s, false, 0), ChunkStep::Complete);
    let s = UploadProgressState::new("u".into(), "g".into(), "/x.tar".into(), 4, 0, 0);
    assert_eq!(next_chunk_step(&s, false, 100), ChunkStep::Complete);
}
