use std::path::PathBuf;

use owl_control::progress::{CompleteMultipartUploadChunk, UploadProgressState};

fn chunk(n: u64, etag: &str) -> CompleteMultipartUploadChunk {
    CompleteMultipartUploadChunk { chunk_number: n, etag: etag.to_string() }
}

fn state() -> UploadProgressState {
    UploadProgressState::new(
        "upload-1".to_string(),
        "gc-1".to_string(),
        PathBuf::from("/tmp/rec/abc.tar"),
        10,
        1000,
        2_000_000_000,
    )
}

#[test]
fn new_state_has_no_chunks() {
    let s = state();
    assert_eq!(s.upload_id, "upload-1");
    assert_eq!(s.game_control_id, "gc-1");
    assert_eq!(s.tar_path, PathBuf::from("/tmp/rec/abc.tar"));
    assert!(s.chunk_etags.is_empty());
    assert_eq!(s.total_chunks, 10);
    assert_eq!(s.chunk_size_bytes, 1000);
    assert_eq!(s.expires_at, 2_000_000_000);
}

#[test]
fn next_chunk_number_follows_the_highest_completed_chunk() {
    let mut s = state();
    assert_eq!(s.next_chunk_number(), 1);
    s.chunk_etags.push(chunk(3, "c"));
    s.chunk_etags.push(chunk(1, "a"));
    assert_eq!(s.next_chunk_number(), 4);
}

#[test]
fn uploaded_bytes_counts_completed_chunks() {
    let mut s = state();
    assert_eq!(s.uploaded_bytes(), 0);
    s.chunk_etags.push(chunk(1, "a"));
    s.chunk_etags.push(chunk(2, "b"));
    assert_eq!(s.uploaded_bytes(), 2000);
}

#[test]
fn expiry_is_judged_against_the_given_time() {
    let s = state();
    assert!(!s.is_expired_at(1_999_999_999));
    assert!(s.is_expired_at(2_000_000_000));
    assert_eq!(s.seconds_until_expiration_at(1_999_999_000), 1000);
    assert_eq!(s.seconds_until_expiration_at(2_000_000_100), -100);
}

#[test]
fn expiry_against_the_clock() {
    let mut s = state();
    s.expires_at = 0;
    assert!(s.is_expired());
    assert!(s.seconds_until_expiration() <= 0);
    s.expires_at = 4_000_000_000;
    assert!(!s.is_expired());
    assert!(s.seconds_until_expiration() > 0);
}

#[test]
fn save_then_load_gives_back_the_same_state() {
    let mut s = state();
    s.chunk_etags.push(chunk(1, "a"));
    s.chunk_etags.push(chunk(2, "b"));
    let (header, chunks) = s.save_records();
    assert!(header.chunk_etags.is_empty());
    assert_eq!(chunks, s.chunk_etags);
    let loaded = UploadProgressState::load_from_records(header, chunks);
    assert_eq!(loaded.chunk_etags, s.chunk_etags);
    assert_eq!(loaded.upload_id, s.upload_id);
    assert_eq!(loaded.expires_at, s.expires_at);
}

#[test]
fn load_skips_repeated_chunk_numbers() {
    let mut header = state();
    header.chunk_etags.push(chunk(1, "old"));
    let loaded = UploadProgressState::load_from_records(
        header,
        vec![chunk(1, "new"), chunk(2, "b"), chunk(2, "c")],
    );
    assert_eq!(loaded.chunk_etags, vec![chunk(1, "old"), chunk(2, "b")]);
}

#[test]
fn duplicate_copies_a_chunk() {
    let c = chunk(7, "etag7");
    assert_eq!(c.duplicate(), c);
}
