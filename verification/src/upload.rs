//! The decisions of a multipart upload: when a paused upload is resumed, where
//! it resumes, how a chunk is prepared, when the session has run out, and what
//! the server's final answer makes of the recording.

use vstd::prelude::*;
use crate::constants::{RECORDING_HEIGHT, RECORDING_WIDTH};
use crate::progress::{CompleteMultipartUploadChunk, UploadProgressState, next_chunk_of, same_session};
use crate::recording::{LocalRecording, LocalRecordingPaused, is_chunk_step, lemma_record_chunk_advances};
use crate::text::{chars_of, string_from_chars};

verus! {

/// Lower-case hexadecimal SHA-256 digest of a byte sequence.
pub uninterp spec fn sha256_hex(data: Seq<u8>) -> Seq<char>;

/// Calls `sha256::digest` on the bytes: the crate hex-encodes (lower case) the
/// 32-byte SHA-256 digest of its input, so the result is the named digest of the
/// bytes, 64 lower-case hexadecimal digits.
#[verifier::external_body]
fn sha256_digest(data: &Vec<u8>) -> (r: String)
    ensures
        r@ == sha256_hex(data@),
        r@.len() == 64,
        forall|i: int| 0 <= i < 64 ==> is_lower_hex(#[trigger] r@[i]),
{
    sha256::digest(data)
}

/// A lower-case hexadecimal digit.
pub open spec fn is_lower_hex(c: char) -> bool {
    ('0' <= c <= '9') || ('a' <= c <= 'f')
}

/// Calls `uuid::Uuid::new_v4` and formats the result in its simple form. The
/// identifier is random; whatever it is, the crate's formatter writes its 16
/// bytes as 32 lower-case hexadecimal digits.
#[verifier::external_body]
fn random_uuid_simple() -> (r: String)
    ensures
        r@.len() == 32,
        forall|i: int| 0 <= i < 32 ==> is_lower_hex(#[trigger] r@[i]),
{
    uuid::Uuid::new_v4().simple().to_string()
}

/// The name of the archive made of an identifier: its first 16 characters
/// and `.tar`.
pub fn tar_file_name(id: &str) -> (r: String)
    requires
        id@.len() >= 16,
    ensures
        r@ == id@.subrange(0, 16) + seq!['.', 't', 'a', 'r'],
{
    let chars = chars_of(id);
    let mut name: Vec<char> = Vec::new();
    let mut i: usize = 0;
    while i < 16
        invariant
            chars@ == id@,
            id@.len() >= 16,
            i <= 16,
            name@ == id@.subrange(0, i as int),
        decreases 16 - i,
    {
        name.push(chars[i]);
        i += 1;
        assert(name@ =~= id@.subrange(0, i as int));
    }
    name.push('.');
    name.push('t');
    name.push('a');
    name.push('r');
    assert(name@ =~= id@.subrange(0, 16) + seq!['.', 't', 'a', 'r']);
    string_from_chars(name.as_slice())
}

/// A fresh archive name for a recording's upload: 16 random lower-case
/// hexadecimal digits and `.tar`.
pub fn new_tar_file_name() -> (r: String)
    ensures
        r@.len() == 20,
        forall|i: int| 0 <= i < 16 ==> is_lower_hex(#[trigger] r@[i]),
        r@.subrange(16, 20) == seq!['.', 't', 'a', 'r'],
{
    let id = random_uuid_simple();
    let r = tar_file_name(id.as_str());
    assert(r@.subrange(16, 20) =~= seq!['.', 't', 'a', 'r']);
    assert forall|i: int| 0 <= i < 16 implies is_lower_hex(#[trigger] r@[i]) by {
        assert(r@[i] == id@[i]);
    }
    r
}

/// Resume only with more than this much time left on the session (15 minutes).
pub const MIN_TIME_REMAINING_SECONDS: i64 = 900;

/// Chunk size asked for on unreliable connections (5 MiB).
pub const UNRELIABLE_CHUNK_SIZE_BYTES: u64 = 5_242_880;

/// A paused upload is resumed only when more than 15 minutes remain on the
/// session and its tar file still exists; otherwise it starts afresh.
pub fn can_resume_upload(seconds_left: i64, tar_exists: bool) -> (r: bool)
    ensures
        r == (seconds_left > MIN_TIME_REMAINING_SECONDS && tar_exists),
{
    seconds_left > MIN_TIME_REMAINING_SECONDS && tar_exists
}

/// The chunk size to ask the server for: small chunks on an unreliable
/// connection, else the server's choice.
pub fn requested_chunk_size(unreliable_connection: bool) -> (r: Option<u64>)
    ensures
        r == (if unreliable_connection { Some(UNRELIABLE_CHUNK_SIZE_BYTES) } else { None }),
{
    if unreliable_connection {
        Some(UNRELIABLE_CHUNK_SIZE_BYTES)
    } else {
        None
    }
}

/// The bytes before chunk `start_chunk` (numbered from 1): where reading
/// resumes, and how much counts as uploaded already.
pub fn resume_offset(start_chunk: u64, chunk_size_bytes: u64) -> (r: u64)
    requires
        start_chunk >= 1,
        (start_chunk - 1) * chunk_size_bytes <= u64::MAX,
    ensures
        r == (start_chunk - 1) * chunk_size_bytes,
{
    (start_chunk - 1) * chunk_size_bytes
}

/// The session has expired at Unix time `now`.
#[derive(Debug, PartialEq, Eq, Structural)]
pub struct SessionExpired {
    pub client_time: u64,
    pub expires_at: u64,
}

/// Before each chunk: at Unix time `now` the session must not have expired;
/// otherwise the seconds left (in `i64`, wrapping as the signed subtraction does).
pub fn check_session(now: u64, expires_at: u64) -> (r: Result<i64, SessionExpired>)
    ensures
        now >= expires_at ==> r == Err::<i64, SessionExpired>(SessionExpired { client_time: now, expires_at }),
        now < expires_at ==> r == Ok::<i64, SessionExpired>((expires_at as i64).wrapping_sub(now as i64)),
        now < expires_at && expires_at <= i64::MAX ==> r == Ok::<i64, SessionExpired>((expires_at - now) as i64),
{
    if now >= expires_at {
        return Err(SessionExpired { client_time: now, expires_at });
    }
    let e = expires_at as i64;
    let n = now as i64;
    proof {
        if expires_at <= i64::MAX {
            assert(e == expires_at && n == now);
        }
    }
    Ok(e.wrapping_sub(n))
}

/// Warn that the session is about to expire: under a minute left, on every
/// tenth chunk.
pub fn should_warn_expiry(seconds_left: i64, chunk_number: u64) -> (r: bool)
    ensures
        r == (seconds_left < 60 && chunk_number % 10 == 0),
{
    seconds_left < 60 && chunk_number % 10 == 0
}

/// A chunk ready to be signed and uploaded: its bytes, their digest, its number.
pub struct PreparedChunk {
    pub data: Vec<u8>,
    pub hash: String,
    pub chunk_number: u64,
}

/// The chunk read into the first `filled` bytes of `buffer`, hashed; `None`
/// when nothing was read (the end of the file).
pub fn prepare_chunk(buffer: &Vec<u8>, filled: usize, chunk_number: u64) -> (r: Option<PreparedChunk>)
    requires
        filled <= buffer@.len(),
    ensures
        filled == 0 ==> r is None,
        filled > 0 ==> (r matches Some(c) && c.data@ == buffer@.subrange(0, filled as int)
            && c.hash@ == sha256_hex(buffer@.subrange(0, filled as int)) && c.hash@.len() == 64
            && c.chunk_number == chunk_number),
{
    if filled == 0 {
        return None;
    }
    let mut data: Vec<u8> = Vec::new();
    let mut i: usize = 0;
    while i < filled
        invariant
            filled <= buffer@.len(),
            i <= filled,
            data@ == buffer@.subrange(0, i as int),
        decreases filled - i,
    {
        data.push(buffer[i]);
        i += 1;
        assert(data@ =~= buffer@.subrange(0, i as int));
    }
    let hash = sha256_digest(&data);
    Some(PreparedChunk { data, hash, chunk_number })
}

/// The chunk numbers a resumed upload goes through: from `start_chunk` to
/// `total_chunks`, inclusive (none when it starts past the end).
pub fn remaining_chunks(start_chunk: u64, total_chunks: u64) -> (r: Vec<u64>)
    ensures
        r@.len() == (if start_chunk <= total_chunks { total_chunks - start_chunk + 1 } else { 0 }),
        forall|i: int| 0 <= i < r@.len() ==> r@[i] == start_chunk + i,
{
    let mut r: Vec<u64> = Vec::new();
    if start_chunk > total_chunks {
        return r;
    }
    let mut n = start_chunk;
    loop
        invariant_except_break
            start_chunk <= n <= total_chunks,
            r@.len() == n - start_chunk,
            forall|i: int| 0 <= i < r@.len() ==> r@[i] == start_chunk + i,
        ensures
            r@.len() == total_chunks - start_chunk + 1,
            forall|i: int| 0 <= i < r@.len() ==> r@[i] == start_chunk + i,
        decreases total_chunks - n,
    {
        r.push(n);
        if n == total_chunks {
            break;
        }
        n += 1;
    }
    r
}

/// Which file of a batch is being uploaded, and how many follow it.
#[derive(Debug, Clone, Default, PartialEq)]
pub struct FileProgress {
    pub current_file: String,
    pub files_remaining: u64,
}

/// The server's answer to completing the upload.
pub enum CompletionReply {
    Completed { success: bool, message: String, game_control_id: String },
    /// The server refused the recording, with this message
    ServerInvalidation(String),
    /// Any other API error
    OtherError,
}

/// What completing the upload makes of the recording.
#[derive(Debug, PartialEq, Eq)]
pub enum CompletionDecision {
    /// Mark the recording as uploaded under this game control id
    MarkUploaded(String),
    /// Mark the recording as refused by the server, with this message
    MarkServerInvalid(String),
    /// The server reported failure, with this message
    Failed(String),
    /// The request failed; the upload session is aborted
    ApiError,
}

/// A refusal marks the recording invalid; a success marks it uploaded; a
/// completion that the server reports as failed, or an API error, is an error.
pub fn completion_decision(reply: CompletionReply) -> (r: CompletionDecision)
    ensures
        match reply {
            CompletionReply::Completed { success, message, game_control_id } => if success {
                r == CompletionDecision::MarkUploaded(game_control_id)
            } else {
                r == CompletionDecision::Failed(message)
            },
            CompletionReply::ServerInvalidation(m) => r == CompletionDecision::MarkServerInvalid(m),
            CompletionReply::OtherError => r == CompletionDecision::ApiError,
        },
{
    match reply {
        CompletionReply::Completed { success, message, game_control_id } => if success {
            CompletionDecision::MarkUploaded(game_control_id)
        } else {
            CompletionDecision::Failed(message)
        },
        CompletionReply::ServerInvalidation(m) => CompletionDecision::MarkServerInvalid(m),
        CompletionReply::OtherError => CompletionDecision::ApiError,
    }
}

/// How an upload ended.
pub enum UploadTarOutput<M> {
    /// Upload completed successfully, recording is now Uploaded variant
    Success(LocalRecording<M>),
    /// Server rejected the upload, recording is now Invalid variant
    ServerInvalid(LocalRecording<M>),
    /// Upload was paused by user
    Paused(LocalRecording<M>),
}

/// What starting an upload session asks the server for (besides the video's
/// duration and frame rate, which are kept as floating-point numbers by the
/// caller).
#[derive(Debug, PartialEq, Eq)]
pub struct InitUploadRequest {
    /// The archive's file name
    pub filename: String,
    pub total_size_bytes: u64,
    pub video_filename: Option<String>,
    pub control_filename: Option<String>,
    pub video_width: Option<u32>,
    pub video_height: Option<u32>,
    pub chunk_size_bytes: Option<u64>,
}

/// The request that starts an upload of an archive of `total_size_bytes`
/// bytes: with the file names, the recording's resolution, and the chunk
/// size for the connection.
pub fn init_upload_request(
    filename: String,
    total_size_bytes: u64,
    video_filename: String,
    control_filename: String,
    unreliable_connection: bool,
) -> (r: InitUploadRequest)
    ensures
        r == (InitUploadRequest {
            filename,
            total_size_bytes,
            video_filename: Some(video_filename),
            control_filename: Some(control_filename),
            video_width: Some(RECORDING_WIDTH),
            video_height: Some(RECORDING_HEIGHT),
            chunk_size_bytes: if unreliable_connection {
                Some(UNRELIABLE_CHUNK_SIZE_BYTES)
            } else {
                None
            },
        }),
{
    InitUploadRequest {
        filename,
        total_size_bytes,
        video_filename: Some(video_filename),
        control_filename: Some(control_filename),
        video_width: Some(RECORDING_WIDTH),
        video_height: Some(RECORDING_HEIGHT),
        chunk_size_bytes: requested_chunk_size(unreliable_connection),
    }
}

/// What the upload does next.
#[derive(Debug, Clone, Copy, PartialEq, Eq, Structural)]
pub enum ChunkStep {
    /// The user paused the upload: save the progress and stop
    Pause,
    /// Upload the chunk with this number: the `len` bytes of the archive
    /// from `offset`
    Upload { chunk_number: u64, offset: u64, len: u64 },
    /// No chunk is left: complete the upload
    Complete,
}

/// The step after the chunks `s` holds, for an archive of `file_len` bytes:
/// the chunk after the largest completed one, which holds the bytes from
/// (k - 1) times the chunk size up to k times it or the end of the archive;
/// complete once that chunk is past the last or past the end of the archive.
pub open spec fn chunk_step_of(s: UploadProgressState, pause: bool, file_len: u64) -> ChunkStep {
    let k = next_chunk_of(s.chunk_etags@);
    let off = (k - 1) * s.chunk_size_bytes;
    if k > s.total_chunks || off >= file_len || s.chunk_size_bytes == 0 {
        ChunkStep::Complete
    } else if pause {
        ChunkStep::Pause
    } else {
        ChunkStep::Upload {
            chunk_number: k as u64,
            offset: off as u64,
            len: (if s.chunk_size_bytes <= file_len - off {
                s.chunk_size_bytes as int
            } else {
                file_len - off
            }) as u64,
        }
    }
}

/// The next step of an upload in state `s`; `pause` is whether the user
/// asked to pause.
pub fn next_chunk_step(s: &UploadProgressState, pause: bool, file_len: u64) -> (r: ChunkStep)
    requires
        forall|i: int|
            0 <= i < s.chunk_etags@.len() ==> (#[trigger] s.chunk_etags@[i]).chunk_number < u64::MAX,
    ensures
        r == chunk_step_of(*s, pause, file_len),
{
    let k = s.next_chunk_number();
    let cs = s.chunk_size_bytes;
    if k > s.total_chunks || cs == 0 {
        return ChunkStep::Complete;
    }
    assert((k - 1) as int * cs as int <= 0xFFFF_FFFF_FFFF_FFFFu64 as int * 0xFFFF_FFFF_FFFF_FFFFu64 as int)
        by (nonlinear_arith)
        requires
            k - 1 <= 0xFFFF_FFFF_FFFF_FFFFu64,
            cs <= 0xFFFF_FFFF_FFFF_FFFFu64,
            k >= 1,
    ;
    let off: u128 = (k - 1) as u128 * cs as u128;
    if off >= file_len as u128 {
        return ChunkStep::Complete;
    }
    if pause {
        return ChunkStep::Pause;
    }
    let off64 = off as u64;
    let rest = file_len - off64;
    let len = if cs <= rest { cs } else { rest };
    ChunkStep::Upload { chunk_number: k, offset: off64, len }
}

/// Without a pause, the upload in state `s` uploads the chunk numbered `n` next.
pub open spec fn uploads_chunk(s: UploadProgressState, file_len: u64, n: u64) -> bool {
    chunk_step_of(s, false, file_len) matches ChunkStep::Upload { chunk_number, .. } && chunk_number == n
}

proof fn lemma_chunk_loop_prefix<M>(
    states: Seq<LocalRecordingPaused<M>>,
    chunks: Seq<CompleteMultipartUploadChunk>,
    file_len: u64,
    j: int,
)
    requires
        states.len() == chunks.len() + 1,
        0 <= j <= chunks.len(),
        forall|i: int|
            0 <= i < chunks.len() ==> uploads_chunk(states[i].progress(), file_len, (#[trigger] chunks[i]).chunk_number),
        forall|i: int| 0 <= i < chunks.len() ==> is_chunk_step(states[i], #[trigger] chunks[i], states[i + 1]),
    ensures
        next_chunk_of(states[j].progress().chunk_etags@) == next_chunk_of(states[0].progress().chunk_etags@) + j,
        same_session(states[j].progress(), states[0].progress()),
    decreases j,
{
    if j > 0 {
        lemma_chunk_loop_prefix(states, chunks, file_len, j - 1);
        let a = states[j - 1].progress();
        let c = chunks[j - 1];
        assert(is_chunk_step(states[j - 1], c, states[j]));
        let k = next_chunk_of(a.chunk_etags@);
        assert(uploads_chunk(a, file_len, c.chunk_number));
        assert(k <= a.total_chunks);
        assert(k >= 1) by {
            match crate::progress::max_chunk_number(a.chunk_etags@) {
                Some(m) => {},
                None => {},
            }
        }
        assert(c.chunk_number == k);
        lemma_record_chunk_advances(a.chunk_etags@, c);
    }
}

/// The chunk loop: while the upload is not paused, step after step uploads
/// the chunks after the completed ones, one number after the other, chunk k
/// holding the archive's bytes from (k - 1) times the chunk size up to k
/// times it or the end of the archive; and the chunks completed at the end
/// are the first ones followed by the uploaded ones, in order, all within
/// one session.
pub proof fn lemma_chunk_loop<M>(
    states: Seq<LocalRecordingPaused<M>>,
    chunks: Seq<CompleteMultipartUploadChunk>,
    file_len: u64,
)
    requires
        states.len() == chunks.len() + 1,
        forall|i: int|
            0 <= i < chunks.len() ==> uploads_chunk(states[i].progress(), file_len, (#[trigger] chunks[i]).chunk_number),
        forall|i: int| 0 <= i < chunks.len() ==> is_chunk_step(states[i], #[trigger] chunks[i], states[i + 1]),
    ensures
        forall|i: int|
            0 <= i < chunks.len() ==> (#[trigger] chunks[i]).chunk_number == next_chunk_of(states[0].progress().chunk_etags@) + i,
        forall|i: int|
            0 <= i < chunks.len() ==> #[trigger] chunk_step_of(states[i].progress(), false, file_len) == ({
                let k = next_chunk_of(states[0].progress().chunk_etags@) + i;
                let cs = states[0].progress().chunk_size_bytes;
                let off = (k - 1) * cs;
                ChunkStep::Upload {
                    chunk_number: k as u64,
                    offset: off as u64,
                    len: (if cs <= file_len - off { cs as int } else { file_len - off }) as u64,
                }
            }),
        states.last().progress().chunk_etags@ == states[0].progress().chunk_etags@ + chunks,
        same_session(states.last().progress(), states[0].progress()),
{
    assert forall|i: int| 0 <= i < chunks.len() implies (#[trigger] chunks[i]).chunk_number == next_chunk_of(
        states[0].progress().chunk_etags@,
    ) + i && chunk_step_of(states[i].progress(), false, file_len) == ({
        let k = next_chunk_of(states[0].progress().chunk_etags@) + i;
        let cs = states[0].progress().chunk_size_bytes;
        let off = (k - 1) * cs;
        ChunkStep::Upload {
            chunk_number: k as u64,
            offset: off as u64,
            len: (if cs <= file_len - off { cs as int } else { file_len - off }) as u64,
        }
    }) by {
        lemma_chunk_loop_prefix(states, chunks, file_len, i);
        assert(uploads_chunk(states[i].progress(), file_len, chunks[i].chunk_number));
    }
    assert forall|i: int| 0 <= i < chunks.len() implies #[trigger] chunk_step_of(states[i].progress(), false, file_len) == ({
        let k = next_chunk_of(states[0].progress().chunk_etags@) + i;
        let cs = states[0].progress().chunk_size_bytes;
        let off = (k - 1) * cs;
        ChunkStep::Upload {
            chunk_number: k as u64,
            offset: off as u64,
            len: (if cs <= file_len - off { cs as int } else { file_len - off }) as u64,
        }
    }) by {
        lemma_chunk_loop_prefix(states, chunks, file_len, i);
        assert(uploads_chunk(states[i].progress(), file_len, chunks[i].chunk_number));
    }
    crate::recording::lemma_chunk_steps_accumulate(states, chunks);
}

} // verus!
