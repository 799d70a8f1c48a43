//! The state of a paused multipart upload, as kept in a recording's
//! `.upload-progress` file: a header line with the session, then one line per
//! chunk that the server has accepted.

use vstd::prelude::*;
use std::path::PathBuf;
use crate::clock::unix_now;

verus! {

#[verifier::external_type_specification]
#[verifier::external_body]
pub struct ExPathBuf(PathBuf);

/// `PathBuf::clone` gives a copy of the same path.
pub assume_specification[ <PathBuf as Clone>::clone ](p: &PathBuf) -> (r: PathBuf)
    ensures
        r == *p,
;

/// A chunk that the server accepted, with the ETag it answered.
#[derive(Debug, Clone, PartialEq, Eq)]
pub struct CompleteMultipartUploadChunk {
    pub chunk_number: u64,
    pub etag: String,
}

impl CompleteMultipartUploadChunk {
    /// A copy of this chunk record.
    pub fn duplicate(&self) -> (r: Self)
        ensures
            r == *self,
    {
        CompleteMultipartUploadChunk { chunk_number: self.chunk_number, etag: self.etag.clone() }
    }
}

/// An upload session that can be resumed.
#[derive(Debug, Clone)]
pub struct UploadProgressState {
    pub upload_id: String,
    pub game_control_id: String,
    pub tar_path: PathBuf,
    pub chunk_etags: Vec<CompleteMultipartUploadChunk>,
    pub total_chunks: u64,
    pub chunk_size_bytes: u64,
    /// Unix timestamp when the upload session expires
    pub expires_at: u64,
}

/// The largest chunk number among `s`, if any.
pub open spec fn max_chunk_number(s: Seq<CompleteMultipartUploadChunk>) -> Option<u64>
    decreases s.len(),
{
    if s.len() == 0 {
        None
    } else {
        let last = s.last().chunk_number;
        match max_chunk_number(s.drop_last()) {
            None => Some(last),
            Some(m) => Some(if m >= last { m } else { last }),
        }
    }
}

/// The chunk to upload after the ones completed: one past the largest, or 1.
pub open spec fn next_chunk_of(s: Seq<CompleteMultipartUploadChunk>) -> int {
    match max_chunk_number(s) {
        None => 1,
        Some(m) => m + 1,
    }
}

/// Some chunk of `s` has number `n`.
pub open spec fn has_chunk(s: Seq<CompleteMultipartUploadChunk>, n: u64) -> bool {
    exists|i: int| 0 <= i < s.len() && (#[trigger] s[i]).chunk_number == n
}

/// No two chunks of `s` have the same number.
pub open spec fn distinct_chunk_numbers(s: Seq<CompleteMultipartUploadChunk>) -> bool {
    forall|i: int, j: int|
        0 <= i < j < s.len() ==> (#[trigger] s[i]).chunk_number != (#[trigger] s[j]).chunk_number
}

/// `existing` followed by each chunk of `incoming` whose number is not taken
/// yet, in order: what reading the chunk lines of a progress file gives.
pub open spec fn merge_chunks(
    existing: Seq<CompleteMultipartUploadChunk>,
    incoming: Seq<CompleteMultipartUploadChunk>,
) -> Seq<CompleteMultipartUploadChunk>
    decreases incoming.len(),
{
    if incoming.len() == 0 {
        existing
    } else {
        let m = merge_chunks(existing, incoming.drop_last());
        if has_chunk(m, incoming.last().chunk_number) {
            m
        } else {
            m.push(incoming.last())
        }
    }
}

/// The two states describe the same session (all fields but the chunks agree).
pub open spec fn same_session(a: UploadProgressState, b: UploadProgressState) -> bool {
    &&& a.upload_id == b.upload_id
    &&& a.game_control_id == b.game_control_id
    &&& a.tar_path == b.tar_path
    &&& a.total_chunks == b.total_chunks
    &&& a.chunk_size_bytes == b.chunk_size_bytes
    &&& a.expires_at == b.expires_at
}

/// `r` is the state that a progress file with header line `header` and chunk
/// lines `chunks` describes.
pub open spec fn loaded_from_records(
    header: UploadProgressState,
    chunks: Seq<CompleteMultipartUploadChunk>,
    r: UploadProgressState,
) -> bool {
    same_session(r, header) && r.chunk_etags@ == merge_chunks(header.chunk_etags@, chunks)
}

/// `header` and `chunks` are the lines that saving `s` writes: the state with no
/// chunks, then every chunk in order.
pub open spec fn saved_records(
    s: UploadProgressState,
    header: UploadProgressState,
    chunks: Seq<CompleteMultipartUploadChunk>,
) -> bool {
    same_session(header, s) && header.chunk_etags@.len() == 0 && chunks == s.chunk_etags@
}

proof fn lemma_has_chunk_max(s: Seq<CompleteMultipartUploadChunk>, n: u64)
    requires
        has_chunk(s, n),
    ensures
        max_chunk_number(s) matches Some(m) && n <= m,
    decreases s.len(),
{
    let i = choose|i: int| 0 <= i < s.len() && (#[trigger] s[i]).chunk_number == n;
    if i < s.len() - 1 {
        assert(s.drop_last()[i] == s[i]);
        lemma_has_chunk_max(s.drop_last(), n);
    }
}

proof fn lemma_max_below(s: Seq<CompleteMultipartUploadChunk>, bound: u64)
    requires
        forall|i: int| 0 <= i < s.len() ==> (#[trigger] s[i]).chunk_number < bound,
    ensures
        max_chunk_number(s) matches Some(m) ==> m < bound,
    decreases s.len(),
{
    if s.len() > 0 {
        assert forall|i: int| 0 <= i < s.drop_last().len() implies (
        #[trigger] s.drop_last()[i]).chunk_number < bound by {
            assert(s.drop_last()[i] == s[i]);
        }
        lemma_max_below(s.drop_last(), bound);
    }
}

/// Loading what saving wrote gives back the saved state, provided no chunk
/// number occurs twice.
pub proof fn lemma_save_then_load(
    s: UploadProgressState,
    header: UploadProgressState,
    chunks: Seq<CompleteMultipartUploadChunk>,
    loaded: UploadProgressState,
)
    requires
        distinct_chunk_numbers(s.chunk_etags@),
        saved_records(s, header, chunks),
        loaded_from_records(header, chunks, loaded),
    ensures
        same_session(loaded, s),
        loaded.chunk_etags@ == s.chunk_etags@,
{
    assert(header.chunk_etags@ =~= Seq::<CompleteMultipartUploadChunk>::empty());
    lemma_merge_distinct_into_empty(chunks);
}

proof fn lemma_merge_distinct_into_empty(t: Seq<CompleteMultipartUploadChunk>)
    requires
        distinct_chunk_numbers(t),
    ensures
        merge_chunks(Seq::empty(), t) == t,
    decreases t.len(),
{
    if t.len() > 0 {
        let d = t.drop_last();
        assert forall|i: int, j: int| 0 <= i < j < d.len() implies (#[trigger] d[i]).chunk_number
            != (#[trigger] d[j]).chunk_number by {
            assert(d[i] == t[i] && d[j] == t[j]);
        }
        lemma_merge_distinct_into_empty(d);
        if has_chunk(d, t.last().chunk_number) {
            let i = choose|i: int| 0 <= i < d.len() && (#[trigger] d[i]).chunk_number
                == t.last().chunk_number;
            assert(d[i] == t[i]);
            assert(t[i].chunk_number != t[t.len() - 1].chunk_number);
        }
        assert(d.push(t.last()) =~= t);
    }
}

impl UploadProgressState {
    /// Create a new upload progress state from a fresh upload session
    pub fn new(
        upload_id: String,
        game_control_id: String,
        tar_path: PathBuf,
        total_chunks: u64,
        chunk_size_bytes: u64,
        expires_at: u64,
    ) -> (r: Self)
        ensures
            r.upload_id == upload_id,
            r.game_control_id == game_control_id,
            r.tar_path == tar_path,
            r.chunk_etags@.len() == 0,
            r.total_chunks == total_chunks,
            r.chunk_size_bytes == chunk_size_bytes,
            r.expires_at == expires_at,
    {
        UploadProgressState {
            upload_id,
            game_control_id,
            tar_path,
            chunk_etags: Vec::new(),
            total_chunks,
            chunk_size_bytes,
            expires_at,
        }
    }

    /// Seconds from Unix time `now` until the session expires, in `i64`
    /// wrapping on overflow.
    pub open spec fn seconds_left_at(&self, now: u64) -> i64 {
        (self.expires_at as i64).wrapping_sub(now as i64)
    }

    /// The session has expired at Unix time `now`.
    pub open spec fn is_expired_at_spec(&self, now: u64) -> bool {
        now >= self.expires_at
    }

    /// Whether the session has expired at Unix time `now`.
    pub fn is_expired_at(&self, now: u64) -> (r: bool)
        ensures
            r == self.is_expired_at_spec(now),
    {
        now >= self.expires_at
    }

    /// Check if the upload session has expired. A clock that reads before the
    /// Unix epoch counts as time 0.
    pub fn is_expired(&self) -> (r: bool)
        ensures
            exists|now: u64| r == self.is_expired_at_spec(now),
    {
        let now = match unix_now() {
            Some(t) => t,
            None => 0,
        };
        self.is_expired_at(now)
    }

    /// Seconds from Unix time `now` until the session expires (negative once
    /// expired): both times taken as `i64`, subtracted with wrap-around on
    /// overflow.
    pub fn seconds_until_expiration_at(&self, now: u64) -> (r: i64)
        ensures
            r == self.seconds_left_at(now),
            self.expires_at <= i64::MAX && now <= i64::MAX ==> r == self.expires_at - now,
    {
        let e = self.expires_at as i64;
        let n = now as i64;
        proof {
            if self.expires_at <= i64::MAX && now <= i64::MAX {
                assert(e == self.expires_at && n == now);
            }
        }
        e.wrapping_sub(n)
    }

    /// Get the number of seconds until expiration. A clock that reads before the
    /// Unix epoch counts as time 0.
    pub fn seconds_until_expiration(&self) -> (r: i64)
        ensures
            exists|now: u64| r == self.seconds_left_at(now),
    {
        let now = match unix_now() {
            Some(t) => t,
            None => 0,
        };
        self.seconds_until_expiration_at(now)
    }

    /// Get the next chunk number to upload (after the last completed chunk)
    pub fn next_chunk_number(&self) -> (r: u64)
        requires
            forall|i: int|
                0 <= i < self.chunk_etags@.len() ==> (#[trigger] self.chunk_etags@[i]).chunk_number
                    < u64::MAX,
        ensures
            r == next_chunk_of(self.chunk_etags@),
    {
        let mut best: Option<u64> = None;
        let mut i: usize = 0;
        while i < self.chunk_etags.len()
            invariant
                i <= self.chunk_etags@.len(),
                best == max_chunk_number(self.chunk_etags@.subrange(0, i as int)),
            decreases self.chunk_etags@.len() - i,
        {
            let n = self.chunk_etags[i].chunk_number;
            let ghost pre = self.chunk_etags@.subrange(0, i as int);
            assert(self.chunk_etags@.subrange(0, i + 1).drop_last() =~= pre);
            best = match best {
                None => Some(n),
                Some(m) => Some(if m >= n { m } else { n }),
            };
            i += 1;
        }
        assert(self.chunk_etags@.subrange(0, self.chunk_etags@.len() as int) =~= self.chunk_etags@);
        proof {
            lemma_max_below(self.chunk_etags@, u64::MAX);
        }
        match best {
            None => 1,
            Some(m) => m + 1,
        }
    }

    /// Get the total number of bytes uploaded so far
    pub fn uploaded_bytes(&self) -> (r: u64)
        requires
            self.chunk_etags@.len() * self.chunk_size_bytes <= u64::MAX,
        ensures
            r == self.chunk_etags@.len() * self.chunk_size_bytes,
    {
        self.chunk_etags.len() as u64 * self.chunk_size_bytes
    }

    /// The lines that saving writes: this state without chunks (the header
    /// line), then each chunk in order.
    pub fn save_records(&self) -> (r: (UploadProgressState, Vec<CompleteMultipartUploadChunk>))
        ensures
            saved_records(*self, r.0, r.1@),
    {
        let mut chunks: Vec<CompleteMultipartUploadChunk> = Vec::new();
        let mut i: usize = 0;
        while i < self.chunk_etags.len()
            invariant
                i <= self.chunk_etags@.len(),
                chunks@ == self.chunk_etags@.subrange(0, i as int),
            decreases self.chunk_etags@.len() - i,
        {
            chunks.push(self.chunk_etags[i].duplicate());
            i += 1;
            assert(chunks@ =~= self.chunk_etags@.subrange(0, i as int));
        }
        assert(chunks@ =~= self.chunk_etags@);
        let header = UploadProgressState {
            upload_id: self.upload_id.clone(),
            game_control_id: self.game_control_id.clone(),
            tar_path: self.tar_path.clone(),
            chunk_etags: Vec::new(),
            total_chunks: self.total_chunks,
            chunk_size_bytes: self.chunk_size_bytes,
            expires_at: self.expires_at,
        };
        (header, chunks)
    }

    /// The state that a progress file describes: its header line, with each
    /// chunk line added unless a chunk with that number is already there.
    pub fn load_from_records(header: UploadProgressState, chunks: Vec<CompleteMultipartUploadChunk>) -> (r: UploadProgressState)
        ensures
            loaded_from_records(header, chunks@, r),
    {
        let ghost orig = chunks@;
        let mut state = header;
        let ghost h = state;
        let mut rest = chunks;
        let ghost mut n: int = 0;
        while rest.len() > 0
            invariant
                0 <= n <= orig.len(),
                rest@ == orig.subrange(n, orig.len() as int),
                same_session(state, h),
                state.chunk_etags@ == merge_chunks(h.chunk_etags@, orig.subrange(0, n)),
            decreases rest@.len(),
        {
            let c = rest.remove(0);
            assert(orig.subrange(0, n + 1).drop_last() =~= orig.subrange(0, n));
            assert(orig.subrange(0, n + 1).last() == c);
            let mut found = false;
            let mut k: usize = 0;
            while k < state.chunk_etags.len()
                invariant
                    k <= state.chunk_etags@.len(),
                    found == exists|q: int| 0 <= q < k && (#[trigger] state.chunk_etags@[q]).chunk_number == c.chunk_number,
                decreases state.chunk_etags@.len() - k,
            {
                if state.chunk_etags[k].chunk_number == c.chunk_number {
                    found = true;
                }
                k += 1;
            }
            if !found {
                state.chunk_etags.push(c);
            }
            proof {
                n = n + 1;
                assert(rest@ =~= orig.subrange(n, orig.len() as int));
            }
        }
        assert(orig.subrange(0, n) =~= orig);
        state
    }
}

} // verus!
