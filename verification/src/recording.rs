//! Recordings on disk: how a recording folder is classified from the marker
//! files it holds, and how the recordings of a folder are listed.

use vstd::prelude::*;
use std::path::PathBuf;
use crate::progress::{
    CompleteMultipartUploadChunk, UploadProgressState, max_chunk_number, next_chunk_of,
};
use crate::sort::{KeyOrder, is_stable_sort_of, stable_sort_by_key};
use crate::text::{lines, lines_of, parse_u64, parse_u64_of, trim, trim_of, views};

verus! {

/// What identifies a recording folder, and its size.
#[derive(Debug, Clone)]
pub struct LocalRecordingInfo {
    pub folder_name: String,
    pub folder_path: PathBuf,
    pub folder_size: u64,
    /// Seconds since the Unix epoch, read from the folder name
    pub timestamp: Option<u64>,
}

impl LocalRecordingInfo {
    /// The info of a folder: its name is the Unix time (in seconds) at which it
    /// was created, when it parses as one.
    pub fn from_folder(folder_name: String, folder_path: PathBuf, folder_size: u64) -> (r: Self)
        ensures
            r.folder_name == folder_name,
            r.folder_path == folder_path,
            r.folder_size == folder_size,
            r.timestamp == parse_u64_of(folder_name@),
    {
        let timestamp = parse_u64(folder_name.as_str());
        LocalRecordingInfo { folder_name, folder_path, folder_size, timestamp }
    }
}

/// A recording that has a paused upload in progress.
#[derive(Debug, Clone)]
pub struct LocalRecordingPaused<M> {
    pub info: LocalRecordingInfo,
    pub metadata: Option<Box<M>>,
    upload_progress: UploadProgressState,
}

/// `b` is `a` after recording `chunk`: the same recording and session, with
/// the chunk added at the end of the completed chunks.
pub open spec fn is_chunk_step<M>(a: LocalRecordingPaused<M>, chunk: CompleteMultipartUploadChunk, b: LocalRecordingPaused<M>) -> bool {
    &&& b.paused_info() == a.paused_info()
    &&& b.paused_metadata() == a.paused_metadata()
    &&& b.progress().chunk_etags@ == a.progress().chunk_etags@.push(chunk)
    &&& crate::progress::same_session(b.progress(), a.progress())
}

/// Recording chunks one after another keeps the recording and its session,
/// and the completed chunks become the first ones followed by the recorded
/// ones, in order.
pub proof fn lemma_chunk_steps_accumulate<M>(
    states: Seq<LocalRecordingPaused<M>>,
    chunks: Seq<CompleteMultipartUploadChunk>,
)
    requires
        states.len() == chunks.len() + 1,
        forall|i: int| 0 <= i < chunks.len() ==> is_chunk_step(states[i], #[trigger] chunks[i], states[i + 1]),
    ensures
        states.last().paused_info() == states[0].paused_info(),
        states.last().paused_metadata() == states[0].paused_metadata(),
        crate::progress::same_session(states.last().progress(), states[0].progress()),
        states.last().progress().chunk_etags@ == states[0].progress().chunk_etags@ + chunks,
    decreases chunks.len(),
{
    if chunks.len() == 0 {
        assert(states[0].progress().chunk_etags@ + chunks =~= states[0].progress().chunk_etags@);
    } else {
        let n = chunks.len() - 1;
        let s2 = states.drop_last();
        let c2 = chunks.drop_last();
        assert forall|i: int| 0 <= i < c2.len() implies is_chunk_step(s2[i], #[trigger] c2[i], s2[i + 1]) by {
            assert(c2[i] == chunks[i] && s2[i] == states[i] && s2[i + 1] == states[i + 1]);
        }
        lemma_chunk_steps_accumulate(s2, c2);
        assert(is_chunk_step(states[n], chunks[n], states[n + 1]));
        assert(s2.last() == states[n]);
        assert(states[0].progress().chunk_etags@ + chunks =~= (states[0].progress().chunk_etags@ + c2).push(chunks[n]));
    }
}

impl<M> LocalRecordingPaused<M> {
    /// The upload progress state of this paused recording.
    pub closed spec fn progress(self) -> UploadProgressState {
        self.upload_progress
    }

    /// The info of this paused recording.
    pub closed spec fn paused_info(self) -> LocalRecordingInfo {
        self.info
    }

    /// The metadata of this paused recording.
    pub closed spec fn paused_metadata(self) -> Option<Box<M>> {
        self.metadata
    }

    pub fn new(info: LocalRecordingInfo, metadata: Option<Box<M>>, upload_progress: UploadProgressState) -> (r: Self)
        ensures
            r.paused_info() == info,
            r.paused_metadata() == metadata,
            r.progress() == upload_progress,
    {
        LocalRecordingPaused { info, metadata, upload_progress }
    }

    /// Get a reference to the upload progress state.
    pub fn upload_progress(&self) -> (r: &UploadProgressState)
        ensures
            *r == self.progress(),
    {
        &self.upload_progress
    }

    /// Records a chunk that the server accepted (in memory; the caller appends
    /// the same chunk to the progress file).
    pub fn record_chunk_completion(&mut self, chunk: CompleteMultipartUploadChunk)
        ensures
            is_chunk_step(*old(self), chunk, *final(self)),
    {
        self.upload_progress.chunk_etags.push(chunk);
    }

    /// The recording once its upload is complete.
    pub fn into_uploaded(self, game_control_id: String) -> (r: LocalRecording<M>)
        ensures
            r == (LocalRecording::<M>::Uploaded { info: self.paused_info(), game_control_id }),
    {
        LocalRecording::Uploaded { info: self.info, game_control_id }
    }

    /// The recording once the server has refused it, with one error reason per
    /// line of the server's message.
    pub fn into_server_invalid(self, message: &str) -> (r: LocalRecording<M>)
        ensures
            r matches LocalRecording::Invalid { info, metadata, error_reasons, by_server } && info
                == self.paused_info() && metadata == self.paused_metadata() && views(error_reasons@) == lines_of(
                message@,
            ) && by_server,
    {
        LocalRecording::Invalid {
            info: self.info,
            metadata: self.metadata,
            error_reasons: lines(message),
            by_server: true,
        }
    }
}

/// Recording a chunk moves the next chunk to upload past it, and adds one chunk
/// to the bytes uploaded.
pub proof fn lemma_record_chunk_advances(s: Seq<CompleteMultipartUploadChunk>, c: CompleteMultipartUploadChunk)
    ensures
        next_chunk_of(s.push(c)) == (if next_chunk_of(s) >= c.chunk_number + 1 {
            next_chunk_of(s)
        } else {
            c.chunk_number + 1
        }),
        s.push(c).len() == s.len() + 1,
{
    assert(s.push(c).drop_last() =~= s);
}

/// A recording folder, by what it holds.
#[derive(Debug, Clone)]
pub enum LocalRecording<M> {
    Invalid {
        info: LocalRecordingInfo,
        metadata: Option<Box<M>>,
        error_reasons: Vec<String>,
        by_server: bool,
    },
    Unuploaded { info: LocalRecordingInfo, metadata: Option<Box<M>> },
    Paused(LocalRecordingPaused<M>),
    Uploaded { info: LocalRecordingInfo, game_control_id: String },
}

impl<M> LocalRecording<M> {
    /// The info of any recording variant.
    pub open spec fn info_of(self) -> LocalRecordingInfo {
        match self {
            LocalRecording::Invalid { info, .. } => info,
            LocalRecording::Unuploaded { info, .. } => info,
            LocalRecording::Paused(p) => p.paused_info(),
            LocalRecording::Uploaded { info, .. } => info,
        }
    }

    /// The metadata of any recording variant (uploaded recordings keep none).
    pub open spec fn metadata_of(self) -> Option<Box<M>> {
        match self {
            LocalRecording::Invalid { metadata, .. } => metadata,
            LocalRecording::Unuploaded { metadata, .. } => metadata,
            LocalRecording::Paused(p) => p.paused_metadata(),
            LocalRecording::Uploaded { .. } => None,
        }
    }

    /// A recording folder created for a new recording: no content yet.
    pub fn created(folder_name: String, folder_path: PathBuf) -> (r: Self)
        ensures
            r matches LocalRecording::Unuploaded { info, metadata } && metadata is None
                && info.folder_name == folder_name && info.folder_path == folder_path
                && info.folder_size == 0 && info.timestamp == parse_u64_of(folder_name@),
    {
        LocalRecording::Unuploaded {
            info: LocalRecordingInfo::from_folder(folder_name, folder_path, 0),
            metadata: None,
        }
    }

    /// Get the common info for any recording variant
    pub fn info(&self) -> (r: &LocalRecordingInfo)
        ensures
            *r == self.info_of(),
    {
        match self {
            LocalRecording::Invalid { info, .. } => info,
            LocalRecording::Unuploaded { info, .. } => info,
            LocalRecording::Paused(paused) => &paused.info,
            LocalRecording::Uploaded { info, .. } => info,
        }
    }

    /// Get the metadata for any recording variant
    pub fn metadata(&self) -> (r: Option<&M>)
        ensures
            match r {
                Some(m) => self.metadata_of() == Some(Box::new(*m)),
                None => self.metadata_of() is None,
            },
    {
        match self {
            LocalRecording::Invalid { metadata, .. } => match metadata {
                Some(b) => Some(&**b),
                None => None,
            },
            LocalRecording::Unuploaded { metadata, .. } => match metadata {
                Some(b) => Some(&**b),
                None => None,
            },
            LocalRecording::Paused(paused) => match &paused.metadata {
                Some(b) => Some(&**b),
                None => None,
            },
            LocalRecording::Uploaded { .. } => None,
        }
    }

    /// Convenience accessor for error reasons (only for Invalid variant)
    pub fn error_reasons(&self) -> (r: Option<&[String]>)
        ensures
            match r {
                Some(e) => self matches LocalRecording::Invalid { error_reasons, .. } && e@
                    == error_reasons@,
                None => !(self is Invalid),
            },
    {
        match self {
            LocalRecording::Invalid { error_reasons, .. } => Some(error_reasons.as_slice()),
            _ => None,
        }
    }
}


/// What a marker file of a recording folder holds, as read from disk.
#[derive(Debug, Clone)]
pub enum MarkerFile {
    /// There is no such file.
    Absent,
    /// The file is there but could not be read as text.
    Unreadable,
    Text(String),
}

/// The upload progress file of a recording folder, as read from disk.
#[derive(Debug, Clone)]
pub enum ProgressFile {
    Absent,
    /// The file is there but does not describe an upload session.
    Corrupted,
    Loaded(UploadProgressState),
}

/// What was read from a recording folder on disk.
#[derive(Debug, Clone)]
pub struct FolderScan<M> {
    pub is_dir: bool,
    /// The folder's file name, when it has one that is valid UTF-8
    pub folder_name: Option<String>,
    pub folder_path: PathBuf,
    /// The total size of all files in the folder
    pub folder_size: u64,
    pub uploaded: MarkerFile,
    pub invalid: MarkerFile,
    pub server_invalid: MarkerFile,
    pub upload_progress: ProgressFile,
    /// The parsed metadata file, when it could be read and parsed
    pub metadata: Option<Box<M>>,
}

/// The text of a marker file, or `fallback` when it could not be read.
pub open spec fn marker_text(m: MarkerFile, fallback: Seq<char>) -> Seq<char> {
    match m {
        MarkerFile::Text(s) => s@,
        _ => fallback,
    }
}

/// The folder name, or `"Unknown"`.
pub open spec fn folder_name_text(name: Option<String>) -> Seq<char> {
    match name {
        Some(s) => s@,
        None => "Unknown"@,
    }
}

/// `info` describes the scanned folder.
pub open spec fn info_of_scan<M>(scan: FolderScan<M>, info: LocalRecordingInfo) -> bool {
    &&& info.folder_name@ == folder_name_text(scan.folder_name)
    &&& info.folder_path == scan.folder_path
    &&& info.folder_size == scan.folder_size
    &&& info.timestamp == parse_u64_of(info.folder_name@)
}

/// `r` is what the scanned folder is: nothing when it is not a directory; else
/// uploaded when it has an uploaded marker (whose trimmed text is the game
/// control id); else invalid when it has an invalid marker, or one the server
/// wrote (one error reason per line); else paused when its upload progress
/// loaded; else not uploaded.
pub open spec fn is_classification<M>(scan: FolderScan<M>, r: Option<LocalRecording<M>>) -> bool {
    if !scan.is_dir {
        r is None
    } else {
        match r {
            None => false,
            Some(rec) => info_of_scan(scan, rec.info_of()) && if !(scan.uploaded is Absent) {
                rec matches LocalRecording::Uploaded { game_control_id, .. } && game_control_id@
                    == trim_of(marker_text(scan.uploaded, "unknown"@))
            } else if !(scan.invalid is Absent) {
                rec matches LocalRecording::Invalid { metadata, error_reasons, by_server, .. }
                    && metadata == scan.metadata && views(error_reasons@) == lines_of(
                    marker_text(scan.invalid, "Unknown error"@),
                ) && !by_server
            } else if !(scan.server_invalid is Absent) {
                rec matches LocalRecording::Invalid { metadata, error_reasons, by_server, .. }
                    && metadata == scan.metadata && views(error_reasons@) == lines_of(
                    marker_text(scan.server_invalid, "Unknown error"@),
                ) && by_server
            } else {
                match scan.upload_progress {
                    ProgressFile::Loaded(state) => rec matches LocalRecording::Paused(p)
                        && p.paused_metadata() == scan.metadata && p.progress() == state,
                    _ => rec matches LocalRecording::Unuploaded { metadata, .. } && metadata
                        == scan.metadata,
                }
            },
        }
    }
}

/// What a readable marker says reaches the recording: the uploaded marker's
/// text, trimmed, is the game control id; the invalid and server-invalid
/// markers' texts give one error reason per line, with `by_server` telling
/// which of them it was. Readable markers never give way to a fallback text.
pub proof fn lemma_marker_texts_reach_recording<M>(scan: FolderScan<M>, rec: LocalRecording<M>)
    requires
        is_classification(scan, Some(rec)),
    ensures
        scan.uploaded is Text ==> (rec matches LocalRecording::Uploaded { game_control_id, .. }
            && game_control_id@ == trim_of(scan.uploaded->Text_0@)),
        scan.uploaded is Absent && scan.invalid is Text ==> (
        rec matches LocalRecording::Invalid { error_reasons, by_server, .. } && views(
            error_reasons@,
        ) == lines_of(scan.invalid->Text_0@) && !by_server),
        scan.uploaded is Absent && scan.invalid is Absent && scan.server_invalid is Text ==> (
        rec matches LocalRecording::Invalid { error_reasons, by_server, .. } && views(
            error_reasons@,
        ) == lines_of(scan.server_invalid->Text_0@) && by_server),
        (scan.uploaded is Absent && scan.invalid is Absent && scan.server_invalid is Absent) ==> (
        rec is Paused <==> scan.upload_progress is Loaded),
{
}

fn marker_or(m: MarkerFile, fallback: &str) -> (r: String)
    ensures
        r@ == marker_text(m, fallback@),
{
    match m {
        MarkerFile::Text(s) => s,
        _ => String::from_str(fallback),
    }
}

impl<M> LocalRecording<M> {
    /// Classifies a scanned recording folder by the marker files it holds.
    pub fn from_scan(scan: FolderScan<M>) -> (r: Option<LocalRecording<M>>)
        ensures
            is_classification(scan, r),
    {
        let ghost sc = scan;
        if !scan.is_dir {
            return None;
        }
        let folder_name = match scan.folder_name {
            Some(n) => n,
            None => String::from_str("Unknown"),
        };
        let info = LocalRecordingInfo::from_folder(folder_name, scan.folder_path, scan.folder_size);
        let rec = match scan.uploaded {
            MarkerFile::Absent => {
                match scan.invalid {
                    MarkerFile::Absent => {
                        match scan.server_invalid {
                            MarkerFile::Absent => match scan.upload_progress {
                                ProgressFile::Loaded(state) => LocalRecording::Paused(
                                    LocalRecordingPaused::new(info, scan.metadata, state),
                                ),
                                _ => LocalRecording::Unuploaded { info, metadata: scan.metadata },
                            },
                            m => {
                                let text = marker_or(m, "Unknown error");
                                LocalRecording::Invalid {
                                    info,
                                    metadata: scan.metadata,
                                    error_reasons: lines(text.as_str()),
                                    by_server: true,
                                }
                            },
                        }
                    },
                    m => {
                        let text = marker_or(m, "Unknown error");
                        LocalRecording::Invalid {
                            info,
                            metadata: scan.metadata,
                            error_reasons: lines(text.as_str()),
                            by_server: false,
                        }
                    },
                }
            },
            m => {
                let text = marker_or(m, "unknown");
                LocalRecording::Uploaded { info, game_control_id: trim(text.as_str()) }
            },
        };
        Some(rec)
    }
}

/// Orders recordings most recent first: by the Unix time of the folder name,
/// largest first, with folders whose name is no time counting as time 0.
pub struct RecencyKey {
    pub secs: u64,
}

impl KeyOrder for RecencyKey {
    open spec fn key_le(self, other: Self) -> bool {
        self.secs >= other.secs
    }

    proof fn lemma_key_le_total(a: Self, b: Self) {
    }

    proof fn lemma_key_le_trans(a: Self, b: Self, c: Self) {
    }

    fn le(&self, other: &Self) -> (r: bool) {
        self.secs >= other.secs
    }
}

/// The time by which a recording is ordered.
pub open spec fn recency_secs<M>(r: LocalRecording<M>) -> u64 {
    match r.info_of().timestamp {
        Some(t) => t,
        None => 0,
    }
}

/// Each recording paired with its recency key.
pub open spec fn keyed_by_recency<M>(s: Seq<LocalRecording<M>>) -> Seq<(RecencyKey, LocalRecording<M>)> {
    s.map_values(|r: LocalRecording<M>| (RecencyKey { secs: recency_secs(r) }, r))
}

/// `recs` are the classifications, in order, of the scanned folders that are
/// directories.
pub open spec fn classified_all<M>(scans: Seq<FolderScan<M>>, recs: Seq<LocalRecording<M>>) -> bool
    decreases scans.len(),
{
    if scans.len() == 0 {
        recs.len() == 0
    } else if !scans.last().is_dir {
        classified_all(scans.drop_last(), recs)
    } else {
        &&& recs.len() > 0
        &&& is_classification(scans.last(), Some(recs.last()))
        &&& classified_all(scans.drop_last(), recs.drop_last())
    }
}

/// `r` lists the recordings of the scanned folders: each one that is a
/// directory, classified, sorted stably by recency.
pub open spec fn is_scan_listing<M>(scans: Seq<FolderScan<M>>, r: Seq<LocalRecording<M>>) -> bool {
    exists|recs: Seq<LocalRecording<M>>, sorted: Seq<(RecencyKey, LocalRecording<M>)>|
        classified_all(scans, recs) && is_stable_sort_of(sorted, keyed_by_recency(recs)) && r
            == sorted.map_values(|p: (RecencyKey, LocalRecording<M>)| p.1)
}

/// A listing of scanned folders runs most recent first: no recording's time
/// (from its folder name, 0 when there is none) is below that of one after it.
pub proof fn lemma_scan_listing_newest_first<M>(scans: Seq<FolderScan<M>>, r: Seq<LocalRecording<M>>)
    requires
        is_scan_listing(scans, r),
    ensures
        forall|i: int, j: int|
            0 <= i < j < r.len() ==> recency_secs(#[trigger] r[i]) >= recency_secs(#[trigger] r[j]),
{
    let (recs, sorted) = choose|recs: Seq<LocalRecording<M>>, sorted: Seq<(RecencyKey, LocalRecording<M>)>|
        classified_all(scans, recs) && is_stable_sort_of(sorted, keyed_by_recency(recs)) && r
            == sorted.map_values(|p: (RecencyKey, LocalRecording<M>)| p.1);
    let keyed = keyed_by_recency(recs);
    crate::sort::lemma_stable_sort_same_items(sorted, keyed);
    assert forall|i: int| 0 <= i < sorted.len() implies (#[trigger] sorted[i]).0.secs == recency_secs(
        sorted[i].1,
    ) by {
        assert(keyed.contains(sorted[i]));
        let m = choose|m: int| 0 <= m < keyed.len() && keyed[m] == sorted[i];
    }
    assert forall|i: int, j: int| 0 <= i < j < r.len() implies recency_secs(#[trigger] r[i])
        >= recency_secs(#[trigger] r[j]) by {
        assert(sorted[i].0.key_le(sorted[j].0));
        assert(r[i] == sorted[i].1 && r[j] == sorted[j].1);
    }
}

/// A listing of scanned folders holds the classified folders, each as often as
/// it was classified: the listing is a permutation of them.
pub proof fn lemma_scan_listing_permutes<M>(scans: Seq<FolderScan<M>>, r: Seq<LocalRecording<M>>)
    requires
        is_scan_listing(scans, r),
    ensures
        exists|recs: Seq<LocalRecording<M>>|
            classified_all(scans, recs) && #[trigger] r.to_multiset() == recs.to_multiset(),
{
    let (recs, sorted) = choose|recs: Seq<LocalRecording<M>>, sorted: Seq<(RecencyKey, LocalRecording<M>)>|
        classified_all(scans, recs) && is_stable_sort_of(sorted, keyed_by_recency(recs)) && r
            == sorted.map_values(|p: (RecencyKey, LocalRecording<M>)| p.1);
    let keyed = keyed_by_recency(recs);
    let f = |p: (RecencyKey, LocalRecording<M>)| p.1;
    let g = |x: LocalRecording<M>| (RecencyKey { secs: recency_secs(x) }, x);
    crate::sort::lemma_stable_sort_same_items(sorted, keyed);
    assert forall|i: int| 0 <= i < keyed.len() implies g(f(#[trigger] keyed[i])) == keyed[i] by {}
    assert forall|i: int| 0 <= i < sorted.len() implies g(f(#[trigger] sorted[i])) == sorted[i] by {
        assert(keyed.contains(sorted[i]));
        let m = choose|m: int| 0 <= m < keyed.len() && keyed[m] == sorted[i];
        assert(g(f(keyed[m])) == keyed[m]);
    }
    assert(keyed.map_values(f) =~= recs);
    assert forall|y: LocalRecording<M>| r.to_multiset().count(y) == recs.to_multiset().count(y) by {
        crate::sort::lemma_map_values_count(sorted, f, g, y);
        crate::sort::lemma_map_values_count(keyed, f, g, y);
    }
    assert(r.to_multiset() =~= recs.to_multiset());
}

impl<M> LocalRecording<M> {
    /// The recordings of a recording folder, most recent first: each scanned
    /// folder that is a directory, classified, sorted stably by recency.
    pub fn scan_directory(scans: Vec<FolderScan<M>>) -> (r: Vec<LocalRecording<M>>)
        ensures
            is_scan_listing(scans@, r@),
    {
        let ghost orig = scans@;
        let mut rest = scans;
        let mut keyed: Vec<(RecencyKey, LocalRecording<M>)> = Vec::new();
        let ghost mut recs: Seq<LocalRecording<M>> = Seq::empty();
        let ghost mut n: int = 0;
        while rest.len() > 0
            invariant
                0 <= n <= orig.len(),
                rest@ == orig.subrange(n, orig.len() as int),
                classified_all(orig.subrange(0, n), recs),
                keyed@ == keyed_by_recency(recs),
            decreases rest@.len(),
        {
            let scan = rest.remove(0);
            let ghost sc = scan;
            let ghost old_recs = recs;
            assert(orig.subrange(0, n + 1).drop_last() =~= orig.subrange(0, n));
            assert(orig.subrange(0, n + 1).last() == scan);
            let res = Self::from_scan(scan);
            match res {
                Some(rec) => {
                    let secs = match rec.info().timestamp {
                        Some(t) => t,
                        None => 0,
                    };
                    proof {
                        recs = recs.push(rec);
                        assert(recs.drop_last() =~= old_recs);
                        assert(recs.last() == rec);
                        assert(is_classification(sc, Some(rec)));
                        assert(sc.is_dir);
                    }
                    keyed.push((RecencyKey { secs }, rec));
                    assert(keyed@ =~= keyed_by_recency(recs));
                },
                None => {
                    assert(!sc.is_dir);
                },
            }
            assert(classified_all(orig.subrange(0, n + 1), recs));
            proof {
                n = n + 1;
                assert(rest@ =~= orig.subrange(n, orig.len() as int));
            }
        }
        assert(orig.subrange(0, n) =~= orig);
        let ghost kv = keyed@;
        let sorted = stable_sort_by_key(keyed);
        let ghost sv = sorted@;
        let mut rest = sorted;
        let mut out: Vec<LocalRecording<M>> = Vec::new();
        let ghost mut k: int = 0;
        while rest.len() > 0
            invariant
                0 <= k <= sv.len(),
                rest@ == sv.subrange(k, sv.len() as int),
                out@ == sv.subrange(0, k).map_values(|p: (RecencyKey, LocalRecording<M>)| p.1),
            decreases rest@.len(),
        {
            let p = rest.remove(0);
            let ghost old_out = out@;
            out.push(p.1);
            proof {
                assert(sv.subrange(0, k + 1) =~= sv.subrange(0, k).push(p));
                assert(out@ =~= sv.subrange(0, k + 1).map_values(
                    |p: (RecencyKey, LocalRecording<M>)| p.1,
                ));
                k = k + 1;
                assert(rest@ =~= sv.subrange(k, sv.len() as int));
            }
        }
        assert(sv.subrange(0, k) =~= sv);
        assert(classified_all(orig, recs) && is_stable_sort_of(sv, keyed_by_recency(recs))
            && out@ == sv.map_values(|p: (RecencyKey, LocalRecording<M>)| p.1));
        out
    }
}

/// The recordings that a bulk deletion removes.
#[derive(Clone, Copy, PartialEq, Eq, Debug, Structural)]
pub enum RecordingKind {
    /// Recordings found invalid, locally or by the server
    Invalid,
    /// Recordings that have been uploaded
    Uploaded,
}

/// The recording is of the kind.
pub open spec fn is_of_kind<M>(kind: RecordingKind) -> spec_fn(LocalRecording<M>) -> bool {
    |r: LocalRecording<M>| match kind {
        RecordingKind::Invalid => r is Invalid,
        RecordingKind::Uploaded => r is Uploaded,
    }
}

/// The recordings of the given kind, in their order.
pub fn recordings_of_kind<M>(recs: Vec<LocalRecording<M>>, kind: RecordingKind) -> (r: Vec<LocalRecording<M>>)
    ensures
        r@ == recs@.filter(is_of_kind(kind)),
{
    let ghost orig = recs@;
    let ghost p = is_of_kind::<M>(kind);
    let mut rest = recs;
    let mut out: Vec<LocalRecording<M>> = Vec::new();
    let ghost mut n: int = 0;
    while rest.len() > 0
        invariant
            0 <= n <= orig.len(),
            p == is_of_kind::<M>(kind),
            rest@ == orig.subrange(n, orig.len() as int),
            out@ == orig.take(n).filter(p),
        decreases rest@.len(),
    {
        let rec = rest.remove(0);
        proof {
            crate::recordings::lemma_filter_step(orig, p, n);
        }
        let keep = match (&rec, kind) {
            (LocalRecording::Invalid { .. }, RecordingKind::Invalid) => true,
            (LocalRecording::Uploaded { .. }, RecordingKind::Uploaded) => true,
            _ => false,
        };
        if keep {
            out.push(rec);
        }
        proof {
            n = n + 1;
            assert(rest@ =~= orig.subrange(n, orig.len() as int));
        }
    }
    assert(orig.take(n) =~= orig);
    out
}

} // verus!
