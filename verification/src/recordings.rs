//! The upload tracker's list: the user's uploads on the server and the local
//! recordings, merged newest first, narrowed to a range of days, with the
//! figures shown above it.

use vstd::prelude::*;
use crate::recording::{LocalRecording, recency_secs};
use crate::sort::{
    KeyOrder, is_stable_sort_of, lemma_map_values_count, lemma_stable_sort_same_items,
    stable_sort_by_key,
};

verus! {

/// Nanoseconds in a day.
pub const NANOS_PER_DAY: i128 = 86_400_000_000_000;

/// An upload on the server, as the tracker lists it.
pub struct UserUpload {
    pub id: String,
    pub filename: String,
    pub content_type: String,
    /// When the upload was created: nanoseconds since the Unix epoch, UTC
    pub created_at_nanos: i128,
    pub file_size_bytes: u64,
    pub verified: bool,
}

/// Where an entry of the tracker lives: the n-th upload or the n-th local recording.
#[derive(Debug, Clone, Copy, PartialEq, Eq, Structural)]
pub enum RecordingIndex {
    Uploaded(usize),
    Local(usize),
}

/// An entry of the tracker.
pub enum Recording<'a, M> {
    Uploaded(&'a UserUpload),
    Local(&'a LocalRecording<M>),
}

/// The time of a local recording, in nanoseconds since the epoch (the epoch
/// itself when its folder name is no timestamp).
pub open spec fn local_nanos<M>(r: LocalRecording<M>) -> int {
    recency_secs(r) * 1_000_000_000
}

/// The index points into one of the two lists.
pub open spec fn index_valid<M>(ups: Seq<UserUpload>, locs: Seq<LocalRecording<M>>, ri: RecordingIndex) -> bool {
    match ri {
        RecordingIndex::Uploaded(i) => i < ups.len(),
        RecordingIndex::Local(i) => i < locs.len(),
    }
}

/// The time of the entry at `ri`, in nanoseconds since the epoch.
pub open spec fn entry_nanos<M>(ups: Seq<UserUpload>, locs: Seq<LocalRecording<M>>, ri: RecordingIndex) -> int {
    match ri {
        RecordingIndex::Uploaded(i) => ups[i as int].created_at_nanos as int,
        RecordingIndex::Local(i) => local_nanos(locs[i as int]),
    }
}

/// The UTC day (days since 1970-01-01) of a time in nanoseconds since the epoch.
pub open spec fn day_of(nanos: int) -> int {
    nanos / (NANOS_PER_DAY as int)
}

/// The day lies within the optional bounds, both inclusive.
pub open spec fn in_date_range(start: Option<i64>, end: Option<i64>, day: int) -> bool {
    &&& (match start {
        Some(s) => day >= s,
        None => true,
    })
    &&& (match end {
        Some(e) => day <= e,
        None => true,
    })
}

/// Sort key that puts later times first.
pub struct Newest {
    pub nanos: i128,
}

impl KeyOrder for Newest {
    open spec fn key_le(self, other: Self) -> bool {
        self.nanos >= other.nanos
    }

    proof fn lemma_key_le_total(a: Self, b: Self) {
    }

    proof fn lemma_key_le_trans(a: Self, b: Self, c: Self) {
    }

    fn le(&self, other: &Self) -> (r: bool) {
        self.nanos >= other.nanos
    }
}

/// Every upload, in order, then every local recording, in order.
pub open spec fn unsorted_indices(nu: nat, nl: nat) -> Seq<RecordingIndex> {
    Seq::new(nu, |i: int| RecordingIndex::Uploaded(i as usize)) + Seq::new(
        nl,
        |i: int| RecordingIndex::Local(i as usize),
    )
}

/// Each index paired with the time of its entry.
pub open spec fn keyed_indices<M>(ups: Seq<UserUpload>, locs: Seq<LocalRecording<M>>) -> Seq<(Newest, RecordingIndex)> {
    unsorted_indices(ups.len(), locs.len()).map_values(
        |ri: RecordingIndex| (Newest { nanos: entry_nanos(ups, locs, ri) as i128 }, ri),
    )
}

/// `all` lists every upload and local recording, newest first; entries of the
/// same time keep their order (uploads before local recordings).
pub open spec fn is_recency_order<M>(
    all: Seq<RecordingIndex>,
    ups: Seq<UserUpload>,
    locs: Seq<LocalRecording<M>>,
) -> bool {
    exists|sorted: Seq<(Newest, RecordingIndex)>|
        is_stable_sort_of(sorted, keyed_indices(ups, locs)) && all == sorted.map_values(
            |p: (Newest, RecordingIndex)| p.1,
        )
}

/// An entry is kept by the date filter: it exists and its day is in range.
pub open spec fn date_pred<M>(
    ups: Seq<UserUpload>,
    locs: Seq<LocalRecording<M>>,
    start: Option<i64>,
    end: Option<i64>,
) -> spec_fn(RecordingIndex) -> bool {
    |ri: RecordingIndex|
        index_valid(ups, locs, ri) && in_date_range(start, end, day_of(entry_nanos(ups, locs, ri)))
}

/// The entry is a local recording that has been uploaded.
pub open spec fn is_local_uploaded<M>(locs: Seq<LocalRecording<M>>, ri: RecordingIndex) -> bool {
    match ri {
        RecordingIndex::Local(i) => locs[i as int] is Uploaded,
        RecordingIndex::Uploaded(_) => false,
    }
}

/// An entry is shown in the list: it exists and is not an uploaded local recording.
pub open spec fn shown_pred<M>(ups: Seq<UserUpload>, locs: Seq<LocalRecording<M>>) -> spec_fn(
    RecordingIndex,
) -> bool {
    |ri: RecordingIndex| index_valid(ups, locs, ri) && !is_local_uploaded(locs, ri)
}

/// The entry is an existing local recording found invalid.
pub open spec fn invalid_pred<M>(ups: Seq<UserUpload>, locs: Seq<LocalRecording<M>>) -> spec_fn(
    RecordingIndex,
) -> bool {
    |ri: RecordingIndex|
        index_valid(ups, locs, ri) && match ri {
            RecordingIndex::Local(i) => locs[i as int] is Invalid,
            RecordingIndex::Uploaded(_) => false,
        }
}

/// The entry is an existing local recording that has been uploaded.
pub open spec fn uploaded_local_pred<M>(ups: Seq<UserUpload>, locs: Seq<LocalRecording<M>>) -> spec_fn(
    RecordingIndex,
) -> bool {
    |ri: RecordingIndex| index_valid(ups, locs, ri) && is_local_uploaded(locs, ri)
}

/// The entry is an existing local recording that still awaits upload (not yet
/// uploaded, or paused).
pub open spec fn pending_pred<M>(ups: Seq<UserUpload>, locs: Seq<LocalRecording<M>>) -> spec_fn(
    RecordingIndex,
) -> bool {
    |ri: RecordingIndex|
        index_valid(ups, locs, ri) && match ri {
            RecordingIndex::Local(i) => locs[i as int] is Unuploaded || locs[i as int] is Paused,
            RecordingIndex::Uploaded(_) => false,
        }
}

/// The entry is an existing upload on the server.
pub open spec fn server_pred<M>(ups: Seq<UserUpload>, locs: Seq<LocalRecording<M>>) -> spec_fn(
    RecordingIndex,
) -> bool {
    |ri: RecordingIndex| index_valid(ups, locs, ri) && ri is Uploaded
}

/// `r` is the latest creation time among the uploads in `s`, `None` when
/// there is none.
pub open spec fn is_latest_upload<M>(
    s: Seq<RecordingIndex>,
    ups: Seq<UserUpload>,
    locs: Seq<LocalRecording<M>>,
    r: Option<i128>,
) -> bool {
    match r {
        None => forall|k: int| 0 <= k < s.len() ==> !server_pred(ups, locs)(#[trigger] s[k]),
        Some(t) => {
            &&& exists|k: int|
                0 <= k < s.len() && server_pred(ups, locs)(#[trigger] s[k]) && entry_nanos(
                    ups,
                    locs,
                    s[k],
                ) == t
            &&& forall|k: int|
                0 <= k < s.len() && server_pred(ups, locs)(#[trigger] s[k]) ==> entry_nanos(
                    ups,
                    locs,
                    s[k],
                ) <= t
        },
    }
}

/// The sum of the sizes of the uploads among `s`.
pub open spec fn uploaded_bytes_of<M>(
    s: Seq<RecordingIndex>,
    ups: Seq<UserUpload>,
    locs: Seq<LocalRecording<M>>,
) -> int
    decreases s.len(),
{
    if s.len() == 0 {
        0
    } else {
        uploaded_bytes_of(s.drop_last(), ups, locs) + if server_pred(ups, locs)(s.last()) {
            ups[s.last()->Uploaded_0 as int].file_size_bytes as int
        } else {
            0
        }
    }
}

/// The sum of the folder sizes of the local recordings among `s` that await upload.
pub open spec fn pending_bytes_of<M>(
    s: Seq<RecordingIndex>,
    ups: Seq<UserUpload>,
    locs: Seq<LocalRecording<M>>,
) -> int
    decreases s.len(),
{
    if s.len() == 0 {
        0
    } else {
        pending_bytes_of(s.drop_last(), ups, locs) + if pending_pred(ups, locs)(s.last()) {
            locs[s.last()->Local_0 as int].info_of().folder_size as int
        } else {
            0
        }
    }
}

pub(crate) proof fn lemma_filter_step<A>(s: Seq<A>, p: spec_fn(A) -> bool, k: int)
    requires
        0 <= k < s.len(),
    ensures
        s.take(k + 1).filter(p) == (if p(s[k]) {
            s.take(k).filter(p).push(s[k])
        } else {
            s.take(k).filter(p)
        }),
{
    reveal(Seq::filter);
    assert(s.take(k + 1).drop_last() =~= s.take(k));
    assert(s.take(k + 1).last() == s[k]);
}

fn is_valid_index<M>(ups: &Vec<UserUpload>, locs: &Vec<LocalRecording<M>>, ri: RecordingIndex) -> (r: bool)
    ensures
        r == index_valid(ups@, locs@, ri),
{
    match ri {
        RecordingIndex::Uploaded(i) => i < ups.len(),
        RecordingIndex::Local(i) => i < locs.len(),
    }
}

fn local_time_nanos<M>(r: &LocalRecording<M>) -> (n: i128)
    ensures
        n == local_nanos(*r),
{
    let secs: u64 = match r.info().timestamp {
        Some(t) => t,
        None => 0,
    };
    assert((secs as int) * 1_000_000_000 <= 18_446_744_073_709_551_615 * 1_000_000_000)
        by (nonlinear_arith)
        requires
            secs <= 18_446_744_073_709_551_615u64,
    ;
    (secs as i128) * 1_000_000_000
}

fn entry_time<M>(ups: &Vec<UserUpload>, locs: &Vec<LocalRecording<M>>, ri: RecordingIndex) -> (n: i128)
    requires
        index_valid(ups@, locs@, ri),
    ensures
        n == entry_nanos(ups@, locs@, ri),
{
    match ri {
        RecordingIndex::Uploaded(i) => ups[i].created_at_nanos,
        RecordingIndex::Local(i) => local_time_nanos(&locs[i]),
    }
}

/// The UTC day of a time in nanoseconds since the epoch (rounding down).
pub fn day_of_nanos(nanos: i128) -> (d: i128)
    ensures
        d == day_of(nanos as int),
{
    if nanos >= 0 {
        nanos / NANOS_PER_DAY
    } else {
        let m: i128 = -(nanos + 1);
        let q: i128 = m / NANOS_PER_DAY;
        assert(q == -(nanos + 1) / (NANOS_PER_DAY as int));
        assert(-q - 1 == (nanos as int) / (NANOS_PER_DAY as int)) by (nonlinear_arith)
            requires
                q == (-(nanos + 1)) / 86_400_000_000_000int,
                nanos < 0,
                NANOS_PER_DAY == 86_400_000_000_000i128,
        ;
        -q - 1
    }
}

fn date_kept(start: Option<i64>, end: Option<i64>, day: i128) -> (r: bool)
    ensures
        r == in_date_range(start, end, day as int),
{
    let after_start = match start {
        Some(s) => day >= s as i128,
        None => true,
    };
    let before_end = match end {
        Some(e) => day <= e as i128,
        None => true,
    };
    after_start && before_end
}

/// Every upload and local recording, newest first (stable).
fn recency_order<M>(ups: &Vec<UserUpload>, locs: &Vec<LocalRecording<M>>) -> (all: Vec<RecordingIndex>)
    ensures
        is_recency_order(all@, ups@, locs@),
{
    let ghost target = keyed_indices(ups@, locs@);
    let ghost unsorted = unsorted_indices(ups@.len(), locs@.len());
    let mut keyed: Vec<(Newest, RecordingIndex)> = Vec::new();
    let mut i: usize = 0;
    while i < ups.len()
        invariant
            i <= ups@.len(),
            target == keyed_indices(ups@, locs@),
            unsorted == unsorted_indices(ups@.len(), locs@.len()),
            keyed@ == target.take(i as int),
        decreases ups@.len() - i,
    {
        let ri = RecordingIndex::Uploaded(i);
        assert(unsorted[i as int] == ri);
        let n = ups[i].created_at_nanos;
        keyed.push((Newest { nanos: n }, ri));
        assert(keyed@ =~= target.take(i + 1));
        i += 1;
    }
    let mut j: usize = 0;
    while j < locs.len()
        invariant
            i == ups@.len(),
            j <= locs@.len(),
            target == keyed_indices(ups@, locs@),
            unsorted == unsorted_indices(ups@.len(), locs@.len()),
            keyed@ == target.take(i + j),
        decreases locs@.len() - j,
    {
        let ri = RecordingIndex::Local(j);
        assert(unsorted[i + j] == ri);
        let n = local_time_nanos(&locs[j]);
        keyed.push((Newest { nanos: n }, ri));
        assert(keyed@ =~= target.take(i + j + 1));
        j += 1;
    }
    assert(keyed@ =~= target);
    let sorted = stable_sort_by_key(keyed);
    let ghost sv = sorted@;
    let mut all: Vec<RecordingIndex> = Vec::new();
    let mut k: usize = 0;
    while k < sorted.len()
        invariant
            k <= sv.len(),
            sorted@ == sv,
            all@ == sv.take(k as int).map_values(|p: (Newest, RecordingIndex)| p.1),
        decreases sv.len() - k,
    {
        all.push(sorted[k].1);
        assert(all@ =~= sv.take(k + 1).map_values(|p: (Newest, RecordingIndex)| p.1));
        k += 1;
    }
    assert(sv.take(sv.len() as int) =~= sv);
    all
}

/// The entries of `all` kept by the date filter, in order.
fn filter_by_date<M>(
    all: &Vec<RecordingIndex>,
    ups: &Vec<UserUpload>,
    locs: &Vec<LocalRecording<M>>,
    start: Option<i64>,
    end: Option<i64>,
) -> (r: Vec<RecordingIndex>)
    ensures
        r@ == all@.filter(date_pred(ups@, locs@, start, end)),
{
    let ghost p = date_pred(ups@, locs@, start, end);
    let mut r: Vec<RecordingIndex> = Vec::new();
    let mut k: usize = 0;
    while k < all.len()
        invariant
            k <= all@.len(),
            p == date_pred(ups@, locs@, start, end),
            r@ == all@.take(k as int).filter(p),
        decreases all@.len() - k,
    {
        let ri = all[k];
        proof {
            lemma_filter_step(all@, p, k as int);
        }
        if is_valid_index(ups, locs, ri) {
            let d = day_of_nanos(entry_time(ups, locs, ri));
            if date_kept(start, end, d) {
                r.push(ri);
            }
        }
        k += 1;
    }
    assert(all@.take(all@.len() as int) =~= all@);
    r
}

/// The entries of `s` to be listed, and how many of them are invalid local
/// recordings, uploaded local recordings, pending local recordings and uploads.
fn count_and_select<M>(
    s: &Vec<RecordingIndex>,
    ups: &Vec<UserUpload>,
    locs: &Vec<LocalRecording<M>>,
) -> (r: (Vec<RecordingIndex>, usize, usize, usize, usize))
    ensures
        r.0@ == s@.filter(shown_pred(ups@, locs@)),
        r.1 == s@.filter(invalid_pred(ups@, locs@)).len(),
        r.2 == s@.filter(uploaded_local_pred(ups@, locs@)).len(),
        r.3 == s@.filter(pending_pred(ups@, locs@)).len(),
        r.4 == s@.filter(server_pred(ups@, locs@)).len(),
{
    let ghost ps = shown_pred(ups@, locs@);
    let ghost pi = invalid_pred(ups@, locs@);
    let ghost pu = uploaded_local_pred(ups@, locs@);
    let ghost pp = pending_pred(ups@, locs@);
    let ghost pv = server_pred(ups@, locs@);
    let mut shown: Vec<RecordingIndex> = Vec::new();
    let mut invalid: usize = 0;
    let mut uploaded_local: usize = 0;
    let mut pending: usize = 0;
    let mut server: usize = 0;
    let mut k: usize = 0;
    while k < s.len()
        invariant
            k <= s@.len(),
            ps == shown_pred(ups@, locs@),
            pi == invalid_pred(ups@, locs@),
            pu == uploaded_local_pred(ups@, locs@),
            pp == pending_pred(ups@, locs@),
            pv == server_pred(ups@, locs@),
            shown@ == s@.take(k as int).filter(ps),
            invalid == s@.take(k as int).filter(pi).len(),
            uploaded_local == s@.take(k as int).filter(pu).len(),
            pending == s@.take(k as int).filter(pp).len(),
            server == s@.take(k as int).filter(pv).len(),
        decreases s@.len() - k,
    {
        let ri = s[k];
        proof {
            lemma_filter_step(s@, ps, k as int);
            lemma_filter_step(s@, pi, k as int);
            lemma_filter_step(s@, pu, k as int);
            lemma_filter_step(s@, pp, k as int);
            lemma_filter_step(s@, pv, k as int);
            s@.take(k as int).lemma_filter_len(pi);
            s@.take(k as int).lemma_filter_len(pu);
            s@.take(k as int).lemma_filter_len(pp);
            s@.take(k as int).lemma_filter_len(pv);
        }
        match ri {
            RecordingIndex::Uploaded(i) => {
                if i < ups.len() {
                    shown.push(ri);
                    server += 1;
                }
            },
            RecordingIndex::Local(i) => {
                if i < locs.len() {
                    match &locs[i] {
                        LocalRecording::Uploaded { .. } => {
                            uploaded_local += 1;
                        },
                        LocalRecording::Invalid { .. } => {
                            shown.push(ri);
                            invalid += 1;
                        },
                        _ => {
                            shown.push(ri);
                            pending += 1;
                        },
                    }
                }
            },
        }
        k += 1;
    }
    assert(s@.take(s@.len() as int) =~= s@);
    (shown, invalid, uploaded_local, pending, server)
}

/// The latest creation time among the uploads in `s`.
fn latest_upload<M>(s: &Vec<RecordingIndex>, ups: &Vec<UserUpload>, locs: &Vec<LocalRecording<M>>) -> (r: Option<i128>)
    ensures
        is_latest_upload(s@, ups@, locs@, r),
{
    let ghost pv = server_pred(ups@, locs@);
    let mut best: Option<i128> = None;
    let mut k: usize = 0;
    while k < s.len()
        invariant
            k <= s@.len(),
            pv == server_pred(ups@, locs@),
            is_latest_upload(s@.take(k as int), ups@, locs@, best),
        decreases s@.len() - k,
    {
        let ri = s[k];
        let ghost pre = s@.take(k as int);
        let ghost post = s@.take(k + 1);
        assert(post =~= pre.push(ri));
        if let RecordingIndex::Uploaded(i) = ri {
            if i < ups.len() {
                let t = ups[i].created_at_nanos;
                let replace = match best {
                    None => true,
                    Some(b) => t > b,
                };
                if replace {
                    best = Some(t);
                    assert(post[k as int] == ri);
                    assert forall|q: int| 0 <= q < post.len() && pv(#[trigger] post[q]) implies entry_nanos(
                        ups@,
                        locs@,
                        post[q],
                    ) <= t by {
                        if q < k {
                            assert(post[q] == pre[q]);
                        }
                    }
                } else {
                    assert forall|q: int| 0 <= q < post.len() && pv(#[trigger] post[q]) implies entry_nanos(
                        ups@,
                        locs@,
                        post[q],
                    ) <= best->0 by {
                        if q < k {
                            assert(post[q] == pre[q]);
                        }
                    }
                    let ghost w = choose|q: int|
                        0 <= q < pre.len() && server_pred(ups@, locs@)(#[trigger] pre[q]) && entry_nanos(
                            ups@,
                            locs@,
                            pre[q],
                        ) == best->0;
                    assert(post[w] == pre[w]);
                }
            } else {
                proof {
                    lemma_latest_extend(pre, ri, ups@, locs@, best);
                }
            }
        } else {
            proof {
                lemma_latest_extend(pre, ri, ups@, locs@, best);
            }
        }
        k += 1;
    }
    assert(s@.take(s@.len() as int) =~= s@);
    best
}

proof fn lemma_latest_extend<M>(
    pre: Seq<RecordingIndex>,
    ri: RecordingIndex,
    ups: Seq<UserUpload>,
    locs: Seq<LocalRecording<M>>,
    best: Option<i128>,
)
    requires
        is_latest_upload(pre, ups, locs, best),
        !server_pred(ups, locs)(ri),
    ensures
        is_latest_upload(pre.push(ri), ups, locs, best),
{
    let post = pre.push(ri);
    let pv = server_pred(ups, locs);
    assert forall|q: int| 0 <= q < pre.len() implies post[q] == pre[q] by {}
    match best {
        None => {
            assert forall|q: int| 0 <= q < post.len() implies !pv(#[trigger] post[q]) by {
                if q < pre.len() {
                    assert(post[q] == pre[q]);
                }
            }
        },
        Some(t) => {
            let w = choose|q: int|
                0 <= q < pre.len() && pv(#[trigger] pre[q]) && entry_nanos(ups, locs, pre[q]) == t;
            assert(post[w] == pre[w]);
            assert forall|q: int| 0 <= q < post.len() && pv(#[trigger] post[q]) implies entry_nanos(
                ups,
                locs,
                post[q],
            ) <= t by {
                if q < pre.len() {
                    assert(post[q] == pre[q]);
                }
            }
        },
    }
}

/// The sizes of the uploads among `s`, and of the local recordings among `s`
/// that await upload, summed.
fn sum_sizes<M>(s: &Vec<RecordingIndex>, ups: &Vec<UserUpload>, locs: &Vec<LocalRecording<M>>) -> (r: (u128, u128))
    ensures
        r.0 == uploaded_bytes_of(s@, ups@, locs@),
        r.1 == pending_bytes_of(s@, ups@, locs@),
{
    let mut up: u128 = 0;
    let mut pend: u128 = 0;
    let mut k: usize = 0;
    while k < s.len()
        invariant
            k <= s@.len(),
            up == uploaded_bytes_of(s@.take(k as int), ups@, locs@),
            pend == pending_bytes_of(s@.take(k as int), ups@, locs@),
            up <= k * 0xFFFF_FFFF_FFFF_FFFFu64,
            pend <= k * 0xFFFF_FFFF_FFFF_FFFFu64,
        decreases s@.len() - k,
    {
        let ri = s[k];
        assert(s@.take(k + 1).drop_last() =~= s@.take(k as int));
        assert(s@.take(k + 1).last() == ri);
        assert(k * 0xFFFF_FFFF_FFFF_FFFFu64 + 0xFFFF_FFFF_FFFF_FFFFu64 == (k + 1) * 0xFFFF_FFFF_FFFF_FFFFu64)
            by (nonlinear_arith);
        assert((k + 1) * 0xFFFF_FFFF_FFFF_FFFFu64 <= 0xFFFF_FFFF_FFFF_FFFFu64 * 0xFFFF_FFFF_FFFF_FFFFu64)
            by (nonlinear_arith)
            requires
                k < 0xFFFF_FFFF_FFFF_FFFFu64,
        ;
        match ri {
            RecordingIndex::Uploaded(i) => {
                if i < ups.len() {
                    up = up + ups[i].file_size_bytes as u128;
                }
            },
            RecordingIndex::Local(i) => {
                if i < locs.len() {
                    let rec = &locs[i];
                    let awaiting = match rec {
                        LocalRecording::Unuploaded { .. } => true,
                        LocalRecording::Paused(_) => true,
                        _ => false,
                    };
                    if awaiting {
                        pend = pend + rec.info().folder_size as u128;
                    }
                }
            },
        }
        k += 1;
    }
    assert(s@.take(s@.len() as int) =~= s@);
    (up, pend)
}

/// The figures shown above the tracker's list, over the entries that pass
/// the date filter.
pub struct TrackerStats {
    /// Uploads on the server
    pub uploaded_count: usize,
    /// Their sizes, summed
    pub uploaded_bytes: u128,
    /// The latest creation time among them, in nanoseconds since the epoch
    pub last_upload: Option<i128>,
    /// Local recordings that await upload (not yet uploaded, or paused)
    pub pending_count: usize,
    /// Their folder sizes, summed
    pub pending_bytes: u128,
    /// Local recordings that have been uploaded
    pub uploaded_local_count: usize,
    /// Local recordings found invalid
    pub invalid_count: usize,
}

/// The user's uploads and local recordings, merged newest first, with the
/// date filter applied.
pub struct Recordings<M> {
    uploaded: Vec<UserUpload>,
    uploads_available: bool,
    local: Vec<LocalRecording<M>>,
    local_available: bool,
    /// First day shown (days since 1970-01-01, UTC)
    filter_start_date: Option<i64>,
    /// Last day shown
    filter_end_date: Option<i64>,
    all: Vec<RecordingIndex>,
    filtered: Vec<RecordingIndex>,
    filtered_excluding_local_uploaded: Vec<RecordingIndex>,
    latest_upload_timestamp: Option<i128>,
    invalid_count_filtered: usize,
}

impl<M> Recordings<M> {
    /// The uploads on the server.
    pub closed spec fn uploads(self) -> Seq<UserUpload> {
        self.uploaded@
    }

    /// The local recordings.
    pub closed spec fn locals(self) -> Seq<LocalRecording<M>> {
        self.local@
    }

    /// The list of uploads has arrived.
    pub closed spec fn uploads_loaded(self) -> bool {
        self.uploads_available
    }

    /// The local recordings have been scanned.
    pub closed spec fn locals_loaded(self) -> bool {
        self.local_available
    }

    /// First day shown, if bounded.
    pub closed spec fn start_day(self) -> Option<i64> {
        self.filter_start_date
    }

    /// Last day shown, if bounded.
    pub closed spec fn end_day(self) -> Option<i64> {
        self.filter_end_date
    }

    /// Every entry, newest first.
    pub closed spec fn all_entries(self) -> Seq<RecordingIndex> {
        self.all@
    }

    /// The entries that pass the date filter, newest first.
    pub open spec fn filtered_entries(self) -> Seq<RecordingIndex> {
        self.all_entries().filter(date_pred(self.uploads(), self.locals(), self.start_day(), self.end_day()))
    }

    /// The entries listed: those that pass the date filter, less the local
    /// recordings already uploaded.
    pub open spec fn shown_entries(self) -> Seq<RecordingIndex> {
        self.filtered_entries().filter(shown_pred(self.uploads(), self.locals()))
    }

    /// The stored lists and filters agree with the derived ones.
    pub closed spec fn wf(self) -> bool {
        &&& is_recency_order(self.all@, self.uploaded@, self.local@)
        &&& self.filtered@ == self.filtered_entries()
        &&& self.filtered_excluding_local_uploaded@ == self.shown_entries()
        &&& is_latest_upload(self.filtered@, self.uploaded@, self.local@, self.latest_upload_timestamp)
        &&& self.invalid_count_filtered == self.filtered@.filter(invalid_pred(self.uploaded@, self.local@)).len()
    }

    fn build(
        uploaded: Vec<UserUpload>,
        uploads_available: bool,
        local: Vec<LocalRecording<M>>,
        local_available: bool,
        filter_start_date: Option<i64>,
        filter_end_date: Option<i64>,
    ) -> (r: Self)
        ensures
            r.wf(),
            r.uploads() == uploaded@,
            r.locals() == local@,
            r.uploads_loaded() == uploads_available,
            r.locals_loaded() == local_available,
            r.start_day() == filter_start_date,
            r.end_day() == filter_end_date,
    {
        let all = recency_order(&uploaded, &local);
        Self::with_order(uploaded, uploads_available, local, local_available, filter_start_date, filter_end_date, all)
    }

    fn with_order(
        uploaded: Vec<UserUpload>,
        uploads_available: bool,
        local: Vec<LocalRecording<M>>,
        local_available: bool,
        filter_start_date: Option<i64>,
        filter_end_date: Option<i64>,
        all: Vec<RecordingIndex>,
    ) -> (r: Self)
        requires
            is_recency_order(all@, uploaded@, local@),
        ensures
            r.wf(),
            r.uploads() == uploaded@,
            r.locals() == local@,
            r.uploads_loaded() == uploads_available,
            r.locals_loaded() == local_available,
            r.start_day() == filter_start_date,
            r.end_day() == filter_end_date,
            r.all_entries() == all@,
    {
        let filtered = filter_by_date(&all, &uploaded, &local, filter_start_date, filter_end_date);
        let (shown, invalid, _uploaded_local, _pending, _server) = count_and_select(&filtered, &uploaded, &local);
        let latest = latest_upload(&filtered, &uploaded, &local);
        Recordings {
            uploaded,
            uploads_available,
            local,
            local_available,
            filter_start_date,
            filter_end_date,
            all,
            filtered,
            filtered_excluding_local_uploaded: shown,
            latest_upload_timestamp: latest,
            invalid_count_filtered: invalid,
        }
    }

    /// Nothing loaded yet, no filter.
    pub fn new() -> (r: Self)
        ensures
            r.wf(),
            r.uploads() == Seq::<UserUpload>::empty(),
            r.locals() == Seq::<LocalRecording<M>>::empty(),
            !r.uploads_loaded(),
            !r.locals_loaded(),
            r.start_day() is None,
            r.end_day() is None,
    {
        Self::build(Vec::new(), false, Vec::new(), false, None, None)
    }

    /// Replaces the uploads with the list from the server.
    pub fn update_user_uploads(&mut self, user_uploads: Vec<UserUpload>)
        requires
            old(self).wf(),
        ensures
            final(self).wf(),
            final(self).uploads() == user_uploads@,
            final(self).uploads_loaded(),
            final(self).locals() == old(self).locals(),
            final(self).locals_loaded() == old(self).locals_loaded(),
            final(self).start_day() == old(self).start_day(),
            final(self).end_day() == old(self).end_day(),
    {
        let mut local: Vec<LocalRecording<M>> = Vec::new();
        std::mem::swap(&mut local, &mut self.local);
        *self = Self::build(
            user_uploads,
            true,
            local,
            self.local_available,
            self.filter_start_date,
            self.filter_end_date,
        );
    }

    /// Replaces the local recordings with a new scan.
    pub fn update_local_recordings(&mut self, local_recordings: Vec<LocalRecording<M>>)
        requires
            old(self).wf(),
        ensures
            final(self).wf(),
            final(self).locals() == local_recordings@,
            final(self).locals_loaded(),
            final(self).uploads() == old(self).uploads(),
            final(self).uploads_loaded() == old(self).uploads_loaded(),
            final(self).start_day() == old(self).start_day(),
            final(self).end_day() == old(self).end_day(),
    {
        let mut uploaded: Vec<UserUpload> = Vec::new();
        std::mem::swap(&mut uploaded, &mut self.uploaded);
        *self = Self::build(
            uploaded,
            self.uploads_available,
            local_recordings,
            true,
            self.filter_start_date,
            self.filter_end_date,
        );
    }

    /// Sets both bounds of the date filter.
    pub fn set_filter_dates(&mut self, start: Option<i64>, end: Option<i64>)
        requires
            old(self).wf(),
        ensures
            final(self).wf(),
            final(self).start_day() == start,
            final(self).end_day() == end,
            final(self).uploads() == old(self).uploads(),
            final(self).locals() == old(self).locals(),
            final(self).uploads_loaded() == old(self).uploads_loaded(),
            final(self).locals_loaded() == old(self).locals_loaded(),
            final(self).all_entries() == old(self).all_entries(),
    {
        let mut uploaded: Vec<UserUpload> = Vec::new();
        let mut local: Vec<LocalRecording<M>> = Vec::new();
        let mut all: Vec<RecordingIndex> = Vec::new();
        std::mem::swap(&mut uploaded, &mut self.uploaded);
        std::mem::swap(&mut local, &mut self.local);
        std::mem::swap(&mut all, &mut self.all);
        *self = Self::with_order(
            uploaded,
            self.uploads_available,
            local,
            self.local_available,
            start,
            end,
            all,
        );
    }

    /// Sets the first day shown, keeping the last.
    pub fn set_filter_start_date(&mut self, date: Option<i64>)
        requires
            old(self).wf(),
        ensures
            final(self).wf(),
            final(self).start_day() == date,
            final(self).end_day() == old(self).end_day(),
            final(self).uploads() == old(self).uploads(),
            final(self).locals() == old(self).locals(),
            final(self).uploads_loaded() == old(self).uploads_loaded(),
            final(self).locals_loaded() == old(self).locals_loaded(),
            final(self).all_entries() == old(self).all_entries(),
    {
        let end = self.filter_end_date;
        self.set_filter_dates(date, end);
    }

    /// Sets the last day shown, keeping the first.
    pub fn set_filter_end_date(&mut self, date: Option<i64>)
        requires
            old(self).wf(),
        ensures
            final(self).wf(),
            final(self).start_day() == old(self).start_day(),
            final(self).end_day() == date,
            final(self).uploads() == old(self).uploads(),
            final(self).locals() == old(self).locals(),
            final(self).uploads_loaded() == old(self).uploads_loaded(),
            final(self).locals_loaded() == old(self).locals_loaded(),
            final(self).all_entries() == old(self).all_entries(),
    {
        let start = self.filter_start_date;
        self.set_filter_dates(start, date);
    }
}

/// `rec` is the entry at `ri`.
pub open spec fn refers_to<M>(
    rec: Recording<'_, M>,
    ups: Seq<UserUpload>,
    locs: Seq<LocalRecording<M>>,
    ri: RecordingIndex,
) -> bool {
    match (rec, ri) {
        (Recording::Uploaded(u), RecordingIndex::Uploaded(i)) => i < ups.len() && *u == ups[i as int],
        (Recording::Local(l), RecordingIndex::Local(i)) => i < locs.len() && *l == locs[i as int],
        _ => false,
    }
}

/// The time of an entry, in nanoseconds since the epoch.
pub open spec fn recording_nanos<M>(rec: Recording<'_, M>) -> int {
    match rec {
        Recording::Uploaded(u) => u.created_at_nanos as int,
        Recording::Local(l) => local_nanos(*l),
    }
}

impl<'a, M> Recording<'a, M> {
    /// When the entry was made: the upload's creation time, or the local
    /// recording's timestamp (the epoch when it has none); nanoseconds since
    /// the epoch.
    pub fn timestamp(&self) -> (r: i128)
        ensures
            r == recording_nanos(*self),
    {
        match self {
            Recording::Uploaded(u) => u.created_at_nanos,
            Recording::Local(l) => local_time_nanos(l),
        }
    }
}

fn entry_at<'a, M>(ups: &'a Vec<UserUpload>, locs: &'a Vec<LocalRecording<M>>, ri: RecordingIndex) -> (r: Option<Recording<'a, M>>)
    ensures
        match r {
            Some(rec) => refers_to(rec, ups@, locs@, ri),
            None => !index_valid(ups@, locs@, ri),
        },
{
    match ri {
        RecordingIndex::Uploaded(i) => if i < ups.len() {
            Some(Recording::Uploaded(&ups[i]))
        } else {
            None
        },
        RecordingIndex::Local(i) => if i < locs.len() {
            Some(Recording::Local(&locs[i]))
        } else {
            None
        },
    }
}

proof fn lemma_refers_time<M>(rec: Recording<'_, M>, ups: Seq<UserUpload>, locs: Seq<LocalRecording<M>>, ri: RecordingIndex)
    requires
        refers_to(rec, ups, locs, ri),
    ensures
        index_valid(ups, locs, ri),
        recording_nanos(rec) == entry_nanos(ups, locs, ri),
{
}

impl<M> Recordings<M> {
    /// The entry at `index`, if it exists.
    pub fn get(&self, index: RecordingIndex) -> (r: Option<Recording<'_, M>>)
        ensures
            match r {
                Some(rec) => refers_to(rec, self.uploads(), self.locals(), index),
                None => !index_valid(self.uploads(), self.locals(), index),
            },
    {
        entry_at(&self.uploaded, &self.local, index)
    }

    /// The entries that pass the date filter, newest first.
    pub fn iter_filtered(&self) -> (r: Vec<Recording<'_, M>>)
        requires
            self.wf(),
        ensures
            r@.len() == self.filtered_entries().len(),
            forall|k: int|
                0 <= k < r@.len() ==> refers_to(
                    #[trigger] r@[k],
                    self.uploads(),
                    self.locals(),
                    self.filtered_entries()[k],
                ),
    {
        let ghost f = self.filtered@;
        let ghost p = date_pred(self.uploaded@, self.local@, self.filter_start_date, self.filter_end_date);
        proof {
            assert forall|k: int| 0 <= k < f.len() implies index_valid(
                self.uploaded@,
                self.local@,
                #[trigger] f[k],
            ) by {
                self.all@.lemma_filter_pred(p, k);
            }
        }
        let mut r: Vec<Recording<'_, M>> = Vec::new();
        let mut k: usize = 0;
        while k < self.filtered.len()
            invariant
                self.filtered@ == f,
                k <= f.len(),
                r@.len() == k,
                forall|q: int| 0 <= q < f.len() ==> index_valid(self.uploaded@, self.local@, #[trigger] f[q]),
                forall|q: int| 0 <= q < k ==> refers_to(#[trigger] r@[q], self.uploaded@, self.local@, f[q]),
            decreases f.len() - k,
        {
            let ri = self.filtered[k];
            assert(index_valid(self.uploaded@, self.local@, f[k as int]));
            match entry_at(&self.uploaded, &self.local, ri) {
                Some(rec) => {
                    r.push(rec);
                },
                None => {
                    assert(false);
                },
            }
            k += 1;
        }
        r
    }

    /// The `index`-th listed entry (uploaded local recordings are not listed).
    pub fn get_by_index_filtered_excluding_local_uploaded(&self, index: usize) -> (r: Option<Recording<'_, M>>)
        requires
            self.wf(),
        ensures
            match r {
                Some(rec) => index < self.shown_entries().len() && refers_to(
                    rec,
                    self.uploads(),
                    self.locals(),
                    self.shown_entries()[index as int],
                ),
                None => index >= self.shown_entries().len(),
            },
    {
        if index < self.filtered_excluding_local_uploaded.len() {
            let ri = self.filtered_excluding_local_uploaded[index];
            proof {
                self.filtered@.lemma_filter_pred(shown_pred(self.uploaded@, self.local@), index as int);
            }
            entry_at(&self.uploaded, &self.local, ri)
        } else {
            None
        }
    }

    /// No entry passes the date filter.
    pub fn is_empty_filtered(&self) -> (r: bool)
        requires
            self.wf(),
        ensures
            r == (self.filtered_entries().len() == 0),
    {
        self.filtered.len() == 0
    }

    /// How many entries that pass the date filter are invalid local recordings.
    pub fn invalid_count_filtered(&self) -> (r: usize)
        requires
            self.wf(),
        ensures
            r == self.filtered_entries().filter(invalid_pred(self.uploads(), self.locals())).len(),
    {
        self.invalid_count_filtered
    }

    /// How many entries are listed.
    pub fn len_filtered_excluding_local_uploaded(&self) -> (r: usize)
        requires
            self.wf(),
        ensures
            r == self.shown_entries().len(),
    {
        self.filtered_excluding_local_uploaded.len()
    }

    /// Either list has been loaded.
    pub fn any_available(&self) -> (r: bool)
        ensures
            r == (self.uploads_loaded() || self.locals_loaded()),
    {
        self.uploads_available() || self.local_available()
    }

    /// The list of uploads has arrived.
    pub fn uploads_available(&self) -> (r: bool)
        ensures
            r == self.uploads_loaded(),
    {
        self.uploads_available
    }

    /// The local recordings have been scanned.
    pub fn local_available(&self) -> (r: bool)
        ensures
            r == self.locals_loaded(),
    {
        self.local_available
    }

    /// The time of the oldest entry (the last, newest first), if any.
    pub fn earliest_timestamp(&self) -> (r: Option<i128>)
        requires
            self.wf(),
        ensures
            match r {
                Some(t) => self.all_entries().len() > 0 && index_valid(
                    self.uploads(),
                    self.locals(),
                    self.all_entries().last(),
                ) && t == entry_nanos(self.uploads(), self.locals(), self.all_entries().last()),
                None => self.all_entries().len() == 0 || !index_valid(
                    self.uploads(),
                    self.locals(),
                    self.all_entries().last(),
                ),
            },
    {
        if self.all.len() == 0 {
            return None;
        }
        let ri = self.all[self.all.len() - 1];
        match entry_at(&self.uploaded, &self.local, ri) {
            Some(rec) => {
                proof {
                    lemma_refers_time(rec, self.uploaded@, self.local@, ri);
                }
                Some(rec.timestamp())
            },
            None => None,
        }
    }

    /// The time of the newest entry (the first), if any.
    pub fn latest_timestamp(&self) -> (r: Option<i128>)
        requires
            self.wf(),
        ensures
            match r {
                Some(t) => self.all_entries().len() > 0 && index_valid(
                    self.uploads(),
                    self.locals(),
                    self.all_entries()[0],
                ) && t == entry_nanos(self.uploads(), self.locals(), self.all_entries()[0]),
                None => self.all_entries().len() == 0 || !index_valid(
                    self.uploads(),
                    self.locals(),
                    self.all_entries()[0],
                ),
            },
    {
        if self.all.len() == 0 {
            return None;
        }
        let ri = self.all[0];
        match entry_at(&self.uploaded, &self.local, ri) {
            Some(rec) => {
                proof {
                    lemma_refers_time(rec, self.uploaded@, self.local@, ri);
                }
                Some(rec.timestamp())
            },
            None => None,
        }
    }

    /// The latest creation time among the uploads that pass the date filter.
    pub fn latest_upload_timestamp(&self) -> (r: Option<i128>)
        requires
            self.wf(),
        ensures
            is_latest_upload(self.filtered_entries(), self.uploads(), self.locals(), r),
    {
        self.latest_upload_timestamp
    }

    /// First day shown, if bounded.
    pub fn filter_start_date(&self) -> (r: Option<i64>)
        ensures
            r == self.start_day(),
    {
        self.filter_start_date
    }

    /// Last day shown, if bounded.
    pub fn filter_end_date(&self) -> (r: Option<i64>)
        ensures
            r == self.end_day(),
    {
        self.filter_end_date
    }

    /// The figures shown above the list, over the entries that pass the date
    /// filter.
    pub fn stats(&self) -> (r: TrackerStats)
        requires
            self.wf(),
        ensures
            r.uploaded_count == self.filtered_entries().filter(server_pred(self.uploads(), self.locals())).len(),
            r.uploaded_bytes == uploaded_bytes_of(self.filtered_entries(), self.uploads(), self.locals()),
            is_latest_upload(self.filtered_entries(), self.uploads(), self.locals(), r.last_upload),
            r.pending_count == self.filtered_entries().filter(pending_pred(self.uploads(), self.locals())).len(),
            r.pending_bytes == pending_bytes_of(self.filtered_entries(), self.uploads(), self.locals()),
            r.uploaded_local_count == self.filtered_entries().filter(
                uploaded_local_pred(self.uploads(), self.locals()),
            ).len(),
            r.invalid_count == self.filtered_entries().filter(invalid_pred(self.uploads(), self.locals())).len(),
    {
        let (_shown, invalid, uploaded_local, pending, server) = count_and_select(
            &self.filtered,
            &self.uploaded,
            &self.local,
        );
        let (up_bytes, pend_bytes) = sum_sizes(&self.filtered, &self.uploaded, &self.local);
        TrackerStats {
            uploaded_count: server,
            uploaded_bytes: up_bytes,
            last_upload: self.latest_upload_timestamp,
            pending_count: pending,
            pending_bytes: pend_bytes,
            uploaded_local_count: uploaded_local,
            invalid_count: invalid,
        }
    }
}

/// Why the upload button is disabled.
#[derive(Debug, Clone, Copy, PartialEq, Eq, Structural)]
pub enum UploadBlocked {
    OfflineMode,
    NewerReleaseAvailable,
    NothingToUpload,
}

impl UploadBlocked {
    /// The hover text of the disabled button.
    pub fn hover_text(&self) -> (r: &'static str)
        ensures
            r@ == match *self {
                UploadBlocked::OfflineMode => "Uploads are disabled in offline mode"@,
                UploadBlocked::NewerReleaseAvailable => "Please update to the latest version before uploading."@,
                UploadBlocked::NothingToUpload => "No recordings available to upload."@,
            },
    {
        match self {
            UploadBlocked::OfflineMode => "Uploads are disabled in offline mode",
            UploadBlocked::NewerReleaseAvailable => "Please update to the latest version before uploading.",
            UploadBlocked::NothingToUpload => "No recordings available to upload.",
        }
    }
}

/// Whether the upload button is enabled (`None`) or why not: offline mode
/// first, then a newer release, then nothing to upload.
pub fn upload_blocked(offline_mode: bool, newer_release_available: bool, uploadable_count: usize) -> (r: Option<UploadBlocked>)
    ensures
        r == (if offline_mode {
            Some(UploadBlocked::OfflineMode)
        } else if newer_release_available {
            Some(UploadBlocked::NewerReleaseAvailable)
        } else if uploadable_count == 0 {
            Some(UploadBlocked::NothingToUpload)
        } else {
            None::<UploadBlocked>
        }),
{
    if offline_mode {
        Some(UploadBlocked::OfflineMode)
    } else if newer_release_available {
        Some(UploadBlocked::NewerReleaseAvailable)
    } else if uploadable_count == 0 {
        Some(UploadBlocked::NothingToUpload)
    } else {
        None
    }
}

proof fn lemma_local_nanos_fits<M>(r: LocalRecording<M>)
    ensures
        0 <= local_nanos(r) <= i128::MAX,
{
    let secs = recency_secs(r);
    assert(0 <= secs * 1_000_000_000 <= 18_446_744_073_709_551_615 * 1_000_000_000) by (nonlinear_arith)
        requires
            secs <= 18_446_744_073_709_551_615u64,
    ;
}

proof fn lemma_keyed_item<M>(ups: Seq<UserUpload>, locs: Seq<LocalRecording<M>>, m: int)
    requires
        0 <= m < ups.len() + locs.len(),
    ensures
        keyed_indices(ups, locs)[m].1 == unsorted_indices(ups.len(), locs.len())[m],
        index_valid(ups, locs, unsorted_indices(ups.len(), locs.len())[m]),
        keyed_indices(ups, locs)[m].0.nanos == entry_nanos(ups, locs, unsorted_indices(ups.len(), locs.len())[m]),
        m < ups.len() ==> unsorted_indices(ups.len(), locs.len())[m] == RecordingIndex::Uploaded(m as usize),
        m >= ups.len() ==> unsorted_indices(ups.len(), locs.len())[m] == RecordingIndex::Local((m - ups.len()) as usize),
{
    let u = unsorted_indices(ups.len(), locs.len());
    if m >= ups.len() {
        lemma_local_nanos_fits(locs[m - ups.len()]);
    }
}

/// Every upload and every local recording appears in the merged list exactly
/// once, and nothing else does: the list is a permutation of all uploads
/// followed by all local recordings.
pub proof fn lemma_all_entries_complete<M>(r: Recordings<M>)
    requires
        r.wf(),
    ensures
        forall|ri: RecordingIndex| r.all_entries().contains(ri) <==> index_valid(r.uploads(), r.locals(), ri),
        r.all_entries().to_multiset() == unsorted_indices(r.uploads().len(), r.locals().len()).to_multiset(),
        r.all_entries().len() == r.uploads().len() + r.locals().len(),
        r.all_entries().no_duplicates(),
{
    lemma_all_entries_permutation(r);

    let ups = r.uploads();
    let locs = r.locals();
    let keyed = keyed_indices(ups, locs);
    let u = unsorted_indices(ups.len(), locs.len());
    let sorted = choose|sorted: Seq<(Newest, RecordingIndex)>|
        is_stable_sort_of(sorted, keyed) && r.all_entries() == sorted.map_values(
            |p: (Newest, RecordingIndex)| p.1,
        );
    let all = r.all_entries();
    lemma_stable_sort_same_items(sorted, keyed);
    assert forall|ri: RecordingIndex| all.contains(ri) <==> index_valid(ups, locs, ri) by {
        if all.contains(ri) {
            let i = choose|i: int| 0 <= i < all.len() && all[i] == ri;
            assert(keyed.contains(sorted[i]));
            let m = choose|m: int| 0 <= m < keyed.len() && keyed[m] == sorted[i];
            lemma_keyed_item(ups, locs, m);
        }
        if index_valid(ups, locs, ri) {
            let m: int = match ri {
                RecordingIndex::Uploaded(i) => i as int,
                RecordingIndex::Local(i) => ups.len() + i,
            };
            lemma_keyed_item(ups, locs, m);
            assert(sorted.contains(keyed[m]));
            let i = choose|i: int| 0 <= i < sorted.len() && sorted[i] == keyed[m];
            assert(all[i] == ri);
        }
    }
}

proof fn lemma_all_entries_permutation<M>(r: Recordings<M>)
    requires
        r.wf(),
    ensures
        r.all_entries().to_multiset() == unsorted_indices(r.uploads().len(), r.locals().len()).to_multiset(),
        r.all_entries().len() == r.uploads().len() + r.locals().len(),
        r.all_entries().no_duplicates(),
{
    broadcast use vstd::seq_lib::group_to_multiset_ensures;

    let ups = r.uploads();
    let locs = r.locals();
    let keyed = keyed_indices(ups, locs);
    let u = unsorted_indices(ups.len(), locs.len());
    let sorted = choose|sorted: Seq<(Newest, RecordingIndex)>|
        is_stable_sort_of(sorted, keyed) && r.all_entries() == sorted.map_values(
            |p: (Newest, RecordingIndex)| p.1,
        );
    let all = r.all_entries();
    let f = |p: (Newest, RecordingIndex)| p.1;
    let g = |ri: RecordingIndex| (Newest { nanos: entry_nanos(ups, locs, ri) as i128 }, ri);
    lemma_stable_sort_same_items(sorted, keyed);
    assert forall|i: int| 0 <= i < keyed.len() implies g(f(#[trigger] keyed[i])) == keyed[i] by {}
    assert forall|i: int| 0 <= i < sorted.len() implies g(f(#[trigger] sorted[i])) == sorted[i] by {
        assert(keyed.contains(sorted[i]));
        let m = choose|m: int| 0 <= m < keyed.len() && keyed[m] == sorted[i];
        assert(g(f(keyed[m])) == keyed[m]);
    }
    assert(keyed.map_values(f) =~= u);
    assert forall|y: RecordingIndex| all.to_multiset().count(y) == u.to_multiset().count(y) by {
        lemma_map_values_count(sorted, f, g, y);
        lemma_map_values_count(keyed, f, g, y);
    }
    assert(all.to_multiset() =~= u.to_multiset());
    assert(all.to_multiset().len() == all.len());
    assert(u.to_multiset().len() == u.len());
    assert(u.no_duplicates()) by {
        assert(ups.len() == r.uploaded.len() && locs.len() == r.local.len());
        assert forall|i: int, j: int| 0 <= i < u.len() && 0 <= j < u.len() && i != j implies u[i] != u[j] by {
            lemma_keyed_item(ups, locs, i);
            lemma_keyed_item(ups, locs, j);
        }
    }
    u.lemma_multiset_has_no_duplicates();
    all.lemma_multiset_has_no_duplicates_conv();
}

/// The ends of the merged list are its extremes: the first entry is the
/// newest of all uploads and local recordings, the last the oldest; the list
/// is empty exactly when there is neither.
pub proof fn lemma_ends_are_extremes<M>(r: Recordings<M>)
    requires
        r.wf(),
    ensures
        r.all_entries().len() == 0 <==> (r.uploads().len() == 0 && r.locals().len() == 0),
        r.all_entries().len() > 0 ==> forall|ri: RecordingIndex|
            #[trigger] index_valid(r.uploads(), r.locals(), ri) ==> entry_nanos(r.uploads(), r.locals(), r.all_entries().last())
                <= entry_nanos(r.uploads(), r.locals(), ri) <= entry_nanos(
                r.uploads(),
                r.locals(),
                r.all_entries()[0],
            ),
{
    lemma_all_entries_complete(r);
    lemma_newest_first(r);
    let all = r.all_entries();
    if all.len() > 0 {
        assert forall|ri: RecordingIndex| #[trigger] index_valid(r.uploads(), r.locals(), ri) implies entry_nanos(
            r.uploads(),
            r.locals(),
            all.last(),
        ) <= entry_nanos(r.uploads(), r.locals(), ri) <= entry_nanos(r.uploads(), r.locals(), all[0]) by {
            assert(all.contains(ri));
            let i = choose|i: int| 0 <= i < all.len() && all[i] == ri;
            if i > 0 {
                assert(entry_nanos(r.uploads(), r.locals(), all[0]) >= entry_nanos(r.uploads(), r.locals(), all[i]));
            }
            if i < all.len() - 1 {
                assert(entry_nanos(r.uploads(), r.locals(), all[i]) >= entry_nanos(
                    r.uploads(),
                    r.locals(),
                    all[all.len() - 1],
                ));
            }
        }
    }
}

/// The merged list runs newest first: no entry is older than one after it.
pub proof fn lemma_newest_first<M>(r: Recordings<M>)
    requires
        r.wf(),
    ensures
        forall|i: int, j: int|
            0 <= i < j < r.all_entries().len() ==> entry_nanos(r.uploads(), r.locals(), #[trigger] r.all_entries()[i])
                >= entry_nanos(r.uploads(), r.locals(), #[trigger] r.all_entries()[j]),
{
    let ups = r.uploads();
    let locs = r.locals();
    let keyed = keyed_indices(ups, locs);
    let sorted = choose|sorted: Seq<(Newest, RecordingIndex)>|
        is_stable_sort_of(sorted, keyed) && r.all_entries() == sorted.map_values(
            |p: (Newest, RecordingIndex)| p.1,
        );
    let all = r.all_entries();
    lemma_stable_sort_same_items(sorted, keyed);
    assert forall|i: int| 0 <= i < sorted.len() implies (#[trigger] sorted[i]).0.nanos == entry_nanos(
        ups,
        locs,
        sorted[i].1,
    ) by {
        assert(keyed.contains(sorted[i]));
        let m = choose|m: int| 0 <= m < keyed.len() && keyed[m] == sorted[i];
        lemma_keyed_item(ups, locs, m);
    }
    assert forall|i: int, j: int| 0 <= i < j < all.len() implies entry_nanos(ups, locs, #[trigger] all[i])
        >= entry_nanos(ups, locs, #[trigger] all[j]) by {
        assert(sorted[i].0.key_le(sorted[j].0));
        assert(all[i] == sorted[i].1 && all[j] == sorted[j].1);
    }
}

proof fn lemma_filter_all<A>(s: Seq<A>, p: spec_fn(A) -> bool)
    requires
        forall|k: int| 0 <= k < s.len() ==> p(#[trigger] s[k]),
    ensures
        s.filter(p) == s,
    decreases s.len(),
{
    reveal(Seq::filter);
    if s.len() > 0 {
        let t = s.drop_last();
        assert forall|k: int| 0 <= k < t.len() implies p(#[trigger] t[k]) by {
            assert(t[k] == s[k]);
        }
        lemma_filter_all(t, p);
        assert(t.push(s.last()) =~= s);
    }
}

/// With neither bound set on the date filter, every entry passes it.
pub proof fn lemma_no_bounds_keeps_all<M>(r: Recordings<M>)
    requires
        r.wf(),
        r.start_day() is None,
        r.end_day() is None,
    ensures
        r.filtered_entries() == r.all_entries(),
{
    lemma_all_entries_complete(r);
    let p = date_pred(r.uploads(), r.locals(), r.start_day(), r.end_day());
    let all = r.all_entries();
    assert forall|k: int| 0 <= k < all.len() implies p(#[trigger] all[k]) by {
        assert(all.contains(all[k]));
    }
    lemma_filter_all(all, p);
}

proof fn lemma_kinds_partition<M>(s: Seq<RecordingIndex>, ups: Seq<UserUpload>, locs: Seq<LocalRecording<M>>)
    requires
        forall|k: int| 0 <= k < s.len() ==> index_valid(ups, locs, #[trigger] s[k]),
    ensures
        s.filter(server_pred(ups, locs)).len() + s.filter(pending_pred(ups, locs)).len() + s.filter(
            uploaded_local_pred(ups, locs),
        ).len() + s.filter(invalid_pred(ups, locs)).len() == s.len(),
        s.filter(shown_pred(ups, locs)).len() + s.filter(uploaded_local_pred(ups, locs)).len()
            == s.len(),
    decreases s.len(),
{
    reveal(Seq::filter);
    if s.len() > 0 {
        let t = s.drop_last();
        assert forall|k: int| 0 <= k < t.len() implies index_valid(ups, locs, #[trigger] t[k]) by {
            assert(t[k] == s[k]);
        }
        lemma_kinds_partition(t, ups, locs);
        assert(index_valid(ups, locs, s[s.len() - 1]));
    }
}

/// The tracker's figures split the entries that pass the date filter: each is
/// an upload, a local recording awaiting upload, an uploaded local recording
/// or an invalid one; and the list shows all of them but the uploaded local
/// recordings.
pub proof fn lemma_figures_partition<M>(r: Recordings<M>)
    requires
        r.wf(),
    ensures
        r.filtered_entries().filter(server_pred(r.uploads(), r.locals())).len() + r.filtered_entries().filter(
            pending_pred(r.uploads(), r.locals()),
        ).len() + r.filtered_entries().filter(uploaded_local_pred(r.uploads(), r.locals())).len()
            + r.filtered_entries().filter(invalid_pred(r.uploads(), r.locals())).len()
            == r.filtered_entries().len(),
        r.shown_entries().len() + r.filtered_entries().filter(uploaded_local_pred(r.uploads(), r.locals())).len()
            == r.filtered_entries().len(),
{
    let f = r.filtered_entries();
    let p = date_pred(r.uploads(), r.locals(), r.start_day(), r.end_day());
    assert forall|k: int| 0 <= k < f.len() implies index_valid(r.uploads(), r.locals(), #[trigger] f[k]) by {
        r.all_entries().lemma_filter_pred(p, k);
    }
    lemma_kinds_partition(f, r.uploads(), r.locals());
}

/// The sum of the folder sizes of the local recordings that `s` points to.
pub open spec fn local_sizes_total<M>(s: Seq<RecordingIndex>, locs: Seq<LocalRecording<M>>) -> int
    decreases s.len(),
{
    if s.len() == 0 {
        0
    } else {
        local_sizes_total(s.drop_last(), locs) + match s.last() {
            RecordingIndex::Local(i) => locs[i as int].info_of().folder_size as int,
            RecordingIndex::Uploaded(_) => 0,
        }
    }
}

/// The sum of the sizes of the uploads that `s` points to.
pub open spec fn upload_sizes_total(s: Seq<RecordingIndex>, ups: Seq<UserUpload>) -> int
    decreases s.len(),
{
    if s.len() == 0 {
        0
    } else {
        upload_sizes_total(s.drop_last(), ups) + match s.last() {
            RecordingIndex::Uploaded(i) => ups[i as int].file_size_bytes as int,
            RecordingIndex::Local(_) => 0,
        }
    }
}

/// The pending size shown is the total folder size of exactly the entries
/// counted as pending (local recordings not yet uploaded, or paused); the
/// uploaded size is the total size of exactly the uploads counted.
pub proof fn lemma_sizes_cover_counted_entries<M>(
    s: Seq<RecordingIndex>,
    ups: Seq<UserUpload>,
    locs: Seq<LocalRecording<M>>,
)
    ensures
        pending_bytes_of(s, ups, locs) == local_sizes_total(s.filter(pending_pred(ups, locs)), locs),
        uploaded_bytes_of(s, ups, locs) == upload_sizes_total(s.filter(server_pred(ups, locs)), ups),
    decreases s.len(),
{
    reveal(Seq::filter);
    if s.len() > 0 {
        let t = s.drop_last();
        lemma_sizes_cover_counted_entries(t, ups, locs);
        let pp = pending_pred(ups, locs);
        let pv = server_pred(ups, locs);
        if pp(s.last()) {
            assert(s.filter(pp).drop_last() =~= t.filter(pp));
        }
        if pv(s.last()) {
            assert(s.filter(pv).drop_last() =~= t.filter(pv));
        }
    }
}

/// Every local recording awaiting upload, paused or not, adds its whole
/// folder size to the pending size of any list it is appended to.
pub proof fn lemma_pending_entry_adds_its_size<M>(
    s: Seq<RecordingIndex>,
    ups: Seq<UserUpload>,
    locs: Seq<LocalRecording<M>>,
    i: usize,
)
    requires
        i < locs.len(),
        locs[i as int] is Unuploaded || locs[i as int] is Paused,
    ensures
        pending_bytes_of(s.push(RecordingIndex::Local(i)), ups, locs) == pending_bytes_of(s, ups, locs)
            + locs[i as int].info_of().folder_size,
{
    lemma_sizes_cover_counted_entries(s, ups, locs);
    lemma_sizes_cover_counted_entries(s.push(RecordingIndex::Local(i)), ups, locs);
    reveal(Seq::filter);
    let pp = pending_pred(ups, locs);
    let t = s.push(RecordingIndex::Local(i));
    assert(t.drop_last() =~= s);
    assert(pp(RecordingIndex::Local(i)));
    assert(t.filter(pp).drop_last() =~= s.filter(pp));
}

} // verus!
