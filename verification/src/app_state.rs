//! State shared between the event loop and the user interface, and the
//! decisions the event loop takes on requests.

use vstd::prelude::*;
use backoff::backoff::Backoff;
use backoff::exponential::{ExponentialBackoff, ExponentialBackoffBuilder};
use backoff::SystemClock;
use std::path::PathBuf;
use crate::games::{UnsupportedGames, game_matches, is_first_match, reason_text_of};
use crate::text::{lowercase_of, to_lowercase};

verus! {

/// The application in the foreground, and why it cannot be recorded, if so.
#[derive(Clone, PartialEq, Debug)]
pub struct ForegroundedGame {
    pub exe_name: Option<String>,
    pub unsupported_reason: Option<String>,
}

impl ForegroundedGame {
    pub fn is_recordable(&self) -> (r: bool)
        ensures
            r == self.unsupported_reason is None,
    {
        self.unsupported_reason.is_none()
    }
}

/// Why the foreground application cannot be recorded: the reason of the first
/// unsupported game that its lower-cased executable stem matches; else, when
/// the recorder cannot capture the window, a hint to run as administrator.
pub open spec fn unsupported_reason_of(
    games: UnsupportedGames,
    exe_stem: Seq<char>,
    capturable: bool,
    reason: Option<Seq<char>>,
) -> bool {
    let exe = lowercase_of(lowercase_of(exe_stem));
    if exists|i: int| is_first_match(games.games@, exe, i) {
        exists|i: int|
            is_first_match(games.games@, exe, i) && reason == Some(
                reason_text_of(games.games@[i].reason),
            )
    } else if !capturable {
        reason == Some(
            "Recorder cannot capture this window. Try running OWL Control in admin mode."@,
        )
    } else {
        reason is None
    }
}

/// The foreground application `exe_name`, whose file stem is `exe_stem`, as
/// the settings show it; `capturable` is whether the recorder can capture its
/// window.
pub fn get_foregrounded_game(
    unsupported_games: &UnsupportedGames,
    exe_name: String,
    exe_stem: &str,
    capturable: bool,
) -> (r: ForegroundedGame)
    ensures
        r.exe_name == Some(exe_name),
        unsupported_reason_of(
            *unsupported_games,
            exe_stem@,
            capturable,
            match r.unsupported_reason {
                Some(s) => Some(s@),
                None => None,
            },
        ),
{
    let lower = to_lowercase(exe_stem);
    let ghost exe = lowercase_of(lowercase_of(exe_stem@));
    let unsupported_reason = match unsupported_games.get(lower.as_str()) {
        Some(game) => Some(game.reason.reason_text()),
        None => {
            assert(!exists|i: int| is_first_match(unsupported_games.games@, exe, i));
            if !capturable {
                Some(
                    String::from_str(
                        "Recorder cannot capture this window. Try running OWL Control in admin mode.",
                    ),
                )
            } else {
                None
            }
        },
    };
    ForegroundedGame { exe_name: Some(exe_name), unsupported_reason }
}

/// Which hotkey is being rebound.
#[derive(PartialEq, Clone, Copy, Eq, Debug, Structural)]
pub enum HotkeyRebindTarget {
    /// Listening for start key
    Start,
    /// Listening for stop key
    Stop,
}

/// Whether the settings are waiting for a key to bind to a hotkey.
#[derive(Copy, Clone, PartialEq, Eq, Debug, Structural)]
pub enum ListeningForNewHotkey {
    NotListening,
    Listening { target: HotkeyRebindTarget },
    Captured { target: HotkeyRebindTarget, key: u16 },
}

impl ListeningForNewHotkey {
    pub fn listening_hotkey_target(&self) -> (r: Option<HotkeyRebindTarget>)
        ensures
            r == (match *self {
                ListeningForNewHotkey::Listening { target } => Some(target),
                _ => None,
            }),
    {
        match self {
            ListeningForNewHotkey::Listening { target } => Some(*target),
            _ => None,
        }
    }

    /// An input event while rebinding: a key press is captured for the target
    /// being listened for. Returns the new state, and whether the event goes on
    /// to the recording state machine (only when not rebinding at all).
    pub fn on_input(self, key: Option<u16>) -> (r: (ListeningForNewHotkey, bool))
        ensures
            r == (match (self, key) {
                (ListeningForNewHotkey::Listening { target }, Some(k)) => (
                    ListeningForNewHotkey::Captured { target, key: k },
                    false,
                ),
                (ListeningForNewHotkey::NotListening, _) => (self, true),
                _ => (self, false),
            }),
    {
        match (self, key) {
            (ListeningForNewHotkey::Listening { target }, Some(k)) => (
                ListeningForNewHotkey::Captured { target, key: k },
                false,
            ),
            (ListeningForNewHotkey::NotListening, _) => (self, true),
            _ => (self, false),
        }
    }

    /// A captured key once the user interface has looked up its name: bound
    /// when it has one (listening stops), else listened for again.
    pub fn after_capture(self, key_has_name: bool) -> (r: ListeningForNewHotkey)
        ensures
            r == (match self {
                ListeningForNewHotkey::Captured { target, .. } => if key_has_name {
                    ListeningForNewHotkey::NotListening
                } else {
                    ListeningForNewHotkey::Listening { target }
                },
                _ => self,
            }),
    {
        match self {
            ListeningForNewHotkey::Captured { target, .. } => if key_has_name {
                ListeningForNewHotkey::NotListening
            } else {
                ListeningForNewHotkey::Listening { target }
            },
            _ => self,
        }
    }
}

/// A request for some async action to happen.
pub enum AsyncRequest {
    ValidateApiKey { api_key: String },
    UploadData,
    PauseUpload,
    OpenDataDump,
    OpenLog,
    UpdateUnsupportedGames(UnsupportedGames),
    LoadUploadStats,
    LoadLocalRecordings,
    DeleteAllInvalidRecordings,
    DeleteAllUploadedLocalRecordings,
    DeleteRecording(PathBuf),
    OpenFolder(PathBuf),
    MoveRecordingsFolder { from: PathBuf, to: PathBuf },
    PickRecordingFolder { current_location: PathBuf },
    PlayCue { cue: String },
    /// Sent when an upload batch completes, with count of recordings processed
    UploadCompleted { uploaded_count: usize },
    /// Clear the auto-upload queue (called when unchecking auto-upload preference)
    ClearAutoUploadQueue,
    /// Switch to/from offline mode
    SetOfflineMode { enabled: bool, offline_reason: Option<String> },
    /// Attempt to go online with backoff - starts backoff if not active, or retries if active
    OfflineBackoffAttempt,
    /// Cancel the offline mode backoff retry loop
    CancelOfflineBackoff,
}


/// State for offline mode and backoff retry logic
#[derive(Clone, Copy, PartialEq, Eq, Debug, Structural)]
pub struct OfflineState {
    /// Flag for offline mode - skips API server calls when enabled
    pub mode: bool,
    /// Whether offline backoff retry is currently active
    pub backoff_active: bool,
    /// Timestamp (as seconds since UNIX epoch) of when the next offline retry will occur
    pub next_retry_time: u64,
    /// Current retry count for offline backoff (used to display in UI)
    pub retry_count: u32,
}

/// What the offline backoff does on an `OfflineBackoffAttempt` request.
#[derive(Clone, Copy, PartialEq, Eq, Debug, Structural)]
pub enum BackoffStep {
    /// Online: nothing to do
    Nothing,
    /// Offline, no retry loop yet: start one
    Start,
    /// Offline, retry loop running: try to validate the API key
    Retry,
}

/// How a retried API key validation went.
pub enum RetryOutcome {
    /// The key is valid, for this user id
    Online(String),
    /// The server could not be reached
    NetworkError(String),
    /// The server answered with an error
    OtherError(String),
}

/// What the event loop does after a retry.
#[derive(PartialEq, Eq, Debug)]
pub enum RetryAction {
    /// Go online as this user
    GoOnline(String),
    /// Try again after this many seconds
    ScheduleRetry(u64),
    /// The backoff gave no further delay: retrying stops
    Exhausted,
    /// Retrying stops and the user sees this error; the application stays offline
    StopWithError(String),
}

/// A retry at Unix time `now` with outcome `outcome` and next delay
/// `next_delay` answers `r` and takes the offline state from `old` to `new`:
/// online, offline mode ends; after a network error the retry count grows and
/// the next retry is scheduled, or, without a delay, the loop stops and its
/// counters clear; after any other error the loop stops likewise.
pub open spec fn retry_step(
    old: OfflineState,
    outcome: RetryOutcome,
    now: u64,
    next_delay: Option<u64>,
    r: RetryAction,
    new: OfflineState,
) -> bool {
    match outcome {
        RetryOutcome::Online(user_id) => r == RetryAction::GoOnline(user_id) && new == (OfflineState {
            mode: false,
            ..old
        }),
        RetryOutcome::NetworkError(_) => match next_delay {
            Some(d) => r == RetryAction::ScheduleRetry(d) && new == (OfflineState {
                mode: old.mode,
                backoff_active: old.backoff_active,
                next_retry_time: (now + d) as u64,
                retry_count: (old.retry_count + 1) as u32,
            }),
            None => r == RetryAction::Exhausted && new == (OfflineState {
                mode: old.mode,
                backoff_active: false,
                next_retry_time: 0,
                retry_count: 0,
            }),
        },
        RetryOutcome::OtherError(msg) => r == RetryAction::StopWithError(msg) && new == (OfflineState {
            mode: old.mode,
            backoff_active: false,
            next_retry_time: 0,
            retry_count: 0,
        }),
    }
}

#[verifier::external_type_specification]
#[verifier::external_body]
#[verifier::reject_recursive_types(C)]
pub struct ExExponentialBackoff<C>(ExponentialBackoff<C>);

#[verifier::external_type_specification]
#[verifier::external_body]
pub struct ExSystemClock(SystemClock);

#[verifier::external_type_specification]
#[verifier::external_body]
#[verifier::reject_recursive_types(C)]
pub struct ExExponentialBackoffBuilder<C>(ExponentialBackoffBuilder<C>);

/// Calls `ExponentialBackoffBuilder::with_max_elapsed_time(None)`: backoffs
/// that the builder builds afterwards have no time limit.
#[verifier::external_body]
fn clear_time_limit(builder: &mut ExponentialBackoffBuilder<SystemClock>) {
    builder.with_max_elapsed_time(None);
}

/// Calls `ExponentialBackoffBuilder::build`: a backoff with the builder's
/// settings, its clock started now.
#[verifier::external_body]
fn build_backoff(builder: &ExponentialBackoffBuilder<SystemClock>) -> ExponentialBackoff<SystemClock> {
    builder.build()
}

/// The backoff of the offline retry loop: an exponential backoff without a
/// time limit. The field is private and `new` is its only source, which
/// clears the time limit before building.
pub struct OfflineBackoff {
    backoff: ExponentialBackoff<SystemClock>,
}

impl OfflineBackoff {
    /// A backoff with the builder's intervals, factors and multiplier, and no
    /// time limit.
    pub fn new(builder: ExponentialBackoffBuilder<SystemClock>) -> OfflineBackoff {
        let mut builder = builder;
        clear_time_limit(&mut builder);
        OfflineBackoff { backoff: build_backoff(&builder) }
    }
}

/// Calls `Backoff::next_backoff` on the offline backoff and takes the whole
/// seconds of the delay. Without a time limit (which `OfflineBackoff::new`
/// guarantees) the crate's source always answers with a delay and takes no
/// sum that could overflow; the delay itself is drawn at random and is not
/// stated.
#[verifier::external_body]
fn next_backoff_secs(backoff: &mut OfflineBackoff) -> (r: Option<u64>)
    ensures
        r is Some,
{
    backoff.backoff.next_backoff().map(|d| d.as_secs())
}

/// The delay used for a drawn delay of `drawn` seconds at Unix time `now`:
/// the drawn one, unless it would carry the retry time past `u64::MAX`.
pub open spec fn usable_delay(now: u64, drawn: u64) -> Option<u64> {
    if drawn <= u64::MAX - now {
        Some(drawn)
    } else {
        None
    }
}

impl OfflineState {
    /// Counters are cleared whenever no retry loop is running.
    pub open spec fn wf(self) -> bool {
        !self.backoff_active ==> self.retry_count == 0 && self.next_retry_time == 0
    }

    pub fn default() -> (r: Self)
        ensures
            r == (OfflineState { mode: false, backoff_active: false, next_retry_time: 0, retry_count: 0 }),
            r.wf(),
    {
        OfflineState { mode: false, backoff_active: false, next_retry_time: 0, retry_count: 0 }
    }

    /// Switches offline mode on or off.
    pub fn set_mode(&mut self, enabled: bool)
        ensures
            *final(self) == (OfflineState { mode: enabled, ..*old(self) }),
            old(self).wf() ==> final(self).wf(),
    {
        self.mode = enabled;
    }

    /// What an `OfflineBackoffAttempt` request does.
    pub fn backoff_step(&self) -> (r: BackoffStep)
        ensures
            r == (if !self.mode {
                BackoffStep::Nothing
            } else if !self.backoff_active {
                BackoffStep::Start
            } else {
                BackoffStep::Retry
            }),
    {
        if !self.mode {
            BackoffStep::Nothing
        } else if !self.backoff_active {
            BackoffStep::Start
        } else {
            BackoffStep::Retry
        }
    }

    /// Stops the retry loop and clears its counters; offline mode is unchanged.
    pub fn cancel_backoff(&mut self)
        ensures
            *final(self) == (OfflineState {
                mode: old(self).mode,
                backoff_active: false,
                next_retry_time: 0,
                retry_count: 0,
            }),
            final(self).wf(),
    {
        self.backoff_active = false;
        self.retry_count = 0;
        self.next_retry_time = 0;
    }

    /// Starts the retry loop at Unix time `now` with the backoff's first delay;
    /// returns the delay to wait, or `None` (nothing changes) when the backoff
    /// gave none.
    pub fn start_backoff(&mut self, now: u64, first_delay: Option<u64>) -> (r: Option<u64>)
        requires
            first_delay matches Some(d) ==> now + d <= u64::MAX,
        ensures
            r == first_delay,
            match first_delay {
                Some(d) => *final(self) == (OfflineState {
                    mode: old(self).mode,
                    backoff_active: true,
                    next_retry_time: (now + d) as u64,
                    retry_count: 0,
                }),
                None => *final(self) == *old(self),
            },
            old(self).wf() ==> final(self).wf(),
    {
        match first_delay {
            Some(d) => {
                self.backoff_active = true;
                self.next_retry_time = now + d;
                self.retry_count = 0;
                Some(d)
            },
            None => None,
        }
    }

    /// Handles the outcome of a retry at Unix time `now`; `next_delay` is the
    /// backoff's next delay (asked for only after a network error).
    pub fn on_retry(&mut self, outcome: RetryOutcome, now: u64, next_delay: Option<u64>) -> (r: RetryAction)
        requires
            outcome is NetworkError ==> old(self).retry_count < u32::MAX,
            outcome is NetworkError && next_delay is Some ==> now + next_delay->0 <= u64::MAX,
        ensures
            retry_step(*old(self), outcome, now, next_delay, r, *final(self)),
            old(self).wf() && (old(self).backoff_active || !(outcome is NetworkError))
                ==> final(self).wf(),
    {
        match outcome {
            RetryOutcome::Online(user_id) => {
                self.mode = false;
                RetryAction::GoOnline(user_id)
            },
            RetryOutcome::NetworkError(_) => {
                self.retry_count = self.retry_count + 1;
                match next_delay {
                    Some(d) => {
                        self.next_retry_time = now + d;
                        RetryAction::ScheduleRetry(d)
                    },
                    None => {
                        self.cancel_backoff();
                        RetryAction::Exhausted
                    },
                }
            },
            RetryOutcome::OtherError(msg) => {
                self.cancel_backoff();
                RetryAction::StopWithError(msg)
            },
        }
    }
}

/// The delay used for an optional drawn delay at Unix time `now`: none where
/// nothing was drawn, else `usable_delay`.
pub open spec fn usable_next(now: u64, drawn: Option<u64>) -> Option<u64> {
    match drawn {
        Some(d) => usable_delay(now, d),
        None => None,
    }
}

fn usable_delay_exec(now: u64, drawn: u64) -> (r: Option<u64>)
    ensures
        r == usable_delay(now, drawn),
{
    if drawn <= u64::MAX - now {
        Some(drawn)
    } else {
        None
    }
}

impl OfflineState {
    /// Starts the retry loop at Unix time `now` after the backoff drew a first
    /// delay of `drawn` seconds: with that delay, unless it would carry the
    /// retry time past `u64::MAX`, in which case nothing changes. Returns the
    /// delay to wait, if any.
    pub fn start_backoff_after_draw(&mut self, now: u64, drawn: u64) -> (r: Option<u64>)
        ensures
            r == usable_delay(now, drawn),
            match r {
                Some(d) => now + d <= u64::MAX && *final(self) == (OfflineState {
                    mode: old(self).mode,
                    backoff_active: true,
                    next_retry_time: (now + d) as u64,
                    retry_count: 0,
                }),
                None => *final(self) == *old(self),
            },
            old(self).wf() ==> final(self).wf(),
    {
        let delay = usable_delay_exec(now, drawn);
        self.start_backoff(now, delay)
    }

    /// Handles the outcome of a retry at Unix time `now`, after the backoff
    /// drew `drawn` (asked for only after a network error): the delay used is
    /// `usable_next(now, drawn)`.
    pub fn on_retry_after_draw(&mut self, outcome: RetryOutcome, now: u64, drawn: Option<u64>) -> (r: RetryAction)
        requires
            outcome is NetworkError ==> old(self).retry_count < u32::MAX,
        ensures
            retry_step(*old(self), outcome, now, usable_next(now, drawn), r, *final(self)),
            old(self).wf() && (old(self).backoff_active || !(outcome is NetworkError))
                ==> final(self).wf(),
    {
        let next = match drawn {
            Some(d) => usable_delay_exec(now, d),
            None => None,
        };
        self.on_retry(outcome, now, next)
    }

    /// Starts the retry loop at Unix time `now` with the first delay that
    /// `backoff` draws (see `start_backoff_after_draw`); the delay to wait, if
    /// any.
    pub fn begin_backoff(&mut self, now: u64, backoff: &mut OfflineBackoff) -> (r: Option<u64>)
        ensures
            exists|drawn: u64| r == #[trigger] usable_delay(now, drawn),
            match r {
                Some(d) => now + d <= u64::MAX && *final(self) == (OfflineState {
                    mode: old(self).mode,
                    backoff_active: true,
                    next_retry_time: (now + d) as u64,
                    retry_count: 0,
                }),
                None => *final(self) == *old(self),
            },
            old(self).wf() ==> final(self).wf(),
    {
        let drawn = next_backoff_secs(backoff).unwrap();
        self.start_backoff_after_draw(now, drawn)
    }

    /// Handles the outcome of a retry at Unix time `now`, drawing the next delay
    /// from `backoff` after a network error (see `on_retry_after_draw`).
    pub fn retry_with_backoff(
        &mut self,
        outcome: RetryOutcome,
        now: u64,
        backoff: &mut OfflineBackoff,
    ) -> (r: RetryAction)
        requires
            outcome is NetworkError ==> old(self).retry_count < u32::MAX,
        ensures
            outcome is NetworkError ==> exists|drawn: u64|
                #[trigger] retry_step(*old(self), outcome, now, usable_delay(now, drawn), r, *final(self)),
            !(outcome is NetworkError) ==> retry_step(*old(self), outcome, now, None, r, *final(self)),
            old(self).wf() && (old(self).backoff_active || !(outcome is NetworkError))
                ==> final(self).wf(),
    {
        let drawn = match &outcome {
            RetryOutcome::NetworkError(_) => next_backoff_secs(backoff),
            _ => None,
        };
        self.on_retry_after_draw(outcome, now, drawn)
    }
}

/// What the user interface is told, and which requests follow, when offline
/// mode is switched.
pub struct OfflineModeChange {
    pub user_id_message: String,
    pub follow_up: Vec<AsyncRequest>,
}

/// Switching offline mode on with a reason shows `Offline (reason)` and starts
/// the retry loop; on without a reason (the user chose it) shows `Offline`;
/// off shows `Authenticating...`, stops the retry loop, validates `api_key`
/// and reloads upload statistics and local recordings.
pub fn offline_mode_change(enabled: bool, offline_reason: Option<String>, api_key: String) -> (r: OfflineModeChange)
    ensures
        match (enabled, offline_reason) {
            (true, Some(reason)) => r.user_id_message@ == "Offline ("@ + reason@ + ")"@
                && r.follow_up@.len() == 1 && r.follow_up@[0] is OfflineBackoffAttempt,
            (true, None) => r.user_id_message@ == "Offline"@ && r.follow_up@.len() == 0,
            (false, _) => r.user_id_message@ == "Authenticating..."@ && r.follow_up@.len() == 4
                && r.follow_up@[0] is CancelOfflineBackoff && r.follow_up@[1] == (
            AsyncRequest::ValidateApiKey { api_key }) && r.follow_up@[2] is LoadUploadStats
                && r.follow_up@[3] is LoadLocalRecordings,
        },
{
    match (enabled, offline_reason) {
        (true, Some(reason)) => {
            let mut msg = String::from_str("Offline (");
            msg.append(reason.as_str());
            msg.append(")");
            let mut follow_up = Vec::new();
            follow_up.push(AsyncRequest::OfflineBackoffAttempt);
            OfflineModeChange { user_id_message: msg, follow_up }
        },
        (true, None) => OfflineModeChange {
            user_id_message: String::from_str("Offline"),
            follow_up: Vec::new(),
        },
        (false, _) => {
            let mut follow_up = Vec::new();
            follow_up.push(AsyncRequest::CancelOfflineBackoff);
            follow_up.push(AsyncRequest::ValidateApiKey { api_key });
            follow_up.push(AsyncRequest::LoadUploadStats);
            follow_up.push(AsyncRequest::LoadLocalRecordings);
            OfflineModeChange {
                user_id_message: String::from_str("Authenticating..."),
                follow_up,
            }
        },
    }
}

/// How an API key validation went.
pub enum ApiKeyCheck {
    /// The key is valid, for this user id
    Valid(String),
    /// The server could not be reached (or was unavailable); the error text
    NetworkError(String),
    /// The key was refused; the error text
    Refused(String),
}

/// What the event loop does after validating an API key: remember the key and
/// user id, tell the user interface, and send the follow-up requests.
pub struct ApiKeyValidation {
    pub credentials: Option<(String, String)>,
    pub user_id_update: Option<Result<String, String>>,
    pub follow_up: Vec<AsyncRequest>,
}

/// A valid key is remembered with its user id, shown, and upload statistics
/// are loaded; a network error switches to offline mode with the error as
/// reason; a refused key shows the error. In every case the local recordings
/// are loaded.
pub fn api_key_validated(api_key: String, check: ApiKeyCheck) -> (r: ApiKeyValidation)
    ensures
        r.follow_up@.len() >= 1,
        r.follow_up@.last() is LoadLocalRecordings,
        match check {
            ApiKeyCheck::Valid(user_id) => r.credentials == Some((api_key, user_id))
                && r.user_id_update == Some(Ok::<String, String>(user_id))
                && r.follow_up@.len() == 2 && r.follow_up@[0] is LoadUploadStats,
            ApiKeyCheck::NetworkError(msg) => r.credentials is None && r.user_id_update is None
                && r.follow_up@.len() == 2 && r.follow_up@[0] == (AsyncRequest::SetOfflineMode {
                enabled: true,
                offline_reason: Some(msg),
            }),
            ApiKeyCheck::Refused(msg) => r.credentials is None && r.user_id_update == Some(
                Err::<String, String>(msg),
            ) && r.follow_up@.len() == 1,
        },
{
    let mut follow_up = Vec::new();
    let (credentials, user_id_update) = match check {
        ApiKeyCheck::Valid(user_id) => {
            follow_up.push(AsyncRequest::LoadUploadStats);
            let shown = user_id.clone();
            (Some((api_key, user_id)), Some(Ok(shown)))
        },
        ApiKeyCheck::NetworkError(msg) => {
            follow_up.push(AsyncRequest::SetOfflineMode { enabled: true, offline_reason: Some(msg) });
            (None, None)
        },
        ApiKeyCheck::Refused(msg) => (None, Some(Err(msg))),
    };
    follow_up.push(AsyncRequest::LoadLocalRecordings);
    ApiKeyValidation { credentials, user_id_update, follow_up }
}

/// An upload request: refused with this message in offline mode, else started.
pub fn upload_request(offline: bool) -> (r: Result<(), String>)
    ensures
        offline ==> (r matches Err(m) && m@ == "Offline mode is enabled. Uploads are disabled."@),
        !offline ==> r is Ok,
{
    if offline {
        Err(String::from_str("Offline mode is enabled. Uploads are disabled."))
    } else {
        Ok(())
    }
}

/// Whether upload statistics are fetched: only online, and only with a
/// validated key and user id.
pub fn should_load_upload_stats(offline: bool, has_credentials: bool) -> (r: bool)
    ensures
        r == (!offline && has_credentials),
{
    !offline && has_credentials
}

} // verus!
