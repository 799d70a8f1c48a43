//! The recording state machine that the application's event loop drives:
//! what an input event or a periodic check asks for, and what a transition
//! between states does.

use vstd::prelude::*;
use crate::constants::{MAX_FOOTAGE_SECS, MAX_IDLE_DURATION_SECS, NANOS_PER_SEC};

verus! {

/// The recording state, as the event loop keeps it.
#[derive(Clone, Copy, PartialEq, Eq, Debug, Structural)]
pub enum RecordingState {
    /// Waiting for user to start recording
    Idle,
    /// In process of recording
    Recording,
    /// Recording paused due to idle or unfocused window, and will restart upon
    /// both input and window focus. Holds the process id of the paused game.
    Paused { pid: u32 },
}

/// The transitions that the event loop performs; any other one is a bug.
pub open spec fn is_valid_transition(from: RecordingState, to: RecordingState) -> bool {
    match (from, to) {
        (RecordingState::Idle, RecordingState::Recording) => true,
        (RecordingState::Paused { .. }, RecordingState::Recording) => true,
        (RecordingState::Recording, RecordingState::Idle) => true,
        (RecordingState::Recording, RecordingState::Paused { .. }) => true,
        (RecordingState::Paused { .. }, RecordingState::Idle) => true,
        (RecordingState::Recording, RecordingState::Recording) => true,
        _ => false,
    }
}

/// Whether the event loop performs the transition from `from` to `to`.
pub fn transition_allowed(from: RecordingState, to: RecordingState) -> (r: bool)
    ensures
        r == is_valid_transition(from, to),
{
    match (from, to) {
        (RecordingState::Idle, RecordingState::Recording) => true,
        (RecordingState::Paused { .. }, RecordingState::Recording) => true,
        (RecordingState::Recording, RecordingState::Idle) => true,
        (RecordingState::Recording, RecordingState::Paused { .. }) => true,
        (RecordingState::Paused { .. }, RecordingState::Idle) => true,
        (RecordingState::Recording, RecordingState::Recording) => true,
        _ => false,
    }
}

/// What an input event asks of the recording state machine.
#[derive(Clone, Copy, PartialEq, Eq, Debug, Structural)]
pub enum InputDecision {
    Ignore,
    /// Recording would start, but this version is out of date: tell the user.
    ShowOutdatedError,
    Transition(RecordingState),
}

/// The decision for an input event: `key` is the key it pressed, if any, and
/// `start_key` / `stop_key` the configured hotkeys (if they name a key).
pub open spec fn input_decision_of(
    state: RecordingState,
    key: Option<u16>,
    start_key: Option<u16>,
    stop_key: Option<u16>,
    is_out_of_date: bool,
    window_focused: bool,
) -> InputDecision {
    match state {
        RecordingState::Idle => if key == start_key {
            if is_out_of_date {
                InputDecision::ShowOutdatedError
            } else {
                InputDecision::Transition(RecordingState::Recording)
            }
        } else {
            InputDecision::Ignore
        },
        RecordingState::Recording => if key == stop_key {
            InputDecision::Transition(RecordingState::Idle)
        } else {
            InputDecision::Ignore
        },
        RecordingState::Paused { .. } => if key == stop_key {
            InputDecision::Transition(RecordingState::Idle)
        } else if window_focused {
            InputDecision::Transition(RecordingState::Recording)
        } else {
            InputDecision::Ignore
        },
    }
}

fn same_key(a: Option<u16>, b: Option<u16>) -> (r: bool)
    ensures
        r == (a == b),
{
    match (a, b) {
        (Some(x), Some(y)) => x == y,
        (None, None) => true,
        _ => false,
    }
}

/// Decides what an input event does. `window_focused` is whether the window
/// being recorded (if any) has the focus.
pub fn decide_on_input(
    state: RecordingState,
    key: Option<u16>,
    start_key: Option<u16>,
    stop_key: Option<u16>,
    is_out_of_date: bool,
    window_focused: bool,
) -> (r: InputDecision)
    ensures
        r == input_decision_of(state, key, start_key, stop_key, is_out_of_date, window_focused),
{
    match state {
        RecordingState::Idle => if same_key(key, start_key) {
            if is_out_of_date {
                InputDecision::ShowOutdatedError
            } else {
                InputDecision::Transition(RecordingState::Recording)
            }
        } else {
            InputDecision::Ignore
        },
        RecordingState::Recording => if same_key(key, stop_key) {
            InputDecision::Transition(RecordingState::Idle)
        } else {
            InputDecision::Ignore
        },
        RecordingState::Paused { .. } => if same_key(key, stop_key) {
            InputDecision::Transition(RecordingState::Idle)
        } else if window_focused {
            InputDecision::Transition(RecordingState::Recording)
        } else {
            InputDecision::Ignore
        },
    }
}

/// Every transition that an input event asks for is one the event loop performs.
pub proof fn lemma_input_transitions_valid(
    state: RecordingState,
    key: Option<u16>,
    start_key: Option<u16>,
    stop_key: Option<u16>,
    is_out_of_date: bool,
    window_focused: bool,
)
    ensures
        input_decision_of(state, key, start_key, stop_key, is_out_of_date, window_focused) matches InputDecision::Transition(to) ==> is_valid_transition(state, to),
{
}

/// With one key bound to both start and stop, that key switches recording on
/// and off: from idle it starts recording (unless this version is out of
/// date), and while recording it stops.
pub proof fn lemma_one_key_toggles(key: u16, window_focused: bool)
    ensures
        input_decision_of(RecordingState::Idle, Some(key), Some(key), Some(key), false, window_focused)
            == InputDecision::Transition(RecordingState::Recording),
        input_decision_of(RecordingState::Recording, Some(key), Some(key), Some(key), false, window_focused)
            == InputDecision::Transition(RecordingState::Idle),
{
}

/// What the periodic check observed about the recording, or about the paused game.
#[derive(Clone, Copy, PartialEq, Eq, Debug, Structural)]
pub struct TickObservation {
    /// The recorder holds a recording (expected while recording)
    pub has_recording: bool,
    /// The game's process still exists (the recorded one, or the paused one)
    pub process_exists: bool,
    /// The recorded game's process id
    pub pid: u32,
    /// Nanoseconds since the last input
    pub idle_nanos: u128,
    /// Nanoseconds since the recording started
    pub recording_nanos: u128,
    /// The recorded window exists and has lost the focus
    pub window_lost_focus: bool,
    /// The recorded window's resolution changed
    pub resolution_changed: bool,
    /// The recorder failed to hook into the game in time
    pub hook_timed_out: bool,
}

/// Why the periodic check asks for a transition.
#[derive(Clone, Copy, PartialEq, Eq, Debug, Structural)]
pub enum TickReason {
    GameExited,
    IdleTimeout,
    MaxDurationReached,
    FocusLost,
    ResolutionChanged,
    HookTimeout,
    PausedGameExited,
}

/// No input for longer than the idle limit.
pub open spec fn idle_exceeded(idle_nanos: u128) -> bool {
    idle_nanos > MAX_IDLE_DURATION_SECS as u128 * NANOS_PER_SEC
}

/// Recording for longer than the footage limit.
pub open spec fn duration_exceeded(recording_nanos: u128) -> bool {
    recording_nanos > MAX_FOOTAGE_SECS as u128 * NANOS_PER_SEC
}

/// The transition that the periodic check asks for, in order of precedence:
/// while recording, the game exited (stop), no input for too long (pause),
/// the recording is too long (restart), the window lost the focus (pause),
/// the resolution changed (restart), the game could not be hooked (stop);
/// while paused, the paused game exited (stop).
pub open spec fn tick_decision_of(state: RecordingState, obs: TickObservation) -> Option<(RecordingState, TickReason)> {
    match state {
        RecordingState::Recording => if !obs.has_recording {
            None
        } else if !obs.process_exists {
            Some((RecordingState::Idle, TickReason::GameExited))
        } else if idle_exceeded(obs.idle_nanos) {
            Some((RecordingState::Paused { pid: obs.pid }, TickReason::IdleTimeout))
        } else if duration_exceeded(obs.recording_nanos) {
            Some((RecordingState::Recording, TickReason::MaxDurationReached))
        } else if obs.window_lost_focus {
            Some((RecordingState::Paused { pid: obs.pid }, TickReason::FocusLost))
        } else if obs.resolution_changed {
            Some((RecordingState::Recording, TickReason::ResolutionChanged))
        } else if obs.hook_timed_out {
            Some((RecordingState::Idle, TickReason::HookTimeout))
        } else {
            None
        },
        RecordingState::Paused { .. } => if !obs.process_exists {
            Some((RecordingState::Idle, TickReason::PausedGameExited))
        } else {
            None
        },
        RecordingState::Idle => None,
    }
}

/// Decides what the periodic check does.
pub fn decide_on_tick(state: RecordingState, obs: TickObservation) -> (r: Option<(RecordingState, TickReason)>)
    ensures
        r == tick_decision_of(state, obs),
{
    match state {
        RecordingState::Recording => if !obs.has_recording {
            None
        } else if !obs.process_exists {
            Some((RecordingState::Idle, TickReason::GameExited))
        } else if obs.idle_nanos > MAX_IDLE_DURATION_SECS as u128 * NANOS_PER_SEC {
            Some((RecordingState::Paused { pid: obs.pid }, TickReason::IdleTimeout))
        } else if obs.recording_nanos > MAX_FOOTAGE_SECS as u128 * NANOS_PER_SEC {
            Some((RecordingState::Recording, TickReason::MaxDurationReached))
        } else if obs.window_lost_focus {
            Some((RecordingState::Paused { pid: obs.pid }, TickReason::FocusLost))
        } else if obs.resolution_changed {
            Some((RecordingState::Recording, TickReason::ResolutionChanged))
        } else if obs.hook_timed_out {
            Some((RecordingState::Idle, TickReason::HookTimeout))
        } else {
            None
        },
        RecordingState::Paused { .. } => if !obs.process_exists {
            Some((RecordingState::Idle, TickReason::PausedGameExited))
        } else {
            None
        },
        RecordingState::Idle => None,
    }
}

/// Whether the periodic check gets as far as asking whether the game was
/// hooked: nothing before that check asks for a transition.
pub fn needs_hook_check(state: RecordingState, obs: TickObservation) -> (r: bool)
    ensures
        r == (state == RecordingState::Recording && obs.has_recording && tick_decision_of(
            state,
            TickObservation { hook_timed_out: false, ..obs },
        ) is None),
{
    match state {
        RecordingState::Recording => obs.has_recording && decide_on_tick(
            state,
            TickObservation { hook_timed_out: false, ..obs },
        ).is_none(),
        _ => false,
    }
}

/// Every transition that the periodic check asks for is one the event loop performs.
pub proof fn lemma_tick_transitions_valid(state: RecordingState, obs: TickObservation)
    ensures
        tick_decision_of(state, obs) matches Some((to, _)) ==> is_valid_transition(state, to),
{
}

/// The play-time tracker's view of a transition.
#[derive(Clone, Copy, PartialEq, Eq, Debug, Structural)]
pub struct PlayTimeTransition {
    pub is_recording: bool,
    pub due_to_idle: bool,
}

/// The recording status that the event loop itself sets.
#[derive(Clone, Copy, PartialEq, Eq, Debug, Structural)]
pub enum StatusUpdate {
    Stopped,
    Paused,
}

/// What a transition does, in this order: stop the recorder (then announce the
/// stop, with a cue when `Some(true)`), start it (then announce the start, with
/// a cue when `Some(true)`), set the status, play the mild stop cue, take the
/// recorded window, reset the idle clock, tell the play-time tracker, trigger an
/// automatic upload; then the state becomes `next`. When stopping or starting
/// fails, the state stays as it was.
#[derive(Clone, Copy, PartialEq, Eq, Debug, Structural)]
pub struct TransitionPlan {
    pub stop: Option<bool>,
    pub start: Option<bool>,
    pub set_status: Option<StatusUpdate>,
    pub mild_stop_cue: bool,
    pub capture_window: bool,
    pub reset_last_active: bool,
    pub play_time: Option<PlayTimeTransition>,
    pub auto_upload: bool,
    pub next: RecordingState,
}

/// The plan of a valid transition; `honk` is whether cues are enabled, and
/// `idle_nanos` the time since the last input.
pub open spec fn transition_plan_of(from: RecordingState, to: RecordingState, honk: bool, idle_nanos: u128) -> TransitionPlan {
    match (from, to) {
        (RecordingState::Recording, RecordingState::Idle) => TransitionPlan {
            stop: Some(honk),
            start: None,
            set_status: None,
            mild_stop_cue: false,
            capture_window: false,
            reset_last_active: false,
            play_time: Some(PlayTimeTransition { is_recording: false, due_to_idle: false }),
            auto_upload: true,
            next: RecordingState::Idle,
        },
        (RecordingState::Recording, RecordingState::Paused { pid }) => TransitionPlan {
            stop: Some(honk),
            start: None,
            set_status: Some(StatusUpdate::Paused),
            mild_stop_cue: false,
            capture_window: false,
            reset_last_active: false,
            play_time: Some(PlayTimeTransition { is_recording: false, due_to_idle: idle_exceeded(idle_nanos) }),
            auto_upload: true,
            next: RecordingState::Paused { pid },
        },
        (RecordingState::Paused { .. }, RecordingState::Idle) => TransitionPlan {
            stop: None,
            start: None,
            set_status: Some(StatusUpdate::Stopped),
            mild_stop_cue: honk,
            capture_window: false,
            reset_last_active: false,
            play_time: Some(PlayTimeTransition { is_recording: false, due_to_idle: false }),
            auto_upload: false,
            next: RecordingState::Idle,
        },
        (RecordingState::Recording, RecordingState::Recording) => TransitionPlan {
            stop: Some(false),
            start: Some(false),
            set_status: None,
            mild_stop_cue: false,
            capture_window: false,
            reset_last_active: true,
            play_time: None,
            auto_upload: false,
            next: RecordingState::Recording,
        },
        _ => TransitionPlan {
            stop: None,
            start: Some(honk),
            set_status: None,
            mild_stop_cue: false,
            capture_window: true,
            reset_last_active: true,
            play_time: Some(PlayTimeTransition { is_recording: true, due_to_idle: false }),
            auto_upload: false,
            next: RecordingState::Recording,
        },
    }
}

/// What a transition does. The event loop performs only valid transitions.
pub fn plan_transition(from: RecordingState, to: RecordingState, honk: bool, idle_nanos: u128) -> (r: TransitionPlan)
    requires
        is_valid_transition(from, to),
    ensures
        r == transition_plan_of(from, to, honk, idle_nanos),
        r.next == to,
{
    match (from, to) {
        (RecordingState::Recording, RecordingState::Idle) => TransitionPlan {
            stop: Some(honk),
            start: None,
            set_status: None,
            mild_stop_cue: false,
            capture_window: false,
            reset_last_active: false,
            play_time: Some(PlayTimeTransition { is_recording: false, due_to_idle: false }),
            auto_upload: true,
            next: RecordingState::Idle,
        },
        (RecordingState::Recording, RecordingState::Paused { pid }) => TransitionPlan {
            stop: Some(honk),
            start: None,
            set_status: Some(StatusUpdate::Paused),
            mild_stop_cue: false,
            capture_window: false,
            reset_last_active: false,
            play_time: Some(
                PlayTimeTransition {
                    is_recording: false,
                    due_to_idle: idle_nanos > MAX_IDLE_DURATION_SECS as u128 * NANOS_PER_SEC,
                },
            ),
            auto_upload: true,
            next: RecordingState::Paused { pid },
        },
        (RecordingState::Paused { .. }, RecordingState::Idle) => TransitionPlan {
            stop: None,
            start: None,
            set_status: Some(StatusUpdate::Stopped),
            mild_stop_cue: honk,
            capture_window: false,
            reset_last_active: false,
            play_time: Some(PlayTimeTransition { is_recording: false, due_to_idle: false }),
            auto_upload: false,
            next: RecordingState::Idle,
        },
        (RecordingState::Recording, RecordingState::Recording) => TransitionPlan {
            stop: Some(false),
            start: Some(false),
            set_status: None,
            mild_stop_cue: false,
            capture_window: false,
            reset_last_active: true,
            play_time: None,
            auto_upload: false,
            next: RecordingState::Recording,
        },
        _ => TransitionPlan {
            stop: None,
            start: Some(honk),
            set_status: None,
            mild_stop_cue: false,
            capture_window: true,
            reset_last_active: true,
            play_time: Some(PlayTimeTransition { is_recording: true, due_to_idle: false }),
            auto_upload: false,
            next: RecordingState::Recording,
        },
    }
}

/// Whatever a transition plans, the recorder ends up recording exactly when
/// the new state is `Recording`: every transition into it starts the recorder,
/// and every transition out of it stops the recorder.
pub proof fn lemma_plan_recorder_matches_state(from: RecordingState, to: RecordingState, honk: bool, idle_nanos: u128)
    requires
        is_valid_transition(from, to),
    ensures
        ({
            let p = transition_plan_of(from, to, honk, idle_nanos);
            &&& (to == RecordingState::Recording <==> p.start is Some)
            &&& (from == RecordingState::Recording <==> p.stop is Some)
            &&& p.next == to
        }),
{
}

/// The state once a transition has been carried out: the plan's next state,
/// unless stopping or starting the recorder (where the plan does either)
/// failed, in which case the state stays as it was.
pub open spec fn state_after_of(from: RecordingState, plan: TransitionPlan, stop_ok: bool, start_ok: bool) -> RecordingState {
    if (plan.stop is Some && !stop_ok) || (plan.start is Some && !start_ok) {
        from
    } else {
        plan.next
    }
}

/// The state once a transition has been carried out; `stop_ok` and
/// `start_ok` tell whether stopping and starting the recorder went well
/// (they are not read where the plan does not stop or start it).
pub fn state_after_transition(from: RecordingState, plan: &TransitionPlan, stop_ok: bool, start_ok: bool) -> (r: RecordingState)
    ensures
        r == state_after_of(from, *plan, stop_ok, start_ok),
{
    let stop_failed = match plan.stop {
        Some(_) => !stop_ok,
        None => false,
    };
    let start_failed = match plan.start {
        Some(_) => !start_ok,
        None => false,
    };
    if stop_failed || start_failed {
        from
    } else {
        plan.next
    }
}

/// A transition either reaches its target or leaves the state as it was: it
/// reaches `to` when the recorder did what the plan asked, and stays at
/// `from` when stopping or starting failed. Pausing a recording sets the
/// status to paused; stopping a paused one sets it to stopped.
pub proof fn lemma_transition_outcome(
    from: RecordingState,
    to: RecordingState,
    honk: bool,
    idle_nanos: u128,
    stop_ok: bool,
    start_ok: bool,
)
    requires
        is_valid_transition(from, to),
    ensures
        ({
            let p = transition_plan_of(from, to, honk, idle_nanos);
            &&& state_after_of(from, p, true, true) == to
            &&& (p.stop is Some && !stop_ok) || (p.start is Some && !start_ok) ==> state_after_of(from, p, stop_ok, start_ok) == from
            &&& state_after_of(from, p, stop_ok, start_ok) == from || state_after_of(from, p, stop_ok, start_ok) == to
            &&& (from == RecordingState::Recording && to is Paused ==> p.set_status == Some(StatusUpdate::Paused))
            &&& (from is Paused && to == RecordingState::Idle ==> p.set_status == Some(StatusUpdate::Stopped))
        }),
{
}

/// A transition asks for an automatic upload exactly when it ends a
/// recording and saves it, that is when it leaves `Recording` for another
/// state (stopping to idle, or pausing); restarting a recording, starting
/// one, and stopping a paused one do not.
pub proof fn lemma_auto_upload_after_saving(from: RecordingState, to: RecordingState, honk: bool, idle_nanos: u128)
    requires
        is_valid_transition(from, to),
    ensures
        transition_plan_of(from, to, honk, idle_nanos).auto_upload <==> (from == RecordingState::Recording
            && to != RecordingState::Recording),
        transition_plan_of(from, to, honk, idle_nanos).auto_upload ==> transition_plan_of(
            from,
            to,
            honk,
            idle_nanos,
        ).stop is Some,
{
}

/// The recorder runs exactly while the state is `Recording`: a transition
/// stops it exactly when it leaves `Recording` (or restarts it), and starts it
/// exactly when it arrives there. Cues follow the setting, except that a
/// restart is silent. Play time is told whether a recording is now running,
/// on every transition but a restart; a recording that starts anew captures
/// the foreground window.
pub proof fn lemma_recorder_follows_state(from: RecordingState, to: RecordingState, honk: bool, idle_nanos: u128)
    requires
        is_valid_transition(from, to),
    ensures
        ({
            let p = transition_plan_of(from, to, honk, idle_nanos);
            &&& p.stop is Some <==> from == RecordingState::Recording
            &&& p.start is Some <==> to == RecordingState::Recording
            &&& (from == RecordingState::Recording && to != RecordingState::Recording ==> p.stop == Some(honk))
            &&& (from != RecordingState::Recording && to == RecordingState::Recording ==> p.start == Some(honk))
            &&& (from == RecordingState::Recording && to == RecordingState::Recording ==> p.stop == Some(false)
                && p.start == Some(false) && p.play_time is None)
            &&& (p.play_time is Some ==> p.play_time->0.is_recording == (to == RecordingState::Recording))
            &&& (from != to ==> p.play_time is Some)
            &&& (p.capture_window <==> (from != RecordingState::Recording && to == RecordingState::Recording))
            &&& (p.reset_last_active <==> to == RecordingState::Recording)
        }),
{
}

/// What to do for automatic upload once a recording is saved.
#[derive(Clone, Copy, PartialEq, Eq, Debug, Structural)]
pub enum AutoUploadAction {
    Nothing,
    /// An upload is running: queue this recording, the queue now holding `new_count`.
    Queue { new_count: usize },
    StartUpload,
}

/// Automatic upload after a recording is saved: nothing when it is disabled;
/// queued when an upload is running; else an upload starts.
pub fn auto_upload_action(enabled: bool, upload_in_progress: bool, queue_count: usize) -> (r: AutoUploadAction)
    requires
        enabled && upload_in_progress ==> queue_count < usize::MAX,
    ensures
        r == (if !enabled {
            AutoUploadAction::Nothing
        } else if upload_in_progress {
            AutoUploadAction::Queue { new_count: (queue_count + 1) as usize }
        } else {
            AutoUploadAction::StartUpload
        }),
{
    if !enabled {
        AutoUploadAction::Nothing
    } else if upload_in_progress {
        AutoUploadAction::Queue { new_count: queue_count + 1 }
    } else {
        AutoUploadAction::StartUpload
    }
}

/// After an upload batch of `uploaded_count` recordings: the queue loses that
/// many (never below zero), and another batch starts while some remain.
pub fn after_upload_completed(queue_count: usize, uploaded_count: usize) -> (r: (usize, bool))
    ensures
        r.0 == (if queue_count >= uploaded_count { queue_count - uploaded_count } else { 0 }),
        r.1 == (r.0 > 0),
{
    let new_count = queue_count.saturating_sub(uploaded_count);
    (new_count, new_count > 0)
}

} // verus!
