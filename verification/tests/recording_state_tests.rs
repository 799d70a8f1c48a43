use owl_control::recording_state::{
    after_upload_completed, auto_upload_action, decide_on_input, decide_on_tick, needs_hook_check,
    plan_transition, state_after_transition, transition_allowed, AutoUploadAction, InputDecision, PlayTimeTransition, RecordingState,
    StatusUpdate, TickObservation, TickReason,
};

const START: Option<u16> = Some(0x78);
const STOP: Option<u16> = Some(0x79);
const SEC: u128 = 1_000_000_000;

fn obs() -> TickObservation {
    TickObservation {
        has_recording: true,
        process_exists: true,
        pid: 1234,
        idle_nanos: 0,
        recording_nanos: 0,
        window_lost_focus: false,
        resolution_changed: false,
        hook_timed_out: false,
    }
}

#[test]
fn start_key_starts_recording_when_idle() {
    assert_eq!(
        decide_on_input(RecordingState::Idle, START, START, STOP, false, true),
        InputDecision::Transition(RecordingState::Recording)
    );
    assert_eq!(
        decide_on_input(RecordingState::Idle, START, START, STOP, true, true),
        InputDecision::ShowOutdatedError
    );
    assert_eq!(
        decide_on_input(RecordingState::Idle, STOP, START, STOP, false, true),
        InputDecision::Ignore
    );
}

#[test]
fn stop_key_stops_recording_and_paused() {
    assert_eq!(
        decide_on_input(RecordingState::Recording, STOP, START, STOP, false, true),
        InputDecision::Transition(RecordingState::Idle)
    );
    assert_eq!(
        decide_on_input(RecordingState::Paused { pid: 5 }, STOP, START, STOP, false, false),
        InputDecision::Transition(RecordingState::Idle)
    );
}

#[test]
fn any_input_resumes_a_paused_recording_with_focus() {
    assert_eq!(
        decide_on_input(RecordingState::Paused { pid: 5 }, None, START, STOP, false, true),
        InputDecision::Transition(RecordingState::Recording)
    );
    assert_eq!(
        decide_on_input(RecordingState::Paused { pid: 5 }, None, START, STOP, false, false),
        InputDecision::Ignore
    );
}

#[test]
fn unbound_hotkey_matches_keyless_input() {
    assert_eq!(
        decide_on_input(RecordingState::Idle, None, None, STOP, false, true),
        InputDecision::Transition(RecordingState::Recording)
    );
}

#[test]
fn tick_checks_in_order_of_precedence() {
    let r = RecordingState::Recording;
    assert_eq!(decide_on_tick(r, obs()), None);
    let mut o = obs();
    o.process_exists = false;
    o.idle_nanos = 31 * SEC;
    assert_eq!(decide_on_tick(r, o), Some((RecordingState::Idle, TickReason::GameExited)));
    let mut o = obs();
    o.idle_nanos = 31 * SEC;
    o.recording_nanos = 601 * SEC;
    assert_eq!(
        decide_on_tick(r, o),
        Some((RecordingState::Paused { pid: 1234 }, TickReason::IdleTimeout))
    );
    let mut o = obs();
    o.recording_nanos = 601 * SEC;
    o.window_lost_focus = true;
    assert_eq!(decide_on_tick(r, o), Some((RecordingState::Recording, TickReason::MaxDurationReached)));
    let mut o = obs();
    o.window_lost_focus = true;
    assert_eq!(
        decide_on_tick(r, o),
        Some((RecordingState::Paused { pid: 1234 }, TickReason::FocusLost))
    );
    let mut o = obs();
    o.resolution_changed = true;
    o.hook_timed_out = true;
    assert_eq!(decide_on_tick(r, o), Some((RecordingState::Recording, TickReason::ResolutionChanged)));
    let mut o = obs();
    o.hook_timed_out = true;
    assert_eq!(decide_on_tick(r, o), Some((RecordingState::Idle, TickReason::HookTimeout)));
}

#[test]
fn tick_limits_are_strict() {
    let mut o = obs();
    o.idle_nanos = 30 * SEC;
    o.recording_nanos = 600 * SEC;
    assert_eq!(decide_on_tick(RecordingState::Recording, o), None);
}

#[test]
fn tick_without_recording_or_idle_does_nothing() {
    let mut o = obs();
    o.has_recording = false;
    o.process_exists = false;
    assert_eq!(decide_on_tick(RecordingState::Recording, o), None);
    assert_eq!(decide_on_tick(RecordingState::Idle, o), None);
}

#[test]
fn paused_game_exit_stops() {
    let mut o = obs();
    o.process_exists = false;
    assert_eq!(
        decide_on_tick(RecordingState::Paused { pid: 9 }, o),
        Some((RecordingState::Idle, TickReason::PausedGameExited))
    );
    assert_eq!(decide_on_tick(RecordingState::Paused { pid: 9 }, obs()), None);
}

#[test]
fn hook_check_only_when_nothing_else_fires() {
    assert!(needs_hook_check(RecordingState::Recording, obs()));
    let mut o = obs();
    o.window_lost_focus = true;
    assert!(!needs_hook_check(RecordingState::Recording, o));
    assert!(!needs_hook_check(RecordingState::Idle, obs()));
}

#[test]
fn decided_transitions_plan_matching_recorder_actions() {
    let from = RecordingState::Idle;
    if let InputDecision::Transition(to) = decide_on_input(from, START, START, STOP, false, true) {
        let p = plan_transition(from, to, true, 0);
        assert_eq!(p.start, Some(true));
        assert_eq!(p.stop, None);
        assert!(p.capture_window);
        assert!(p.reset_last_active);
        assert_eq!(p.play_time, Some(PlayTimeTransition { is_recording: true, due_to_idle: false }));
        assert_eq!(p.next, RecordingState::Recording);
    } else {
        panic!("expected a transition");
    }
    let mut o = obs();
    o.idle_nanos = 31 * SEC;
    let (to, _) = decide_on_tick(RecordingState::Recording, o).unwrap();
    let p = plan_transition(RecordingState::Recording, to, false, o.idle_nanos);
    assert_eq!(p.stop, Some(false));
    assert_eq!(p.start, None);
    assert_eq!(p.set_status, Some(StatusUpdate::Paused));
    assert_eq!(p.play_time, Some(PlayTimeTransition { is_recording: false, due_to_idle: true }));
    assert!(p.auto_upload);
    assert_eq!(p.next, RecordingState::Paused { pid: 1234 });
}

#[test]
fn restart_stops_and_starts_silently() {
    let p = plan_transition(RecordingState::Recording, RecordingState::Recording, true, 0);
    assert_eq!(p.stop, Some(false));
    assert_eq!(p.start, Some(false));
    assert_eq!(p.play_time, None);
    assert!(!p.auto_upload);
}

#[test]
fn stopping_a_paused_recording_sets_status() {
    let p = plan_transition(RecordingState::Paused { pid: 2 }, RecordingState::Idle, true, 0);
    assert_eq!(p.stop, None);
    assert_eq!(p.set_status, Some(StatusUpdate::Stopped));
    assert!(p.mild_stop_cue);
    assert!(!p.auto_upload);
}

#[test]
fn auto_upload_queues_while_uploading() {
    assert_eq!(auto_upload_action(false, true, 3), AutoUploadAction::Nothing);
    assert_eq!(auto_upload_action(true, true, 3), AutoUploadAction::Queue { new_count: 4 });
    assert_eq!(auto_upload_action(true, false, 0), AutoUploadAction::StartUpload);
}

#[test]
fn completed_uploads_drain_the_queue() {
    assert_eq!(after_upload_completed(3, 1), (2, true));
    assert_eq!(after_upload_completed(1, 1), (0, false));
    assert_eq!(after_upload_completed(1, 5), (0, false));
}

#[test]
fn one_key_switches_recording_on_and_off() {
    let f5 = Some(0x74);
    assert_eq!(
        decide_on_input(RecordingState::Idle, f5, f5, f5, false, false),
        InputDecision::Transition(RecordingState::Recording)
    );
    assert_eq!(
        decide_on_input(RecordingState::Recording, f5, f5, f5, false, false),
        InputDecision::Transition(RecordingState::Idle)
    );
}

#[test]
fn allowed_transitions_are_exactly_the_performed_ones() {
    let states = [RecordingState::Idle, RecordingState::Recording, RecordingState::Paused { pid: 3 }];
    for from in states {
        for to in states {
            let expected = matches!(
                (from, to),
                (RecordingState::Idle, RecordingState::Recording)
                    | (RecordingState::Paused { .. }, RecordingState::Recording)
                    | (RecordingState::Recording, RecordingState::Idle)
                    | (RecordingState::Recording, RecordingState::Paused { .. })
                    | (RecordingState::Paused { .. }, RecordingState::Idle)
                    | (RecordingState::Recording, RecordingState::Recording)
            );
            assert_eq!(transition_allowed(from, to), expected, "{from:?} -> {to:?}");
            if expected {
                let p = plan_transition(from, to, true, 0);
                assert_eq!(p.start.is_some(), to == RecordingState::Recording);
                assert_eq!(p.stop.is_some(), from == RecordingState::Recording);
                assert_eq!(p.next, to);
            }
        }
    }
}

#[test]
fn failed_recorder_leaves_the_state_unchanged() {
    let from = RecordingState::Recording;
    let to = RecordingState::Paused { pid: 8 };
    let plan = plan_transition(from, to, true, 0);
    assert_eq!(state_after_transition(from, &plan, true, true), to);
    assert_eq!(state_after_transition(from, &plan, false, true), from);
    assert_eq!(plan.set_status, Some(StatusUpdate::Paused));
    let plan = plan_transition(RecordingState::Idle, RecordingState::Recording, false, 0);
    assert_eq!(state_after_transition(RecordingState::Idle, &plan, false, true), RecordingState::Recording);
    assert_eq!(state_after_transition(RecordingState::Idle, &plan, true, false), RecordingState::Idle);
    let plan = plan_transition(RecordingState::Paused { pid: 2 }, RecordingState::Idle, false, 0);
    assert_eq!(state_after_transition(RecordingState::Paused { pid: 2 }, &plan, false, false), RecordingState::Idle);
    assert_eq!(plan.set_status, Some(StatusUpdate::Stopped));
}
