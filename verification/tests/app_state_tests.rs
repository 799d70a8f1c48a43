use owl_control::app_state::{
    api_key_validated, get_foregrounded_game, offline_mode_change, should_load_upload_stats,
    upload_request, ApiKeyCheck, AsyncRequest, BackoffStep, ForegroundedGame, HotkeyRebindTarget,
    ListeningForNewHotkey, OfflineBackoff, OfflineState, RetryAction, RetryOutcome,
};
use owl_control::games::{UnsupportedGame, UnsupportedGames, UnsupportedReason};

fn games() -> UnsupportedGames {
    UnsupportedGames {
        games: vec![UnsupportedGame {
            name: "Minesweeper".to_string(),
            binaries: vec!["WinMine".to_string()],
            reason: UnsupportedReason::NotAGame,
        }],
    }
}

#[test]
fn unsupported_game_is_not_recordable() {
    let g = get_foregrounded_game(&games(), "WINMINE.EXE".to_string(), "WINMINE", true);
    assert_eq!(g.exe_name.as_deref(), Some("WINMINE.EXE"));
    assert_eq!(g.unsupported_reason.as_deref(), Some("This is not a game."));
    assert!(!g.is_recordable());
}

#[test]
fn uncapturable_window_asks_for_admin_mode() {
    let g = get_foregrounded_game(&games(), "game.exe".to_string(), "game", false);
    assert_eq!(
        g.unsupported_reason.as_deref(),
        Some("Recorder cannot capture this window. Try running OWL Control in admin mode.")
    );
}

#[test]
fn supported_capturable_game_is_recordable() {
    let g = get_foregrounded_game(&games(), "game.exe".to_string(), "game", true);
    assert!(g.is_recordable());
    let g = ForegroundedGame { exe_name: None, unsupported_reason: None };
    assert!(g.is_recordable());
}

#[test]
fn hotkey_rebinding_captures_then_binds() {
    let l = ListeningForNewHotkey::Listening { target: HotkeyRebindTarget::Stop };
    assert_eq!(l.listening_hotkey_target(), Some(HotkeyRebindTarget::Stop));
    let (c, forward) = l.on_input(Some(65));
    assert!(!forward);
    assert_eq!(c, ListeningForNewHotkey::Captured { target: HotkeyRebindTarget::Stop, key: 65 });
    assert_eq!(c.listening_hotkey_target(), None);
    assert_eq!(c.after_capture(true), ListeningForNewHotkey::NotListening);
    assert_eq!(c.after_capture(false), l);
    let (n, forward) = ListeningForNewHotkey::NotListening.on_input(Some(1));
    assert!(forward);
    assert_eq!(n, ListeningForNewHotkey::NotListening);
    let (same, forward) = l.on_input(None);
    assert!(!forward);
    assert_eq!(same, l);
}

#[test]
fn backoff_steps_follow_mode_and_loop() {
    let mut s = OfflineState::default();
    assert_eq!(s.backoff_step(), BackoffStep::Nothing);
    s.set_mode(true);
    assert_eq!(s.backoff_step(), BackoffStep::Start);
    assert_eq!(s.start_backoff(100, Some(5)), Some(5));
    assert!(s.backoff_active);
    assert_eq!(s.next_retry_time, 105);
    assert_eq!(s.backoff_step(), BackoffStep::Retry);
}

#[test]
fn start_backoff_without_delay_changes_nothing() {
    let mut s = OfflineState::default();
    s.set_mode(true);
    let before = s;
    assert_eq!(s.start_backoff(100, None), None);
    assert_eq!(s, before);
}

#[test]
fn network_errors_schedule_retries_until_exhausted() {
    let mut s = OfflineState::default();
    s.set_mode(true);
    s.start_backoff(0, Some(1));
    let a = s.on_retry(RetryOutcome::NetworkError("down".into()), 10, Some(2));
    assert_eq!(a, RetryAction::ScheduleRetry(2));
    assert_eq!(s.retry_count, 1);
    assert_eq!(s.next_retry_time, 12);
    let a = s.on_retry(RetryOutcome::NetworkError("down".into()), 20, None);
    assert_eq!(a, RetryAction::Exhausted);
    assert_eq!(s, OfflineState { mode: true, backoff_active: false, next_retry_time: 0, retry_count: 0 });
}

#[test]
fn successful_retry_goes_online_and_other_errors_stop() {
    let mut s = OfflineState::default();
    s.set_mode(true);
    s.start_backoff(0, Some(1));
    assert_eq!(s.on_retry(RetryOutcome::Online("user".into()), 5, None), RetryAction::GoOnline("user".into()));
    assert!(!s.mode);
    let mut s = OfflineState::default();
    s.set_mode(true);
    s.start_backoff(0, Some(1));
    assert_eq!(
        s.on_retry(RetryOutcome::OtherError("401".into()), 5, None),
        RetryAction::StopWithError("401".into())
    );
    assert!(s.mode);
    assert!(!s.backoff_active);
}

#[test]
fn cancel_backoff_clears_counters() {
    let mut s = OfflineState { mode: true, backoff_active: true, next_retry_time: 50, retry_count: 3 };
    s.cancel_backoff();
    assert_eq!(s, OfflineState { mode: true, backoff_active: false, next_retry_time: 0, retry_count: 0 });
}

#[test]
fn switching_offline_mode_tells_the_user() {
    let c = offline_mode_change(true, Some("timeout".into()), "key".into());
    assert_eq!(c.user_id_message, "Offline (timeout)");
    assert_eq!(c.follow_up.len(), 1);
    assert!(matches!(c.follow_up[0], AsyncRequest::OfflineBackoffAttempt));
    let c = offline_mode_change(true, None, "key".into());
    assert_eq!(c.user_id_message, "Offline");
    assert!(c.follow_up.is_empty());
    let c = offline_mode_change(false, None, "key".into());
    assert_eq!(c.user_id_message, "Authenticating...");
    assert_eq!(c.follow_up.len(), 4);
    assert!(matches!(c.follow_up[0], AsyncRequest::CancelOfflineBackoff));
    assert!(matches!(&c.follow_up[1], AsyncRequest::ValidateApiKey { api_key } if api_key == "key"));
    assert!(matches!(c.follow_up[2], AsyncRequest::LoadUploadStats));
    assert!(matches!(c.follow_up[3], AsyncRequest::LoadLocalRecordings));
}

#[test]
fn api_key_validation_outcomes() {
    let v = api_key_validated("k".into(), ApiKeyCheck::Valid("u1".into()));
    assert_eq!(v.credentials, Some(("k".to_string(), "u1".to_string())));
    assert_eq!(v.user_id_update, Some(Ok("u1".to_string())));
    assert!(matches!(v.follow_up[0], AsyncRequest::LoadUploadStats));
    assert!(matches!(v.follow_up[1], AsyncRequest::LoadLocalRecordings));
    let v = api_key_validated("k".into(), ApiKeyCheck::NetworkError("unreachable".into()));
    assert_eq!(v.credentials, None);
    assert_eq!(v.user_id_update, None);
    assert!(matches!(
        &v.follow_up[0],
        AsyncRequest::SetOfflineMode { enabled: true, offline_reason: Some(r) } if r == "unreachable"
    ));
    let v = api_key_validated("k".into(), ApiKeyCheck::Refused("bad key".into()));
    assert_eq!(v.user_id_update, Some(Err("bad key".to_string())));
    assert_eq!(v.follow_up.len(), 1);
}

#[test]
fn uploads_are_refused_offline() {
    assert_eq!(upload_request(true), Err("Offline mode is enabled. Uploads are disabled.".to_string()));
    assert_eq!(upload_request(false), Ok(()));
    assert!(should_load_upload_stats(false, true));
    assert!(!should_load_upload_stats(true, true));
    assert!(!should_load_upload_stats(false, false));
}

fn test_backoff() -> OfflineBackoff {
    let mut builder = backoff::ExponentialBackoffBuilder::new();
    builder
        .with_initial_interval(std::time::Duration::from_secs(150))
        .with_max_interval(std::time::Duration::from_secs(3600))
        .with_max_elapsed_time(Some(std::time::Duration::ZERO))
        .with_multiplier(2.0)
        .with_randomization_factor(0.1);
    OfflineBackoff::new(builder)
}

#[test]
fn begin_backoff_schedules_the_first_retry() {
    let mut s = OfflineState::default();
    s.set_mode(true);
    let mut b = test_backoff();
    let d = s.begin_backoff(1_000, &mut b).expect("a delay is drawn");
    assert!((135..=165).contains(&d), "delay {d}");
    assert!(s.backoff_active);
    assert_eq!(s.next_retry_time, 1_000 + d);
    assert_eq!(s.retry_count, 0);
}

#[test]
fn retry_with_backoff_draws_only_after_network_errors() {
    let mut s = OfflineState::default();
    s.set_mode(true);
    let mut b = test_backoff();
    s.begin_backoff(0, &mut b);
    match s.retry_with_backoff(RetryOutcome::NetworkError("down".into()), 500, &mut b) {
        RetryAction::ScheduleRetry(d) => {
            assert!((270..=330).contains(&d), "delay {d}");
            assert_eq!(s.next_retry_time, 500 + d);
            assert_eq!(s.retry_count, 1);
        }
        other => panic!("unexpected {other:?}"),
    }
    assert_eq!(
        s.retry_with_backoff(RetryOutcome::OtherError("403".into()), 900, &mut b),
        RetryAction::StopWithError("403".into())
    );
    assert_eq!(s, OfflineState { mode: true, backoff_active: false, next_retry_time: 0, retry_count: 0 });
}

#[test]
fn offline_backoff_has_no_time_limit() {
    let mut s = OfflineState::default();
    s.set_mode(true);
    let mut b = test_backoff();
    assert!(s.begin_backoff(10, &mut b).is_some());
    for _ in 0..3 {
        assert!(matches!(
            s.retry_with_backoff(RetryOutcome::NetworkError("down".into()), 20, &mut b),
            RetryAction::ScheduleRetry(_)
        ));
    }
}

#[test]
fn drawn_delays_start_and_continue_the_loop() {
    let mut s = OfflineState::default();
    s.set_mode(true);
    assert_eq!(s.start_backoff_after_draw(1_000, 150), Some(150));
    assert_eq!(s, OfflineState { mode: true, backoff_active: true, next_retry_time: 1_150, retry_count: 0 });
    assert_eq!(
        s.on_retry_after_draw(RetryOutcome::NetworkError("down".into()), 2_000, Some(300)),
        RetryAction::ScheduleRetry(300)
    );
    assert_eq!(s.next_retry_time, 2_300);
    assert_eq!(s.retry_count, 1);
    assert_eq!(
        s.on_retry_after_draw(RetryOutcome::NetworkError("down".into()), u64::MAX - 5, Some(10)),
        RetryAction::Exhausted
    );
    assert!(!s.backoff_active);
}

#[test]
fn overflowing_first_delay_changes_nothing() {
    let mut s = OfflineState::default();
    s.set_mode(true);
    let before = s;
    assert_eq!(s.start_backoff_after_draw(u64::MAX - 5, 10), None);
    assert_eq!(s, before);
    assert_eq!(s.start_backoff_after_draw(u64::MAX - 5, 5), Some(5));
}
