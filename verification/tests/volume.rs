use mirrorstar_core::audio::volume::{
    after_refresh, collect_stale_pids, is_pid_running, is_process_alive, with_session,
    AttemptEvent, AttemptNext, AttemptStage, CallStep, RefreshOutcome, SessionAttempt,
    SessionCall, VolumeControl,
};
use mirrorstar_core::binary32::Binary32;
use mirrorstar_core::MirrorStarError;

fn number(value: f32) -> Binary32 {
    Binary32 { bits: value.to_bits() }
}

fn value(number: Binary32) -> f32 {
    f32::from_bits(number.bits)
}

fn stage(next: AttemptNext) -> AttemptStage {
    match next {
        AttemptNext::Go(stage) => stage,
        other => panic!("{:?}", other),
    }
}

/// Finds and uses the session of a process, the last of `before` and one more.
fn use_session(control: &mut VolumeControl, pid: u32, before: i32) -> SessionAttempt {
    let (mut attempt, next) = control.with_session_once(pid);
    assert_eq!(stage(next), AttemptStage::Count);
    let next = control.attempt_step(&mut attempt, AttemptEvent::Counted(Ok(before + 1)));
    assert_eq!(stage(next), AttemptStage::Look);
    for i in 0..before {
        assert_eq!(attempt.session_index(), i);
        let next = control.attempt_step(&mut attempt, AttemptEvent::Owner(None));
        assert_eq!(stage(next), AttemptStage::Look);
    }
    let next = control.attempt_step(&mut attempt, AttemptEvent::Owner(Some(pid)));
    assert_eq!(stage(next), AttemptStage::UseFound);
    match control.attempt_step(&mut attempt, AttemptEvent::Used(Ok(()))) {
        AttemptNext::Succeeded => attempt,
        other => panic!("{:?}", other),
    }
}

#[test]
fn test_new_creates_empty_instance() {
    let control = VolumeControl::new(Ok(())).unwrap();
    assert!(!control.is_degraded());
    assert!(control.cached_pids().is_empty());
    let error = match VolumeControl::new(Err("no device".to_string())) {
        Ok(_) => panic!("there is no device"),
        Err(error) => error,
    };
    assert_eq!(error.code(), "Win32");
}

#[test]
fn test_refresh_session_manager_no_panic() {
    let mut control = VolumeControl::new_disabled();
    assert!(control.refresh_session_manager(RefreshOutcome::Connected).is_ok());
    assert!(!control.is_degraded());
}

#[test]
fn test_new_disabled_creates_noop_instance() {
    let control = VolumeControl::new_disabled();
    assert!(control.is_degraded());
    assert!(control.cached_pids().is_empty());
}

#[test]
fn test_disabled_instance_setters_silent_ok() {
    let control = VolumeControl::new_disabled();
    assert!(control.set_process_volume(number(0.5)).is_none());
    assert!(control.set_process_mute(true).is_none());
}

#[test]
fn test_disabled_instance_getters_silent_ok() {
    let control = VolumeControl::new_disabled();
    assert_eq!(value(control.get_process_volume().unwrap()), 0.0);
    assert!(!control.get_process_mute().unwrap());
}

#[test]
fn test_disabled_instance_refresh_session_manager_ok() {
    let mut control = VolumeControl::new_disabled();
    let gone = RefreshOutcome::NoEnumerator("gone".to_string());
    assert_eq!(control.refresh_session_manager(gone).unwrap_err().code(), "Win32");
    assert!(control.is_degraded());
}

#[test]
fn test_set_process_volume_clamps_out_of_range() {
    let disabled = VolumeControl::new_disabled();
    let control = VolumeControl::new(Ok(())).unwrap();
    for (given, set) in [(1.5_f32, 1.0_f32), (-0.1, 0.0), (0.0, 0.0), (1.0, 1.0), (0.5, 0.5)] {
        assert!(disabled.set_process_volume(number(given)).is_none());
        assert_eq!(value(control.set_process_volume(number(given)).unwrap()), set);
    }
    assert_eq!(control.set_process_mute(true), Some(true));
    assert_eq!(control.get_process_mute(), None);
    assert!(control.get_process_volume().is_none());
}

#[test]
fn test_is_pid_running_returns_false_for_dead_pid() {
    assert!(!is_pid_running(None));
}

#[test]
fn test_is_pid_running_returns_true_for_current_process() {
    assert!(is_pid_running(Some(0x102)));
    assert!(is_pid_running(Some(0xFFFF_FFFF)));
}

#[test]
fn test_is_pid_running_returns_false_for_exited_child_process() {
    assert!(!is_pid_running(Some(0)));
}

#[test]
fn test_collect_stale_pids_returns_empty_for_running_process() {
    assert!(collect_stale_pids(&[42], &[true]).is_empty());
}

#[test]
fn test_collect_stale_pids_returns_empty_for_empty_input() {
    assert!(collect_stale_pids(&[], &[]).is_empty());
}

#[test]
fn test_collect_stale_pids_collects_exited_child_process() {
    assert_eq!(collect_stale_pids(&[43], &[false]), vec![43]);
}

#[test]
fn test_collect_stale_pids_mixed_running_and_exited() {
    assert_eq!(collect_stale_pids(&[42, 43], &[true, false]), vec![43]);
}

#[test]
fn test_collect_stale_pids_multiple_exited() {
    let stale = collect_stale_pids(&[43, 44], &[false, false]);
    assert_eq!(stale.len(), 2);
    assert!(stale.contains(&43));
    assert!(stale.contains(&44));
}

#[test]
fn v41_a001_com_recovery_after_degradation() {
    let mut control = VolumeControl::new_disabled();
    assert!(control.is_degraded());
    assert!(control.refresh_session_manager(RefreshOutcome::Connected).is_ok());
    assert!(!control.is_degraded());
    assert_eq!(value(control.set_process_volume(number(0.5)).unwrap()), 0.5);
}

#[test]
fn v41_a001_com_recovery_persistent_failure() {
    let mut control = VolumeControl::new_disabled();
    for _ in 0..3 {
        let missing = RefreshOutcome::NoDevice("no device".to_string());
        assert!(control.refresh_session_manager(missing).is_err());
        assert!(control.is_degraded());
    }
}

#[test]
fn v41_a002_with_session_all_failed_logs_attempted_count() {
    let mut control = VolumeControl::new(Ok(())).unwrap();
    let (mut attempt, next) = control.with_session_once(0xFFFF_FFF0);
    assert_eq!(stage(next), AttemptStage::Count);
    let next = control.attempt_step(&mut attempt, AttemptEvent::Counted(Ok(1)));
    assert_eq!(stage(next), AttemptStage::Look);
    let next = control.attempt_step(&mut attempt, AttemptEvent::Owner(Some(1)));
    assert_eq!(stage(next), AttemptStage::CheckAlive);
    match control.attempt_step(&mut attempt, AttemptEvent::Alive(false)) {
        AttemptNext::Failed(error) => {
            assert_eq!(error.code(), "AudioControl");
            assert!(error.message().ends_with("未找到进程 4294967280 的音频会话"));
        }
        other => panic!("{:?}", other),
    }
    let disabled = VolumeControl::new_disabled();
    assert!(disabled.set_process_volume(number(0.5)).is_none());
}

#[test]
fn v41_a003_with_session_cache_hit_skips_enumeration() {
    let disabled = VolumeControl::new_disabled();
    assert!(disabled.set_process_volume(number(0.5)).is_none());
    assert!(disabled.cached_pids().is_empty());

    let mut control = VolumeControl::new(Ok(())).unwrap();
    use_session(&mut control, 1234, 2);
    assert!(control.is_cached(1234));
    let (mut attempt, next) = control.with_session_once(1234);
    assert_eq!(stage(next), AttemptStage::CheckCached);
    let next = control.attempt_step(&mut attempt, AttemptEvent::Owner(Some(1234)));
    assert_eq!(stage(next), AttemptStage::UseCached);
    match control.attempt_step(&mut attempt, AttemptEvent::Used(Ok(()))) {
        AttemptNext::Succeeded => {}
        other => panic!("{:?}", other),
    }
}

#[test]
fn v41_a003_refresh_session_manager_recovers_from_degradation() {
    let mut control = VolumeControl::new_disabled();
    assert!(control.refresh_session_manager(RefreshOutcome::Connected).is_ok());
    assert!(control.cached_pids().is_empty());
    use_session(&mut control, 7, 0);
    assert!(control.refresh_session_manager(RefreshOutcome::Connected).is_ok());
    assert!(control.cached_pids().is_empty());
}

#[test]
fn test_is_process_alive_returns_false_for_dead_pid() {
    assert!(!is_process_alive(None));
    assert!(!is_process_alive(Some(0)));
}

#[test]
fn test_is_process_alive_returns_true_for_current_process() {
    assert!(is_process_alive(Some(259)));
}

#[test]
fn test_session_cache_cleans_up_dead_process() {
    let mut control = VolumeControl::new_disabled();
    let dead_pid = u32::MAX;
    let (mut attempt, next) = control.with_session_once(dead_pid);
    assert_eq!(stage(next), AttemptStage::CheckAlive);
    match control.attempt_step(&mut attempt, AttemptEvent::Alive(false)) {
        AttemptNext::Failed(error) => {
            assert!(error.message().ends_with("Session manager 未初始化"))
        }
        other => panic!("{:?}", other),
    }
    assert!(!control.is_cached(dead_pid));
}

#[test]
fn a_session_of_another_process_is_not_used() {
    let mut control = VolumeControl::new(Ok(())).unwrap();
    use_session(&mut control, 5, 0);
    let (mut attempt, next) = control.with_session_once(5);
    assert_eq!(stage(next), AttemptStage::CheckCached);
    let next = control.attempt_step(&mut attempt, AttemptEvent::Owner(Some(6)));
    assert_eq!(stage(next), AttemptStage::Count);
    assert!(!control.is_cached(5));
}

#[test]
fn sessions_of_ended_processes_are_dropped() {
    let mut control = VolumeControl::new(Ok(())).unwrap();
    use_session(&mut control, 5, 0);
    let (mut attempt, next) = control.with_session_once(6);
    assert_eq!(stage(next), AttemptStage::CheckRunning);
    let next = control.attempt_step(&mut attempt, AttemptEvent::Running(vec![false]));
    assert_eq!(stage(next), AttemptStage::Count);
    assert!(control.cached_pids().is_empty());
    let failed = AttemptEvent::Counted(Err("denied".to_string()));
    assert_eq!(stage(control.attempt_step(&mut attempt, failed)), AttemptStage::CheckAlive);
    match control.attempt_step(&mut attempt, AttemptEvent::Alive(true)) {
        AttemptNext::Failed(error) => assert_eq!(error.code(), "Win32"),
        other => panic!("{:?}", other),
    }
}

#[test]
fn a_failure_is_tried_again_once() {
    let first = MirrorStarError::AudioControl("first".to_string());
    let first = match with_session(SessionCall::First, Err(first)) {
        CallStep::Refresh(error) => error,
        other => panic!("{:?}", other),
    };
    let call = after_refresh(first, true).unwrap();
    let second = MirrorStarError::AudioControl("second".to_string());
    match with_session(call, Err(second)) {
        CallStep::Finished(Err(error)) => assert!(error.message().ends_with("first")),
        other => panic!("{:?}", other),
    }
    let first = MirrorStarError::AudioControl("first".to_string());
    assert!(after_refresh(first, false).unwrap_err().message().ends_with("first"));
    match with_session(SessionCall::First, Ok(())) {
        CallStep::Finished(Ok(())) => {}
        other => panic!("{:?}", other),
    }
}
