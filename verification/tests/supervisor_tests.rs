use cargo_playground::supervisor::{ProcessSupervisor, SupervisorState};

#[test]
fn lifecycle_goes_round_and_is_reusable() {
    let mut s = ProcessSupervisor::new(2000);
    assert_eq!(s.current_state(), SupervisorState::Idle);
    s.begin_start();
    assert_eq!(s.current_state(), SupervisorState::Starting);
    s.confirm_spawned();
    assert_eq!(s.current_state(), SupervisorState::Running);
    s.on_exit(0);
    assert_eq!(s.current_state(), SupervisorState::Idle);
    assert_eq!(s.last_exit_code(), Some(0));
    // Idle is reused, not a dead end.
    s.begin_start();
    s.confirm_spawned();
    s.on_exit(1);
    assert_eq!(s.last_exit_code(), Some(1));
}

#[test]
fn stop_request_on_idle_is_a_no_op() {
    let mut s = ProcessSupervisor::new(2000);
    assert!(!s.request_stop(100, true));
    assert_eq!(s.current_state(), SupervisorState::Idle);
}

#[test]
fn graceful_stop_escalates_after_grace_period() {
    let mut s = ProcessSupervisor::new(2000);
    s.begin_start();
    s.confirm_spawned();
    assert!(s.request_stop(100, true));
    assert_eq!(s.current_state(), SupervisorState::Terminating);
    assert!(!s.poll_force_kill(2099));
    assert!(s.poll_force_kill(2100));
    // The escalation fires at most once per stop.
    assert!(!s.poll_force_kill(9999));
    s.on_exit(-9);
    assert_eq!(s.current_state(), SupervisorState::Idle);
    assert_eq!(s.last_exit_code(), Some(-9));
}

#[test]
fn signal_stop_never_escalates() {
    let mut s = ProcessSupervisor::new(2000);
    s.begin_start();
    s.confirm_spawned();
    assert!(s.request_stop(100, false));
    assert_eq!(s.current_state(), SupervisorState::Terminating);
    assert!(!s.poll_force_kill(u64::MAX));
}

#[test]
fn spawn_failure_returns_to_idle() {
    let mut s = ProcessSupervisor::new(2000);
    s.begin_start();
    s.spawn_failed();
    assert_eq!(s.current_state(), SupervisorState::Idle);
    assert_eq!(s.last_exit_code(), None);
}

#[test]
fn second_stop_request_changes_nothing() {
    let mut s = ProcessSupervisor::new(2000);
    s.begin_start();
    s.confirm_spawned();
    assert!(s.request_stop(0, true));
    assert!(!s.request_stop(500, true));
    // The original deadline stands.
    assert!(s.poll_force_kill(2000));
}
