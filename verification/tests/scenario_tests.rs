//! End-to-end scenarios of one watch session, driven by hand.

use cargo_playground::controller::{BusyPolicy, WatchAction, WatchController};
use cargo_playground::event::{EventKind, PathEvent};
use cargo_playground::supervisor::SupervisorState;

fn ev(path: &str, t: u64) -> PathEvent {
    PathEvent::new(path.to_string(), EventKind::Modified, t)
}

/// Watch root `/proj`, debounce window 500ms, policy Restart; events at
/// t=0 and t=200 produce one flush at t=700 containing both paths; a
/// later event on a build-output path produces no flush at all.
#[test]
fn two_edits_one_flush_and_ignored_output() {
    let (mut c, _) = WatchController::new(BusyPolicy::Restart, false, 500, 2000, &Vec::new())
        .expect("default configuration is valid");
    c.handle_event(ev("/proj/src/a.rs", 0));
    c.handle_event(ev("/proj/src/b.rs", 200));
    assert!(c.poll_flush(400).is_none());
    assert!(c.poll_flush(699).is_none());
    let batch = c.poll_flush(700).expect("one flush at t=700");
    assert_eq!(batch.events.len(), 2);
    assert_eq!(batch.events[0].path, "/proj/src/a.rs");
    assert_eq!(batch.events[1].path, "/proj/src/b.rs");
    c.handle_event(ev("/proj/target/out", 1000));
    assert_eq!(c.next_flush_deadline(), None);
    assert!(c.poll_flush(1500).is_none());
    assert!(c.poll_flush(10_000).is_none());
}

/// The child of run 1 is still running when a flush occurs; under
/// Restart it gets a terminate request, and not having exited after the
/// 2s grace period it is forcibly killed before run 2 starts.
#[test]
fn stubborn_child_is_killed_before_the_next_run() {
    let (mut c, actions) = WatchController::new(BusyPolicy::Restart, true, 500, 2000, &Vec::new())
        .expect("default configuration is valid");
    // Run 1 starts immediately.
    assert_eq!(actions.len(), 1);
    assert!(matches!(actions[0], WatchAction::StartRun(_)));
    c.on_spawned();
    assert_eq!(c.supervisor_state(), SupervisorState::Running);
    // An edit flushes while run 1 is still running.
    c.handle_event(ev("/proj/src/a.rs", 1000));
    let batch = c.poll_flush(1500).expect("window elapsed");
    let actions = c.apply_batch(batch, 1500);
    assert_eq!(actions.len(), 1);
    assert!(matches!(actions[0], WatchAction::SendInterrupt));
    // The child has not exited; within the grace period nothing happens.
    assert!(c.poll_force(3000).is_empty());
    // 2s after the terminate request it is forcibly killed.
    let actions = c.poll_force(3500);
    assert_eq!(actions.len(), 1);
    assert!(matches!(actions[0], WatchAction::ForceKill));
    // Only once the old child is gone does run 2 start.
    let actions = c.on_child_exit(-9);
    assert_eq!(actions.len(), 2);
    assert!(matches!(actions[0], WatchAction::ReportExit(-9)));
    match &actions[1] {
        WatchAction::StartRun(b) => assert_eq!(b.events[0].path, "/proj/src/a.rs"),
        other => panic!("expected run 2 to start, got {:?}", other),
    }
}
