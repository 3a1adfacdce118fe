//! The watch controller: the single control flow that wires the ignore
//! matcher, the debouncer and the process supervisor together.
//!
//! Raw events are filtered and debounced; when a batch flushes while a
//! run is active, the configured busy-update policy decides what happens
//! to the running child.  Every supervisor command is funnelled through
//! this controller, so a new run can only ever be issued to an idle
//! supervisor: the old child is gone, or was never there, before a new
//! one starts.  The controller performs no I/O itself; it returns the
//! actions (spawn, interrupt, kill, report) for the shell to execute.

use vstd::prelude::*;
use crate::debounce::{push1, timer_due, Debouncer};
use crate::error::{Error, ErrorKind};
use crate::event::{ChangeBatch, EventModel, PathEvent};
use crate::ignore::{default_ignore_patterns, normalize_path, path_ignored, pattern_wf, IgnoreMatcher};
use crate::supervisor::{ProcessSupervisor, SupervisorState};

verus! {

/// What to do when a batch flushes while a run is still active.
#[derive(Clone, Copy, Debug, PartialEq, Eq, Structural)]
pub enum BusyPolicy {
    /// Stop the child (escalating to a forced kill after the grace
    /// period) and start the new run as soon as it is gone.
    Restart,
    /// Send only the interrupt signal, never force-kill, and start the
    /// new run once the child exits on its own.
    Signal,
    /// Let the child finish undisturbed, then run the most recently
    /// flushed batch; batches arriving mid-run coalesce into one.
    Queue,
    /// Drop the batch entirely while a run is active.
    Skip,
}

/// An effect for the unverified shell to carry out, in order.
#[derive(Debug, PartialEq)]
pub enum WatchAction {
    /// Spawn the configured command for this batch of changes.
    StartRun(ChangeBatch),
    /// Send the graceful interrupt signal to the current child.
    SendInterrupt,
    /// Kill the current child forcibly: it outstayed the grace period.
    ForceKill,
    /// Print the exit status of the run that just completed.
    ReportExit(i32),
}

/// The control loop state.
pub struct WatchController {
    policy: BusyPolicy,
    run_initially: bool,
    ignore: IgnoreMatcher,
    debouncer: Debouncer,
    supervisor: ProcessSupervisor,
    pending: Option<ChangeBatch>,
    stopping: bool,
}

/// The configuration-like parts of the controller that no operation
/// changes.
pub open spec fn same_config(a: WatchController, b: WatchController) -> bool {
    &&& a.policy() == b.policy()
    &&& a.run_initially() == b.run_initially()
    &&& a.patterns() == b.patterns()
    &&& a.window() == b.window()
    &&& a.grace() == b.grace()
}

impl WatchController {
    /// The configured busy-update policy.
    pub closed spec fn policy(&self) -> BusyPolicy {
        self.policy
    }

    /// Whether a first run is started before any filesystem event.
    pub closed spec fn run_initially(&self) -> bool {
        self.run_initially
    }

    /// The active ignore patterns, defaults first.
    pub closed spec fn patterns(&self) -> Seq<Seq<char>> {
        self.ignore.patterns()
    }

    /// The debounce window in milliseconds.
    pub closed spec fn window(&self) -> int {
        self.debouncer.window()
    }

    /// The grace period in milliseconds.
    pub closed spec fn grace(&self) -> int {
        self.supervisor.grace()
    }

    /// The supervisor's lifecycle state.
    pub closed spec fn sup_state(&self) -> SupervisorState {
        self.supervisor.state()
    }

    /// The armed force-kill instant, if any.
    pub closed spec fn force_deadline(&self) -> Option<int> {
        self.supervisor.force_deadline()
    }

    /// The exit code of the last completed run.
    pub closed spec fn last_exit(&self) -> Option<i32> {
        self.supervisor.last_exit()
    }

    /// The events accumulated towards the next batch.
    pub closed spec fn deb_pending(&self) -> Seq<EventModel> {
        self.debouncer.pending()
    }

    /// The armed debounce deadline, if any.
    pub closed spec fn deb_deadline(&self) -> Option<int> {
        self.debouncer.deadline()
    }

    /// The batch held back for the next run, under Restart, Signal and
    /// Queue, while a child is still active.
    pub closed spec fn pending_batch(&self) -> Option<Seq<EventModel>> {
        match self.pending {
            Some(ref b) => Some(b@),
            None => None,
        }
    }

    /// Whether an external shutdown was requested: no further events
    /// are consumed and no further run starts.
    pub closed spec fn stopping(&self) -> bool {
        self.stopping
    }

    /// No batch of events, accumulating or held back, contains a path
    /// suppressed by the ignore patterns; components are well-formed.
    pub closed spec fn wf(&self) -> bool {
        &&& self.debouncer.wf()
        &&& self.supervisor.wf()
        &&& forall|i: int|
            0 <= i < self.debouncer.pending().len() ==> !path_ignored(
                self.ignore.patterns(),
                (#[trigger] self.debouncer.pending()[i]).path,
            )
        &&& match self.pending {
            Some(ref b) => b.wf() && forall|i: int|
                0 <= i < b@.len() ==> !path_ignored(
                    self.ignore.patterns(),
                    (#[trigger] b@[i]).path,
                ),
            None => true,
        }
    }

    /// Builds the controller.  User ignore patterns are validated and
    /// appended to the default set; a malformed one is rejected, and
    /// only then.  With `run_initially`, exactly one run — on the empty
    /// batch — is issued right here, before any filesystem event can
    /// have been observed.
    pub fn new(
        policy: BusyPolicy,
        run_initially: bool,
        window_ms: u64,
        grace_ms: u64,
        user_patterns: &Vec<String>,
    ) -> (r: Result<(WatchController, Vec<WatchAction>), Error>)
        ensures
            r is Ok <==> (forall|i: int|
                0 <= i < user_patterns@.len() ==> pattern_wf(#[trigger] user_patterns@[i]@)),
            r matches Err(e) ==> e.kind() == ErrorKind::InvalidInput,
            r matches Ok(p) ==> {
                &&& p.0.wf()
                &&& p.0.policy() == policy
                &&& p.0.run_initially() == run_initially
                &&& p.0.patterns() == default_ignore_patterns()
                    + user_patterns@.map_values(|s: String| normalize_path(s@))
                &&& p.0.window() == window_ms as int
                &&& p.0.grace() == grace_ms as int
                &&& !p.0.stopping()
                &&& p.0.pending_batch() is None
                &&& p.0.deb_pending() == Seq::<EventModel>::empty()
                &&& p.0.deb_deadline() is None
                &&& p.0.last_exit() is None
                &&& run_initially ==> {
                    &&& p.0.sup_state() == SupervisorState::Starting
                    &&& p.1@.len() == 1
                    &&& p.1@[0] matches WatchAction::StartRun(b)
                        && b@ == Seq::<EventModel>::empty()
                }
                &&& !run_initially ==> {
                    &&& p.0.sup_state() == SupervisorState::Idle
                    &&& p.1@.len() == 0
                }
            },
    {
        let ignore = match IgnoreMatcher::new(user_patterns) {
            Ok(m) => m,
            Err(e) => {
                return Err(e);
            },
        };
        let mut controller = WatchController {
            policy,
            run_initially,
            ignore,
            debouncer: Debouncer::new(window_ms),
            supervisor: ProcessSupervisor::new(grace_ms),
            pending: None,
            stopping: false,
        };
        let mut actions: Vec<WatchAction> = Vec::new();
        if run_initially {
            controller.supervisor.begin_start();
            actions.push(WatchAction::StartRun(ChangeBatch::empty()));
        }
        Ok((controller, actions))
    }

    /// Observes one raw filesystem event.  After a shutdown request it
    /// is dropped; a path matching any ignore pattern is suppressed
    /// before it reaches the debouncer; everything else joins the
    /// accumulating batch and re-arms the sliding window.
    pub fn handle_event(&mut self, ev: PathEvent)
        requires
            old(self).wf(),
            ev@.time + old(self).window() <= u64::MAX,
        ensures
            final(self).wf(),
            same_config(*old(self), *final(self)),
            final(self).sup_state() == old(self).sup_state(),
            final(self).force_deadline() == old(self).force_deadline(),
            final(self).last_exit() == old(self).last_exit(),
            final(self).pending_batch() == old(self).pending_batch(),
            final(self).stopping() == old(self).stopping(),
            old(self).stopping() || path_ignored(old(self).patterns(), ev@.path) ==> {
                &&& final(self).deb_pending() == old(self).deb_pending()
                &&& final(self).deb_deadline() == old(self).deb_deadline()
            },
            !old(self).stopping() && !path_ignored(old(self).patterns(), ev@.path) ==> {
                &&& final(self).deb_pending() == push1(old(self).deb_pending(), ev@)
                &&& final(self).deb_deadline() == Some(ev@.time + old(self).window())
            },
    {
        if self.stopping {
            return;
        }
        if self.ignore.matches(ev.path.as_str()) {
            return;
        }
        let ghost pre = self.debouncer.pending();
        self.debouncer.push(ev);
        proof {
            assert forall|i: int| 0 <= i < self.debouncer.pending().len() implies !path_ignored(
                self.ignore.patterns(),
                (#[trigger] self.debouncer.pending()[i]).path,
            ) by {
                if i < pre.len() {
                    assert(self.debouncer.pending()[i] == pre[i]);
                }
            }
        }
    }

    /// Checks the debounce timer.  When the window has elapsed, the
    /// accumulated batch is delivered exactly once; it never contains a
    /// path matching any default or user ignore pattern.
    pub fn poll_flush(&mut self, now_ms: u64) -> (r: Option<ChangeBatch>)
        requires
            old(self).wf(),
        ensures
            final(self).wf(),
            same_config(*old(self), *final(self)),
            final(self).sup_state() == old(self).sup_state(),
            final(self).force_deadline() == old(self).force_deadline(),
            final(self).last_exit() == old(self).last_exit(),
            final(self).pending_batch() == old(self).pending_batch(),
            final(self).stopping() == old(self).stopping(),
            timer_due(old(self).deb_deadline(), now_ms as int) ==> {
                &&& r matches Some(b) && b@ == old(self).deb_pending() && b.wf()
                &&& final(self).deb_pending() == Seq::<EventModel>::empty()
                &&& final(self).deb_deadline() is None
            },
            !timer_due(old(self).deb_deadline(), now_ms as int) ==> {
                &&& r is None
                &&& final(self).deb_pending() == old(self).deb_pending()
                &&& final(self).deb_deadline() == old(self).deb_deadline()
            },
            r matches Some(b) ==> forall|i: int|
                0 <= i < b@.len() ==> !path_ignored(
                    old(self).patterns(),
                    (#[trigger] b@[i]).path,
                ),
    {
        self.debouncer.poll(now_ms)
    }

    /// Applies the busy-update policy to a freshly flushed batch.  On an
    /// idle supervisor the run starts at once, under every policy.  On
    /// an active one: Skip drops the batch; Queue holds it for after the
    /// child's natural exit; Signal interrupts and holds it; Restart
    /// interrupts, arms the force-kill escalation, and holds it.  A run
    /// is only ever started from an idle supervisor.
    pub fn apply_batch(&mut self, batch: ChangeBatch, now_ms: u64) -> (actions: Vec<WatchAction>)
        requires
            old(self).wf(),
            batch.wf(),
            forall|i: int|
                0 <= i < batch@.len() ==> !path_ignored(
                    old(self).patterns(),
                    (#[trigger] batch@[i]).path,
                ),
            now_ms + old(self).grace() <= u64::MAX,
        ensures
            final(self).wf(),
            same_config(*old(self), *final(self)),
            final(self).stopping() == old(self).stopping(),
            final(self).last_exit() == old(self).last_exit(),
            final(self).deb_pending() == old(self).deb_pending(),
            final(self).deb_deadline() == old(self).deb_deadline(),
            // a run is only ever started from an idle supervisor
            (exists|i: int|
                0 <= i < actions@.len() && (#[trigger] actions@[i]) matches
                    WatchAction::StartRun(_)) ==> old(self).sup_state() == SupervisorState::Idle,
            old(self).sup_state() == SupervisorState::Idle ==> {
                &&& actions@ == seq![WatchAction::StartRun(batch)]
                &&& final(self).sup_state() == SupervisorState::Starting
                &&& final(self).force_deadline() is None
                &&& final(self).pending_batch() is None
            },
            old(self).sup_state() != SupervisorState::Idle && old(self).policy()
                == BusyPolicy::Skip ==> {
                &&& actions@ == Seq::<WatchAction>::empty()
                &&& final(self).sup_state() == old(self).sup_state()
                &&& final(self).force_deadline() == old(self).force_deadline()
                &&& final(self).pending_batch() == old(self).pending_batch()
            },
            old(self).sup_state() != SupervisorState::Idle && old(self).policy()
                == BusyPolicy::Queue ==> {
                &&& actions@ == Seq::<WatchAction>::empty()
                &&& final(self).sup_state() == old(self).sup_state()
                &&& final(self).force_deadline() == old(self).force_deadline()
                &&& final(self).pending_batch() == Some(batch@)
            },
            (old(self).sup_state() == SupervisorState::Starting || old(self).sup_state()
                == SupervisorState::Running) && (old(self).policy() == BusyPolicy::Restart
                || old(self).policy() == BusyPolicy::Signal) ==> {
                &&& actions@ == seq![WatchAction::SendInterrupt]
                &&& final(self).sup_state() == SupervisorState::Terminating
                &&& final(self).force_deadline() == (if old(self).policy()
                    == BusyPolicy::Restart {
                    Some(now_ms + old(self).grace())
                } else {
                    None::<int>
                })
                &&& final(self).pending_batch() == Some(batch@)
            },
            old(self).sup_state() == SupervisorState::Terminating && (old(self).policy()
                == BusyPolicy::Restart || old(self).policy() == BusyPolicy::Signal) ==> {
                &&& actions@ == Seq::<WatchAction>::empty()
                &&& final(self).sup_state() == SupervisorState::Terminating
                &&& final(self).force_deadline() == old(self).force_deadline()
                &&& final(self).pending_batch() == Some(batch@)
            },
    {
        let mut actions: Vec<WatchAction> = Vec::new();
        let state = self.supervisor.current_state();
        if matches!(state, SupervisorState::Idle) {
            self.pending = None;
            self.supervisor.begin_start();
            actions.push(WatchAction::StartRun(batch));
            proof {
                assert(actions@ =~= seq![WatchAction::StartRun(batch)]);
            }
            return actions;
        }
        match self.policy {
            BusyPolicy::Skip => {},
            BusyPolicy::Queue => {
                self.pending = Some(batch);
            },
            BusyPolicy::Restart | BusyPolicy::Signal => {
                let escalate = matches!(self.policy, BusyPolicy::Restart);
                let signal = self.supervisor.request_stop(now_ms, escalate);
                if signal {
                    actions.push(WatchAction::SendInterrupt);
                    proof {
                        assert(actions@ =~= seq![WatchAction::SendInterrupt]);
                    }
                }
                self.pending = Some(batch);
            },
        }
        actions
    }

    /// Checks the force-kill escalation timer: when a graceful stop has
    /// been pending a full grace period, the shell is told to kill the
    /// child forcibly.
    pub fn poll_force(&mut self, now_ms: u64) -> (actions: Vec<WatchAction>)
        requires
            old(self).wf(),
        ensures
            final(self).wf(),
            same_config(*old(self), *final(self)),
            final(self).sup_state() == old(self).sup_state(),
            final(self).last_exit() == old(self).last_exit(),
            final(self).pending_batch() == old(self).pending_batch(),
            final(self).stopping() == old(self).stopping(),
            final(self).deb_pending() == old(self).deb_pending(),
            final(self).deb_deadline() == old(self).deb_deadline(),
            (old(self).force_deadline() matches Some(d) && now_ms as int >= d) ==> {
                &&& actions@ == seq![WatchAction::ForceKill]
                &&& final(self).force_deadline() is None
            },
            !(old(self).force_deadline() matches Some(d) && now_ms as int >= d) ==> {
                &&& actions@ == Seq::<WatchAction>::empty()
                &&& final(self).force_deadline() == old(self).force_deadline()
            },
    {
        let mut actions: Vec<WatchAction> = Vec::new();
        if self.supervisor.poll_force_kill(now_ms) {
            actions.push(WatchAction::ForceKill);
            proof {
                assert(actions@ =~= seq![WatchAction::ForceKill]);
            }
        }
        actions
    }

    /// The child of the current run terminated, by any means.  Its exit
    /// status is always reported; then, unless a shutdown is in
    /// progress, a held-back batch starts the next run — from the now
    /// idle supervisor.
    pub fn on_child_exit(&mut self, code: i32) -> (actions: Vec<WatchAction>)
        requires
            old(self).wf(),
            old(self).sup_state() != SupervisorState::Idle,
        ensures
            final(self).wf(),
            same_config(*old(self), *final(self)),
            final(self).stopping() == old(self).stopping(),
            final(self).deb_pending() == old(self).deb_pending(),
            final(self).deb_deadline() == old(self).deb_deadline(),
            final(self).last_exit() == Some(code),
            final(self).force_deadline() is None,
            actions@.len() >= 1 && actions@[0] == WatchAction::ReportExit(code),
            old(self).stopping() ==> {
                &&& actions@.len() == 1
                &&& final(self).sup_state() == SupervisorState::Idle
                &&& final(self).pending_batch() == old(self).pending_batch()
            },
            !old(self).stopping() ==> match old(self).pending_batch() {
                Some(bm) => {
                    &&& actions@.len() == 2
                    &&& actions@[1] matches WatchAction::StartRun(b) && b@ == bm
                    &&& final(self).sup_state() == SupervisorState::Starting
                    &&& final(self).pending_batch() is None
                },
                None => {
                    &&& actions@.len() == 1
                    &&& final(self).sup_state() == SupervisorState::Idle
                    &&& final(self).pending_batch() is None
                },
            },
    {
        self.supervisor.on_exit(code);
        let mut actions: Vec<WatchAction> = Vec::new();
        actions.push(WatchAction::ReportExit(code));
        if !self.stopping {
            let mut held: Option<ChangeBatch> = None;
            core::mem::swap(&mut held, &mut self.pending);
            match held {
                Some(b) => {
                    self.supervisor.begin_start();
                    actions.push(WatchAction::StartRun(b));
                },
                None => {},
            }
        }
        actions
    }

    /// The shell reports that the child of the starting run came up.
    pub fn on_spawned(&mut self)
        requires
            old(self).wf(),
            old(self).sup_state() == SupervisorState::Starting,
        ensures
            final(self).wf(),
            same_config(*old(self), *final(self)),
            final(self).sup_state() == SupervisorState::Running,
            final(self).force_deadline() == old(self).force_deadline(),
            final(self).last_exit() == old(self).last_exit(),
            final(self).pending_batch() == old(self).pending_batch(),
            final(self).stopping() == old(self).stopping(),
            final(self).deb_pending() == old(self).deb_pending(),
            final(self).deb_deadline() == old(self).deb_deadline(),
    {
        self.supervisor.confirm_spawned();
    }

    /// The shell reports that the child could not be launched.  The
    /// attempt is abandoned and the watch keeps running, so the next
    /// change can retry.
    pub fn on_spawn_failed(&mut self)
        requires
            old(self).wf(),
            old(self).sup_state() == SupervisorState::Starting,
        ensures
            final(self).wf(),
            same_config(*old(self), *final(self)),
            final(self).sup_state() == SupervisorState::Idle,
            final(self).force_deadline() is None,
            final(self).last_exit() == old(self).last_exit(),
            final(self).pending_batch() == old(self).pending_batch(),
            final(self).stopping() == old(self).stopping(),
            final(self).deb_pending() == old(self).deb_pending(),
            final(self).deb_deadline() == old(self).deb_deadline(),
    {
        self.supervisor.spawn_failed();
    }

    /// Tears the session down: no further events are consumed, the
    /// pending debounce timer is cancelled without flushing, the
    /// held-back batch is dropped, and an active child is asked to stop
    /// with the force-kill escalation armed.
    pub fn request_shutdown(&mut self, now_ms: u64) -> (actions: Vec<WatchAction>)
        requires
            old(self).wf(),
            now_ms + old(self).grace() <= u64::MAX,
        ensures
            final(self).wf(),
            same_config(*old(self), *final(self)),
            final(self).stopping(),
            final(self).last_exit() == old(self).last_exit(),
            final(self).deb_pending() == Seq::<EventModel>::empty(),
            final(self).deb_deadline() is None,
            final(self).pending_batch() is None,
            (old(self).sup_state() == SupervisorState::Starting || old(self).sup_state()
                == SupervisorState::Running) ==> {
                &&& actions@ == seq![WatchAction::SendInterrupt]
                &&& final(self).sup_state() == SupervisorState::Terminating
                &&& final(self).force_deadline() == Some(now_ms + old(self).grace())
            },
            !(old(self).sup_state() == SupervisorState::Starting || old(self).sup_state()
                == SupervisorState::Running) ==> {
                &&& actions@ == Seq::<WatchAction>::empty()
                &&& final(self).sup_state() == old(self).sup_state()
                &&& final(self).force_deadline() == old(self).force_deadline()
            },
    {
        self.stopping = true;
        self.debouncer.cancel();
        self.pending = None;
        let mut actions: Vec<WatchAction> = Vec::new();
        let signal = self.supervisor.request_stop(now_ms, true);
        if signal {
            actions.push(WatchAction::SendInterrupt);
            proof {
                assert(actions@ =~= seq![WatchAction::SendInterrupt]);
            }
        }
        actions
    }

    /// Reads the supervisor's lifecycle state.
    pub fn supervisor_state(&self) -> (s: SupervisorState)
        ensures
            s == self.sup_state(),
    {
        self.supervisor.current_state()
    }

    /// Whether a shutdown request has been seen.
    pub fn is_stopping(&self) -> (b: bool)
        ensures
            b == self.stopping(),
    {
        self.stopping
    }

    /// The armed debounce deadline, for the shell to time its polls.
    pub fn next_flush_deadline(&self) -> (r: Option<u64>)
        ensures
            match r {
                Some(d) => self.deb_deadline() == Some(d as int),
                None => self.deb_deadline() is None,
            },
    {
        self.debouncer.next_deadline()
    }
}

} // verus!
