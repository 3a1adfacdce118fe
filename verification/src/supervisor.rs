//! The process supervisor: the lifecycle of at most one running child.
//!
//! The supervisor is a pure state machine over
//! `Idle -> Starting -> Running -> Terminating -> Idle`; it decides the
//! transitions and the escalation from a graceful stop request to a
//! forced kill, while the unverified shell performs the actual spawning
//! and signalling.  Holding the whole lifecycle in one state field is
//! what enforces that at most one child is ever active.

use vstd::prelude::*;

verus! {

/// Where the supervised child stands.  `Idle` is reused between runs:
/// the supervisor serves arbitrarily many runs in sequence.
#[derive(Clone, Copy, Debug, PartialEq, Eq, Structural)]
pub enum SupervisorState {
    Idle,
    Starting,
    Running,
    Terminating,
}

/// The supervisor: current state, the grace period granted to a child
/// after a graceful stop request, the armed force-kill deadline if an
/// escalating stop is in progress, and the exit code of the last
/// completed run.
pub struct ProcessSupervisor {
    state: SupervisorState,
    grace_ms: u64,
    force_deadline: Option<u64>,
    last_exit: Option<i32>,
}

impl ProcessSupervisor {
    /// The current lifecycle state.
    pub closed spec fn state(&self) -> SupervisorState {
        self.state
    }

    /// The grace period in milliseconds.
    pub closed spec fn grace(&self) -> int {
        self.grace_ms as int
    }

    /// The armed force-kill instant, if an escalating stop is pending.
    pub closed spec fn force_deadline(&self) -> Option<int> {
        match self.force_deadline {
            Some(d) => Some(d as int),
            None => None,
        }
    }

    /// The exit code of the most recently completed run.
    pub closed spec fn last_exit(&self) -> Option<i32> {
        self.last_exit
    }

    /// A child is active: it exists, is coming up, or is being stopped.
    pub open spec fn active(&self) -> bool {
        self.state() != SupervisorState::Idle
    }

    /// A force-kill deadline is only ever armed while terminating.
    pub closed spec fn wf(&self) -> bool {
        self.force_deadline is Some ==> self.state == SupervisorState::Terminating
    }

    /// A fresh, idle supervisor with the given grace period.
    pub fn new(grace_ms: u64) -> (s: ProcessSupervisor)
        ensures
            s.wf(),
            s.state() == SupervisorState::Idle,
            s.grace() == grace_ms as int,
            s.force_deadline() is None,
            s.last_exit() is None,
    {
        ProcessSupervisor { state: SupervisorState::Idle, grace_ms, force_deadline: None, last_exit: None }
    }

    /// Commits to starting a run: only an idle supervisor may start one,
    /// which is what keeps two children from ever overlapping.
    pub fn begin_start(&mut self)
        requires
            old(self).wf(),
            old(self).state() == SupervisorState::Idle,
        ensures
            final(self).wf(),
            final(self).state() == SupervisorState::Starting,
            final(self).grace() == old(self).grace(),
            final(self).force_deadline() is None,
            final(self).last_exit() == old(self).last_exit(),
    {
        self.state = SupervisorState::Starting;
        self.force_deadline = None;
    }

    /// The shell reports that the child process came up.
    pub fn confirm_spawned(&mut self)
        requires
            old(self).wf(),
            old(self).state() == SupervisorState::Starting,
        ensures
            final(self).wf(),
            final(self).state() == SupervisorState::Running,
            final(self).grace() == old(self).grace(),
            final(self).force_deadline() == old(self).force_deadline(),
            final(self).last_exit() == old(self).last_exit(),
    {
        self.state = SupervisorState::Running;
    }

    /// The shell reports that the child could not be launched: that run
    /// attempt is over and the supervisor is idle again, ready for the
    /// next change to retry.
    pub fn spawn_failed(&mut self)
        requires
            old(self).wf(),
            old(self).state() == SupervisorState::Starting,
        ensures
            final(self).wf(),
            final(self).state() == SupervisorState::Idle,
            final(self).grace() == old(self).grace(),
            final(self).force_deadline() is None,
            final(self).last_exit() == old(self).last_exit(),
    {
        self.state = SupervisorState::Idle;
        self.force_deadline = None;
    }

    /// Requests a graceful stop.  On an active child this moves to
    /// `Terminating` and tells the caller to send the interrupt signal;
    /// with `escalate` the force-kill timer is armed one grace period
    /// ahead.  On an idle supervisor it is a no-op, and a stop already
    /// in progress is left as it is.
    pub fn request_stop(&mut self, now_ms: u64, escalate: bool) -> (signal: bool)
        requires
            old(self).wf(),
            now_ms + old(self).grace() <= u64::MAX,
        ensures
            final(self).wf(),
            final(self).grace() == old(self).grace(),
            final(self).last_exit() == old(self).last_exit(),
            signal <==> (old(self).state() == SupervisorState::Starting
                || old(self).state() == SupervisorState::Running),
            signal ==> {
                &&& final(self).state() == SupervisorState::Terminating
                &&& final(self).force_deadline() == (if escalate {
                    Some(now_ms + old(self).grace())
                } else {
                    None::<int>
                })
            },
            !signal ==> *final(self) == *old(self),
    {
        match self.state {
            SupervisorState::Starting | SupervisorState::Running => {
                self.state = SupervisorState::Terminating;
                self.force_deadline = if escalate {
                    Some(now_ms + self.grace_ms)
                } else {
                    None
                };
                true
            },
            _ => false,
        }
    }

    /// Checks the escalation timer: when a graceful stop has been
    /// pending for a full grace period, the caller is told to kill the
    /// child forcibly.  The escalation fires at most once per stop.
    pub fn poll_force_kill(&mut self, now_ms: u64) -> (kill: bool)
        requires
            old(self).wf(),
        ensures
            final(self).wf(),
            kill <==> (old(self).force_deadline() matches Some(d) && now_ms as int >= d),
            kill ==> {
                &&& final(self).state() == old(self).state()
                &&& final(self).grace() == old(self).grace()
                &&& final(self).force_deadline() is None
                &&& final(self).last_exit() == old(self).last_exit()
            },
            !kill ==> *final(self) == *old(self),
    {
        match self.force_deadline {
            Some(d) => {
                if now_ms >= d {
                    self.force_deadline = None;
                    true
                } else {
                    false
                }
            },
            None => false,
        }
    }

    /// The child terminated, by any means: record the exit code, resolve
    /// any pending stop, and return to idle.
    pub fn on_exit(&mut self, code: i32)
        requires
            old(self).wf(),
            old(self).active(),
        ensures
            final(self).wf(),
            final(self).state() == SupervisorState::Idle,
            final(self).grace() == old(self).grace(),
            final(self).force_deadline() is None,
            final(self).last_exit() == Some(code),
    {
        self.state = SupervisorState::Idle;
        self.force_deadline = None;
        self.last_exit = Some(code);
    }

    /// Reads the current state.
    pub fn current_state(&self) -> (s: SupervisorState)
        ensures
            s == self.state(),
    {
        self.state
    }

    /// Reads the exit code of the last completed run.
    pub fn last_exit_code(&self) -> (c: Option<i32>)
        ensures
            c == self.last_exit(),
    {
        self.last_exit
    }
}

} // verus!
