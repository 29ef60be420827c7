//! The process supervisor's retry state machine.
//!
//! The supervisor repeatedly launches the configured command until it
//! succeeds, is cancelled, or exhausts a bounded retry budget. The decisions
//! live here: the caller performs each `Launch`, reports what happened, and
//! asks again. A failed exit is reported but not fatal while budget remains;
//! a failure to spawn at all is fatal at once; cancellation is checked
//! before every launch.

use vstd::prelude::*;

verus! {

/// Why the supervisor stopped.
#[derive(Clone, Copy, Debug, PartialEq, Eq, Structural)]
pub enum StopReason {
    /// The command exited successfully.
    Succeeded,
    /// The command could not be launched by the operating system; fatal.
    SpawnFailure,
    /// Cancellation was requested.
    Cancelled,
    /// Every attempt of the budget was used and the last one failed.
    RetriesExhausted,
}

/// What the caller must do next.
#[derive(Clone, Copy, Debug, PartialEq, Eq, Structural)]
pub enum SupervisorAction {
    /// Launch the command once and report how it ended.
    Launch,
    /// Stop the loop for the given reason.
    Stop(StopReason),
}

/// The supervisor's run state: the retry budget, how many attempts were
/// made, and what has been observed so far.
pub struct SupervisorRun {
    max_attempts: u64,
    attempts: u64,
    cancelled: bool,
    succeeded: bool,
    spawn_failed: bool,
}

/// The action a run state calls for. A fatal spawn failure stops first;
/// then cancellation; then success; a launch follows only while budget
/// remains.
pub open spec fn next_action_of(s: SupervisorRun) -> SupervisorAction {
    if s.spawn_failed() {
        SupervisorAction::Stop(StopReason::SpawnFailure)
    } else if s.cancelled() {
        SupervisorAction::Stop(StopReason::Cancelled)
    } else if s.succeeded() {
        SupervisorAction::Stop(StopReason::Succeeded)
    } else if s.attempts() < s.max_attempts() {
        SupervisorAction::Launch
    } else {
        SupervisorAction::Stop(StopReason::RetriesExhausted)
    }
}

impl SupervisorRun {
    /// The configured retry budget.
    pub closed spec fn max_attempts(&self) -> u64 {
        self.max_attempts
    }

    /// How many launches have been begun.
    pub closed spec fn attempts(&self) -> u64 {
        self.attempts
    }

    /// Whether cancellation has been requested.
    pub closed spec fn cancelled(&self) -> bool {
        self.cancelled
    }

    /// Whether some attempt exited successfully.
    pub closed spec fn succeeded(&self) -> bool {
        self.succeeded
    }

    /// Whether a launch failed at the operating-system level.
    pub closed spec fn spawn_failed(&self) -> bool {
        self.spawn_failed
    }

    /// The attempt count never passes the budget.
    pub open spec fn wf(&self) -> bool {
        self.attempts() <= self.max_attempts()
    }

    /// A fresh run with the given retry budget and nothing observed yet.
    pub fn new(max_attempts: u64) -> (r: SupervisorRun)
        ensures
            r.wf(),
            r.max_attempts() == max_attempts,
            r.attempts() == 0,
            !r.cancelled(),
            !r.succeeded(),
            !r.spawn_failed(),
    {
        SupervisorRun {
            max_attempts,
            attempts: 0,
            cancelled: false,
            succeeded: false,
            spawn_failed: false,
        }
    }

    /// How many launches have been begun.
    pub fn attempts_made(&self) -> (r: u64)
        ensures
            r == self.attempts(),
    {
        self.attempts
    }

    /// What to do next in this state.
    pub fn next_action(&self) -> (r: SupervisorAction)
        ensures
            r == next_action_of(*self),
    {
        if self.spawn_failed {
            SupervisorAction::Stop(StopReason::SpawnFailure)
        } else if self.cancelled {
            SupervisorAction::Stop(StopReason::Cancelled)
        } else if self.succeeded {
            SupervisorAction::Stop(StopReason::Succeeded)
        } else if self.attempts < self.max_attempts {
            SupervisorAction::Launch
        } else {
            SupervisorAction::Stop(StopReason::RetriesExhausted)
        }
    }

    /// Uses one attempt of the budget; only legal where the state calls for
    /// a launch, so the count stays within the budget.
    pub fn begin_attempt(&mut self)
        requires
            old(self).wf(),
            next_action_of(*old(self)) == SupervisorAction::Launch,
        ensures
            final(self).wf(),
            final(self).attempts() == old(self).attempts() + 1,
            final(self).max_attempts() == old(self).max_attempts(),
            final(self).cancelled() == old(self).cancelled(),
            final(self).succeeded() == old(self).succeeded(),
            final(self).spawn_failed() == old(self).spawn_failed(),
    {
        self.attempts = self.attempts + 1;
    }

    /// Records how a launched attempt exited. A failure is reported by the
    /// caller but is not fatal here; a success ends the loop.
    pub fn record_exit(&mut self, success: bool)
        ensures
            final(self).succeeded() == (old(self).succeeded() || success),
            final(self).attempts() == old(self).attempts(),
            final(self).max_attempts() == old(self).max_attempts(),
            final(self).cancelled() == old(self).cancelled(),
            final(self).spawn_failed() == old(self).spawn_failed(),
            old(self).wf() ==> final(self).wf(),
    {
        if success {
            self.succeeded = true;
        }
    }

    /// Records that the operating system refused to launch the command.
    /// Fatal: from here the next action is to stop and surface the failure.
    pub fn record_spawn_failure(&mut self)
        ensures
            final(self).spawn_failed(),
            final(self).attempts() == old(self).attempts(),
            final(self).max_attempts() == old(self).max_attempts(),
            final(self).cancelled() == old(self).cancelled(),
            final(self).succeeded() == old(self).succeeded(),
            next_action_of(*final(self)) == SupervisorAction::Stop(StopReason::SpawnFailure),
            old(self).wf() ==> final(self).wf(),
    {
        self.spawn_failed = true;
    }

    /// Requests cooperative cancellation: no further launch will be asked
    /// for, though an already-running child is not torn down here.
    pub fn cancel(&mut self)
        ensures
            final(self).cancelled(),
            final(self).attempts() == old(self).attempts(),
            final(self).max_attempts() == old(self).max_attempts(),
            final(self).succeeded() == old(self).succeeded(),
            final(self).spawn_failed() == old(self).spawn_failed(),
            old(self).wf() ==> final(self).wf(),
    {
        self.cancelled = true;
    }
}

} // verus!
