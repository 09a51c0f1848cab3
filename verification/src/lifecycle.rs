//! The application lifecycle driver: the decisions of an orchestrator that
//! races the application's long-running main task against an external
//! termination request, runs a single cleanup pass, and can relaunch the
//! current executable as a replacement process.
//!
//! The driver itself is pure bookkeeping: the embedding application runs
//! the two activities (on threads, tasks, or a signal handler), reports
//! which finished first, performs the cleanup and reports it done. The
//! contracts here guarantee the shape of the run: one observation, then
//! exactly one cleanup.

use crate::os;
use crate::runtime::AppError;
use vstd::prelude::*;

verus! {

/// Which of the two racing activities finished first; decided once per
/// orchestrator run.
#[derive(Debug, Clone, Copy, PartialEq, Eq, Structural)]
pub enum LifecycleOutcome {
    /// The application's main task ran to completion (or failed) first.
    MainFinished,
    /// The external termination request fired first; the main task is
    /// abandoned, not cancelled.
    Terminated,
}

/// Where a lifecycle run stands.
#[derive(Debug, Clone, Copy, PartialEq, Eq, Structural)]
pub enum LifecyclePhase {
    /// The main task and the termination listener are racing.
    Racing,
    /// One of them finished first; the single cleanup pass is owed.
    CleaningUp,
    /// Cleanup has run; the run is over.
    Done,
}

/// Decides the race between the main task and the termination listener
/// from the instants (in any time unit) at which each would complete:
/// whichever comes first determines the outcome. A tie goes to the main
/// task, whose completion is observed before the listener's.
pub fn first_event(main_done_at: u64, termination_at: u64) -> (r: LifecycleOutcome)
    ensures
        r == (if termination_at < main_done_at {
            LifecycleOutcome::Terminated
        } else {
            LifecycleOutcome::MainFinished
        }),
{
    if termination_at < main_done_at {
        LifecycleOutcome::Terminated
    } else {
        LifecycleOutcome::MainFinished
    }
}

/// Bookkeeping for one orchestrator run. Whichever activity wins the race,
/// cleanup runs exactly once — after the winner is observed, before the
/// run is over — and must therefore be safe to run regardless of what
/// partial state an abandoned main task left behind.
pub struct LifecycleDriver {
    phase: LifecyclePhase,
    outcome: Option<LifecycleOutcome>,
    cleanups: u64,
}

impl LifecycleDriver {
    /// Where the run stands.
    pub closed spec fn phase(self) -> LifecyclePhase {
        self.phase
    }

    /// The recorded winner of the race, once one has been observed.
    pub closed spec fn outcome(self) -> Option<LifecycleOutcome> {
        self.outcome
    }

    /// How many cleanup passes have run.
    pub closed spec fn cleanups(self) -> u64 {
        self.cleanups
    }

    /// The shape of a run: no cleanup before an outcome is known, exactly
    /// one when the run is done.
    pub open spec fn wf(self) -> bool {
        match self.phase() {
            LifecyclePhase::Racing => self.cleanups() == 0 && self.outcome() is None,
            LifecyclePhase::CleaningUp => self.cleanups() == 0 && self.outcome() is Some,
            LifecyclePhase::Done => self.cleanups() == 1 && self.outcome() is Some,
        }
    }

    /// A fresh run: racing, nothing observed, nothing cleaned up.
    pub fn new() -> (r: Self)
        ensures
            r.wf(),
            r.phase() == LifecyclePhase::Racing,
            r.outcome() is None,
            r.cleanups() == 0,
    {
        LifecycleDriver { phase: LifecyclePhase::Racing, outcome: None, cleanups: 0 }
    }

    /// Records which activity won the race. The loser is abandoned, not
    /// cancelled: its resources are whoever owns them to release. Cleanup
    /// becomes owed, whichever side won.
    pub fn observe(&mut self, event: LifecycleOutcome)
        requires
            old(self).wf(),
            old(self).phase() == LifecyclePhase::Racing,
        ensures
            final(self).wf(),
            final(self).phase() == LifecyclePhase::CleaningUp,
            final(self).outcome() == Some(event),
            final(self).cleanups() == 0,
    {
        self.phase = LifecyclePhase::CleaningUp;
        self.outcome = Some(event);
    }

    /// Records that the single cleanup pass has run. Cleanup failures are
    /// the caller's to log: during shutdown there is no further
    /// escalation path, so they are never re-thrown.
    pub fn cleanup_done(&mut self)
        requires
            old(self).wf(),
            old(self).phase() == LifecyclePhase::CleaningUp,
        ensures
            final(self).wf(),
            final(self).phase() == LifecyclePhase::Done,
            final(self).outcome() == old(self).outcome(),
            final(self).cleanups() == 1,
    {
        self.phase = LifecyclePhase::Done;
        self.cleanups = self.cleanups + 1;
    }

    /// Where the run stands, observably.
    pub fn current_phase(&self) -> (r: LifecyclePhase)
        ensures
            r == self.phase(),
    {
        self.phase
    }

    /// The recorded winner of the race, observably.
    pub fn run_outcome(&self) -> (r: Option<LifecycleOutcome>)
        ensures
            r == self.outcome(),
    {
        self.outcome
    }

    /// How many cleanup passes have run, observably.
    pub fn cleanup_count(&self) -> (r: u64)
        ensures
            r == self.cleanups(),
    {
        self.cleanups
    }
}

/// Law: a finished orchestrator run has performed exactly one cleanup
/// pass, whichever activity won the race and in particular when the
/// termination request did.
pub proof fn lemma_single_cleanup(d: LifecycleDriver)
    requires
        d.wf(),
        d.phase() == LifecyclePhase::Done,
    ensures
        d.cleanups() == 1,
        d.outcome() is Some,
{
}

/// One step of the bounded poll that precedes a relaunch after a
/// self-update: while the target executable is not yet accessible (the
/// update may still be writing it) and retry budget remains, wait one
/// fixed delay and poll again; once it is accessible — or the budget is
/// exhausted — attempt the spawn regardless rather than blocking forever.
#[derive(Debug, Clone, Copy, PartialEq, Eq, Structural)]
pub enum RelaunchStep {
    /// Attempt the spawn now.
    SpawnNow,
    /// Wait one fixed delay, then poll again with this remaining budget.
    RetryAfterDelay(u32),
}

/// Decides one step of the bounded pre-relaunch poll.
pub fn relaunch_poll_step(remaining: u32, accessible: bool) -> (r: RelaunchStep)
    ensures
        accessible || remaining == 0 ==> r == RelaunchStep::SpawnNow,
        !accessible && remaining > 0 ==> r == RelaunchStep::RetryAfterDelay(
            (remaining - 1) as u32,
        ),
{
    if accessible || remaining == 0 {
        RelaunchStep::SpawnNow
    } else {
        RelaunchStep::RetryAfterDelay(remaining - 1)
    }
}

/// Spawns the replacement instance of a process-replacement restart: the
/// resolved current executable with the original arguments, handed over
/// verbatim (see `os::spawn_detached_child`). The child is explicitly
/// detached — it gets its own process group and is not killed when its
/// handle is dropped — so it outlives the caller, which is expected to
/// exit once this returns successfully. A failure is reported, and the
/// current process keeps running.
pub fn spawn_replacement(exe: &str, args: &Vec<String>) -> (r: Result<(), AppError>)
    ensures
        r matches Err(e) ==> e matches AppError::SubProcess(_),
{
    let exe_owned = exe.to_owned();
    match os::spawn_detached_child(&exe_owned, args) {
        Ok(_) => Ok(()),
        Err(m) => Err(AppError::SubProcess(m)),
    }
}

} // verus!
