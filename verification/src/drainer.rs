//! Bookkeeping of a drain: processing a queue's jobs one by one without the
//! full runtime.
use vstd::prelude::*;

verus! {

/// How processing one drained job ended.
#[derive(Clone, Copy, Debug, PartialEq, Eq, Structural)]
pub enum ProcessJobResult {
    Success,
    Failed,
    Missing,
}

/// Counts of a drain.
#[derive(Clone, Copy, Debug, PartialEq, Eq, Structural)]
pub struct DrainStats {
    pub processed: u64,
    pub succeeded: u64,
    pub failed: u64,
    pub missing: u64,
}

impl DrainStats {
    /// Every job processed is counted exactly once as succeeded, failed or
    /// missing.
    pub open spec fn consistent(&self) -> bool {
        self.processed == self.succeeded + self.failed + self.missing
    }

    /// A drain that has processed nothing.
    pub fn new() -> (r: DrainStats)
        ensures
            r == (DrainStats { processed: 0, succeeded: 0, failed: 0, missing: 0 }),
            r.consistent(),
    {
        DrainStats { processed: 0, succeeded: 0, failed: 0, missing: 0 }
    }

    /// Counts one processed job.
    pub fn record(&mut self, result: ProcessJobResult)
        requires
            old(self).processed < u64::MAX,
            old(self).consistent(),
        ensures
            final(self).consistent(),
            final(self).processed == old(self).processed + 1,
            final(self).succeeded == old(self).succeeded + if result == ProcessJobResult::Success { 1int } else { 0int },
            final(self).failed == old(self).failed + if result == ProcessJobResult::Failed { 1int } else { 0int },
            final(self).missing == old(self).missing + if result == ProcessJobResult::Missing { 1int } else { 0int },
    {
        match result {
            ProcessJobResult::Success => self.succeeded = self.succeeded + 1,
            ProcessJobResult::Failed => self.failed = self.failed + 1,
            ProcessJobResult::Missing => self.missing = self.missing + 1,
        }
        self.processed = self.processed + 1;
    }
}

/// The result of processing a drained job: missing when its envelope is
/// gone, otherwise whether the worker succeeded.
pub fn process_job_result(found: bool, succeeded: bool) -> (r: ProcessJobResult)
    ensures
        !found ==> r == ProcessJobResult::Missing,
        found && succeeded ==> r == ProcessJobResult::Success,
        found && !succeeded ==> r == ProcessJobResult::Failed,
{
    if !found {
        ProcessJobResult::Missing
    } else if succeeded {
        ProcessJobResult::Success
    } else {
        ProcessJobResult::Failed
    }
}

/// What is done with a drained job.
pub enum DrainJobAction {
    /// Its envelope is gone: nothing is done.
    Skip,
    /// It succeeded: the success is recorded.
    FinishWithSuccess,
    /// It failed: the failure is recorded and the job is moved to the dead
    /// list with its formatted error at once, whatever retries it has left.
    Kill { error: String },
}

/// The action for a drained job: skipped when its envelope is gone,
/// finished when the worker succeeded, and killed with the formatted error
/// when it failed. A drain never retries.
pub fn drain_job_action(found: bool, outcome: Result<(), String>) -> (r: DrainJobAction)
    ensures
        !found ==> r is Skip,
        found && outcome is Ok ==> r is FinishWithSuccess,
        found && outcome is Err ==> r == (DrainJobAction::Kill { error: outcome->Err_0 }),
{
    if !found {
        DrainJobAction::Skip
    } else {
        match outcome {
            Ok(()) => DrainJobAction::FinishWithSuccess,
            Err(error) => DrainJobAction::Kill { error },
        }
    }
}

/// The counted result of a drained job agrees with what is done with it:
/// missing when skipped, a success when finished, a failure when killed.
pub proof fn lemma_drain_action_matches_result(found: bool, outcome: Result<(), String>, action: DrainJobAction, result: ProcessJobResult)
    requires
        !found ==> action is Skip,
        found && outcome is Ok ==> action is FinishWithSuccess,
        found && outcome is Err ==> action == (DrainJobAction::Kill { error: outcome->Err_0 }),
        !found ==> result == ProcessJobResult::Missing,
        found && outcome is Ok ==> result == ProcessJobResult::Success,
        found && outcome is Err ==> result == ProcessJobResult::Failed,
    ensures
        action is Skip <==> result == ProcessJobResult::Missing,
        action is FinishWithSuccess <==> result == ProcessJobResult::Success,
        action is Kill <==> result == ProcessJobResult::Failed,
{
}

/// Recording a result keeps the counts consistent: it adds one to the
/// processed count and one to the counter of its own outcome, so that the
/// three outcome counters always sum to the processed count.
pub proof fn lemma_record_keeps_counts(before: DrainStats, after: DrainStats, result: ProcessJobResult)
    requires
        before.consistent(),
        after.processed == before.processed + 1,
        after.succeeded == before.succeeded + if result == ProcessJobResult::Success { 1int } else { 0int },
        after.failed == before.failed + if result == ProcessJobResult::Failed { 1int } else { 0int },
        after.missing == before.missing + if result == ProcessJobResult::Missing { 1int } else { 0int },
    ensures
        after.consistent(),
        after.succeeded + after.failed + after.missing == before.succeeded + before.failed + before.missing + 1,
{
}

} // verus!
