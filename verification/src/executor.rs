//! What the executor decides around a worker execution: whether a batch can
//! run, each job's retry policy, the failure report's metadata, and whether
//! each failed job is retried or killed.
use vstd::prelude::*;
use vstd::string::*;
use crate::failure::{FailedJobMetadata, WorkerFailureMetadata};
use crate::json::clone_json;
use crate::text::{decimal, u64_to_decimal};

verus! {

/// The arguments of a job.
pub struct JobData {
    pub name: String,
    pub args: serde_json::Value,
}

/// What the executor reads of a job's metadata: its retries so far and its
/// resumable state.
pub struct JobMeta {
    pub retries: u32,
    pub state: Option<serde_json::Value>,
}

/// A stored job: its ID, queue, arguments and metadata.
pub struct JobEnvelope {
    pub id: String,
    pub queue: String,
    pub job: JobData,
    pub meta: JobMeta,
}

/// How a failed job is treated, as the worker classifies its error: retried
/// within its retry budget, or moved to the dead list at once.
#[derive(Clone, Copy, Debug, PartialEq, Eq, Structural)]
pub enum FailureKind {
    Retry,
    DeadLetter,
}

/// A worker ready to process a batch of jobs.
pub trait Processable {
    /// The error an execution returns.
    type Error;

    /// The number of jobs the worker was built with.
    fn len(&self) -> usize;

    /// Whether jobs resume from their stored state.
    fn should_resume(&self) -> bool;

    /// The maximum number of retries of the job at `index`.
    fn max_retries(&self, index: usize) -> u32;

    /// The delay, in seconds, before retrying the job at `index` after
    /// `retries` retries.
    fn retry_delay(&self, index: usize, retries: u32) -> u64;

    /// How the job at `index` is treated after the execution failed with
    /// `error`.
    fn classify(&self, index: usize, error: &Self::Error) -> FailureKind;
}

/// The retry policy of one job of an execution.
#[derive(Clone, Copy, Debug, PartialEq, Eq, Structural)]
pub struct JobExecutionPolicy {
    pub max_retries: u32,
    pub retry_delay: u64,
}

/// The policy of the job at `index`, as the worker gives it: the maximum
/// retries the worker returns for that job, and the delay it returns for
/// that job after the envelope's retries so far.
pub fn execution_policy<W: Processable>(worker: &W, index: usize, envelope: &JobEnvelope) -> (r: JobExecutionPolicy)
    ensures
        call_ensures(W::max_retries, (worker, index), r.max_retries),
        call_ensures(W::retry_delay, (worker, index, envelope.meta.retries), r.retry_delay),
{
    JobExecutionPolicy {
        max_retries: worker.max_retries(index),
        retry_delay: worker.retry_delay(index, envelope.meta.retries),
    }
}

/// The policies of all jobs of a batch, in order.
pub fn execution_policies<W: Processable>(worker: &W, envelopes: &Vec<JobEnvelope>) -> (r: Vec<JobExecutionPolicy>)
    ensures
        r@.len() == envelopes@.len(),
        forall|i: int|
            0 <= i < r@.len() ==> call_ensures(W::max_retries, (worker, i as usize), (#[trigger] r@[i]).max_retries)
                && call_ensures(W::retry_delay, (worker, i as usize, envelopes@[i].meta.retries), r@[i].retry_delay),
{
    let mut out: Vec<JobExecutionPolicy> = Vec::new();
    let mut i: usize = 0;
    while i < envelopes.len()
        invariant
            i <= envelopes@.len(),
            out@.len() == i,
            forall|k: int|
                0 <= k < i ==> call_ensures(W::max_retries, (worker, k as usize), (#[trigger] out@[k]).max_retries)
                    && call_ensures(W::retry_delay, (worker, k as usize, envelopes@[k].meta.retries), out@[k].retry_delay),
        decreases envelopes@.len() - i,
    {
        out.push(execution_policy(worker, i, &envelopes[i]));
        i = i + 1;
    }
    out
}

/// The classification of each of the `count` jobs of a failed execution, in
/// order, as the worker gives it for `error`.
pub fn failure_kinds<W: Processable>(worker: &W, error: &W::Error, count: usize) -> (r: Vec<FailureKind>)
    ensures
        r@.len() == count,
        forall|i: int| 0 <= i < count ==> call_ensures(W::classify, (worker, i as usize, error), #[trigger] r@[i]),
{
    let mut out: Vec<FailureKind> = Vec::new();
    let mut i: usize = 0;
    while i < count
        invariant
            i <= count,
            out@.len() == i,
            forall|k: int| 0 <= k < i ==> call_ensures(W::classify, (worker, k as usize, error), #[trigger] out@[k]),
        decreases count - i,
    {
        let kind = worker.classify(i, error);
        out.push(kind);
        i = i + 1;
    }
    out
}

/// What a batch of envelopes allows before anything runs.
pub enum BatchCheck {
    /// No envelopes: nothing to run, a successful execution of no length.
    Empty,
    /// The worker holds another number of jobs than there are envelopes.
    Mismatch(String),
    /// The batch runs.
    Run,
}

/// The error message for a worker holding `worker_jobs` jobs handed
/// `envelopes` envelopes.
pub open spec fn mismatch_message(worker_jobs: nat, envelopes: nat) -> Seq<char> {
    "Batch worker has "@ + decimal(worker_jobs) + " jobs but received "@ + decimal(envelopes) + " envelopes"@
}

/// Checks a batch before it runs.
pub fn batch_check(worker_jobs: usize, envelopes: usize) -> (r: BatchCheck)
    ensures
        envelopes == 0 ==> r is Empty,
        envelopes != 0 && worker_jobs != envelopes ==> (r matches BatchCheck::Mismatch(m) && m@
            == mismatch_message(worker_jobs as nat, envelopes as nat)),
        envelopes != 0 && worker_jobs == envelopes ==> r is Run,
{
    if envelopes == 0 {
        BatchCheck::Empty
    } else if worker_jobs != envelopes {
        let w = u64_to_decimal(worker_jobs as u64);
        let e = u64_to_decimal(envelopes as u64);
        let message = String::from_str("Batch worker has ").concat(w.as_str()).concat(" jobs but received ").concat(
            e.as_str(),
        ).concat(" envelopes");
        BatchCheck::Mismatch(message)
    } else {
        BatchCheck::Run
    }
}

/// Drops every job's stored state, for workers that do not resume.
pub fn clear_states(envelopes: Vec<JobEnvelope>) -> (r: Vec<JobEnvelope>)
    ensures
        r@.len() == envelopes@.len(),
        forall|i: int|
            0 <= i < r@.len() ==> (#[trigger] r@[i]).meta.state is None && r@[i].id == envelopes@[i].id
                && r@[i].queue == envelopes@[i].queue && r@[i].job == envelopes@[i].job && r@[i].meta.retries
                == envelopes@[i].meta.retries,
{
    let mut rest = envelopes;
    let mut out: Vec<JobEnvelope> = Vec::new();
    let ghost input = rest@;
    while rest.len() > 0
        invariant
            out@.len() + rest@.len() == input.len(),
            rest@ == input.skip(out@.len() as int),
            forall|i: int|
                0 <= i < out@.len() ==> (#[trigger] out@[i]).meta.state is None && out@[i].id == input[i].id
                    && out@[i].queue == input[i].queue && out@[i].job == input[i].job
                    && out@[i].meta.retries == input[i].meta.retries,
        decreases rest@.len(),
    {
        let ghost before = rest@;
        let e = rest.remove(0);
        proof {
            assert(rest@ =~= input.skip(out@.len() as int + 1));
            assert(e == input[out@.len() as int]);
        }
        let JobEnvelope { id, queue, job, meta } = e;
        out.push(JobEnvelope { id, queue, job, meta: JobMeta { retries: meta.retries, state: None } });
    }
    out
}

/// An execution's length in milliseconds, capped at `u64::MAX`.
pub fn duration_millis(millis: u128) -> (r: u64)
    ensures
        r == if millis <= u64::MAX {
            millis as u64
        } else {
            u64::MAX
        },
{
    if millis <= (u64::MAX as u128) {
        millis as u64
    } else {
        u64::MAX
    }
}

/// A caught panic's payload, as far as the report reads it.
pub enum PanicPayload<'a> {
    Str(&'a str),
    Owned(String),
    Other,
}

/// The message of a panic: its string payload, or a fallback.
pub fn panic_message(payload: PanicPayload) -> (r: String)
    ensures
        r@ == match payload {
            PanicPayload::Str(s) => s@,
            PanicPayload::Owned(s) => s@,
            PanicPayload::Other => "Unknown panic occurred"@,
        },
{
    match payload {
        PanicPayload::Str(s) => String::from_str(s),
        PanicPayload::Owned(s) => s,
        PanicPayload::Other => String::from_str("Unknown panic occurred"),
    }
}

/// The delay before a retry: the override's, when the override gives one,
/// otherwise the policy's.
pub fn retry_delay(override_delay: Option<u64>, policy: &JobExecutionPolicy) -> (r: u64)
    ensures
        r == match override_delay {
            Some(d) => d,
            None => policy.retry_delay,
        },
{
    match override_delay {
        Some(d) => d,
        None => policy.retry_delay,
    }
}

/// What happens to a failed job.
#[derive(Clone, Copy, Debug, PartialEq, Eq, Structural)]
pub enum FailureAction {
    /// Record the failure and retry after `delay` seconds.
    Retry { delay: u64 },
    /// Move the job to the dead-letter list.
    Kill,
}

/// The action for a failed job: retried while its retries are below the
/// maximum, killed after that; a dead-lettered job is killed at once,
/// whatever its retries.
pub open spec fn spec_failure_action(retries: u32, max_retries: u32, delay: u64, kind: FailureKind) -> FailureAction {
    if kind == FailureKind::Retry && retries < max_retries {
        FailureAction::Retry { delay }
    } else {
        FailureAction::Kill
    }
}

/// The action for a failed job.
pub fn failure_action(retries: u32, max_retries: u32, delay: u64, kind: FailureKind) -> (r: FailureAction)
    ensures
        r == spec_failure_action(retries, max_retries, delay, kind),
{
    if kind == FailureKind::Retry && retries < max_retries {
        FailureAction::Retry { delay }
    } else {
        FailureAction::Kill
    }
}

/// How a worker execution ended.
pub enum ExecutionResult {
    Success,
    Error,
    Panic(String),
}

/// The error an execution reports to its coordinator.
#[derive(Clone, Copy, Debug, PartialEq, Eq, Structural)]
pub enum ExecutionError {
    NotPanic,
    Panic,
}

/// The number of jobs that have both an envelope and a policy.
pub open spec fn paired_len(envelopes: Seq<JobEnvelope>, policies: Seq<JobExecutionPolicy>) -> int {
    if envelopes.len() < policies.len() {
        envelopes.len() as int
    } else {
        policies.len() as int
    }
}

/// The classification a failed job is handled by: the worker's, when it
/// returned an error; a panic is always retried within the budget.
pub open spec fn effective_kind(is_error: bool, kinds: Seq<FailureKind>, i: int) -> FailureKind {
    if is_error {
        kinds[i]
    } else {
        FailureKind::Retry
    }
}

/// The delay a failed job is retried after: the override's, when the
/// execution returned an error and the override gives one, otherwise the
/// policy's.
pub open spec fn planned_delay(
    is_error: bool,
    policies: Seq<JobExecutionPolicy>,
    override_delays: Seq<Option<u64>>,
    i: int,
) -> u64 {
    if is_error {
        match override_delays[i] {
            Some(d) => d,
            None => policies[i].retry_delay,
        }
    } else {
        policies[i].retry_delay
    }
}

/// What follows an execution: its result for the coordinator, and the
/// action for each failed job. `kinds` holds the worker's classification
/// of each job, read when the execution returned an error.
pub fn plan_outcome(
    result: &ExecutionResult,
    envelopes: &Vec<JobEnvelope>,
    policies: &Vec<JobExecutionPolicy>,
    override_delays: &Vec<Option<u64>>,
    kinds: &Vec<FailureKind>,
) -> (r: (Result<(), ExecutionError>, Vec<FailureAction>))
    requires
        override_delays@.len() >= paired_len(envelopes@, policies@),
        kinds@.len() >= paired_len(envelopes@, policies@),
    ensures
        *result is Success ==> r.0 is Ok && r.1@.len() == 0,
        *result is Error ==> r.0 == Err::<(), ExecutionError>(ExecutionError::NotPanic),
        *result is Panic ==> r.0 == Err::<(), ExecutionError>(ExecutionError::Panic),
        !(*result is Success) ==> r.1@.len() == paired_len(envelopes@, policies@),
        forall|i: int|
            0 <= i < r.1@.len() ==> #[trigger] r.1@[i] == spec_failure_action(
                envelopes@[i].meta.retries,
                policies@[i].max_retries,
                planned_delay(*result is Error, policies@, override_delays@, i),
                effective_kind(*result is Error, kinds@, i),
            ),
{
    let mut actions: Vec<FailureAction> = Vec::new();
    let outcome = match result {
        ExecutionResult::Success => {
            return (Ok(()), actions);
        },
        ExecutionResult::Error => Err(ExecutionError::NotPanic),
        ExecutionResult::Panic(_) => Err(ExecutionError::Panic),
    };
    let n = if envelopes.len() < policies.len() {
        envelopes.len()
    } else {
        policies.len()
    };
    let is_error = match result {
        ExecutionResult::Error => true,
        _ => false,
    };
    let mut i: usize = 0;
    while i < n
        invariant
            i <= n,
            n == paired_len(envelopes@, policies@),
            n <= override_delays@.len(),
            n <= kinds@.len(),
            is_error == (*result is Error),
            actions@.len() == i,
            forall|k: int|
                0 <= k < i ==> #[trigger] actions@[k] == spec_failure_action(
                    envelopes@[k].meta.retries,
                    policies@[k].max_retries,
                    planned_delay(*result is Error, policies@, override_delays@, k),
                    effective_kind(*result is Error, kinds@, k),
                ),
        decreases n - i,
    {
        let (delay, kind) = if is_error {
            (retry_delay(override_delays[i], &policies[i]), kinds[i])
        } else {
            (policies[i].retry_delay, FailureKind::Retry)
        };
        actions.push(failure_action(envelopes[i].meta.retries, policies[i].max_retries, delay, kind));
        i = i + 1;
    }
    (outcome, actions)
}

/// The report entry of one failed job, handled as `kind`: it will retry
/// only if it is not dead-lettered and has retries left.
pub open spec fn job_failure_ok(
    job: FailedJobMetadata,
    envelope: JobEnvelope,
    policy: JobExecutionPolicy,
    kind: FailureKind,
) -> bool {
    &&& job.job_id == envelope.id
    &&& job.args == envelope.job.args
    &&& job.retry_count == envelope.meta.retries
    &&& job.max_retries == policy.max_retries
    &&& job.will_retry == (kind == FailureKind::Retry && envelope.meta.retries < policy.max_retries)
    &&& job.terminal == !job.will_retry
}

/// The failure metadata of an execution: one entry per job (paired with its
/// policy and handled as its kind), the queue of the first job, the names,
/// and whether any job will retry.
pub open spec fn failure_metadata_ok(
    r: WorkerFailureMetadata,
    envelopes: Seq<JobEnvelope>,
    policies: Seq<JobExecutionPolicy>,
    kinds: Seq<FailureKind>,
    job_name: Seq<char>,
    worker_name: Seq<char>,
) -> bool {
    &&& r.jobs@.len() == paired_len(envelopes, policies)
    &&& forall|i: int|
        0 <= i < r.jobs@.len() ==> job_failure_ok(#[trigger] r.jobs@[i], envelopes[i], policies[i], kinds[i])
    &&& r.batch_size == r.jobs@.len()
    &&& envelopes.len() == 0 ==> r.queue@ == Seq::<char>::empty()
    &&& envelopes.len() > 0 ==> r.queue == envelopes[0].queue
    &&& r.job_name@ == job_name
    &&& r.worker_name@ == worker_name
    &&& r.will_retry == exists|i: int| 0 <= i < r.jobs@.len() && (#[trigger] r.jobs@[i]).will_retry
    &&& r.terminal == !r.will_retry
}

/// The failure metadata of an execution: one entry per job (paired with its
/// policy and handled as its kind), the queue of the first job, and whether
/// any job will retry.
pub fn failure_metadata(
    envelopes: &Vec<JobEnvelope>,
    policies: &Vec<JobExecutionPolicy>,
    kinds: &Vec<FailureKind>,
    job_name: &str,
    worker_name: &str,
) -> (r: WorkerFailureMetadata)
    requires
        kinds@.len() >= paired_len(envelopes@, policies@),
    ensures
        failure_metadata_ok(r, envelopes@, policies@, kinds@, job_name@, worker_name@),
{
    let n = if envelopes.len() < policies.len() {
        envelopes.len()
    } else {
        policies.len()
    };
    let mut jobs: Vec<FailedJobMetadata> = Vec::new();
    let mut will_retry = false;
    let mut i: usize = 0;
    while i < n
        invariant
            i <= n,
            n == paired_len(envelopes@, policies@),
            n <= kinds@.len(),
            jobs@.len() == i,
            forall|k: int| 0 <= k < i ==> job_failure_ok(#[trigger] jobs@[k], envelopes@[k], policies@[k], kinds@[k]),
            will_retry == exists|k: int| 0 <= k < i && (#[trigger] jobs@[k]).will_retry,
        decreases n - i,
    {
        let envelope = &envelopes[i];
        let policy = &policies[i];
        let job_will_retry = kinds[i] == FailureKind::Retry && envelope.meta.retries < policy.max_retries;
        let ghost old_jobs = jobs@;
        jobs.push(
            FailedJobMetadata {
                job_id: envelope.id.clone(),
                args: clone_json(&envelope.job.args),
                retry_count: envelope.meta.retries,
                max_retries: policy.max_retries,
                will_retry: job_will_retry,
                terminal: !job_will_retry,
            },
        );
        proof {
            assert forall|k: int| 0 <= k < i implies jobs@[k] == old_jobs[k] by {}
            if job_will_retry {
                assert(jobs@[i as int].will_retry);
            }
            if will_retry {
                let k = choose|k: int| 0 <= k < i && (#[trigger] old_jobs[k]).will_retry;
                assert(jobs@[k].will_retry);
            }
            if exists|k: int| 0 <= k < i + 1 && (#[trigger] jobs@[k]).will_retry {
                let k = choose|k: int| 0 <= k < i + 1 && (#[trigger] jobs@[k]).will_retry;
                if k < i {
                    assert(old_jobs[k].will_retry);
                }
            }
        }
        will_retry = will_retry || job_will_retry;
        i = i + 1;
    }
    let queue = if envelopes.len() > 0 {
        envelopes[0].queue.clone()
    } else {
        String::new()
    };
    WorkerFailureMetadata {
        jobs,
        queue,
        job_name: String::from_str(job_name),
        worker_name: String::from_str(worker_name),
        batch_size: n,
        will_retry,
        terminal: !will_retry,
    }
}

/// How a worker's execution of a batch ended: success, the error it
/// returned, or the message of its panic.
pub enum BatchResult<E> {
    Success,
    Error(E),
    Panic(String),
}

/// What follows a batch execution: its result for the coordinator, the
/// action for each failed job, and the failure report, when it failed.
pub struct BatchFinish {
    pub outcome: Result<(), ExecutionError>,
    pub actions: Vec<FailureAction>,
    pub report: Option<WorkerFailureMetadata>,
}

/// The classification of the first `n` jobs of a failed batch: the
/// worker's, for the error it returned; a retry for every job of a panic.
pub open spec fn batch_kinds<W: Processable>(worker: &W, result: &BatchResult<W::Error>, kinds: Seq<FailureKind>, n: int) -> bool {
    &&& kinds.len() == n
    &&& forall|i: int|
        0 <= i < n ==> match *result {
            BatchResult::Error(e) => call_ensures(W::classify, (worker, i as usize, &e), #[trigger] kinds[i]),
            _ => kinds[i] == FailureKind::Retry,
        }
}

/// The actions and report of a failed batch whose jobs are classified as
/// `kinds`.
pub open spec fn batch_failed_with(
    r: BatchFinish,
    is_error: bool,
    envelopes: Seq<JobEnvelope>,
    policies: Seq<JobExecutionPolicy>,
    override_delays: Seq<Option<u64>>,
    kinds: Seq<FailureKind>,
    job_name: Seq<char>,
    worker_name: Seq<char>,
) -> bool {
    &&& r.actions@.len() == paired_len(envelopes, policies)
    &&& forall|i: int|
        0 <= i < r.actions@.len() ==> #[trigger] r.actions@[i] == spec_failure_action(
            envelopes[i].meta.retries,
            policies[i].max_retries,
            planned_delay(is_error, policies, override_delays, i),
            kinds[i],
        )
    &&& r.report is Some
    &&& failure_metadata_ok(r.report->0, envelopes, policies, kinds, job_name, worker_name)
}

/// Finishes a batch execution: nothing more on success; otherwise each job
/// is classified (by the worker for a returned error, as a retry for a
/// panic), given its retry-or-kill action, and reported.
pub fn finish_batch<W: Processable>(
    worker: &W,
    result: &BatchResult<W::Error>,
    envelopes: &Vec<JobEnvelope>,
    policies: &Vec<JobExecutionPolicy>,
    override_delays: &Vec<Option<u64>>,
    job_name: &str,
    worker_name: &str,
) -> (r: BatchFinish)
    requires
        override_delays@.len() >= paired_len(envelopes@, policies@),
    ensures
        *result is Success ==> r.outcome is Ok && r.actions@.len() == 0 && r.report is None,
        *result is Error ==> r.outcome == Err::<(), ExecutionError>(ExecutionError::NotPanic),
        *result is Panic ==> r.outcome == Err::<(), ExecutionError>(ExecutionError::Panic),
        !(*result is Success) ==> exists|kinds: Seq<FailureKind>|
            #[trigger] batch_kinds(worker, result, kinds, paired_len(envelopes@, policies@)) && batch_failed_with(
                r,
                *result is Error,
                envelopes@,
                policies@,
                override_delays@,
                kinds,
                job_name@,
                worker_name@,
            ),
{
    let n = if envelopes.len() < policies.len() {
        envelopes.len()
    } else {
        policies.len()
    };
    let (execution, kinds) = match result {
        BatchResult::Success => {
            return BatchFinish { outcome: Ok(()), actions: Vec::new(), report: None };
        },
        BatchResult::Error(error) => (ExecutionResult::Error, failure_kinds(worker, error, n)),
        BatchResult::Panic(_) => {
            let mut kinds: Vec<FailureKind> = Vec::new();
            let mut i: usize = 0;
            while i < n
                invariant
                    i <= n,
                    kinds@.len() == i,
                    forall|k: int| 0 <= k < i ==> #[trigger] kinds@[k] == FailureKind::Retry,
                decreases n - i,
            {
                kinds.push(FailureKind::Retry);
                i = i + 1;
            }
            (ExecutionResult::Panic(String::new()), kinds)
        },
    };
    let (outcome, actions) = plan_outcome(&execution, envelopes, policies, override_delays, &kinds);
    let report = failure_metadata(envelopes, policies, &kinds, job_name, worker_name);
    let r = BatchFinish { outcome, actions, report: Some(report) };
    proof {
        assert(batch_kinds(worker, result, kinds@, n as int));
        assert forall|i: int| 0 <= i < r.actions@.len() implies #[trigger] r.actions@[i] == spec_failure_action(
            envelopes@[i].meta.retries,
            policies@[i].max_retries,
            planned_delay(*result is Error, policies@, override_delays@, i),
            kinds@[i],
        ) by {
            assert(effective_kind(execution is Error, kinds@, i) == kinds@[i]);
        }
    }
    r
}

/// A failure report says a job will retry exactly when its action is a
/// retry: the report and the actions taken agree.
pub proof fn lemma_report_matches_actions(
    job: FailedJobMetadata,
    envelope: JobEnvelope,
    policy: JobExecutionPolicy,
    kind: FailureKind,
    delay: u64,
)
    requires
        job_failure_ok(job, envelope, policy, kind),
    ensures
        job.will_retry <==> spec_failure_action(envelope.meta.retries, policy.max_retries, delay, kind) is Retry,
        job.terminal <==> spec_failure_action(envelope.meta.retries, policy.max_retries, delay, kind) is Kill,
{
}

/// A job the worker classifies as dead-lettered is killed at once, whatever
/// retries it has left, and its report says it will not retry and is
/// terminal.
pub proof fn lemma_dead_letter_is_terminal(
    job: FailedJobMetadata,
    envelope: JobEnvelope,
    policy: JobExecutionPolicy,
    delay: u64,
)
    requires
        job_failure_ok(job, envelope, policy, FailureKind::DeadLetter),
    ensures
        spec_failure_action(envelope.meta.retries, policy.max_retries, delay, FailureKind::DeadLetter)
            == FailureAction::Kill,
        !job.will_retry,
        job.terminal,
{
}

} // verus!
