//! The launcher's decisions: which failures to keep, how a shutdown ended,
//! and what a timed-out shutdown reports.
use vstd::prelude::*;
use vstd::string::*;
use crate::config::{RuntimeSettings, WorkerConfig, WorkerConfigKind};
use crate::queue::{QueueConfig, QueueId, QueueKind};
use crate::text::str_eq;

verus! {

/// The error a finished task leaves: its join failure, its own error, or
/// none. A join failure is given already converted to the runtime's error.
pub fn record_task_result<E>(result: Result<Result<(), E>, E>) -> (r: Option<E>)
    ensures
        r == match result {
            Err(e) => Some(e),
            Ok(Err(e)) => Some(e),
            Ok(Ok(())) => None,
        },
{
    match result {
        Err(e) => Some(e),
        Ok(Err(e)) => Some(e),
        Ok(Ok(())) => None,
    }
}

/// The error an aborted task leaves: like [`record_task_result`], except
/// that the cancellation the abort caused is not a failure.
pub fn record_aborted_task_result<E>(result: Result<Result<(), E>, E>, cancelled: bool) -> (r: Option<E>)
    ensures
        r == match result {
            Err(e) => if cancelled {
                None
            } else {
                Some(e)
            },
            Ok(Err(e)) => Some(e),
            Ok(Ok(())) => None,
        },
{
    match result {
        Err(e) => if cancelled {
            None
        } else {
            Some(e)
        },
        Ok(Err(e)) => Some(e),
        Ok(Ok(())) => None,
    }
}

/// How a runtime shut down.
pub enum ShutdownOutcome<E> {
    /// Every task finished without error.
    Graceful,
    /// The shutdown deadline passed first.
    TimedOut,
    /// A task failed; its error is returned.
    Failed(E),
}

/// The outcome of a shutdown: a recorded failure wins over the deadline,
/// which wins over a graceful end.
pub fn shutdown_outcome<E>(recorded: Option<E>, timed_out: bool) -> (r: ShutdownOutcome<E>)
    ensures
        recorded matches Some(e) ==> r == ShutdownOutcome::Failed(e),
        recorded is None && timed_out ==> r is TimedOut,
        recorded is None && !timed_out ==> r is Graceful,
{
    match recorded {
        Some(e) => ShutdownOutcome::Failed(e),
        None => if timed_out {
            ShutdownOutcome::TimedOut
        } else {
            ShutdownOutcome::Graceful
        },
    }
}

/// What a timed-out shutdown reports: whether the jobs this process still
/// held could be read, and their IDs (none when they could not).
pub struct ShutdownTimeoutReport {
    pub read: bool,
    pub interrupted: Vec<String>,
}

/// The report built from the read of the interrupted jobs.
pub fn shutdown_timeout_report(interrupted: Option<Vec<String>>) -> (r: ShutdownTimeoutReport)
    ensures
        r.read == interrupted is Some,
        interrupted matches Some(ids) ==> r.interrupted == ids,
        interrupted is None ==> r.interrupted@.len() == 0,
{
    match interrupted {
        Some(ids) => ShutdownTimeoutReport { read: true, interrupted: ids },
        None => ShutdownTimeoutReport { read: false, interrupted: Vec::new() },
    }
}

/// The queue logged for an interrupted job: the queue of the last read
/// envelope with its ID (a later read of the same ID replaces an earlier
/// one), or empty when none was read.
pub fn interrupted_queue(job_id: &str, envelopes: &Vec<(String, String)>) -> (r: String)
    ensures
        (exists|i: int| 0 <= i < envelopes@.len() && (#[trigger] envelopes@[i]).0@ == job_id@) ==> exists|i: int|
            0 <= i < envelopes@.len() && (#[trigger] envelopes@[i]).0@ == job_id@ && r@ == envelopes@[i].1@
                && forall|k: int| i < k < envelopes@.len() ==> (#[trigger] envelopes@[k]).0@ != job_id@,
        !(exists|i: int| 0 <= i < envelopes@.len() && (#[trigger] envelopes@[i]).0@ == job_id@) ==> r@
            == Seq::<char>::empty(),
{
    let mut i: usize = envelopes.len();
    while i > 0
        invariant
            i <= envelopes@.len(),
            forall|k: int| i <= k < envelopes@.len() ==> (#[trigger] envelopes@[k]).0@ != job_id@,
        decreases i,
    {
        i = i - 1;
        if str_eq(envelopes[i].0.as_str(), job_id) {
            return envelopes[i].1.clone();
        }
    }
    String::new()
}

/// Whether position `j` is listed.
pub open spec fn index_listed(indices: Seq<usize>, j: int) -> bool {
    exists|k: int| 0 <= k < indices.len() && indices[k] == j
}

/// One step of listing chosen positions: after position `i` is pushed when
/// chosen, a position up to `i` is listed exactly when it was listed before
/// or it is `i` and was chosen.
proof fn lemma_listed_step(before: Seq<usize>, after: Seq<usize>, i: int, chosen: bool)
    requires
        0 <= i <= usize::MAX,
        forall|k: int| 0 <= k < before.len() ==> before[k] < i,
        after == if chosen {
            before.push(i as usize)
        } else {
            before
        },
    ensures
        forall|j: int|
            0 <= j <= i ==> (#[trigger] index_listed(after, j) <==> ((j < i && index_listed(before, j)) || (j == i
                && chosen))),
{
    assert forall|j: int| 0 <= j <= i implies (#[trigger] index_listed(after, j) <==> ((j < i && index_listed(
        before,
        j,
    )) || (j == i && chosen))) by {
        if index_listed(after, j) {
            let k = choose|k: int| 0 <= k < after.len() && after[k] == j;
            if k < before.len() {
                assert(before[k] == j);
                assert(index_listed(before, j));
            }
        }
        if j < i && index_listed(before, j) {
            let k = choose|k: int| 0 <= k < before.len() && before[k] == j;
            assert(after[k] == j);
        }
        if j == i && chosen {
            assert(after[before.len() as int] == i);
        }
    }
}

/// Whether the settings let the runtime process `queue`.
pub open spec fn allowed(settings: &RuntimeSettings, queue: QueueConfig) -> bool {
    settings.runs(queue.id())
}

/// The positions of the queues that get a coordinator: the registered ones
/// the settings allow, in order.
pub fn coordinator_queues(queues: &Vec<QueueConfig>, settings: &RuntimeSettings) -> (r: Vec<usize>)
    ensures
        forall|k: int| 0 <= k < r@.len() ==> r@[k] < queues@.len(),
        forall|k: int, m: int| 0 <= k < m < r@.len() ==> r@[k] < r@[m],
        forall|i: int| 0 <= i < queues@.len() ==> (#[trigger] index_listed(r@, i) <==> allowed(settings, queues@[i])),
        forall|i: int|
            0 <= i < queues@.len() ==> (#[trigger] index_listed(r@, i) <==> allowlist_admits(
                settings.queue_allowlist@,
                queues@[i],
            )),
{
    let mut out: Vec<usize> = Vec::new();
    let mut i: usize = 0;
    while i < queues.len()
        invariant
            i <= queues@.len(),
            forall|k: int| 0 <= k < out@.len() ==> out@[k] < i,
            forall|k: int, m: int| 0 <= k < m < out@.len() ==> out@[k] < out@[m],
            forall|j: int| 0 <= j < i ==> (#[trigger] index_listed(out@, j) <==> allowed(settings, queues@[j])),
        decreases queues@.len() - i,
    {
        let ghost before = out@;
        let runs = settings.runs_queue(&queues[i]);
        if runs {
            out.push(i);
        }
        proof {
            lemma_listed_step(before, out@, i as int, runs);
        }
        i = i + 1;
    }
    proof {
        lemma_coordinators_follow_allowlist(queues@, settings, out@);
    }
    out
}


/// Whether the settings let the runtime run the cron worker `worker`: it is
/// a cron worker, and its static queue is allowed.
pub open spec fn cron_allowed(settings: &RuntimeSettings, worker: WorkerConfig) -> bool {
    match worker.kind {
        WorkerConfigKind::Cron { queue_key, .. } => settings.runs(QueueId { dynamic: false, name: queue_key@ }),
        WorkerConfigKind::Standard => false,
    }
}

/// The positions of the cron workers whose schedule loop runs: those whose
/// queue the settings allow, in order.
pub fn cron_workers_to_run(workers: &Vec<WorkerConfig>, settings: &RuntimeSettings) -> (r: Vec<usize>)
    ensures
        forall|k: int| 0 <= k < r@.len() ==> r@[k] < workers@.len(),
        forall|k: int, m: int| 0 <= k < m < r@.len() ==> r@[k] < r@[m],
        forall|i: int| 0 <= i < workers@.len() ==> (#[trigger] index_listed(r@, i) <==> cron_allowed(settings, workers@[i])),
        forall|i: int|
            0 <= i < workers@.len() ==> (#[trigger] index_listed(r@, i) <==> match workers@[i].kind {
                WorkerConfigKind::Cron { queue_key, .. } => allowlist_admits_static_key(
                    settings.queue_allowlist@,
                    queue_key@,
                ),
                WorkerConfigKind::Standard => false,
            }),
{
    let mut out: Vec<usize> = Vec::new();
    let mut i: usize = 0;
    while i < workers.len()
        invariant
            i <= workers@.len(),
            forall|k: int| 0 <= k < out@.len() ==> out@[k] < i,
            forall|k: int, m: int| 0 <= k < m < out@.len() ==> out@[k] < out@[m],
            forall|j: int| 0 <= j < i ==> (#[trigger] index_listed(out@, j) <==> cron_allowed(settings, workers@[j])),
        decreases workers@.len() - i,
    {
        let ghost before = out@;
        let runs = match &workers[i].kind {
            WorkerConfigKind::Cron { queue_key, .. } => settings.runs_static_queue(queue_key.as_str()),
            WorkerConfigKind::Standard => false,
        };
        if runs {
            out.push(i);
        }
        proof {
            lemma_listed_step(before, out@, i as int, runs);
        }
        i = i + 1;
    }
    proof {
        lemma_cron_workers_follow_allowlist(workers@, settings, out@);
    }
    out
}

/// Whether two queue configurations name the same queue: both static with
/// the same key, or both dynamic families with the same prefix.
pub open spec fn same_queue_identity(a: QueueConfig, b: QueueConfig) -> bool {
    match a.kind {
        QueueKind::Static { key: x } => match b.kind {
            QueueKind::Static { key: y } => x@ == y@,
            QueueKind::Dynamic { .. } => false,
        },
        QueueKind::Dynamic { prefix: x } => match b.kind {
            QueueKind::Static { .. } => false,
            QueueKind::Dynamic { prefix: y } => x@ == y@,
        },
    }
}

/// Whether a queue allowlist lets `queue` run: it is empty, or lists a
/// queue of the same kind and key (or prefix).
pub open spec fn allowlist_admits(allowlist: Seq<QueueConfig>, queue: QueueConfig) -> bool {
    allowlist.len() == 0 || exists|j: int| 0 <= j < allowlist.len() && same_queue_identity(#[trigger] allowlist[j], queue)
}

/// Whether a queue allowlist lets the static queue `key` run: it is empty,
/// or lists a static queue with that key.
pub open spec fn allowlist_admits_static_key(allowlist: Seq<QueueConfig>, key: Seq<char>) -> bool {
    allowlist.len() == 0 || exists|j: int| 0 <= j < allowlist.len() && is_static_queue(#[trigger] allowlist[j], key)
}

/// Whether `queue` is the static queue `key`.
pub open spec fn is_static_queue(queue: QueueConfig, key: Seq<char>) -> bool {
    match queue.kind {
        QueueKind::Static { key: k } => k@ == key,
        QueueKind::Dynamic { .. } => false,
    }
}

/// A queue gets a coordinator exactly when the allowlist is empty or lists
/// a queue of the same kind and key: a dynamic family is not admitted by a
/// static queue of that name, nor the other way round.
pub proof fn lemma_coordinators_follow_allowlist(queues: Seq<QueueConfig>, settings: &RuntimeSettings, r: Seq<usize>)
    requires
        forall|i: int| 0 <= i < queues.len() ==> (#[trigger] index_listed(r, i) <==> allowed(settings, queues[i])),
    ensures
        forall|i: int|
            0 <= i < queues.len() ==> (#[trigger] index_listed(r, i) <==> allowlist_admits(
                settings.queue_allowlist@,
                queues[i],
            )),
{
    let allow = settings.queue_allowlist@;
    assert forall|i: int| 0 <= i < queues.len() implies (#[trigger] index_listed(r, i) <==> allowlist_admits(
        allow,
        queues[i],
    )) by {
        let q = queues[i];
        if allowed(settings, q) && allow.len() > 0 {
            let j = choose|j: int| 0 <= j < allow.len() && #[trigger] allow[j].id() == q.id();
            assert(same_queue_identity(allow[j], q));
        }
        if allowlist_admits(allow, q) && allow.len() > 0 {
            let j = choose|j: int| 0 <= j < allow.len() && same_queue_identity(#[trigger] allow[j], q);
            assert(allow[j].id() == q.id());
        }
    }
}

/// A cron worker's schedule loop runs exactly when the allowlist is empty
/// or lists a static queue with the worker's queue key; a standard worker
/// has none.
pub proof fn lemma_cron_workers_follow_allowlist(workers: Seq<WorkerConfig>, settings: &RuntimeSettings, r: Seq<usize>)
    requires
        forall|i: int| 0 <= i < workers.len() ==> (#[trigger] index_listed(r, i) <==> cron_allowed(settings, workers[i])),
    ensures
        forall|i: int|
            0 <= i < workers.len() ==> (#[trigger] index_listed(r, i) <==> match workers[i].kind {
                WorkerConfigKind::Cron { queue_key, .. } => allowlist_admits_static_key(
                    settings.queue_allowlist@,
                    queue_key@,
                ),
                WorkerConfigKind::Standard => false,
            }),
{
    let allow = settings.queue_allowlist@;
    assert forall|i: int| 0 <= i < workers.len() implies (#[trigger] index_listed(r, i) <==> match workers[i].kind {
        WorkerConfigKind::Cron { queue_key, .. } => allowlist_admits_static_key(allow, queue_key@),
        WorkerConfigKind::Standard => false,
    }) by {
        match workers[i].kind {
            WorkerConfigKind::Cron { queue_key, .. } => {
                let id = QueueId { dynamic: false, name: queue_key@ };
                if cron_allowed(settings, workers[i]) && allow.len() > 0 {
                    let j = choose|j: int| 0 <= j < allow.len() && #[trigger] allow[j].id() == id;
                    assert(is_static_queue(allow[j], queue_key@));
                }
                if allowlist_admits_static_key(allow, queue_key@) && allow.len() > 0 {
                    let j = choose|j: int| 0 <= j < allow.len() && is_static_queue(#[trigger] allow[j], queue_key@);
                    assert(allow[j].id() == id);
                }
            },
            WorkerConfigKind::Standard => {},
        }
    }
}

} // verus!
