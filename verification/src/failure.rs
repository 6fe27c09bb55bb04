//! What a worker failure report carries: the failure and the retry state of
//! every job the failed execution held.
use vstd::prelude::*;
use vstd::string::*;
use crate::text::{decimal, u64_to_decimal};

verus! {

/// The cause of a failed worker execution. `E` is the worker's error type;
/// the runtime uses `dyn std::error::Error + Send + Sync`, so that a
/// reporter can downcast it to its concrete type.
pub enum WorkerFailure<'a, E: ?Sized> {
    /// The error returned by the worker.
    Error(&'a E),
    /// A panic caught while polling the worker future.
    Panic {
        /// The string panic payload, or a fallback for non-string payloads.
        message: &'a str,
    },
}

impl<'a, E: ?Sized> WorkerFailure<'a, E> {
    /// The failure kind tagged on reports: `error` or `panic`.
    pub open spec fn kind_name(&self) -> Seq<char> {
        if *self is Error {
            "error"@
        } else {
            "panic"@
        }
    }

    /// The failure kind tagged on reports: `error` or `panic`.
    pub fn kind(&self) -> (r: &'static str)
        ensures
            r@ == self.kind_name(),
    {
        match self {
            WorkerFailure::Error(_) => "error",
            WorkerFailure::Panic { .. } => "panic",
        }
    }
}

/// Retry metadata for one job in a failed worker execution.
pub struct FailedJobMetadata {
    /// The job ID.
    pub job_id: String,
    /// The job's serialized arguments.
    pub args: serde_json::Value,
    /// The number of retries already performed before this execution.
    pub retry_count: u32,
    /// The maximum number of retries allowed for this job.
    pub max_retries: u32,
    /// Whether this job will be retried after the failure.
    pub will_retry: bool,
    /// Whether this failure is terminal for this job.
    pub terminal: bool,
}

/// Execution metadata attached to a worker failure report.
pub struct WorkerFailureMetadata {
    /// Metadata for every job affected by this execution failure.
    pub jobs: Vec<FailedJobMetadata>,
    /// The queue key from which the jobs were dequeued.
    pub queue: String,
    /// The registered job type name.
    pub job_name: String,
    /// The concrete worker type name.
    pub worker_name: String,
    /// The number of jobs processed by the failed execution.
    pub batch_size: usize,
    /// Whether at least one affected job will be retried.
    pub will_retry: bool,
    /// Whether the failure is terminal for every affected job.
    pub terminal: bool,
}

/// A worker failure and its execution metadata.
pub struct WorkerFailureReport<'a, E: ?Sized> {
    /// The returned error or caught panic.
    pub failure: WorkerFailure<'a, E>,
    /// Job, worker, queue, batch, and retry metadata for the execution.
    pub metadata: &'a WorkerFailureMetadata,
}

} // verus!

verus! {

/// How a boolean tag value is written.
pub open spec fn bool_text(b: bool) -> Seq<char> {
    if b {
        "true"@
    } else {
        "false"@
    }
}

fn bool_string(b: bool) -> (r: String)
    ensures
        r@ == bool_text(b),
{
    if b {
        String::from_str("true")
    } else {
        String::from_str("false")
    }
}

/// The tags a failure report carries: the failure kind, queue, job,
/// worker, batch size and retry outcome; and, for a single job, its ID and
/// retry counts.
pub open spec fn spec_failure_tags(metadata: WorkerFailureMetadata, kind: Seq<char>) -> Seq<(Seq<char>, Seq<char>)> {
    let common = seq![
        ("oxana.queue"@, metadata.queue@),
        ("oxana.job"@, metadata.job_name@),
        ("oxana.worker"@, metadata.worker_name@),
        ("oxana.batch_size"@, decimal(metadata.batch_size as nat)),
        ("oxana.will_retry"@, bool_text(metadata.will_retry)),
        ("oxana.terminal"@, bool_text(metadata.terminal)),
    ];
    let single = if metadata.jobs@.len() == 1 {
        let job = metadata.jobs@[0];
        seq![
            ("oxana.job_id"@, job.job_id@),
            ("oxana.retry_count"@, decimal(job.retry_count as nat)),
            ("oxana.max_retries"@, decimal(job.max_retries as nat)),
        ]
    } else {
        Seq::empty()
    };
    common + single + seq![("oxana.failure_kind"@, kind)]
}

/// The view of a list of tags.
pub open spec fn tags_view(tags: Seq<(String, String)>) -> Seq<(Seq<char>, Seq<char>)> {
    tags.map_values(|t: (String, String)| (t.0@, t.1@))
}

fn tag(name: &str, value: String) -> (r: (String, String))
    ensures
        r.0@ == name@,
        r.1@ == value@,
{
    (String::from_str(name), value)
}

/// The tags of a failure report.
pub fn failure_tags<E: ?Sized>(report: &WorkerFailureReport<E>) -> (r: Vec<(String, String)>)
    ensures
        tags_view(r@) == spec_failure_tags(*report.metadata, report.failure.kind_name()),
        has_tag(tags_view(r@), "oxana.queue"@, report.metadata.queue@),
        has_tag(tags_view(r@), "oxana.batch_size"@, decimal(report.metadata.batch_size as nat)),
        has_tag(tags_view(r@), "oxana.will_retry"@, if report.metadata.will_retry { "true"@ } else { "false"@ }),
        has_tag(tags_view(r@), "oxana.terminal"@, if report.metadata.terminal { "true"@ } else { "false"@ }),
        has_tag(tags_view(r@), "oxana.failure_kind"@, report.failure.kind_name()),
        r@.len() == if report.metadata.jobs@.len() == 1 {
            10int
        } else {
            7int
        },
{
    let metadata = report.metadata;
    let mut tags: Vec<(String, String)> = Vec::new();
    tags.push(tag("oxana.queue", metadata.queue.clone()));
    tags.push(tag("oxana.job", metadata.job_name.clone()));
    tags.push(tag("oxana.worker", metadata.worker_name.clone()));
    tags.push(tag("oxana.batch_size", u64_to_decimal(metadata.batch_size as u64)));
    tags.push(tag("oxana.will_retry", bool_string(metadata.will_retry)));
    tags.push(tag("oxana.terminal", bool_string(metadata.terminal)));
    if metadata.jobs.len() == 1 {
        let job = &metadata.jobs[0];
        tags.push(tag("oxana.job_id", job.job_id.clone()));
        tags.push(tag("oxana.retry_count", u64_to_decimal(job.retry_count as u64)));
        tags.push(tag("oxana.max_retries", u64_to_decimal(job.max_retries as u64)));
    }
    let kind = report.failure.kind();
    tags.push(tag("oxana.failure_kind", String::from_str(kind)));
    proof {
        assert(tags_view(tags@) =~= spec_failure_tags(*report.metadata, report.failure.kind_name()));
        lemma_failure_tags_carry_outcome(*report.metadata, report.failure.kind_name(), tags_view(tags@));
    }
    tags
}

/// Whether `tags` holds the tag `name` with `value`.
pub open spec fn has_tag(tags: Seq<(Seq<char>, Seq<char>)>, name: Seq<char>, value: Seq<char>) -> bool {
    exists|k: int| 0 <= k < tags.len() && tags[k] == (name, value)
}

/// Whether `tags` holds a tag named `name`.
pub open spec fn names_tag(tags: Seq<(Seq<char>, Seq<char>)>, name: Seq<char>) -> bool {
    exists|k: int| 0 <= k < tags.len() && tags[k].0 == name
}

/// The tags of every failure report, whatever its number of jobs, carry
/// the queue, job and worker names, the batch size, whether a job will
/// retry, whether the failure is terminal, and the failure kind; the job
/// ID and retry counts are added exactly when the report holds one job.
pub proof fn lemma_failure_tags_carry_outcome(
    metadata: WorkerFailureMetadata,
    kind: Seq<char>,
    tags: Seq<(Seq<char>, Seq<char>)>,
)
    requires
        tags == spec_failure_tags(metadata, kind),
    ensures
        tags.len() == if metadata.jobs@.len() == 1 {
            10int
        } else {
            7int
        },
        has_tag(tags, "oxana.queue"@, metadata.queue@),
        has_tag(tags, "oxana.job"@, metadata.job_name@),
        has_tag(tags, "oxana.worker"@, metadata.worker_name@),
        has_tag(tags, "oxana.batch_size"@, decimal(metadata.batch_size as nat)),
        has_tag(tags, "oxana.will_retry"@, if metadata.will_retry { "true"@ } else { "false"@ }),
        has_tag(tags, "oxana.terminal"@, if metadata.terminal { "true"@ } else { "false"@ }),
        has_tag(tags, "oxana.failure_kind"@, kind),
        metadata.jobs@.len() == 1 ==> has_tag(tags, "oxana.job_id"@, metadata.jobs@[0].job_id@),
        metadata.jobs@.len() == 1 ==> has_tag(
            tags,
            "oxana.retry_count"@,
            decimal(metadata.jobs@[0].retry_count as nat),
        ),
        metadata.jobs@.len() == 1 ==> has_tag(
            tags,
            "oxana.max_retries"@,
            decimal(metadata.jobs@[0].max_retries as nat),
        ),
        metadata.jobs@.len() != 1 ==> !names_tag(tags, "oxana.job_id"@),
        metadata.jobs@.len() != 1 ==> !names_tag(tags, "oxana.retry_count"@),
        metadata.jobs@.len() != 1 ==> !names_tag(tags, "oxana.max_retries"@),
{
    reveal_strlit("oxana.queue");
    reveal_strlit("oxana.job");
    reveal_strlit("oxana.worker");
    reveal_strlit("oxana.batch_size");
    reveal_strlit("oxana.will_retry");
    reveal_strlit("oxana.terminal");
    reveal_strlit("oxana.failure_kind");
    reveal_strlit("oxana.job_id");
    reveal_strlit("oxana.retry_count");
    reveal_strlit("oxana.max_retries");
    assert("oxana.queue"@.len() == 11);
    assert("oxana.job"@.len() == 9);
    assert("oxana.worker"@.len() == 12);
    assert("oxana.batch_size"@.len() == 16);
    assert("oxana.will_retry"@.len() == 16);
    assert("oxana.terminal"@.len() == 14);
    assert("oxana.failure_kind"@.len() == 18);
    assert("oxana.job_id"@.len() == 12);
    assert("oxana.retry_count"@.len() == 17);
    assert("oxana.max_retries"@.len() == 17);
    assert("oxana.worker"@[6] != "oxana.job_id"@[6]);
    assert(tags[0] == ("oxana.queue"@, metadata.queue@));
    assert(tags[1] == ("oxana.job"@, metadata.job_name@));
    assert(tags[2] == ("oxana.worker"@, metadata.worker_name@));
    assert(tags[3] == ("oxana.batch_size"@, decimal(metadata.batch_size as nat)));
    assert(tags[4] == ("oxana.will_retry"@, bool_text(metadata.will_retry)));
    assert(tags[5] == ("oxana.terminal"@, bool_text(metadata.terminal)));
    let last = tags.len() - 1;
    assert(tags[last] == ("oxana.failure_kind"@, kind));
    if metadata.jobs@.len() == 1 {
        let job = metadata.jobs@[0];
        assert(tags[6] == ("oxana.job_id"@, job.job_id@));
        assert(tags[7] == ("oxana.retry_count"@, decimal(job.retry_count as nat)));
        assert(tags[8] == ("oxana.max_retries"@, decimal(job.max_retries as nat)));
    } else {
        assert forall|k: int| 0 <= k < tags.len() implies tags[k].0 != "oxana.job_id"@ && tags[k].0
            != "oxana.retry_count"@ && tags[k].0 != "oxana.max_retries"@ by {
            if k == 0 {
                assert(tags[0].0 == "oxana.queue"@);
            } else if k == 1 {
                assert(tags[1].0 == "oxana.job"@);
            } else if k == 2 {
                assert(tags[2].0 == "oxana.worker"@);
            } else if k == 3 {
                assert(tags[3].0 == "oxana.batch_size"@);
            } else if k == 4 {
                assert(tags[4].0 == "oxana.will_retry"@);
            } else if k == 5 {
                assert(tags[5].0 == "oxana.terminal"@);
            } else {
                assert(k == last);
                assert(tags[last].0 == "oxana.failure_kind"@);
            }
        }
    }
}

} // verus!
