use oxana::drainer::{drain_job_action, process_job_result, DrainJobAction, DrainStats, ProcessJobResult};
use oxana::executor::{
    batch_check, clear_states, duration_millis, failure_metadata, panic_message, plan_outcome,
    failure_action, finish_batch, retry_delay, BatchCheck, BatchResult, Processable, ExecutionError, ExecutionResult, FailureAction,
    FailureKind, JobData, JobEnvelope, JobExecutionPolicy, JobMeta, PanicPayload,
};
use oxana::failure::{failure_tags, WorkerFailure, WorkerFailureReport};
use oxana::launcher::{
    interrupted_queue, record_aborted_task_result, record_task_result, shutdown_outcome,
    shutdown_timeout_report, ShutdownOutcome,
};

fn envelope(id: &str, queue: &str, retries: u32) -> JobEnvelope {
    JobEnvelope {
        id: id.to_string(),
        queue: queue.to_string(),
        job: JobData {
            name: "test::EmailJob".to_string(),
            args: serde_json::from_str(&format!(r#"{{"source": "{id}"}}"#)).unwrap(),
        },
        meta: JobMeta {
            retries,
            state: Some(serde_json::from_str(r#"{"cursor": 1}"#).unwrap()),
        },
    }
}

fn retry_kinds(count: usize) -> Vec<FailureKind> {
    vec![FailureKind::Retry; count]
}

fn policy(max_retries: u32, retry_delay: u64) -> JobExecutionPolicy {
    JobExecutionPolicy {
        max_retries,
        retry_delay,
    }
}

#[test]
fn batches_are_checked_before_they_run() {
    assert!(matches!(batch_check(3, 0), BatchCheck::Empty));
    assert!(matches!(batch_check(2, 2), BatchCheck::Run));
    match batch_check(2, 3) {
        BatchCheck::Mismatch(message) => {
            assert_eq!(message, "Batch worker has 2 jobs but received 3 envelopes")
        }
        _ => panic!("expected a mismatch"),
    }
    match batch_check(10, 1) {
        BatchCheck::Mismatch(message) => {
            assert_eq!(message, "Batch worker has 10 jobs but received 1 envelopes")
        }
        _ => panic!("expected a mismatch"),
    }
}

#[test]
fn batch_failure_metadata_keeps_per_job_retry_state() {
    let envelopes = vec![envelope("retrying", "batch", 0), envelope("terminal", "batch", 2)];
    let policies = vec![policy(1, 10), policy(2, 10)];
    let metadata = failure_metadata(&envelopes, &policies, &retry_kinds(2), "test::EmailJob", "test::EmailWorker");
    assert_eq!(metadata.batch_size, 2);
    assert_eq!(metadata.queue, "batch");
    assert_eq!(metadata.job_name, "test::EmailJob");
    assert_eq!(metadata.worker_name, "test::EmailWorker");
    assert!(metadata.will_retry);
    assert!(!metadata.terminal);
    assert_eq!(metadata.jobs[0].job_id, "retrying");
    assert!(metadata.jobs[0].will_retry && !metadata.jobs[0].terminal);
    assert_eq!(metadata.jobs[1].job_id, "terminal");
    assert!(!metadata.jobs[1].will_retry && metadata.jobs[1].terminal);
    assert_eq!(metadata.jobs[1].retry_count, 2);
    assert_eq!(metadata.jobs[1].max_retries, 2);
    assert_eq!(metadata.jobs[0].args, envelopes[0].job.args);

    let terminal = failure_metadata(
        &vec![envelope("terminal", "batch", 2)],
        &vec![policy(2, 10)],
        &retry_kinds(1),
        "j",
        "w",
    );
    assert!(!terminal.will_retry);
    assert!(terminal.terminal);

    let empty = failure_metadata(&Vec::new(), &Vec::new(), &Vec::new(), "j", "w");
    assert_eq!(empty.queue, "");
    assert_eq!(empty.batch_size, 0);
    assert!(empty.terminal);
}

#[test]
fn failures_retry_below_the_budget_and_die_at_it() {
    let envelopes = vec![envelope("a", "q", 0), envelope("b", "q", 3)];
    let policies = vec![policy(3, 30), policy(3, 30)];
    let (outcome, actions) = plan_outcome(
        &ExecutionResult::Error,
        &envelopes,
        &policies,
        &vec![Some(5), None],
        &retry_kinds(2),
    );
    assert_eq!(outcome, Err(ExecutionError::NotPanic));
    assert_eq!(actions, vec![FailureAction::Retry { delay: 5 }, FailureAction::Kill]);

    let (outcome, actions) = plan_outcome(
        &ExecutionResult::Panic("boom".to_string()),
        &envelopes,
        &policies,
        &vec![Some(5), None],
        &retry_kinds(2),
    );
    assert_eq!(outcome, Err(ExecutionError::Panic));
    assert_eq!(actions, vec![FailureAction::Retry { delay: 30 }, FailureAction::Kill]);

    let (outcome, actions) = plan_outcome(&ExecutionResult::Success, &envelopes, &policies, &vec![], &vec![]);
    assert_eq!(outcome, Ok(()));
    assert!(actions.is_empty());

    assert_eq!(retry_delay(Some(7), &policy(1, 60)), 7);
    assert_eq!(retry_delay(None, &policy(1, 60)), 60);
}

#[test]
fn non_resuming_workers_start_without_state() {
    let envelopes = clear_states(vec![envelope("a", "q", 1), envelope("b", "q", 0)]);
    assert_eq!(envelopes.len(), 2);
    assert!(envelopes.iter().all(|e| e.meta.state.is_none()));
    assert_eq!(envelopes[0].id, "a");
    assert_eq!(envelopes[0].meta.retries, 1);
    assert_eq!(envelopes[1].id, "b");
}

#[test]
fn panic_payloads_and_durations() {
    assert_eq!(panic_message(PanicPayload::Str("worker panicked")), "worker panicked");
    assert_eq!(
        panic_message(PanicPayload::Owned("custom panic".to_string())),
        "custom panic"
    );
    assert_eq!(panic_message(PanicPayload::Other), "Unknown panic occurred");
    assert_eq!(duration_millis(1500), 1500);
    assert_eq!(duration_millis(u128::MAX), u64::MAX);
}

#[test]
fn failure_kinds_name_the_cause() {
    let error = std::io::Error::other("boom");
    let failure: WorkerFailure<'_, dyn std::error::Error + Send + Sync> = WorkerFailure::Error(&error);
    assert_eq!(failure.kind(), "error");
    let panic: WorkerFailure<'_, dyn std::error::Error + Send + Sync> =
        WorkerFailure::Panic { message: "boom" };
    assert_eq!(panic.kind(), "panic");
    let metadata = failure_metadata(&vec![envelope("job-123", "mailers", 1)], &vec![policy(3, 1)], &retry_kinds(1), "j", "w");
    let report = WorkerFailureReport {
        failure,
        metadata: &metadata,
    };
    assert_eq!(report.metadata.jobs[0].job_id, "job-123");
    assert_eq!(report.failure.kind(), "error");
}

#[test]
fn drain_counts_every_job_once() {
    let mut stats = DrainStats::new();
    stats.record(process_job_result(true, true));
    stats.record(process_job_result(true, false));
    stats.record(process_job_result(false, false));
    stats.record(process_job_result(true, true));
    assert_eq!(
        stats,
        DrainStats {
            processed: 4,
            succeeded: 2,
            failed: 1,
            missing: 1
        }
    );
    assert_eq!(process_job_result(false, true), ProcessJobResult::Missing);
}

#[test]
fn shutdown_keeps_the_first_real_error() {
    assert_eq!(record_task_result::<String>(Ok(Ok(()))), None);
    assert_eq!(record_task_result(Ok(Err("redis".to_string()))), Some("redis".to_string()));
    assert_eq!(record_task_result::<String>(Err("join".to_string())), Some("join".to_string()));
    assert_eq!(record_aborted_task_result::<String>(Err("cancelled".to_string()), true), None);
    assert_eq!(
        record_aborted_task_result::<String>(Err("panicked".to_string()), false),
        Some("panicked".to_string())
    );
    assert_eq!(
        record_aborted_task_result(Ok(Err("coordinator".to_string())), true),
        Some("coordinator".to_string())
    );
    assert!(matches!(shutdown_outcome::<String>(None, false), ShutdownOutcome::Graceful));
    assert!(matches!(shutdown_outcome::<String>(None, true), ShutdownOutcome::TimedOut));
    match shutdown_outcome(Some("coordinator".to_string()), true) {
        ShutdownOutcome::Failed(error) => assert_eq!(error, "coordinator"),
        _ => panic!("a recorded error must win over the deadline"),
    }
}

#[test]
fn shutdown_timeout_reports_what_was_read() {
    let report = shutdown_timeout_report(Some(vec!["a".to_string(), "b".to_string()]));
    assert!(report.read);
    assert_eq!(report.interrupted, vec!["a".to_string(), "b".to_string()]);
    let report = shutdown_timeout_report(None);
    assert!(!report.read);
    assert!(report.interrupted.is_empty());
    let envelopes = vec![("a".to_string(), "mail".to_string()), ("b".to_string(), "jobs".to_string())];
    assert_eq!(interrupted_queue("b", &envelopes), "jobs");
    assert_eq!(interrupted_queue("c", &envelopes), "");
    let repeated = vec![("a".to_string(), "mail".to_string()), ("a".to_string(), "later".to_string())];
    assert_eq!(interrupted_queue("a", &repeated), "later");
}

fn tag_value<'a>(tags: &'a [(String, String)], name: &str) -> Option<&'a str> {
    tags.iter().find(|(key, _)| key == name).map(|(_, value)| value.as_str())
}

#[test]
fn single_job_report_tags_carry_the_job() {
    let error = std::io::Error::other("boom");
    let metadata = failure_metadata(
        &vec![envelope("job-123", "mailers", 1)],
        &vec![policy(3, 10)],
        &retry_kinds(1),
        "test::EmailJob",
        "test::EmailWorker",
    );
    let report: WorkerFailureReport<'_, dyn std::error::Error + Send + Sync> = WorkerFailureReport {
        failure: WorkerFailure::Error(&error),
        metadata: &metadata,
    };
    let tags = failure_tags(&report);
    assert_eq!(tag_value(&tags, "oxana.queue"), Some("mailers"));
    assert_eq!(tag_value(&tags, "oxana.job"), Some("test::EmailJob"));
    assert_eq!(tag_value(&tags, "oxana.worker"), Some("test::EmailWorker"));
    assert_eq!(tag_value(&tags, "oxana.job_id"), Some("job-123"));
    assert_eq!(tag_value(&tags, "oxana.retry_count"), Some("1"));
    assert_eq!(tag_value(&tags, "oxana.max_retries"), Some("3"));
    assert_eq!(tag_value(&tags, "oxana.batch_size"), Some("1"));
    assert_eq!(tag_value(&tags, "oxana.will_retry"), Some("true"));
    assert_eq!(tag_value(&tags, "oxana.terminal"), Some("false"));
    assert_eq!(tag_value(&tags, "oxana.failure_kind"), Some("error"));
    assert_eq!(tags.len(), 10);
}

#[test]
fn batch_report_tags_leave_out_single_job_fields() {
    let metadata = failure_metadata(
        &vec![envelope("retrying", "batch", 0), envelope("terminal", "batch", 2)],
        &vec![policy(2, 10), policy(2, 10)],
        &retry_kinds(2),
        "test::EmailJob",
        "test::EmailWorker",
    );
    let report: WorkerFailureReport<'_, dyn std::error::Error + Send + Sync> = WorkerFailureReport {
        failure: WorkerFailure::Panic { message: "boom" },
        metadata: &metadata,
    };
    let tags = failure_tags(&report);
    assert_eq!(tag_value(&tags, "oxana.batch_size"), Some("2"));
    assert_eq!(tag_value(&tags, "oxana.will_retry"), Some("true"));
    assert_eq!(tag_value(&tags, "oxana.job_id"), None);
    assert_eq!(tag_value(&tags, "oxana.retry_count"), None);
    assert_eq!(tag_value(&tags, "oxana.max_retries"), None);
    assert_eq!(tag_value(&tags, "oxana.failure_kind"), Some("panic"));
    assert_eq!(metadata.jobs[0].job_id, "retrying");
    assert!(metadata.jobs[0].will_retry && !metadata.jobs[0].terminal);
    assert_eq!(metadata.jobs[1].job_id, "terminal");
    assert!(!metadata.jobs[1].will_retry && metadata.jobs[1].terminal);
}

#[test]
fn retrying_and_terminal_reports_are_tagged_apart() {
    let error = std::io::Error::other("boom");
    let retrying = failure_metadata(&vec![envelope("retrying", "retrying", 0)], &vec![policy(1, 10)], &retry_kinds(1), "j", "w");
    let terminal = failure_metadata(&vec![envelope("terminal", "terminal", 1)], &vec![policy(1, 10)], &retry_kinds(1), "j", "w");
    for (metadata, will_retry, terminal) in [(&retrying, "true", "false"), (&terminal, "false", "true")] {
        let report: WorkerFailureReport<'_, dyn std::error::Error + Send + Sync> = WorkerFailureReport {
            failure: WorkerFailure::Error(&error),
            metadata,
        };
        let tags = failure_tags(&report);
        assert_eq!(tag_value(&tags, "oxana.queue"), Some(metadata.queue.as_str()));
        assert_eq!(tag_value(&tags, "oxana.will_retry"), Some(will_retry));
        assert_eq!(tag_value(&tags, "oxana.terminal"), Some(terminal));
    }
}

#[test]
fn dead_letter_classification_kills_at_once_and_reports_terminal() {
    let envelopes = vec![envelope("permanent", "queue_one", 0)];
    let policies = vec![policy(3, 0)];
    let kinds = vec![FailureKind::DeadLetter];
    let (outcome, actions) = plan_outcome(&ExecutionResult::Error, &envelopes, &policies, &vec![None], &kinds);
    assert_eq!(outcome, Err(ExecutionError::NotPanic));
    assert_eq!(actions, vec![FailureAction::Kill]);
    let metadata = failure_metadata(&envelopes, &policies, &kinds, "j", "w");
    assert_eq!((metadata.will_retry, metadata.terminal), (false, true));
    assert_eq!(metadata.jobs[0].retry_count, 0);

    let retry = vec![FailureKind::Retry];
    let (_, actions) = plan_outcome(&ExecutionResult::Error, &envelopes, &policies, &vec![None], &retry);
    assert_eq!(actions, vec![FailureAction::Retry { delay: 0 }]);
    // A panic is never classified: it retries within the budget.
    let (_, actions) =
        plan_outcome(&ExecutionResult::Panic("boom".to_string()), &envelopes, &policies, &vec![None], &kinds);
    assert_eq!(actions, vec![FailureAction::Retry { delay: 0 }]);

    assert_eq!(failure_action(0, 3, 0, FailureKind::DeadLetter), FailureAction::Kill);
    assert_eq!(failure_action(2, 3, 9, FailureKind::Retry), FailureAction::Retry { delay: 9 });
    assert_eq!(failure_action(3, 3, 9, FailureKind::Retry), FailureAction::Kill);
}

#[test]
fn a_drain_kills_a_failed_job_at_once() {
    assert!(matches!(drain_job_action(false, Ok(())), DrainJobAction::Skip));
    assert!(matches!(drain_job_action(true, Ok(())), DrainJobAction::FinishWithSuccess));
    match drain_job_action(true, Err("Malformed".to_string())) {
        DrainJobAction::Kill { error } => assert_eq!(error, "Malformed"),
        _ => panic!("a failed drained job is killed"),
    }
    assert_eq!(process_job_result(true, false), ProcessJobResult::Failed);
}

struct ClassifyingWorker;

#[derive(Debug)]
enum ClassifiedError {
    Malformed,
    Transient,
}

impl Processable for ClassifyingWorker {
    type Error = ClassifiedError;

    fn len(&self) -> usize {
        1
    }

    fn should_resume(&self) -> bool {
        false
    }

    fn max_retries(&self, _index: usize) -> u32 {
        3
    }

    fn retry_delay(&self, _index: usize, _retries: u32) -> u64 {
        0
    }

    fn classify(&self, _index: usize, error: &ClassifiedError) -> FailureKind {
        match error {
            ClassifiedError::Malformed => FailureKind::DeadLetter,
            ClassifiedError::Transient => FailureKind::Retry,
        }
    }
}

#[test]
fn finished_batches_follow_the_worker_classification() {
    let envelopes = vec![envelope("job", "queue_one", 0)];
    let policies = vec![policy(3, 0)];
    let worker = ClassifyingWorker;

    let dead = finish_batch(
        &worker,
        &BatchResult::Error(ClassifiedError::Malformed),
        &envelopes,
        &policies,
        &vec![None],
        "j",
        "w",
    );
    assert_eq!(dead.outcome, Err(ExecutionError::NotPanic));
    assert_eq!(dead.actions, vec![FailureAction::Kill]);
    let report = dead.report.expect("a failed batch is reported");
    assert_eq!((report.will_retry, report.terminal), (false, true));

    let transient = finish_batch(
        &worker,
        &BatchResult::Error(ClassifiedError::Transient),
        &envelopes,
        &policies,
        &vec![None],
        "j",
        "w",
    );
    assert_eq!(transient.actions, vec![FailureAction::Retry { delay: 0 }]);

    let panicked = finish_batch(
        &worker,
        &BatchResult::Panic("boom".to_string()),
        &envelopes,
        &policies,
        &vec![Some(9)],
        "j",
        "w",
    );
    assert_eq!(panicked.outcome, Err(ExecutionError::Panic));
    assert_eq!(panicked.actions, vec![FailureAction::Retry { delay: 0 }]);

    let ok = finish_batch(&worker, &BatchResult::Success, &envelopes, &policies, &vec![None], "j", "w");
    assert_eq!(ok.outcome, Ok(()));
    assert!(ok.actions.is_empty() && ok.report.is_none());
}
