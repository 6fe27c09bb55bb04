use oxana::StorageKeys;

#[test]
fn default_layout_is_unchanged() {
    let keys = StorageKeys::new("app");
    assert_eq!(keys.namespace(), "app");
    assert_eq!(keys.jobs(), "app:jobs");
    assert_eq!(keys.dead(), "app:dead");
    assert_eq!(keys.schedule(), "app:schedule");
    assert_eq!(keys.retry(), "app:retry");
    assert_eq!(keys.queue_prefix(), "app:queue");
    assert_eq!(keys.processing_prefix(), "app:processing");
    assert_eq!(keys.processes(), "app:processes");
    assert_eq!(keys.processes_data(), "app:processes_data");
    assert_eq!(keys.stats(), "app:stats");
    assert_eq!(keys.queue_configs(), "app:queue_configs");
    assert_eq!(keys.metrics_prefix(), "app:metrics");
    assert_eq!(keys.throttler_prefix(), "oxana:throttler");

    let keys = StorageKeys::new("");
    assert_eq!(keys.namespace(), "oxanus");
    assert_eq!(keys.jobs(), "oxanus:jobs");
    assert_eq!(keys.throttler_prefix(), "oxana:throttler");
}

#[test]
fn overrides_change_one_field_each() {
    let keys = StorageKeys::new("app")
        .with_queue_prefix("app:pending")
        .with_processes_data("app:process-records")
        .with_metrics_prefix("app:metrics-v2")
        .with_throttler_prefix("app:throttle");
    assert_eq!(keys.queue_prefix(), "app:pending");
    assert_eq!(keys.processes_data(), "app:process-records");
    assert_eq!(keys.metrics_prefix(), "app:metrics-v2");
    assert_eq!(keys.throttler_prefix(), "app:throttle");
    assert_eq!(keys.jobs(), "app:jobs");
    assert_eq!(keys.processes(), "app:processes");
    assert_eq!(keys.namespace(), "app");
}

#[test]
fn every_override_is_read_back_and_leaves_the_rest() {
    let base = StorageKeys::new("ns");
    let keys = base
        .clone()
        .with_jobs("j")
        .with_dead("d")
        .with_schedule("s")
        .with_retry("r")
        .with_processing_prefix("p")
        .with_processes("procs")
        .with_stats("st")
        .with_queue_configs("qc");
    assert_eq!(keys.jobs(), "j");
    assert_eq!(keys.dead(), "d");
    assert_eq!(keys.schedule(), "s");
    assert_eq!(keys.retry(), "r");
    assert_eq!(keys.processing_prefix(), "p");
    assert_eq!(keys.processes(), "procs");
    assert_eq!(keys.stats(), "st");
    assert_eq!(keys.queue_configs(), "qc");
    assert_eq!(keys.queue_prefix(), "ns:queue");
    assert_eq!(keys.processes_data(), "ns:processes_data");
    assert_eq!(keys.metrics_prefix(), "ns:metrics");
    assert_eq!(keys.throttler_prefix(), "oxana:throttler");
    assert_eq!(keys.namespace(), "ns");
    // Overrides of different keys commute.
    let a = StorageKeys::new("ns").with_jobs("x").with_dead("y");
    let b = StorageKeys::new("ns").with_dead("y").with_jobs("x");
    assert_eq!(a, b);
    // A second override of the same key replaces the first.
    let c = StorageKeys::new("ns").with_jobs("x").with_jobs("z");
    assert_eq!(c, StorageKeys::new("ns").with_jobs("z"));
}
