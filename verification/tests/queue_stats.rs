use std::collections::HashMap;

use oxana::queue_stats::{
    aggregate_queue_stats, queue_base, window_start_enqueued, QueueLengthSnapshot, QueueStats,
};

fn stats(entries: &[(&str, i64)]) -> Vec<(String, i64)> {
    entries
        .iter()
        .map(|(key, value)| (key.to_string(), *value))
        .collect()
}

fn queue<'a>(queues: &'a [QueueStats], key: &str) -> &'a QueueStats {
    queues
        .iter()
        .find(|queue| queue.key == key)
        .expect("queue should exist")
}

fn as_map(snapshots: Vec<(String, usize)>) -> HashMap<String, usize> {
    snapshots.into_iter().collect()
}

#[test]
fn groups_live_and_historical_queues_without_duplicate_children() {
    let (queues, snapshots) = aggregate_queue_stats(
        &["active".into(), "batch#north".into(), "batch#north".into()],
        stats(&[
            ("static:processed", 10),
            ("batch:processed", 2),
            ("batch#north:processed", 4),
            ("batch#north:succeeded", 3),
            ("batch#north:panicked", 1),
            ("batch#north:failed", 1),
            ("batch#south:processed", 6),
            ("batch#south:succeeded", 6),
            ("tenant:jobs#a#b:processed", 7),
            ("legacy:unknown", 99),
            ("malformed", 99),
        ]),
        false,
        1_000,
    );

    assert!(snapshots.is_empty());
    assert_eq!(queues.len(), 5);
    assert_eq!(queue(&queues, "active").processed, 0);
    assert_eq!(queue(&queues, "static").processed, 10);
    assert_eq!(queue(&queues, "legacy").processed, 0);

    let batch = queue(&queues, "batch");
    assert_eq!(
        (
            batch.processed,
            batch.succeeded,
            batch.panicked,
            batch.failed
        ),
        (12, 9, 1, 1)
    );
    assert_eq!(batch.queues.len(), 2);
    let north = batch
        .queues
        .iter()
        .find(|queue| queue.suffix == "north")
        .unwrap();
    assert_eq!(
        (
            north.processed,
            north.succeeded,
            north.panicked,
            north.failed
        ),
        (4, 3, 1, 1)
    );

    let tenant = queue(&queues, "tenant:jobs");
    assert_eq!(tenant.processed, 7);
    assert_eq!(tenant.queues.len(), 1);
    assert_eq!(tenant.queues.first().unwrap().suffix, "a#b");
}

#[test]
fn filtering_keeps_sibling_counters_and_snapshots() {
    let stored = stats(&[
        ("batch:processed", 9),
        ("batch#south:processed", 4),
        ("batch#east:enqueued", 2),
        ("batch#east:enqueued_at", 1_000),
        ("other:processed", 99),
        ("other:enqueued", 99),
        ("other:enqueued_at", 1_000),
    ]);
    let (queues, snapshots) =
        aggregate_queue_stats(&["batch#north".into()], stored.clone(), true, 1_000);

    assert_eq!(queues.len(), 1);
    let batch = queue(&queues, "batch");
    assert_eq!(batch.processed, 13);
    let mut suffixes: Vec<_> = batch
        .queues
        .iter()
        .map(|queue| queue.suffix.as_str())
        .collect();
    suffixes.sort_unstable();
    assert_eq!(suffixes, ["east", "north", "south"]);
    assert_eq!(as_map(snapshots), HashMap::from([("batch#east".into(), 2)]));

    let (queues, snapshots) = aggregate_queue_stats(&[], stored, true, 1_000);
    assert!(queues.is_empty());
    assert!(snapshots.is_empty());
}

#[test]
fn only_positive_fresh_snapshots_create_queues() {
    let (queues, snapshots) = aggregate_queue_stats(
        &["live".into()],
        stats(&[
            ("live:enqueued", 0),
            ("live:enqueued_at", 1_000),
            ("historical:processed", 3),
            ("historical:enqueued", 0),
            ("historical:enqueued_at", 1_000),
            ("snapshot#busy:enqueued", 5),
            ("snapshot#busy:enqueued_at", 1_000),
            ("snapshot#empty:enqueued", 0),
            ("snapshot#empty:enqueued_at", 1_000),
            ("empty:enqueued", 0),
            ("empty:enqueued_at", 1_000),
            ("stale:enqueued", 7),
            ("stale:enqueued_at", 879),
            ("incomplete:enqueued", 8),
            ("negative:enqueued", -1),
            ("negative:enqueued_at", 1_000),
        ]),
        false,
        1_000,
    );

    assert_eq!(queues.len(), 3);
    assert_eq!(queue(&queues, "live").processed, 0);
    assert_eq!(queue(&queues, "historical").processed, 3);
    let snapshot = queue(&queues, "snapshot");
    assert_eq!(snapshot.queues.len(), 1);
    assert_eq!(snapshot.queues.first().unwrap().suffix, "busy");
    assert_eq!(
        as_map(snapshots),
        HashMap::from([
            ("live".into(), 0),
            ("historical".into(), 0),
            ("snapshot#busy".into(), 5),
            ("snapshot#empty".into(), 0),
            ("empty".into(), 0),
        ])
    );
}

#[test]
fn snapshot_freshness_includes_the_ttl_boundary_and_future_timestamps() {
    for (enqueued, refreshed_at, expected) in [
        (Some(5), Some(880), Some(5)),
        (Some(5), Some(879), None),
        (Some(5), Some(1_001), Some(5)),
        (Some(0), Some(1_000), Some(0)),
        (Some(-1), Some(1_000), None),
        (None, Some(1_000), None),
        (Some(5), None, None),
    ] {
        let snapshot = QueueLengthSnapshot {
            enqueued,
            refreshed_at,
        };
        assert_eq!(snapshot.fresh_enqueued(1_000), expected);
    }
}

#[test]
fn queue_base_stops_at_the_first_hash() {
    assert_eq!(queue_base("batch#north"), "batch");
    assert_eq!(queue_base("tenant:jobs#a#b"), "tenant:jobs");
    assert_eq!(queue_base("plain"), "plain");
    assert_eq!(queue_base("#lead"), "");
}

#[test]
fn later_snapshot_fields_and_counters_accumulate_per_queue() {
    let (queues, snapshots) = aggregate_queue_stats(
        &[],
        stats(&[
            ("q#a:processed", 1),
            ("q#a:processed", 2),
            ("q#b:failed", 5),
            ("q:enqueued", 3),
            ("q:enqueued_at", 1_000),
        ]),
        false,
        1_000,
    );
    let q = queue(&queues, "q");
    assert_eq!((q.processed, q.failed, q.enqueued), (3, 5, 0));
    assert_eq!(q.queues.len(), 2);
    assert_eq!(as_map(snapshots), HashMap::from([("q".into(), 3)]));
}

#[test]
fn rate_windows_start_from_the_oldest_cached_length() {
    let hashes = vec![
        stats(&[("mail", 7), ("batch", -2), ("mail", 9)]),
        stats(&[("mail", 100)]),
    ];
    assert_eq!(window_start_enqueued("mail", &hashes), 9);
    assert_eq!(window_start_enqueued("batch", &hashes), 0);
    assert_eq!(window_start_enqueued("other", &hashes), 0);
    assert_eq!(window_start_enqueued("mail", &Vec::new()), 0);
}
