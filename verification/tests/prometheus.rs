use oxana::prometheus::{dynamic_queue_rows, process_labels, queue_rows, ProcessStats, QueueGauges};
use oxana::{DynamicQueueStats, QueueStats};

fn sample_queues() -> Vec<QueueStats> {
    vec![
        QueueStats {
            key: "default".to_string(),
            enqueued: 30,
            processed: 150,
            succeeded: 140,
            panicked: 2,
            failed: 8,
            queues: vec![],
        },
        QueueStats {
            key: "priority".to_string(),
            enqueued: 20,
            processed: 50,
            succeeded: 48,
            panicked: 0,
            failed: 2,
            queues: vec![DynamicQueueStats {
                suffix: "user_123".to_string(),
                enqueued: 5,
                processed: 10,
                succeeded: 9,
                panicked: 0,
                failed: 1,
            }],
        },
    ]
}

#[test]
fn queue_rows_label_each_queue_with_its_gauges() {
    let rows = queue_rows(&sample_queues());
    assert_eq!(rows.len(), 2);
    assert_eq!(rows[0].0.queue, "default");
    assert_eq!(
        rows[0].1,
        QueueGauges {
            enqueued: 30,
            processed: 150,
            succeeded: 140,
            panicked: 2,
            failed: 8
        }
    );
    assert_eq!(rows[1].0.queue, "priority");
    assert_eq!(rows[1].1.enqueued, 20);
}

#[test]
fn dynamic_rows_carry_their_parent_queue() {
    let rows = dynamic_queue_rows(&sample_queues());
    assert_eq!(rows.len(), 1);
    assert_eq!(rows[0].0.queue, "priority");
    assert_eq!(rows[0].0.suffix, "user_123");
    assert_eq!(
        rows[0].1,
        QueueGauges {
            enqueued: 5,
            processed: 10,
            succeeded: 9,
            panicked: 0,
            failed: 1
        }
    );
    assert!(dynamic_queue_rows(&Vec::new()).is_empty());
}

#[test]
fn process_labels_write_the_pid_in_decimal() {
    let labels = process_labels(&ProcessStats {
        hostname: "test-host".to_string(),
        pid: 12345,
        heartbeat_at: 1700000000,
        started_at: 1699999000,
    });
    assert_eq!(labels.hostname, "test-host");
    assert_eq!(labels.pid, "12345");
    assert_eq!(
        process_labels(&ProcessStats {
            hostname: String::new(),
            pid: 0,
            heartbeat_at: 0,
            started_at: 0,
        })
        .pid,
        "0"
    );
}
