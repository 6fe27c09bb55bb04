//! The rows of the Prometheus export: one gauge value per metric and label
//! set, computed from the queue statistics.
use vstd::prelude::*;
use vstd::string::*;
use crate::queue_stats::{DynamicQueueStats, QueueStats};
use crate::text::{decimal, u64_to_decimal};

verus! {

/// Label set for queue-level metrics.
#[derive(Clone, Debug, Hash, PartialEq, Eq)]
pub struct QueueLabels {
    /// The queue key/name.
    pub queue: String,
}

/// Label set for dynamic sub-queue metrics.
#[derive(Clone, Debug, Hash, PartialEq, Eq)]
pub struct DynamicQueueLabels {
    /// The parent queue key/name.
    pub queue: String,
    /// The dynamic queue suffix.
    pub suffix: String,
}

/// Label set for process-level metrics.
#[derive(Clone, Debug, Hash, PartialEq, Eq)]
pub struct ProcessLabels {
    /// The hostname of the process.
    pub hostname: String,
    /// The process ID.
    pub pid: String,
}

/// The integer gauges of one queue or sub-queue.
#[derive(Clone, Copy, Debug, PartialEq, Eq, Structural)]
pub struct QueueGauges {
    pub enqueued: i64,
    pub processed: i64,
    pub succeeded: i64,
    pub panicked: i64,
    pub failed: i64,
}

/// A live worker process, as the export reads it.
pub struct ProcessStats {
    pub hostname: String,
    pub pid: u64,
    pub heartbeat_at: i64,
    pub started_at: i64,
}

/// The gauges of a queue's statistics (the length converted as `as i64`
/// converts it).
pub open spec fn spec_queue_gauges(q: QueueStats) -> QueueGauges {
    QueueGauges {
        enqueued: q.enqueued as i64,
        processed: q.processed,
        succeeded: q.succeeded,
        panicked: q.panicked,
        failed: q.failed,
    }
}

/// The gauges of a sub-queue's statistics.
pub open spec fn spec_dynamic_gauges(q: DynamicQueueStats) -> QueueGauges {
    QueueGauges {
        enqueued: q.enqueued as i64,
        processed: q.processed,
        succeeded: q.succeeded,
        panicked: q.panicked,
        failed: q.failed,
    }
}

/// One row per queue: its label set and gauges.
pub fn queue_rows(queues: &Vec<QueueStats>) -> (r: Vec<(QueueLabels, QueueGauges)>)
    ensures
        r@.len() == queues@.len(),
        forall|i: int|
            0 <= i < r@.len() ==> (#[trigger] r@[i]).0.queue == queues@[i].key && r@[i].1 == spec_queue_gauges(
                queues@[i],
            ),
{
    let mut out: Vec<(QueueLabels, QueueGauges)> = Vec::new();
    let mut i: usize = 0;
    while i < queues.len()
        invariant
            i <= queues@.len(),
            out@.len() == i,
            forall|k: int|
                0 <= k < i ==> (#[trigger] out@[k]).0.queue == queues@[k].key && out@[k].1 == spec_queue_gauges(
                    queues@[k],
                ),
        decreases queues@.len() - i,
    {
        let q = &queues[i];
        out.push(
            (
                QueueLabels { queue: q.key.clone() },
                QueueGauges {
                    enqueued: q.enqueued as i64,
                    processed: q.processed,
                    succeeded: q.succeeded,
                    panicked: q.panicked,
                    failed: q.failed,
                },
            ),
        );
        i = i + 1;
    }
    out
}

/// The rows of the sub-queues: for each queue in order, one row per
/// sub-queue in order.
pub open spec fn spec_dynamic_rows(queues: Seq<QueueStats>) -> Seq<(Seq<char>, Seq<char>, QueueGauges)>
    decreases queues.len(),
{
    if queues.len() == 0 {
        Seq::empty()
    } else {
        let q = queues.last();
        spec_dynamic_rows(queues.drop_last()) + q.queues@.map_values(
            |d: DynamicQueueStats| (q.key@, d.suffix@, spec_dynamic_gauges(d)),
        )
    }
}

/// The view of a sub-queue row.
pub open spec fn dynamic_row_view(row: (DynamicQueueLabels, QueueGauges)) -> (Seq<char>, Seq<char>, QueueGauges) {
    (row.0.queue@, row.0.suffix@, row.1)
}

/// One row per sub-queue: its queue and suffix labels and gauges.
pub fn dynamic_queue_rows(queues: &Vec<QueueStats>) -> (r: Vec<(DynamicQueueLabels, QueueGauges)>)
    ensures
        r@.map_values(|row: (DynamicQueueLabels, QueueGauges)| dynamic_row_view(row)) == spec_dynamic_rows(queues@),
        r@.len() == total_sub_queues(queues@),
        forall|i: int, j: int|
            0 <= i < queues@.len() && 0 <= j < queues@[i].queues@.len() ==> #[trigger] has_sub_queue_row(
                dynamic_rows_view(r@),
                queues@[i].key@,
                queues@[i].queues@[j],
            ),
{
    let mut out: Vec<(DynamicQueueLabels, QueueGauges)> = Vec::new();
    let mut i: usize = 0;
    while i < queues.len()
        invariant
            i <= queues@.len(),
            out@.map_values(|row: (DynamicQueueLabels, QueueGauges)| dynamic_row_view(row)) == spec_dynamic_rows(
                queues@.take(i as int),
            ),
        decreases queues@.len() - i,
    {
        let q = &queues[i];
        let ghost start = out@;
        let mut j: usize = 0;
        while j < q.queues.len()
            invariant
                j <= q.queues@.len(),
                out@.len() == start.len() + j,
                forall|k: int| 0 <= k < start.len() ==> out@[k] == start[k],
                forall|k: int|
                    0 <= k < j ==> dynamic_row_view(#[trigger] out@[start.len() + k]) == (
                    q.key@,
                    q.queues@[k].suffix@,
                    spec_dynamic_gauges(q.queues@[k]),
                ),
            decreases q.queues@.len() - j,
        {
            let d = &q.queues[j];
            out.push(
                (
                    DynamicQueueLabels { queue: q.key.clone(), suffix: d.suffix.clone() },
                    QueueGauges {
                        enqueued: d.enqueued as i64,
                        processed: d.processed,
                        succeeded: d.succeeded,
                        panicked: d.panicked,
                        failed: d.failed,
                    },
                ),
            );
            proof {
                assert(dynamic_row_view(out@[start.len() + j]) == (
                    q.key@,
                    q.queues@[j as int].suffix@,
                    spec_dynamic_gauges(q.queues@[j as int]),
                ));
            }
            j = j + 1;
        }
        proof {
            let f = |row: (DynamicQueueLabels, QueueGauges)| dynamic_row_view(row);
            let g = |d: DynamicQueueStats| (q.key@, d.suffix@, spec_dynamic_gauges(d));
            assert(queues@.take(i + 1).drop_last() =~= queues@.take(i as int));
            assert(queues@.take(i + 1).last() == *q);
            assert(out@.map_values(f) =~= start.map_values(f) + q.queues@.map_values(g)) by {
                assert forall|k: int| 0 <= k < out@.len() implies #[trigger] out@.map_values(f)[k] == (start.map_values(f)
                    + q.queues@.map_values(g))[k] by {
                    if k >= start.len() {
                        assert(out@[k] == out@[start.len() + (k - start.len())]);
                    }
                }
            }
        }
        i = i + 1;
    }
    proof {
        assert(queues@.take(i as int) =~= queues@);
        lemma_dynamic_rows_cover_every_sub_queue(queues@, dynamic_rows_view(out@));
    }
    out
}

/// The label set of a process: its hostname and its PID in decimal.
pub fn process_labels(process: &ProcessStats) -> (r: ProcessLabels)
    ensures
        r.hostname@ == process.hostname@,
        r.pid@ == decimal(process.pid as nat),
{
    ProcessLabels { hostname: String::from_str(process.hostname.as_str()), pid: u64_to_decimal(process.pid) }
}

/// The views of sub-queue rows.
pub open spec fn dynamic_rows_view(rows: Seq<(DynamicQueueLabels, QueueGauges)>) -> Seq<(Seq<char>, Seq<char>, QueueGauges)> {
    rows.map_values(|row: (DynamicQueueLabels, QueueGauges)| dynamic_row_view(row))
}

/// The number of sub-queues over all queues.
pub open spec fn total_sub_queues(queues: Seq<QueueStats>) -> int
    decreases queues.len(),
{
    if queues.len() == 0 {
        0
    } else {
        total_sub_queues(queues.drop_last()) + queues.last().queues@.len()
    }
}

/// Whether `rows` holds a row labelled with `queue` and the sub-queue's
/// suffix, carrying the sub-queue's length and counters.
pub open spec fn has_sub_queue_row(rows: Seq<(Seq<char>, Seq<char>, QueueGauges)>, queue: Seq<char>, d: DynamicQueueStats) -> bool {
    exists|k: int|
        0 <= k < rows.len() && rows[k] == (
            queue,
            d.suffix@,
            QueueGauges {
                enqueued: d.enqueued as i64,
                processed: d.processed,
                succeeded: d.succeeded,
                panicked: d.panicked,
                failed: d.failed,
            },
        )
}

/// The sub-queue rows export every sub-queue of every queue: one row per
/// sub-queue, labelled with its queue and suffix and carrying its gauges.
pub proof fn lemma_dynamic_rows_cover_every_sub_queue(
    queues: Seq<QueueStats>,
    rows: Seq<(Seq<char>, Seq<char>, QueueGauges)>,
)
    requires
        rows == spec_dynamic_rows(queues),
    ensures
        rows.len() == total_sub_queues(queues),
        forall|i: int, j: int|
            0 <= i < queues.len() && 0 <= j < queues[i].queues@.len() ==> #[trigger] has_sub_queue_row(
                rows,
                queues[i].key@,
                queues[i].queues@[j],
            ),
    decreases queues.len(),
{
    if queues.len() > 0 {
        let p = queues.drop_last();
        let q = queues.last();
        let prefix = spec_dynamic_rows(p);
        lemma_dynamic_rows_cover_every_sub_queue(p, prefix);
        let tail = q.queues@.map_values(|d: DynamicQueueStats| (q.key@, d.suffix@, spec_dynamic_gauges(d)));
        assert(rows == prefix + tail);
        assert forall|i: int, j: int|
            0 <= i < queues.len() && 0 <= j < queues[i].queues@.len() implies #[trigger] has_sub_queue_row(
                rows,
                queues[i].key@,
                queues[i].queues@[j],
            ) by {
            if i < queues.len() - 1 {
                assert(queues[i] == p[i]);
                assert(has_sub_queue_row(prefix, p[i].key@, p[i].queues@[j]));
                let k = choose|k: int|
                    0 <= k < prefix.len() && prefix[k] == (
                        p[i].key@,
                        p[i].queues@[j].suffix@,
                        QueueGauges {
                            enqueued: p[i].queues@[j].enqueued as i64,
                            processed: p[i].queues@[j].processed,
                            succeeded: p[i].queues@[j].succeeded,
                            panicked: p[i].queues@[j].panicked,
                            failed: p[i].queues@[j].failed,
                        },
                    );
                assert(rows[k] == prefix[k]);
            } else {
                assert(queues[i] == q);
                let k = prefix.len() + j;
                assert(rows[k] == tail[j]);
            }
        }
    }
}

} // verus!
