//! Aggregation of stored queue counters and cached queue lengths into
//! per-queue statistics, before any live read.
use vstd::prelude::*;
use vstd::string::*;
use crate::text::{char_count, find_char, first_index, is_first_index, last_index, rfind_char, str_eq};

verus! {

/// How long, in seconds, a cached queue length stays usable.
pub const QUEUE_LENGTH_SNAPSHOT_TTL_SECS: i64 = 120;

/// Counters recorded for one queue.
#[derive(Clone, Copy, Debug, PartialEq, Eq)]
pub struct QueueResultStats {
    pub processed: i64,
    pub succeeded: i64,
    pub panicked: i64,
    pub failed: i64,
}

impl QueueResultStats {
    /// Counters that have recorded nothing.
    pub fn zero() -> (r: QueueResultStats)
        ensures
            r == spec_zero_counts(),
    {
        QueueResultStats { processed: 0, succeeded: 0, panicked: 0, failed: 0 }
    }
}

/// Counters that have recorded nothing.
pub open spec fn spec_zero_counts() -> QueueResultStats {
    QueueResultStats { processed: 0, succeeded: 0, panicked: 0, failed: 0 }
}

/// A cached queue length and the time, in seconds, it was refreshed at.
#[derive(Clone, Copy, Debug, PartialEq, Eq)]
pub struct QueueLengthSnapshot {
    pub enqueued: Option<i64>,
    pub refreshed_at: Option<i64>,
}

/// A snapshot that has seen neither a length nor a refresh time.
pub open spec fn empty_snapshot() -> QueueLengthSnapshot {
    QueueLengthSnapshot { enqueued: None, refreshed_at: None }
}

/// The usable length of a snapshot at time `now`: present when the snapshot
/// holds both fields, was refreshed at most the TTL ago (a refresh time in
/// the future counts as fresh), and the length is not negative.
pub open spec fn spec_fresh_enqueued(snapshot: QueueLengthSnapshot, now: i64) -> Option<usize> {
    match snapshot.refreshed_at {
        None => None,
        Some(refreshed_at) => if now - refreshed_at > QUEUE_LENGTH_SNAPSHOT_TTL_SECS {
            None
        } else {
            match snapshot.enqueued {
                None => None,
                Some(enqueued) => if 0 <= enqueued <= usize::MAX {
                    Some(enqueued as usize)
                } else {
                    None
                },
            }
        },
    }
}

impl QueueLengthSnapshot {
    /// The usable length at `now`, if the snapshot is complete and fresh.
    pub fn fresh_enqueued(&self, now: i64) -> (r: Option<usize>)
        ensures
            r == spec_fresh_enqueued(*self, now),
    {
        match self.refreshed_at {
            None => None,
            Some(refreshed_at) => {
                let age: i128 = (now as i128) - (refreshed_at as i128);
                if age > (QUEUE_LENGTH_SNAPSHOT_TTL_SECS as i128) {
                    return None;
                }
                match self.enqueued {
                    None => None,
                    Some(enqueued) => {
                        if enqueued < 0 {
                            None
                        } else if (enqueued as u64) > (usize::MAX as u64) {
                            None
                        } else {
                            Some(enqueued as usize)
                        }
                    },
                }
            },
        }
    }
}

/// What a stored statistic records.
#[derive(Clone, Copy, Debug, PartialEq, Eq, Structural)]
pub enum StatKind {
    Enqueued,
    EnqueuedAt,
    Processed,
    Succeeded,
    Panicked,
    Failed,
    Other,
}

/// The kind named by the part of a statistic key after its last `:`.
pub open spec fn spec_stat_kind(stat: Seq<char>) -> StatKind {
    if stat == "enqueued"@ {
        StatKind::Enqueued
    } else if stat == "enqueued_at"@ {
        StatKind::EnqueuedAt
    } else if stat == "processed"@ {
        StatKind::Processed
    } else if stat == "succeeded"@ {
        StatKind::Succeeded
    } else if stat == "panicked"@ {
        StatKind::Panicked
    } else if stat == "failed"@ {
        StatKind::Failed
    } else {
        StatKind::Other
    }
}

/// Whether a kind belongs to a cached queue length rather than a counter.
pub open spec fn is_snapshot_kind(kind: StatKind) -> bool {
    kind == StatKind::Enqueued || kind == StatKind::EnqueuedAt
}

/// The kind of a statistic name.
pub fn stat_kind(stat: &str) -> (k: StatKind)
    ensures
        k == spec_stat_kind(stat@),
{
    if str_eq(stat, "enqueued") {
        StatKind::Enqueued
    } else if str_eq(stat, "enqueued_at") {
        StatKind::EnqueuedAt
    } else if str_eq(stat, "processed") {
        StatKind::Processed
    } else if str_eq(stat, "succeeded") {
        StatKind::Succeeded
    } else if str_eq(stat, "panicked") {
        StatKind::Panicked
    } else if str_eq(stat, "failed") {
        StatKind::Failed
    } else {
        StatKind::Other
    }
}

/// A statistic key split at its last `:` into queue and statistic name.
pub open spec fn spec_split_stat_key(key: Seq<char>) -> Option<(Seq<char>, Seq<char>)> {
    match last_index(key, ':') {
        Some(i) => Some((key.take(i), key.skip(i + 1))),
        None => None,
    }
}

/// Splits a statistic key at its last `:`.
pub fn split_stat_key(key: &str) -> (r: Option<(&str, &str)>)
    ensures
        r is None <==> spec_split_stat_key(key@) is None,
        r matches Some((q, s)) ==> spec_split_stat_key(key@) == Some((q@, s@)),
{
    let n = char_count(key);
    match rfind_char(key, ':') {
        None => None,
        Some(i) => {
            Some((key.substring_char(0, i), key.substring_char(i + 1, n)))
        },
    }
}

/// The queue a (possibly dynamic) queue key belongs to: the part before the
/// first `#`, or the whole key.
pub open spec fn spec_queue_base(queue: Seq<char>) -> Seq<char> {
    match first_index(queue, '#') {
        Some(i) => queue.take(i),
        None => queue,
    }
}

/// The dynamic suffix of a queue key: the part after the first `#`.
pub open spec fn spec_queue_suffix(queue: Seq<char>) -> Option<Seq<char>> {
    match first_index(queue, '#') {
        Some(i) => Some(queue.skip(i + 1)),
        None => None,
    }
}

/// The base queue of a queue key.
pub fn queue_base(queue: &str) -> (r: &str)
    ensures
        r@ == spec_queue_base(queue@),
{
    match find_char(queue, '#') {
        Some(i) => queue.substring_char(0, i),
        None => queue,
    }
}

/// The dynamic suffix of a queue key, if it has one.
pub fn queue_suffix(queue: &str) -> (r: Option<&str>)
    ensures
        r is None <==> spec_queue_suffix(queue@) is None,
        r matches Some(s) ==> spec_queue_suffix(queue@) == Some(s@),
{
    let n = char_count(queue);
    match find_char(queue, '#') {
        Some(i) => Some(queue.substring_char(i + 1, n)),
        None => None,
    }
}

/// A dynamic queue key is its base, `#`, and its suffix; so two dynamic
/// keys with the same base and suffix are the same key.
pub proof fn lemma_base_and_suffix_determine_queue(q1: Seq<char>, q2: Seq<char>)
    requires
        spec_queue_suffix(q1) is Some,
        spec_queue_suffix(q1) == spec_queue_suffix(q2),
        spec_queue_base(q1) == spec_queue_base(q2),
    ensures
        q1 == q2,
{
    let i1 = choose|i: int| is_first_index(q1, '#', i);
    let i2 = choose|i: int| is_first_index(q2, '#', i);
    assert(q1 =~= q1.take(i1) + seq!['#'] + q1.skip(i1 + 1));
    assert(q2 =~= q2.take(i2) + seq!['#'] + q2.skip(i2 + 1));
    assert(q1.take(i1).len() == i1);
}

/// Whether a queue is kept when filtering by the selected queues: always
/// without a filter, otherwise when a selected queue has the same base.
pub open spec fn spec_kept(queues: Seq<String>, filter: bool, queue: Seq<char>) -> bool {
    !filter || exists|j: int|
        0 <= j < queues.len() && #[trigger] spec_queue_base(queues[j]@) == spec_queue_base(queue)
}

/// Whether a queue is kept under the filter.
pub fn kept(queues: &[String], filter: bool, queue: &str) -> (r: bool)
    ensures
        r == spec_kept(queues@, filter, queue@),
{
    if !filter {
        return true;
    }
    let base = queue_base(queue);
    let mut j: usize = 0;
    while j < queues.len()
        invariant
            j <= queues@.len(),
            base@ == spec_queue_base(queue@),
            forall|k: int| 0 <= k < j ==> #[trigger] spec_queue_base(queues@[k]@) != spec_queue_base(queue@),
        decreases queues@.len() - j,
    {
        if str_eq(queue_base(queues[j].as_str()), base) {
            assert(spec_queue_base(queues@[j as int]@) == spec_queue_base(queue@));
            return true;
        }
        j = j + 1;
    }
    false
}

/// The queue and counter a stored entry adds to, when it is a kept counter.
pub open spec fn counter_entry(queues: Seq<String>, filter: bool, key: Seq<char>) -> Option<(Seq<char>, StatKind)> {
    match spec_split_stat_key(key) {
        Some((q, stat)) => if spec_kept(queues, filter, q) && !is_snapshot_kind(spec_stat_kind(stat)) {
            Some((q, spec_stat_kind(stat)))
        } else {
            None
        },
        None => None,
    }
}

/// The queue and field a stored entry sets, when it is a kept cached length.
pub open spec fn snapshot_entry(queues: Seq<String>, filter: bool, key: Seq<char>) -> Option<(Seq<char>, StatKind)> {
    match spec_split_stat_key(key) {
        Some((q, stat)) => if spec_kept(queues, filter, q) && is_snapshot_kind(spec_stat_kind(stat)) {
            Some((q, spec_stat_kind(stat)))
        } else {
            None
        },
        None => None,
    }
}

/// The counter of `counts` that `kind` names (zero for other kinds).
pub open spec fn stat_field(counts: QueueResultStats, kind: StatKind) -> int {
    match kind {
        StatKind::Processed => counts.processed as int,
        StatKind::Succeeded => counts.succeeded as int,
        StatKind::Panicked => counts.panicked as int,
        StatKind::Failed => counts.failed as int,
        _ => 0,
    }
}

/// What one stored entry adds to counter `kind` of queue `queue`.
pub open spec fn queue_contribution(
    queues: Seq<String>,
    filter: bool,
    entry: (String, i64),
    queue: Seq<char>,
    kind: StatKind,
) -> int {
    match counter_entry(queues, filter, entry.0@) {
        Some((q, k)) => if q == queue && k == kind { entry.1 as int } else { 0 },
        None => 0,
    }
}

/// What one stored entry adds to counter `kind` of the queues whose base is
/// `base`.
pub open spec fn group_contribution(
    queues: Seq<String>,
    filter: bool,
    entry: (String, i64),
    base: Seq<char>,
    kind: StatKind,
) -> int {
    match counter_entry(queues, filter, entry.0@) {
        Some((q, k)) => if spec_queue_base(q) == base && k == kind { entry.1 as int } else { 0 },
        None => 0,
    }
}

/// The total of counter `kind` stored for queue `queue`.
pub open spec fn queue_total(
    queues: Seq<String>,
    filter: bool,
    entries: Seq<(String, i64)>,
    queue: Seq<char>,
    kind: StatKind,
) -> int
    decreases entries.len(),
{
    if entries.len() == 0 {
        0
    } else {
        queue_total(queues, filter, entries.drop_last(), queue, kind) + queue_contribution(
            queues,
            filter,
            entries.last(),
            queue,
            kind,
        )
    }
}

/// The total of counter `kind` stored for all queues whose base is `base`.
pub open spec fn group_total(
    queues: Seq<String>,
    filter: bool,
    entries: Seq<(String, i64)>,
    base: Seq<char>,
    kind: StatKind,
) -> int
    decreases entries.len(),
{
    if entries.len() == 0 {
        0
    } else {
        group_total(queues, filter, entries.drop_last(), base, kind) + group_contribution(
            queues,
            filter,
            entries.last(),
            base,
            kind,
        )
    }
}

/// The positive part of what the stored entries add to counter `kind` of
/// the queues whose base is `base`.
pub open spec fn group_gain(
    queues: Seq<String>,
    filter: bool,
    entries: Seq<(String, i64)>,
    base: Seq<char>,
    kind: StatKind,
) -> int
    decreases entries.len(),
{
    if entries.len() == 0 {
        0
    } else {
        let c = group_contribution(queues, filter, entries.last(), base, kind);
        group_gain(queues, filter, entries.drop_last(), base, kind) + if c > 0 {
            c
        } else {
            0
        }
    }
}

/// The negative part of what the stored entries add to counter `kind` of
/// the queues whose base is `base`.
pub open spec fn group_loss(
    queues: Seq<String>,
    filter: bool,
    entries: Seq<(String, i64)>,
    base: Seq<char>,
    kind: StatKind,
) -> int
    decreases entries.len(),
{
    if entries.len() == 0 {
        0
    } else {
        let c = group_contribution(queues, filter, entries.last(), base, kind);
        group_loss(queues, filter, entries.drop_last(), base, kind) + if c < 0 {
            c
        } else {
            0
        }
    }
}

/// No counter leaves the `i64` range, whatever order the stored entries are
/// added in: for every queue group and counter, the positive contributions
/// sum to at most `i64::MAX` and the negative ones to at least `i64::MIN`.
pub open spec fn counters_fit(queues: Seq<String>, filter: bool, entries: Seq<(String, i64)>) -> bool {
    forall|base: Seq<char>, kind: StatKind|
        #![trigger group_gain(queues, filter, entries, base, kind)]
        #![trigger group_loss(queues, filter, entries, base, kind)]
        i64::MIN <= group_loss(queues, filter, entries, base, kind) && group_gain(queues, filter, entries, base, kind)
            <= i64::MAX
}

/// `counts` holds exactly the stored totals of queue `queue`.
pub open spec fn counts_are_queue_totals(
    counts: QueueResultStats,
    queues: Seq<String>,
    filter: bool,
    entries: Seq<(String, i64)>,
    queue: Seq<char>,
) -> bool {
    &&& counts.processed == queue_total(queues, filter, entries, queue, StatKind::Processed)
    &&& counts.succeeded == queue_total(queues, filter, entries, queue, StatKind::Succeeded)
    &&& counts.panicked == queue_total(queues, filter, entries, queue, StatKind::Panicked)
    &&& counts.failed == queue_total(queues, filter, entries, queue, StatKind::Failed)
}

/// `counts` holds exactly the stored totals of the queues with base `base`.
pub open spec fn counts_are_group_totals(
    counts: QueueResultStats,
    queues: Seq<String>,
    filter: bool,
    entries: Seq<(String, i64)>,
    base: Seq<char>,
) -> bool {
    &&& counts.processed == group_total(queues, filter, entries, base, StatKind::Processed)
    &&& counts.succeeded == group_total(queues, filter, entries, base, StatKind::Succeeded)
    &&& counts.panicked == group_total(queues, filter, entries, base, StatKind::Panicked)
    &&& counts.failed == group_total(queues, filter, entries, base, StatKind::Failed)
}

/// Whether some stored entry is a kept counter of queue `queue`.
pub open spec fn has_counter_entry(
    queues: Seq<String>,
    filter: bool,
    entries: Seq<(String, i64)>,
    queue: Seq<char>,
) -> bool {
    exists|i: int| 0 <= i < entries.len() && #[trigger] counts_for(queues, filter, entries[i].0@, queue)
}

/// Whether the entry stored under `key` is a kept counter of `queue`.
pub open spec fn counts_for(queues: Seq<String>, filter: bool, key: Seq<char>, queue: Seq<char>) -> bool {
    match counter_entry(queues, filter, key) {
        Some((q, _)) => q == queue,
        None => false,
    }
}

/// Whether the entry stored under `key` is a kept cached length of `queue`.
pub open spec fn snapshots_for(queues: Seq<String>, filter: bool, key: Seq<char>, queue: Seq<char>) -> bool {
    match snapshot_entry(queues, filter, key) {
        Some((q, _)) => q == queue,
        None => false,
    }
}

/// The cached length of queue `queue` after the stored entries: each kept
/// `enqueued` and `enqueued_at` entry sets its field, later entries win.
pub open spec fn snapshot_of(
    queues: Seq<String>,
    filter: bool,
    entries: Seq<(String, i64)>,
    queue: Seq<char>,
) -> QueueLengthSnapshot
    decreases entries.len(),
{
    if entries.len() == 0 {
        empty_snapshot()
    } else {
        let prev = snapshot_of(queues, filter, entries.drop_last(), queue);
        let e = entries.last();
        match snapshot_entry(queues, filter, e.0@) {
            Some((q, k)) => if q == queue {
                if k == StatKind::Enqueued {
                    QueueLengthSnapshot { enqueued: Some(e.1), ..prev }
                } else {
                    QueueLengthSnapshot { refreshed_at: Some(e.1), ..prev }
                }
            } else {
                prev
            },
            None => prev,
        }
    }
}

/// Whether some stored entry is a kept cached length of queue `queue`.
pub open spec fn has_snapshot_entry(
    queues: Seq<String>,
    filter: bool,
    entries: Seq<(String, i64)>,
    queue: Seq<char>,
) -> bool {
    exists|i: int| 0 <= i < entries.len() && #[trigger] snapshots_for(queues, filter, entries[i].0@, queue)
}

/// Whether a queue is listed in the result: it is selected, has a kept
/// counter, or has a fresh positive cached length.
pub open spec fn is_counter_queue(
    queues: Seq<String>,
    filter: bool,
    entries: Seq<(String, i64)>,
    now: i64,
    queue: Seq<char>,
) -> bool {
    ||| exists|j: int| 0 <= j < queues.len() && #[trigger] queues[j]@ == queue
    ||| has_counter_entry(queues, filter, entries, queue)
    ||| match spec_fresh_enqueued(snapshot_of(queues, filter, entries, queue), now) {
        Some(n) => n > 0,
        None => false,
    }
}

} // verus!

verus! {

/// Whether a queue key is one of the selected queues.
pub open spec fn in_queues(queues: Seq<String>, queue: Seq<char>) -> bool {
    exists|j: int| 0 <= j < queues.len() && #[trigger] queues[j]@ == queue
}

/// Whether an association list has an entry under `key`.
pub open spec fn has_key<V>(list: Seq<(String, V)>, key: Seq<char>) -> bool {
    exists|i: int| 0 <= i < list.len() && #[trigger] list[i].0@ == key
}

/// No key occurs twice in an association list.
pub open spec fn keys_unique<V>(list: Seq<(String, V)>) -> bool {
    forall|i: int, j: int| 0 <= i < j < list.len() ==> list[i].0@ != list[j].0@
}

/// A prefix of the entries gains and loses no more than all of them.
proof fn lemma_gain_loss_prefix(
    queues: Seq<String>,
    filter: bool,
    entries: Seq<(String, i64)>,
    i: int,
    base: Seq<char>,
    kind: StatKind,
)
    requires
        0 <= i <= entries.len(),
    ensures
        0 <= group_gain(queues, filter, entries.take(i), base, kind) <= group_gain(queues, filter, entries, base, kind),
        group_loss(queues, filter, entries, base, kind) <= group_loss(queues, filter, entries.take(i), base, kind) <= 0,
    decreases entries.len(),
{
    if entries.len() == 0 {
        assert(entries.take(i) =~= entries);
    } else {
        let p = entries.drop_last();
        if i == entries.len() {
            lemma_gain_loss_prefix(queues, filter, p, p.len() as int, base, kind);
            assert(p.take(p.len() as int) =~= p);
            assert(entries.take(i) =~= entries);
        } else {
            lemma_gain_loss_prefix(queues, filter, p, i, base, kind);
            assert(p.take(i) =~= entries.take(i));
        }
    }
}

/// A queue's stored total, and its group's, lie between the group's losses
/// and gains.
proof fn lemma_totals_between(
    queues: Seq<String>,
    filter: bool,
    entries: Seq<(String, i64)>,
    key: Seq<char>,
    kind: StatKind,
)
    ensures
        group_loss(queues, filter, entries, key, kind) <= group_total(queues, filter, entries, key, kind)
            <= group_gain(queues, filter, entries, key, kind),
        group_loss(queues, filter, entries, spec_queue_base(key), kind) <= queue_total(
            queues,
            filter,
            entries,
            key,
            kind,
        ) <= group_gain(queues, filter, entries, spec_queue_base(key), kind),
    decreases entries.len(),
{
    if entries.len() > 0 {
        lemma_totals_between(queues, filter, entries.drop_last(), key, kind);
    }
}

/// When the counters fit, every stored total of a queue or a queue group is
/// an `i64`.
pub proof fn lemma_totals_fit(
    queues: Seq<String>,
    filter: bool,
    entries: Seq<(String, i64)>,
    key: Seq<char>,
    kind: StatKind,
)
    requires
        counters_fit(queues, filter, entries),
    ensures
        i64::MIN <= queue_total(queues, filter, entries, key, kind) <= i64::MAX,
        i64::MIN <= group_total(queues, filter, entries, key, kind) <= i64::MAX,
{
    lemma_totals_between(queues, filter, entries, key, kind);
    let b = spec_queue_base(key);
    assert(group_gain(queues, filter, entries, key, kind) <= i64::MAX);
    assert(i64::MIN <= group_loss(queues, filter, entries, key, kind));
    assert(group_gain(queues, filter, entries, b, kind) <= i64::MAX);
    assert(i64::MIN <= group_loss(queues, filter, entries, b, kind));
}

/// A prefix of entries whose counters fit has fitting counters.
proof fn lemma_fit_prefix(queues: Seq<String>, filter: bool, entries: Seq<(String, i64)>, i: int)
    requires
        counters_fit(queues, filter, entries),
        0 <= i <= entries.len(),
    ensures
        counters_fit(queues, filter, entries.take(i)),
{
    let t = entries.take(i);
    assert forall|base: Seq<char>, kind: StatKind|
        i64::MIN <= #[trigger] group_loss(queues, filter, t, base, kind) && group_gain(queues, filter, t, base, kind)
            <= i64::MAX by {
        lemma_gain_loss_prefix(queues, filter, entries, i, base, kind);
        assert(group_gain(queues, filter, entries, base, kind) <= i64::MAX);
        assert(i64::MIN <= group_loss(queues, filter, entries, base, kind));
    }
}

/// A queue no kept counter entry names has zero totals.
pub proof fn lemma_untouched_queue(
    queues: Seq<String>,
    filter: bool,
    entries: Seq<(String, i64)>,
    queue: Seq<char>,
    kind: StatKind,
)
    requires
        !has_counter_entry(queues, filter, entries, queue),
    ensures
        queue_total(queues, filter, entries, queue, kind) == 0,
    decreases entries.len(),
{
    if entries.len() > 0 {
        let p = entries.drop_last();
        if has_counter_entry(queues, filter, p, queue) {
            let i = choose|i: int| 0 <= i < p.len() && #[trigger] counts_for(queues, filter, p[i].0@, queue);
            assert(counts_for(queues, filter, entries[i].0@, queue));
        }
        lemma_untouched_queue(queues, filter, p, queue, kind);
        assert(!counts_for(queues, filter, entries[entries.len() - 1].0@, queue));
    }
}

/// Whether the entry stored under `key` is a kept counter of a queue with
/// base `base`.
pub open spec fn group_counts_for(queues: Seq<String>, filter: bool, key: Seq<char>, base: Seq<char>) -> bool {
    match counter_entry(queues, filter, key) {
        Some((q, _)) => spec_queue_base(q) == base,
        None => false,
    }
}

/// A base no kept counter entry belongs to has zero totals.
pub proof fn lemma_untouched_group(
    queues: Seq<String>,
    filter: bool,
    entries: Seq<(String, i64)>,
    base: Seq<char>,
    kind: StatKind,
)
    requires
        forall|i: int| 0 <= i < entries.len() ==> !#[trigger] group_counts_for(queues, filter, entries[i].0@, base),
    ensures
        group_total(queues, filter, entries, base, kind) == 0,
    decreases entries.len(),
{
    if entries.len() > 0 {
        let p = entries.drop_last();
        assert forall|i: int| 0 <= i < p.len() implies !#[trigger] group_counts_for(queues, filter, p[i].0@, base) by {
            assert(p[i] == entries[i]);
        }
        lemma_untouched_group(queues, filter, p, base, kind);
        assert(!group_counts_for(queues, filter, entries[entries.len() - 1].0@, base));
    }
}

/// A queue no kept cached-length entry names has an empty snapshot.
pub proof fn lemma_untouched_snapshot(
    queues: Seq<String>,
    filter: bool,
    entries: Seq<(String, i64)>,
    queue: Seq<char>,
)
    requires
        !has_snapshot_entry(queues, filter, entries, queue),
    ensures
        snapshot_of(queues, filter, entries, queue) == empty_snapshot(),
    decreases entries.len(),
{
    if entries.len() > 0 {
        let p = entries.drop_last();
        if has_snapshot_entry(queues, filter, p, queue) {
            let i = choose|i: int| 0 <= i < p.len() && #[trigger] snapshots_for(queues, filter, p[i].0@, queue);
            assert(snapshots_for(queues, filter, entries[i].0@, queue));
        }
        lemma_untouched_snapshot(queues, filter, p, queue);
        assert(!snapshots_for(queues, filter, entries[entries.len() - 1].0@, queue));
    }
}

/// Appending one entry extends every total by that entry's contribution.
pub proof fn lemma_push_entry(
    queues: Seq<String>,
    filter: bool,
    entries: Seq<(String, i64)>,
    e: (String, i64),
    key: Seq<char>,
    kind: StatKind,
)
    ensures
        queue_total(queues, filter, entries.push(e), key, kind) == queue_total(queues, filter, entries, key, kind)
            + queue_contribution(queues, filter, e, key, kind),
        group_total(queues, filter, entries.push(e), key, kind) == group_total(queues, filter, entries, key, kind)
            + group_contribution(queues, filter, e, key, kind),
        snapshot_of(queues, filter, entries.push(e), key) == (match snapshot_entry(queues, filter, e.0@) {
            Some((q, k)) => if q == key {
                if k == StatKind::Enqueued {
                    QueueLengthSnapshot { enqueued: Some(e.1), ..snapshot_of(queues, filter, entries, key) }
                } else {
                    QueueLengthSnapshot { refreshed_at: Some(e.1), ..snapshot_of(queues, filter, entries, key) }
                }
            } else {
                snapshot_of(queues, filter, entries, key)
            },
            None => snapshot_of(queues, filter, entries, key),
        }),
        has_counter_entry(queues, filter, entries.push(e), key) <==> (has_counter_entry(queues, filter, entries, key)
            || counts_for(queues, filter, e.0@, key)),
        has_snapshot_entry(queues, filter, entries.push(e), key) <==> (has_snapshot_entry(queues, filter, entries, key)
            || snapshots_for(queues, filter, e.0@, key)),
{
    let p = entries.push(e);
    assert(p.drop_last() =~= entries);
    assert(p.last() == e);
    if has_counter_entry(queues, filter, entries, key) {
        let i = choose|i: int| 0 <= i < entries.len() && #[trigger] counts_for(queues, filter, entries[i].0@, key);
        assert(p[i] == entries[i]);
        assert(counts_for(queues, filter, p[i].0@, key));
    }
    if counts_for(queues, filter, e.0@, key) {
        assert(counts_for(queues, filter, p[entries.len() as int].0@, key));
    }
    if has_counter_entry(queues, filter, p, key) {
        let i = choose|i: int| 0 <= i < p.len() && #[trigger] counts_for(queues, filter, p[i].0@, key);
        if i < entries.len() {
            assert(p[i] == entries[i]);
            assert(counts_for(queues, filter, entries[i].0@, key));
        }
    }
    if has_snapshot_entry(queues, filter, entries, key) {
        let i = choose|i: int| 0 <= i < entries.len() && #[trigger] snapshots_for(queues, filter, entries[i].0@, key);
        assert(p[i] == entries[i]);
        assert(snapshots_for(queues, filter, p[i].0@, key));
    }
    if snapshots_for(queues, filter, e.0@, key) {
        assert(snapshots_for(queues, filter, p[entries.len() as int].0@, key));
    }
    if has_snapshot_entry(queues, filter, p, key) {
        let i = choose|i: int| 0 <= i < p.len() && #[trigger] snapshots_for(queues, filter, p[i].0@, key);
        if i < entries.len() {
            assert(p[i] == entries[i]);
            assert(snapshots_for(queues, filter, entries[i].0@, key));
        }
    }
}

} // verus!

verus! {

/// `counts` with `value` added to the counter `kind` names.
pub open spec fn spec_add_stat(counts: QueueResultStats, kind: StatKind, value: i64) -> QueueResultStats {
    match kind {
        StatKind::Processed => QueueResultStats { processed: (counts.processed + value) as i64, ..counts },
        StatKind::Succeeded => QueueResultStats { succeeded: (counts.succeeded + value) as i64, ..counts },
        StatKind::Panicked => QueueResultStats { panicked: (counts.panicked + value) as i64, ..counts },
        StatKind::Failed => QueueResultStats { failed: (counts.failed + value) as i64, ..counts },
        _ => counts,
    }
}

/// Adds `value` to the counter `kind` names.
fn add_stat(counts: QueueResultStats, kind: StatKind, value: i64) -> (r: QueueResultStats)
    requires
        i64::MIN <= stat_field(counts, kind) + value <= i64::MAX,
    ensures
        r == spec_add_stat(counts, kind, value),
{
    match kind {
        StatKind::Processed => QueueResultStats { processed: counts.processed + value, ..counts },
        StatKind::Succeeded => QueueResultStats { succeeded: counts.succeeded + value, ..counts },
        StatKind::Panicked => QueueResultStats { panicked: counts.panicked + value, ..counts },
        StatKind::Failed => QueueResultStats { failed: counts.failed + value, ..counts },
        _ => counts,
    }
}

/// The position of `key` in an association list, if present.
fn find_key<V>(list: &Vec<(String, V)>, key: &str) -> (r: Option<usize>)
    ensures
        r matches Some(i) ==> i < list@.len() && list@[i as int].0@ == key@,
        r is None ==> !has_key(list@, key@),
{
    let mut i: usize = 0;
    while i < list.len()
        invariant
            i <= list@.len(),
            forall|j: int| 0 <= j < i ==> list@[j].0@ != key@,
        decreases list@.len() - i,
    {
        if str_eq(list[i].0.as_str(), key) {
            return Some(i);
        }
        i = i + 1;
    }
    None
}

/// Adds an entry `(key, value)` unless the list already has `key`.
fn ensure_key<V>(list: &mut Vec<(String, V)>, key: &str, value: V)
    requires
        keys_unique(old(list)@),
    ensures
        keys_unique(final(list)@),
        has_key(old(list)@, key@) ==> final(list)@ == old(list)@,
        !has_key(old(list)@, key@) ==> final(list)@ == old(list)@.push((final(list)@.last().0, value))
            && final(list)@.last().0@ == key@,
{
    if find_key(list, key).is_none() {
        let k = String::from_str(key);
        let ghost old_list = list@;
        list.push((k, value));
        proof {
            assert(final(list)@.last().0@ == key@);
            assert forall|i: int, j: int| 0 <= i < j < final(list)@.len() implies final(list)@[i].0@
                != final(list)@[j].0@ by {
                if j == old_list.len() {
                    assert(final(list)@[i] == old_list[i]);
                } else {
                    assert(final(list)@[i] == old_list[i]);
                    assert(final(list)@[j] == old_list[j]);
                }
            }
        }
    }
}

/// Adds `value` to counter `kind` of the entry under `key`, creating a zero
/// entry first when there is none.
fn upsert_counts(list: &mut Vec<(String, QueueResultStats)>, key: &str, kind: StatKind, value: i64)
    requires
        keys_unique(old(list)@),
        forall|i: int|
            0 <= i < old(list)@.len() && old(list)@[i].0@ == key@ ==> i64::MIN <= stat_field(
                #[trigger] old(list)@[i].1,
                kind,
            ) + value <= i64::MAX,
    ensures
        upserted_counts(old(list)@, final(list)@, key@, kind, value),
{
    match find_key(list, key) {
        Some(i) => {
            let counts = add_stat(list[i].1, kind, value);
            let k = list[i].0.clone();
            let ghost old_list = list@;
            list.set(i, (k, counts));
            proof {
                assert(final(list)@[i as int].0@ == key@);
                assert(has_key(old_list, key@));
                assert forall|a: int, b: int| 0 <= a < b < final(list)@.len() implies final(list)@[a].0@
                    != final(list)@[b].0@ by {
                    assert(final(list)@[a].0@ == old_list[a].0@);
                    assert(final(list)@[b].0@ == old_list[b].0@);
                }
                assert forall|j: int| 0 <= j < old_list.len() && old_list[j].0@ == key@ implies j == i by {
                    if j != i && old_list[j].0@ == key@ {
                        assert(old_list[i as int].0@ == key@);
                    }
                }
            }
        },
        None => {
            let counts = add_stat(QueueResultStats::zero(), kind, value);
            let ghost old_list = list@;
            list.push((String::from_str(key), counts));
            proof {
                assert(final(list)@[old_list.len() as int].0@ == key@);
                assert forall|a: int, b: int| 0 <= a < b < final(list)@.len() implies final(list)@[a].0@
                    != final(list)@[b].0@ by {
                    assert(final(list)@[a] == old_list[a]);
                    if b < old_list.len() {
                        assert(final(list)@[b] == old_list[b]);
                    }
                }
                assert forall|j: int| 0 <= j < old_list.len() implies final(list)@[j] == old_list[j] by {}
            }
        },
    }
}

/// Sets the field `kind` names (the length for `Enqueued`, the refresh time
/// otherwise) of the snapshot under `key`, creating an empty one first when
/// there is none.
fn upsert_snapshot(list: &mut Vec<(String, QueueLengthSnapshot)>, key: &str, kind: StatKind, value: i64)
    requires
        keys_unique(old(list)@),
    ensures
        upserted_snapshot(old(list)@, final(list)@, key@, kind, value),
{
    match find_key(list, key) {
        Some(i) => {
            let snapshot = set_field(list[i].1, kind, value);
            let k = list[i].0.clone();
            list.set(i, (k, snapshot));
            proof {
                assert(final(list)@[i as int].0@ == key@);
            }
        },
        None => {
            let snapshot = set_field(QueueLengthSnapshot { enqueued: None, refreshed_at: None }, kind, value);
            list.push((String::from_str(key), snapshot));
            proof {
                assert(final(list)@[old(list)@.len() as int].0@ == key@);
            }
        },
    }
}

/// `snapshot` with the length (for `Enqueued`) or the refresh time set.
pub open spec fn set_snapshot_field(snapshot: QueueLengthSnapshot, kind: StatKind, value: i64) -> QueueLengthSnapshot {
    if kind == StatKind::Enqueued {
        QueueLengthSnapshot { enqueued: Some(value), ..snapshot }
    } else {
        QueueLengthSnapshot { refreshed_at: Some(value), ..snapshot }
    }
}

fn set_field(snapshot: QueueLengthSnapshot, kind: StatKind, value: i64) -> (r: QueueLengthSnapshot)
    ensures
        r == set_snapshot_field(snapshot, kind, value),
{
    if kind == StatKind::Enqueued {
        QueueLengthSnapshot { enqueued: Some(value), ..snapshot }
    } else {
        QueueLengthSnapshot { refreshed_at: Some(value), ..snapshot }
    }
}

} // verus!

verus! {

/// Every counter entry holds the stored totals of its queue.
pub open spec fn counters_hold_totals(
    queues: Seq<String>,
    filter: bool,
    entries: Seq<(String, i64)>,
    counters: Seq<(String, QueueResultStats)>,
) -> bool {
    &&& keys_unique(counters)
    &&& forall|i: int|
        0 <= i < counters.len() ==> counts_are_queue_totals(
            #[trigger] counters[i].1,
            queues,
            filter,
            entries,
            counters[i].0@,
        )
}

/// Every group entry holds the stored totals of its base.
pub open spec fn groups_hold_totals(
    queues: Seq<String>,
    filter: bool,
    entries: Seq<(String, i64)>,
    groups: Seq<(String, QueueResultStats)>,
) -> bool {
    &&& keys_unique(groups)
    &&& forall|i: int|
        0 <= i < groups.len() ==> counts_are_group_totals(
            #[trigger] groups[i].1,
            queues,
            filter,
            entries,
            groups[i].0@,
        )
}

/// The groups are exactly the bases of the counter entries.
pub open spec fn groups_cover(
    counters: Seq<(String, QueueResultStats)>,
    groups: Seq<(String, QueueResultStats)>,
) -> bool {
    &&& forall|gi: int|
        0 <= gi < groups.len() ==> exists|ci: int|
            0 <= ci < counters.len() && #[trigger] spec_queue_base(counters[ci].0@) == (#[trigger] groups[gi]).0@
    &&& forall|ci: int| 0 <= ci < counters.len() ==> has_key(groups, spec_queue_base(#[trigger] counters[ci].0@))
}

/// Every snapshot entry holds the stored snapshot of its queue, and the
/// queues with a snapshot entry are those with a kept cached-length entry.
pub open spec fn snapshots_hold(
    queues: Seq<String>,
    filter: bool,
    entries: Seq<(String, i64)>,
    snapshots: Seq<(String, QueueLengthSnapshot)>,
) -> bool {
    &&& keys_unique(snapshots)
    &&& forall|i: int|
        0 <= i < snapshots.len() ==> #[trigger] snapshots[i].1 == snapshot_of(
            queues,
            filter,
            entries,
            snapshots[i].0@,
        )
    &&& forall|k: Seq<char>| #[trigger] has_key(snapshots, k) <==> has_snapshot_entry(queues, filter, entries, k)
}

/// Seeds one zero counter entry per selected queue, and one group per base.
fn seed_counters(queues: &[String]) -> (r: (Vec<(String, QueueResultStats)>, Vec<(String, QueueResultStats)>))
    ensures
        counters_hold_totals(queues@, false, Seq::empty(), r.0@),
        forall|f: bool| #[trigger] counters_hold_totals(queues@, f, Seq::empty(), r.0@),
        forall|f: bool| #[trigger] groups_hold_totals(queues@, f, Seq::empty(), r.1@),
        groups_cover(r.0@, r.1@),
        forall|k: Seq<char>| #[trigger] has_key(r.0@, k) <==> in_queues(queues@, k),
{
    let mut counters: Vec<(String, QueueResultStats)> = Vec::new();
    let mut groups: Vec<(String, QueueResultStats)> = Vec::new();
    let mut j: usize = 0;
    while j < queues.len()
        invariant
            j <= queues@.len(),
            keys_unique(counters@),
            keys_unique(groups@),
            forall|i: int| 0 <= i < counters@.len() ==> #[trigger] counters@[i].1 == spec_zero_counts(),
            forall|i: int| 0 <= i < groups@.len() ==> #[trigger] groups@[i].1 == spec_zero_counts(),
            groups_cover(counters@, groups@),
            forall|k: Seq<char>|
                #[trigger] has_key(counters@, k) <==> exists|jj: int| 0 <= jj < j && #[trigger] queues@[jj]@ == k,
        decreases queues@.len() - j,
    {
        let q = queues[j].as_str();
        let ghost old_counters = counters@;
        let ghost old_groups = groups@;
        ensure_key(&mut counters, q, QueueResultStats::zero());
        let base = queue_base(q);
        ensure_key(&mut groups, base, QueueResultStats::zero());
        proof {
            assert forall|k: Seq<char>|
                #[trigger] has_key(counters@, k) <==> exists|jj: int|
                    0 <= jj < j + 1 && #[trigger] queues@[jj]@ == k by {
                if has_key(counters@, k) {
                    let i = choose|i: int| 0 <= i < counters@.len() && #[trigger] counters@[i].0@ == k;
                    if i < old_counters.len() {
                        assert(old_counters[i] == counters@[i]);
                        assert(has_key(old_counters, k));
                    } else {
                        assert(queues@[j as int]@ == k);
                    }
                }
                if exists|jj: int| 0 <= jj < j + 1 && #[trigger] queues@[jj]@ == k {
                    let jj = choose|jj: int| 0 <= jj < j + 1 && #[trigger] queues@[jj]@ == k;
                    if jj < j {
                        assert(has_key(old_counters, k));
                        let i = choose|i: int| 0 <= i < old_counters.len() && #[trigger] old_counters[i].0@ == k;
                        assert(counters@[i] == old_counters[i]);
                    } else if !has_key(old_counters, k) {
                        assert(counters@[counters@.len() - 1].0@ == k);
                    } else {
                        let i = choose|i: int| 0 <= i < old_counters.len() && #[trigger] old_counters[i].0@ == k;
                        assert(counters@[i] == old_counters[i]);
                    }
                }
            }
            assert forall|gi: int| 0 <= gi < groups@.len() implies exists|ci: int|
                0 <= ci < counters@.len() && #[trigger] spec_queue_base(counters@[ci].0@) == (
                #[trigger] groups@[gi]).0@ by {
                if gi < old_groups.len() {
                    assert(groups@[gi] == old_groups[gi]);
                    let ci = choose|ci: int|
                        0 <= ci < old_counters.len() && #[trigger] spec_queue_base(old_counters[ci].0@) == (
                        #[trigger] old_groups[gi]).0@;
                    assert(counters@[ci] == old_counters[ci]);
                } else {
                    assert(has_key(counters@, q@));
                    let ci = choose|ci: int| 0 <= ci < counters@.len() && #[trigger] counters@[ci].0@ == q@;
                    assert(spec_queue_base(counters@[ci].0@) == groups@[gi].0@);
                }
            }
            assert forall|ci: int| 0 <= ci < counters@.len() implies has_key(
                groups@,
                spec_queue_base(#[trigger] counters@[ci].0@),
            ) by {
                if ci < old_counters.len() {
                    assert(counters@[ci] == old_counters[ci]);
                    let b = spec_queue_base(old_counters[ci].0@);
                    assert(has_key(old_groups, b));
                    let gi = choose|gi: int| 0 <= gi < old_groups.len() && #[trigger] old_groups[gi].0@ == b;
                    assert(groups@[gi] == old_groups[gi]);
                } else {
                    assert(counters@[ci].0@ == q@);
                    if has_key(old_groups, base@) {
                        let gi = choose|gi: int| 0 <= gi < old_groups.len() && #[trigger] old_groups[gi].0@ == base@;
                        assert(groups@[gi] == old_groups[gi]);
                    } else {
                        assert(groups@[groups@.len() - 1].0@ == base@);
                    }
                }
            }
        }
        j = j + 1;
    }
    proof {
        assert(queues@.take(j as int) =~= queues@);
    }
    (counters, groups)
}

} // verus!

verus! {

/// The counter entries are the selected queues and the queues named by kept
/// counter entries.
pub open spec fn counters_listed(
    queues: Seq<String>,
    filter: bool,
    entries: Seq<(String, i64)>,
    counters: Seq<(String, QueueResultStats)>,
) -> bool {
    forall|k: Seq<char>|
        #[trigger] has_key(counters, k) <==> (in_queues(queues, k) || has_counter_entry(
            queues,
            filter,
            entries,
            k,
        ))
}

/// A key absent from the list before an insertion and present after it is
/// the inserted one; a key present before stays present.
proof fn lemma_has_key_after_upsert<V, W>(
    old_list: Seq<(String, V)>,
    new_list: Seq<(String, W)>,
    key: Seq<char>,
    k: Seq<char>,
)
    requires
        new_list.len() == old_list.len() + if has_key(old_list, key) { 0int } else { 1int },
        forall|i: int| 0 <= i < old_list.len() ==> (#[trigger] new_list[i]).0@ == old_list[i].0@,
        !has_key(old_list, key) ==> new_list.last().0@ == key,
    ensures
        has_key(new_list, k) <==> (has_key(old_list, k) || k == key),
{
    if has_key(new_list, k) {
        let i = choose|i: int| 0 <= i < new_list.len() && #[trigger] new_list[i].0@ == k;
        if i < old_list.len() {
            assert(old_list[i].0@ == k);
        }
    }
    if has_key(old_list, k) {
        let i = choose|i: int| 0 <= i < old_list.len() && #[trigger] old_list[i].0@ == k;
        assert(new_list[i].0@ == k);
    }
    if k == key && !has_key(old_list, key) {
        assert(new_list[new_list.len() - 1].0@ == k);
    }
}

/// The queue an entry classification names.
pub open spec fn entry_queue(entry: Option<(Seq<char>, StatKind)>) -> Seq<char> {
    match entry {
        Some((q, _)) => q,
        None => Seq::empty(),
    }
}

/// `new` is `old` after adding `value` to counter `kind` under `key`.
pub open spec fn upserted_counts(
    old: Seq<(String, QueueResultStats)>,
    new: Seq<(String, QueueResultStats)>,
    key: Seq<char>,
    kind: StatKind,
    value: i64,
) -> bool {
    &&& keys_unique(new)
    &&& has_key(new, key)
    &&& new.len() == old.len() + if has_key(old, key) { 0int } else { 1int }
    &&& forall|i: int|
        0 <= i < old.len() ==> (#[trigger] new[i]).0@ == old[i].0@ && new[i].1 == if old[i].0@ == key {
            spec_add_stat(old[i].1, kind, value)
        } else {
            old[i].1
        }
    &&& !has_key(old, key) ==> new.last().0@ == key && new.last().1 == spec_add_stat(
        spec_zero_counts(),
        kind,
        value,
    )
}

/// `new` is `old` after setting field `kind` of the snapshot under `key`.
pub open spec fn upserted_snapshot(
    old: Seq<(String, QueueLengthSnapshot)>,
    new: Seq<(String, QueueLengthSnapshot)>,
    key: Seq<char>,
    kind: StatKind,
    value: i64,
) -> bool {
    &&& keys_unique(new)
    &&& has_key(new, key)
    &&& new.len() == old.len() + if has_key(old, key) { 0int } else { 1int }
    &&& forall|i: int|
        0 <= i < old.len() ==> (#[trigger] new[i]).0@ == old[i].0@ && new[i].1 == if old[i].0@ == key {
            set_snapshot_field(old[i].1, kind, value)
        } else {
            old[i].1
        }
    &&& !has_key(old, key) ==> new.last().0@ == key && new.last().1 == set_snapshot_field(
        empty_snapshot(),
        kind,
        value,
    )
}

/// What one loop step of [`collect_entries`] did to the three lists.
pub open spec fn collect_step_done(
    queues: Seq<String>,
    filter: bool,
    e: (String, i64),
    old_counters: Seq<(String, QueueResultStats)>,
    counters: Seq<(String, QueueResultStats)>,
    old_groups: Seq<(String, QueueResultStats)>,
    groups: Seq<(String, QueueResultStats)>,
    old_snapshots: Seq<(String, QueueLengthSnapshot)>,
    snapshots: Seq<(String, QueueLengthSnapshot)>,
) -> bool {
    match counter_entry(queues, filter, e.0@) {
        Some((q, k)) => {
            &&& upserted_counts(old_counters, counters, q, k, e.1)
            &&& upserted_counts(old_groups, groups, spec_queue_base(q), k, e.1)
            &&& snapshots == old_snapshots
        },
        None => match snapshot_entry(queues, filter, e.0@) {
            Some((q, k)) => {
                &&& counters == old_counters
                &&& groups == old_groups
                &&& upserted_snapshot(old_snapshots, snapshots, q, k, e.1)
            },
            None => {
                &&& counters == old_counters
                &&& groups == old_groups
                &&& snapshots == old_snapshots
            },
        },
    }
}

/// Folds the stored entries into counter, group and snapshot entries.
fn collect_entries(
    queues: &[String],
    stats: &Vec<(String, i64)>,
    filter: bool,
    counters: &mut Vec<(String, QueueResultStats)>,
    groups: &mut Vec<(String, QueueResultStats)>,
) -> (snapshots: Vec<(String, QueueLengthSnapshot)>)
    requires
        counters_fit(queues@, filter, stats@),
        counters_hold_totals(queues@, filter, Seq::empty(), old(counters)@),
        groups_hold_totals(queues@, filter, Seq::empty(), old(groups)@),
        groups_cover(old(counters)@, old(groups)@),
        counters_listed(queues@, filter, Seq::empty(), old(counters)@),
    ensures
        counters_hold_totals(queues@, filter, stats@, final(counters)@),
        groups_hold_totals(queues@, filter, stats@, final(groups)@),
        groups_cover(final(counters)@, final(groups)@),
        counters_listed(queues@, filter, stats@, final(counters)@),
        snapshots_hold(queues@, filter, stats@, snapshots@),
{
    let mut snapshots: Vec<(String, QueueLengthSnapshot)> = Vec::new();
    let mut i: usize = 0;
    proof {
        assert(stats@.take(0) =~= Seq::<(String, i64)>::empty());
    }
    while i < stats.len()
        invariant
            i <= stats@.len(),
            counters_fit(queues@, filter, stats@),
            counters_hold_totals(queues@, filter, stats@.take(i as int), counters@),
            groups_hold_totals(queues@, filter, stats@.take(i as int), groups@),
            groups_cover(counters@, groups@),
            counters_listed(queues@, filter, stats@.take(i as int), counters@),
            snapshots_hold(queues@, filter, stats@.take(i as int), snapshots@),
        decreases stats@.len() - i,
    {
        let ghost p = stats@.take(i as int);
        let ghost e = stats@[i as int];
        let ghost old_counters = counters@;
        let ghost old_groups = groups@;
        let ghost old_snapshots = snapshots@;
        proof {
            assert(stats@.take(i + 1) =~= p.push(e));
            lemma_fit_prefix(queues@, filter, stats@, i + 1);
        }
        let key = stats[i].0.as_str();
        let value = stats[i].1;
        match split_stat_key(key) {
            None => {},
            Some((queue, stat)) => {
                if kept(queues, filter, queue) {
                    let kind = stat_kind(stat);
                    match kind {
                        StatKind::Enqueued | StatKind::EnqueuedAt => {
                            upsert_snapshot(&mut snapshots, queue, kind, value);
                        },
                        _ => {
                            let base = queue_base(queue);
                            proof {
                                lemma_push_entry(queues@, filter, p, e, queue@, kind);
                                lemma_totals_fit(queues@, filter, p.push(e), queue@, kind);
                                lemma_push_entry(queues@, filter, p, e, base@, kind);
                                lemma_totals_fit(queues@, filter, p.push(e), base@, kind);
                                assert forall|ci: int|
                                    0 <= ci < old_counters.len() && old_counters[ci].0@ == queue@ implies i64::MIN
                                    <= stat_field(#[trigger] old_counters[ci].1, kind) + value <= i64::MAX by {
                                    assert(counts_are_queue_totals(old_counters[ci].1, queues@, filter, p, queue@));
                                }
                                assert forall|gi: int|
                                    0 <= gi < old_groups.len() && old_groups[gi].0@ == base@ implies i64::MIN
                                    <= stat_field(#[trigger] old_groups[gi].1, kind) + value <= i64::MAX by {
                                    assert(counts_are_group_totals(old_groups[gi].1, queues@, filter, p, base@));
                                }
                            }
                            upsert_counts(counters, queue, kind, value);
                            upsert_counts(groups, base, kind, value);
                        },
                    }
                }
            },
        }
        proof {
            lemma_collect_step(queues@, filter, p, e, old_counters, counters@, old_groups, groups@, old_snapshots, snapshots@);
        }
        i = i + 1;
    }
    proof {
        assert(stats@.take(i as int) =~= stats@);
    }
    snapshots
}

} // verus!

verus! {

proof fn lemma_collect_counters(
    queues: Seq<String>,
    filter: bool,
    p: Seq<(String, i64)>,
    e: (String, i64),
    old_counters: Seq<(String, QueueResultStats)>,
    counters: Seq<(String, QueueResultStats)>,
)
    requires
        counters_fit(queues, filter, p.push(e)),
        counters_hold_totals(queues, filter, p, old_counters),
        counters_listed(queues, filter, p, old_counters),
        match counter_entry(queues, filter, e.0@) {
            Some((q, k)) => upserted_counts(old_counters, counters, q, k, e.1),
            None => counters == old_counters,
        },
    ensures
        counters_hold_totals(queues, filter, p.push(e), counters),
        counters_listed(queues, filter, p.push(e), counters),
{
    let np = p.push(e);
    let ce = counter_entry(queues, filter, e.0@);
    assert forall|ci: int| 0 <= ci < counters.len() implies counts_are_queue_totals(
        #[trigger] counters[ci].1,
        queues,
        filter,
        np,
        counters[ci].0@,
    ) by {
        let k = counters[ci].0@;
        lemma_totals_fit(queues, filter, np, k, StatKind::Processed);
        lemma_totals_fit(queues, filter, np, k, StatKind::Succeeded);
        lemma_totals_fit(queues, filter, np, k, StatKind::Panicked);
        lemma_totals_fit(queues, filter, np, k, StatKind::Failed);
        lemma_push_entry(queues, filter, p, e, k, StatKind::Processed);
        lemma_push_entry(queues, filter, p, e, k, StatKind::Succeeded);
        lemma_push_entry(queues, filter, p, e, k, StatKind::Panicked);
        lemma_push_entry(queues, filter, p, e, k, StatKind::Failed);
        if ci >= old_counters.len() {
            assert(!has_key(old_counters, k));
            lemma_untouched_queue(queues, filter, p, k, StatKind::Processed);
            lemma_untouched_queue(queues, filter, p, k, StatKind::Succeeded);
            lemma_untouched_queue(queues, filter, p, k, StatKind::Panicked);
            lemma_untouched_queue(queues, filter, p, k, StatKind::Failed);
        } else {
            assert(counts_are_queue_totals(old_counters[ci].1, queues, filter, p, k));
        }
    }
    assert forall|k: Seq<char>| #[trigger] has_key(counters, k) <==> (in_queues(queues, k)
        || has_counter_entry(queues, filter, np, k)) by {
        lemma_push_entry(queues, filter, p, e, k, StatKind::Processed);
        if ce is Some {
            lemma_has_key_after_upsert(old_counters, counters, entry_queue(ce), k);
        }
    }
    assert forall|i2: int, j2: int| 0 <= i2 < j2 < counters.len() implies counters[i2].0@ != counters[j2].0@ by {}
}

proof fn lemma_collect_groups(
    queues: Seq<String>,
    filter: bool,
    p: Seq<(String, i64)>,
    e: (String, i64),
    old_counters: Seq<(String, QueueResultStats)>,
    counters: Seq<(String, QueueResultStats)>,
    old_groups: Seq<(String, QueueResultStats)>,
    groups: Seq<(String, QueueResultStats)>,
)
    requires
        counters_fit(queues, filter, p.push(e)),
        groups_hold_totals(queues, filter, p, old_groups),
        groups_cover(old_counters, old_groups),
        counters_listed(queues, filter, p, old_counters),
        match counter_entry(queues, filter, e.0@) {
            Some((q, k)) => upserted_counts(old_counters, counters, q, k, e.1) && upserted_counts(
                old_groups,
                groups,
                spec_queue_base(q),
                k,
                e.1,
            ),
            None => counters == old_counters && groups == old_groups,
        },
    ensures
        groups_hold_totals(queues, filter, p.push(e), groups),
        groups_cover(counters, groups),
{
    let np = p.push(e);
    let ce = counter_entry(queues, filter, e.0@);
    assert forall|gi: int| 0 <= gi < groups.len() implies counts_are_group_totals(
        #[trigger] groups[gi].1,
        queues,
        filter,
        np,
        groups[gi].0@,
    ) by {
        let g = groups[gi].0@;
        lemma_totals_fit(queues, filter, np, g, StatKind::Processed);
        lemma_totals_fit(queues, filter, np, g, StatKind::Succeeded);
        lemma_totals_fit(queues, filter, np, g, StatKind::Panicked);
        lemma_totals_fit(queues, filter, np, g, StatKind::Failed);
        lemma_push_entry(queues, filter, p, e, g, StatKind::Processed);
        lemma_push_entry(queues, filter, p, e, g, StatKind::Succeeded);
        lemma_push_entry(queues, filter, p, e, g, StatKind::Panicked);
        lemma_push_entry(queues, filter, p, e, g, StatKind::Failed);
        if gi >= old_groups.len() {
            assert(!has_key(old_groups, g));
            assert forall|ii: int| 0 <= ii < p.len() implies !#[trigger] group_counts_for(
                queues,
                filter,
                p[ii].0@,
                g,
            ) by {
                if group_counts_for(queues, filter, p[ii].0@, g) {
                    let q = entry_queue(counter_entry(queues, filter, p[ii].0@));
                    assert(counts_for(queues, filter, p[ii].0@, q));
                    assert(has_counter_entry(queues, filter, p, q));
                    assert(has_key(old_counters, q));
                    let cj = choose|cj: int| 0 <= cj < old_counters.len() && #[trigger] old_counters[cj].0@ == q;
                    assert(has_key(old_groups, spec_queue_base(old_counters[cj].0@)));
                }
            }
            lemma_untouched_group(queues, filter, p, g, StatKind::Processed);
            lemma_untouched_group(queues, filter, p, g, StatKind::Succeeded);
            lemma_untouched_group(queues, filter, p, g, StatKind::Panicked);
            lemma_untouched_group(queues, filter, p, g, StatKind::Failed);
        } else {
            assert(counts_are_group_totals(old_groups[gi].1, queues, filter, p, g));
        }
    }
    assert forall|gi: int| 0 <= gi < groups.len() implies exists|ci: int|
        0 <= ci < counters.len() && #[trigger] spec_queue_base(counters[ci].0@) == (#[trigger] groups[gi]).0@ by {
        if gi < old_groups.len() {
            let ci = choose|ci: int|
                0 <= ci < old_counters.len() && #[trigger] spec_queue_base(old_counters[ci].0@) == (
                #[trigger] old_groups[gi]).0@;
            assert(counters[ci].0@ == old_counters[ci].0@);
        } else {
            let q = entry_queue(ce);
            assert(has_key(counters, q));
            let ci = choose|ci: int| 0 <= ci < counters.len() && #[trigger] counters[ci].0@ == q;
            assert(spec_queue_base(counters[ci].0@) == groups[gi].0@);
        }
    }
    assert forall|ci: int| 0 <= ci < counters.len() implies has_key(
        groups,
        spec_queue_base(#[trigger] counters[ci].0@),
    ) by {
        let b = spec_queue_base(counters[ci].0@);
        if ce is Some {
            lemma_has_key_after_upsert(old_groups, groups, spec_queue_base(entry_queue(ce)), b);
            if ci < old_counters.len() {
                assert(counters[ci].0@ == old_counters[ci].0@);
            } else {
                lemma_has_key_after_upsert(old_counters, counters, entry_queue(ce), counters[ci].0@);
                assert(counters[ci].0@ == entry_queue(ce)) by {
                    if counters[ci].0@ != entry_queue(ce) {
                        let oi = choose|oi: int| 0 <= oi < old_counters.len() && #[trigger] old_counters[oi].0@ == counters[ci].0@;
                        assert(counters[oi].0@ == counters[ci].0@);
                    }
                }
            }
        }
    }
    assert forall|i2: int, j2: int| 0 <= i2 < j2 < groups.len() implies groups[i2].0@ != groups[j2].0@ by {}
}

proof fn lemma_collect_snapshots(
    queues: Seq<String>,
    filter: bool,
    p: Seq<(String, i64)>,
    e: (String, i64),
    old_snapshots: Seq<(String, QueueLengthSnapshot)>,
    snapshots: Seq<(String, QueueLengthSnapshot)>,
)
    requires
        snapshots_hold(queues, filter, p, old_snapshots),
        match snapshot_entry(queues, filter, e.0@) {
            Some((q, k)) => upserted_snapshot(old_snapshots, snapshots, q, k, e.1),
            None => snapshots == old_snapshots,
        },
    ensures
        snapshots_hold(queues, filter, p.push(e), snapshots),
{
    let np = p.push(e);
    let se = snapshot_entry(queues, filter, e.0@);
    assert forall|si: int| 0 <= si < snapshots.len() implies #[trigger] snapshots[si].1 == snapshot_of(
        queues,
        filter,
        np,
        snapshots[si].0@,
    ) by {
        let k = snapshots[si].0@;
        lemma_push_entry(queues, filter, p, e, k, StatKind::Processed);
        if si >= old_snapshots.len() {
            assert(!has_key(old_snapshots, k));
            lemma_untouched_snapshot(queues, filter, p, k);
        }
    }
    assert forall|k: Seq<char>| #[trigger] has_key(snapshots, k) <==> has_snapshot_entry(queues, filter, np, k) by {
        lemma_push_entry(queues, filter, p, e, k, StatKind::Processed);
        if se is Some {
            lemma_has_key_after_upsert(old_snapshots, snapshots, entry_queue(se), k);
        }
    }
    assert forall|i2: int, j2: int| 0 <= i2 < j2 < snapshots.len() implies snapshots[i2].0@ != snapshots[j2].0@ by {}
}

/// One step of [`collect_entries`] keeps its loop invariant.
proof fn lemma_collect_step(
    queues: Seq<String>,
    filter: bool,
    p: Seq<(String, i64)>,
    e: (String, i64),
    old_counters: Seq<(String, QueueResultStats)>,
    counters: Seq<(String, QueueResultStats)>,
    old_groups: Seq<(String, QueueResultStats)>,
    groups: Seq<(String, QueueResultStats)>,
    old_snapshots: Seq<(String, QueueLengthSnapshot)>,
    snapshots: Seq<(String, QueueLengthSnapshot)>,
)
    requires
        counters_fit(queues, filter, p.push(e)),
        counters_hold_totals(queues, filter, p, old_counters),
        groups_hold_totals(queues, filter, p, old_groups),
        groups_cover(old_counters, old_groups),
        counters_listed(queues, filter, p, old_counters),
        snapshots_hold(queues, filter, p, old_snapshots),
        collect_step_done(queues, filter, e, old_counters, counters, old_groups, groups, old_snapshots, snapshots),
    ensures
        counters_hold_totals(queues, filter, p.push(e), counters),
        groups_hold_totals(queues, filter, p.push(e), groups),
        groups_cover(counters, groups),
        counters_listed(queues, filter, p.push(e), counters),
        snapshots_hold(queues, filter, p.push(e), snapshots),
{
    lemma_collect_counters(queues, filter, p, e, old_counters, counters);
    lemma_collect_groups(queues, filter, p, e, old_counters, counters, old_groups, groups);
    if counter_entry(queues, filter, e.0@) is Some {
        assert(snapshot_entry(queues, filter, e.0@) is None);
    }
    lemma_collect_snapshots(queues, filter, p, e, old_snapshots, snapshots);
}

} // verus!

verus! {

/// Statistics of one dynamic sub-queue of a queue.
#[derive(Clone, Debug, PartialEq, Eq)]
pub struct DynamicQueueStats {
    pub suffix: String,
    pub enqueued: usize,
    pub processed: i64,
    pub succeeded: i64,
    pub panicked: i64,
    pub failed: i64,
}

/// Statistics of one queue, with its dynamic sub-queues.
#[derive(Clone, Debug, PartialEq, Eq)]
pub struct QueueStats {
    pub key: String,
    pub enqueued: usize,
    pub processed: i64,
    pub succeeded: i64,
    pub panicked: i64,
    pub failed: i64,
    pub queues: Vec<DynamicQueueStats>,
}

/// The counters of a sub-queue's statistics.
pub open spec fn dynamic_counts(stats: DynamicQueueStats) -> QueueResultStats {
    QueueResultStats {
        processed: stats.processed,
        succeeded: stats.succeeded,
        panicked: stats.panicked,
        failed: stats.failed,
    }
}

/// The counters of a queue's statistics.
pub open spec fn group_counts(stats: QueueStats) -> QueueResultStats {
    QueueResultStats {
        processed: stats.processed,
        succeeded: stats.succeeded,
        panicked: stats.panicked,
        failed: stats.failed,
    }
}

/// The usable cached lengths: one per queue whose stored snapshot is fresh,
/// with that length.
pub open spec fn snapshots_ok(
    queues: Seq<String>,
    filter: bool,
    entries: Seq<(String, i64)>,
    now: i64,
    out: Seq<(String, usize)>,
) -> bool {
    &&& keys_unique(out)
    &&& forall|i: int|
        0 <= i < out.len() ==> spec_fresh_enqueued(snapshot_of(queues, filter, entries, (#[trigger] out[i]).0@), now)
            == Some(out[i].1)
    &&& forall|q: Seq<char>|
        #[trigger] spec_fresh_enqueued(snapshot_of(queues, filter, entries, q), now) is Some ==> has_key(out, q)
}

/// The sub-queues of a group are exactly the listed dynamic queues with that
/// base, each once, with their stored totals and no length yet.
pub open spec fn children_ok(
    queues: Seq<String>,
    filter: bool,
    entries: Seq<(String, i64)>,
    now: i64,
    base: Seq<char>,
    children: Seq<DynamicQueueStats>,
) -> bool {
    &&& forall|i: int, j: int| 0 <= i < j < children.len() ==> children[i].suffix@ != children[j].suffix@
    &&& forall|c: int|
        0 <= c < children.len() ==> exists|q: Seq<char>|
            #[trigger] is_counter_queue(queues, filter, entries, now, q) && spec_queue_base(q) == base
                && spec_queue_suffix(q) == Some((#[trigger] children[c]).suffix@) && counts_are_queue_totals(
                dynamic_counts(children[c]),
                queues,
                filter,
                entries,
                q,
            ) && children[c].enqueued == 0
    &&& forall|q: Seq<char>|
        #[trigger] is_counter_queue(queues, filter, entries, now, q) && spec_queue_base(q) == base
            && spec_queue_suffix(q) is Some ==> exists|c: int|
            0 <= c < children.len() && Some(#[trigger] children[c].suffix@) == spec_queue_suffix(q)
}

/// Some listed queue has base `base`.
pub open spec fn base_is_listed(
    queues: Seq<String>,
    filter: bool,
    entries: Seq<(String, i64)>,
    now: i64,
    base: Seq<char>,
) -> bool {
    exists|q: Seq<char>| #[trigger] is_counter_queue(queues, filter, entries, now, q) && spec_queue_base(q) == base
}

/// The queue statistics: one entry per base of a listed queue, each once,
/// holding the stored totals of that base, no length yet, and its dynamic
/// sub-queues.
pub open spec fn groups_ok(
    queues: Seq<String>,
    filter: bool,
    entries: Seq<(String, i64)>,
    now: i64,
    out: Seq<QueueStats>,
) -> bool {
    &&& forall|i: int, j: int| 0 <= i < j < out.len() ==> out[i].key@ != out[j].key@
    &&& forall|i: int|
        0 <= i < out.len() ==> base_is_listed(queues, filter, entries, now, (#[trigger] out[i]).key@)
    &&& forall|i: int|
        0 <= i < out.len() ==> {
            &&& (#[trigger] out[i]).enqueued == 0
            &&& counts_are_group_totals(group_counts(out[i]), queues, filter, entries, out[i].key@)
            &&& children_ok(queues, filter, entries, now, out[i].key@, out[i].queues@)
        }
    &&& forall|q: Seq<char>|
        #[trigger] is_counter_queue(queues, filter, entries, now, q) ==> exists|i: int|
            0 <= i < out.len() && (#[trigger] out[i]).key@ == spec_queue_base(q)
}

} // verus!

verus! {

/// The sub-queues of `base` built from the counter entries.
pub open spec fn children_from_counters(
    counters: Seq<(String, QueueResultStats)>,
    base: Seq<char>,
    upto: int,
    children: Seq<DynamicQueueStats>,
) -> bool {
    &&& forall|i: int, j: int| 0 <= i < j < children.len() ==> children[i].suffix@ != children[j].suffix@
    &&& forall|c: int|
        0 <= c < children.len() ==> exists|ci: int|
            0 <= ci < upto && #[trigger] spec_queue_base(counters[ci].0@) == base && spec_queue_suffix(
                counters[ci].0@,
            ) == Some((#[trigger] children[c]).suffix@) && dynamic_counts(children[c]) == counters[ci].1
                && children[c].enqueued == 0
    &&& forall|ci: int|
        0 <= ci < upto && spec_queue_base(#[trigger] counters[ci].0@) == base && spec_queue_suffix(
            counters[ci].0@,
        ) is Some ==> exists|c: int|
            0 <= c < children.len() && Some(#[trigger] children[c].suffix@) == spec_queue_suffix(counters[ci].0@)
}

/// Collects the sub-queues of `base` from the counter entries.
#[verifier::rlimit(80)]
#[verifier::spinoff_prover]
fn build_children(counters: &Vec<(String, QueueResultStats)>, base: &str) -> (children: Vec<DynamicQueueStats>)
    requires
        keys_unique(counters@),
    ensures
        children_from_counters(counters@, base@, counters@.len() as int, children@),
{
    let mut children: Vec<DynamicQueueStats> = Vec::new();
    let mut ci: usize = 0;
    while ci < counters.len()
        invariant
            ci <= counters@.len(),
            keys_unique(counters@),
            children_from_counters(counters@, base@, ci as int, children@),
        decreases counters@.len() - ci,
    {
        let key = counters[ci].0.as_str();
        let counts = counters[ci].1;
        let ghost old_children = children@;
        if str_eq(queue_base(key), base) {
            match queue_suffix(key) {
                Some(suffix) => {
                    proof {
                        assert forall|c: int| 0 <= c < old_children.len() implies old_children[c].suffix@
                            != suffix@ by {
                            let cj = choose|cj: int|
                                0 <= cj < ci && #[trigger] spec_queue_base(counters@[cj].0@) == base@
                                    && spec_queue_suffix(counters@[cj].0@) == Some(
                                    (#[trigger] old_children[c]).suffix@,
                                ) && dynamic_counts(old_children[c]) == counters@[cj].1
                                    && old_children[c].enqueued == 0;
                            if old_children[c].suffix@ == suffix@ {
                                lemma_base_and_suffix_determine_queue(counters@[cj].0@, key@);
                            }
                        }
                    }
                    children.push(
                        DynamicQueueStats {
                            suffix: String::from_str(suffix),
                            enqueued: 0,
                            processed: counts.processed,
                            succeeded: counts.succeeded,
                            panicked: counts.panicked,
                            failed: counts.failed,
                        },
                    );
                    proof {
                        let n = children@.len() - 1;
                        assert(children@[n].suffix@ == suffix@);
                        assert forall|c: int| 0 <= c < children@.len() implies exists|cj: int|
                            0 <= cj < ci + 1 && #[trigger] spec_queue_base(counters@[cj].0@) == base@
                                && spec_queue_suffix(counters@[cj].0@) == Some(
                                (#[trigger] children@[c]).suffix@,
                            ) && dynamic_counts(children@[c]) == counters@[cj].1 && children@[c].enqueued
                                == 0 by {
                            if c < n {
                                assert(children@[c] == old_children[c]);
                            } else {
                                assert(spec_queue_base(counters@[ci as int].0@) == base@);
                            }
                        }
                        assert forall|cj: int|
                            0 <= cj < ci + 1 && spec_queue_base(#[trigger] counters@[cj].0@) == base@
                                && spec_queue_suffix(counters@[cj].0@) is Some implies exists|c: int|
                            0 <= c < children@.len() && Some(#[trigger] children@[c].suffix@)
                                == spec_queue_suffix(counters@[cj].0@) by {
                            if cj < ci {
                                let c = choose|c: int|
                                    0 <= c < old_children.len() && Some(#[trigger] old_children[c].suffix@)
                                        == spec_queue_suffix(counters@[cj].0@);
                                assert(children@[c] == old_children[c]);
                            } else {
                                assert(Some(children@[n].suffix@) == spec_queue_suffix(counters@[cj].0@));
                            }
                        }
                    }
                },
                None => {},
            }
        }
        ci = ci + 1;
    }
    children
}

} // verus!

verus! {

/// Turns each group entry into queue statistics with its sub-queues.
fn build_groups(counters: &Vec<(String, QueueResultStats)>, groups: &Vec<(String, QueueResultStats)>) -> (out: Vec<
    QueueStats,
>)
    requires
        keys_unique(counters@),
    ensures
        out@.len() == groups@.len(),
        forall|gi: int|
            0 <= gi < groups@.len() ==> {
                &&& (#[trigger] out@[gi]).key@ == groups@[gi].0@
                &&& group_counts(out@[gi]) == groups@[gi].1
                &&& out@[gi].enqueued == 0
                &&& children_from_counters(counters@, groups@[gi].0@, counters@.len() as int, out@[gi].queues@)
            },
{
    let mut out: Vec<QueueStats> = Vec::new();
    let mut gi: usize = 0;
    while gi < groups.len()
        invariant
            gi <= groups@.len(),
            keys_unique(counters@),
            out@.len() == gi,
            forall|g: int|
                0 <= g < gi ==> {
                    &&& (#[trigger] out@[g]).key@ == groups@[g].0@
                    &&& group_counts(out@[g]) == groups@[g].1
                    &&& out@[g].enqueued == 0
                    &&& children_from_counters(counters@, groups@[g].0@, counters@.len() as int, out@[g].queues@)
                },
        decreases groups@.len() - gi,
    {
        let base = groups[gi].0.as_str();
        let counts = groups[gi].1;
        let children = build_children(counters, base);
        out.push(
            QueueStats {
                key: String::from_str(base),
                enqueued: 0,
                processed: counts.processed,
                succeeded: counts.succeeded,
                panicked: counts.panicked,
                failed: counts.failed,
                queues: children,
            },
        );
        gi = gi + 1;
    }
    out
}

/// The listed queues once the fresh positive cached lengths are added.
pub open spec fn counters_listed_upto(
    queues: Seq<String>,
    filter: bool,
    entries: Seq<(String, i64)>,
    now: i64,
    snapshots: Seq<(String, QueueLengthSnapshot)>,
    upto: int,
    counters: Seq<(String, QueueResultStats)>,
) -> bool {
    forall|k: Seq<char>|
        #[trigger] has_key(counters, k) <==> (in_queues(queues, k) || has_counter_entry(queues, filter, entries, k)
            || exists|j: int|
            0 <= j < upto && (#[trigger] snapshots[j]).0@ == k && match spec_fresh_enqueued(snapshots[j].1, now) {
                Some(n) => n > 0,
                None => false,
            })
}

/// Every counter entry whose queue no kept counter entry names holds zero.
proof fn lemma_zero_is_totals(
    queues: Seq<String>,
    filter: bool,
    entries: Seq<(String, i64)>,
    k: Seq<char>,
)
    requires
        !has_counter_entry(queues, filter, entries, k),
    ensures
        counts_are_queue_totals(spec_zero_counts(), queues, filter, entries, k),
{
    lemma_untouched_queue(queues, filter, entries, k, StatKind::Processed);
    lemma_untouched_queue(queues, filter, entries, k, StatKind::Succeeded);
    lemma_untouched_queue(queues, filter, entries, k, StatKind::Panicked);
    lemma_untouched_queue(queues, filter, entries, k, StatKind::Failed);
}

/// A base that no counter entry has holds zero group totals.
proof fn lemma_zero_is_group_totals(
    queues: Seq<String>,
    filter: bool,
    entries: Seq<(String, i64)>,
    counters: Seq<(String, QueueResultStats)>,
    groups: Seq<(String, QueueResultStats)>,
    g: Seq<char>,
)
    requires
        forall|k: Seq<char>| has_counter_entry(queues, filter, entries, k) ==> #[trigger] has_key(counters, k),
        groups_cover(counters, groups),
        !has_key(groups, g),
    ensures
        counts_are_group_totals(spec_zero_counts(), queues, filter, entries, g),
{
    assert forall|ii: int| 0 <= ii < entries.len() implies !#[trigger] group_counts_for(
        queues,
        filter,
        entries[ii].0@,
        g,
    ) by {
        if group_counts_for(queues, filter, entries[ii].0@, g) {
            let q = entry_queue(counter_entry(queues, filter, entries[ii].0@));
            assert(counts_for(queues, filter, entries[ii].0@, q));
            assert(has_counter_entry(queues, filter, entries, q));
            assert(has_key(counters, q));
            let cj = choose|cj: int| 0 <= cj < counters.len() && #[trigger] counters[cj].0@ == q;
            assert(has_key(groups, spec_queue_base(counters[cj].0@)));
        }
    }
    lemma_untouched_group(queues, filter, entries, g, StatKind::Processed);
    lemma_untouched_group(queues, filter, entries, g, StatKind::Succeeded);
    lemma_untouched_group(queues, filter, entries, g, StatKind::Panicked);
    lemma_untouched_group(queues, filter, entries, g, StatKind::Failed);
}

} // verus!

verus! {

/// The usable lengths taken from the first `upto` snapshot entries.
pub open spec fn out_from_snapshots(
    snapshots: Seq<(String, QueueLengthSnapshot)>,
    now: i64,
    upto: int,
    out: Seq<(String, usize)>,
) -> bool {
    &&& keys_unique(out)
    &&& forall|o: int|
        0 <= o < out.len() ==> exists|j: int|
            0 <= j < upto && (#[trigger] snapshots[j]).0@ == (#[trigger] out[o]).0@ && spec_fresh_enqueued(
                snapshots[j].1,
                now,
            ) == Some(out[o].1)
    &&& forall|j: int|
        0 <= j < upto && spec_fresh_enqueued((#[trigger] snapshots[j]).1, now) is Some ==> has_key(
            out,
            snapshots[j].0@,
        )
}

/// Keeps the fresh cached lengths, and lists the queues whose fresh length
/// is positive.
fn fresh_snapshots(
    queues: &[String],
    stats: &Vec<(String, i64)>,
    filter: bool,
    now: i64,
    snapshots: &Vec<(String, QueueLengthSnapshot)>,
    counters: &mut Vec<(String, QueueResultStats)>,
    groups: &mut Vec<(String, QueueResultStats)>,
) -> (out: Vec<(String, usize)>)
    requires
        counters_hold_totals(queues@, filter, stats@, old(counters)@),
        groups_hold_totals(queues@, filter, stats@, old(groups)@),
        groups_cover(old(counters)@, old(groups)@),
        counters_listed(queues@, filter, stats@, old(counters)@),
        keys_unique(snapshots@),
    ensures
        counters_hold_totals(queues@, filter, stats@, final(counters)@),
        groups_hold_totals(queues@, filter, stats@, final(groups)@),
        groups_cover(final(counters)@, final(groups)@),
        counters_listed_upto(queues@, filter, stats@, now, snapshots@, snapshots@.len() as int, final(counters)@),
        out_from_snapshots(snapshots@, now, snapshots@.len() as int, out@),
{
    let mut out: Vec<(String, usize)> = Vec::new();
    let mut j: usize = 0;
    while j < snapshots.len()
        invariant
            j <= snapshots@.len(),
            keys_unique(snapshots@),
            counters_hold_totals(queues@, filter, stats@, counters@),
            groups_hold_totals(queues@, filter, stats@, groups@),
            groups_cover(counters@, groups@),
            counters_listed_upto(queues@, filter, stats@, now, snapshots@, j as int, counters@),
            out_from_snapshots(snapshots@, now, j as int, out@),
        decreases snapshots@.len() - j,
    {
        let key = snapshots[j].0.as_str();
        let ghost old_counters = counters@;
        let ghost old_groups = groups@;
        let ghost old_out = out@;
        match snapshots[j].1.fresh_enqueued(now) {
            Some(n) => {
                out.push((String::from_str(key), n));
                if n > 0 {
                    ensure_key(counters, key, QueueResultStats::zero());
                    let base = queue_base(key);
                    proof {
                        assert forall|k: Seq<char>|
                            has_counter_entry(queues@, filter, stats@, k) implies #[trigger] has_key(counters@, k) by {
                            lemma_has_key_after_upsert(old_counters, counters@, key@, k);
                        }
                        if !has_key(old_groups, base@) {
                            if !has_key(old_counters, key@) {
                                // The new counter entry's base is the new group's key; no older
                                // counter entry has that base.
                                assert forall|k: Seq<char>|
                                    has_counter_entry(queues@, filter, stats@, k) implies #[trigger] has_key(
                                    old_counters,
                                    k,
                                ) by {}
                                lemma_zero_is_group_totals(queues@, filter, stats@, old_counters, old_groups, base@);
                            } else {
                                let ci = choose|ci: int| 0 <= ci < old_counters.len() && #[trigger] old_counters[ci].0@ == key@;
                                assert(has_key(old_groups, spec_queue_base(old_counters[ci].0@)));
                            }
                        }
                        if !has_key(old_counters, key@) {
                            lemma_zero_is_totals(queues@, filter, stats@, key@);
                        }
                    }
                    let ghost mid_groups = groups@;
                    ensure_key(groups, base, QueueResultStats::zero());
                    proof {
                        assert forall|gi: int| 0 <= gi < groups@.len() implies exists|ci: int|
                            0 <= ci < counters@.len() && #[trigger] spec_queue_base(counters@[ci].0@) == (
                            #[trigger] groups@[gi]).0@ by {
                            if gi < old_groups.len() {
                                assert(groups@[gi] == old_groups[gi]);
                                let ci = choose|ci: int|
                                    0 <= ci < old_counters.len() && #[trigger] spec_queue_base(
                                        old_counters[ci].0@,
                                    ) == (#[trigger] old_groups[gi]).0@;
                                assert(counters@[ci] == old_counters[ci]);
                            } else {
                                assert(has_key(counters@, key@));
                                let ci = choose|ci: int| 0 <= ci < counters@.len() && #[trigger] counters@[ci].0@ == key@;
                                assert(spec_queue_base(counters@[ci].0@) == groups@[gi].0@);
                            }
                        }
                        assert forall|ci: int| 0 <= ci < counters@.len() implies has_key(
                            groups@,
                            spec_queue_base(#[trigger] counters@[ci].0@),
                        ) by {
                            lemma_has_key_after_upsert(old_groups, groups@, base@, spec_queue_base(counters@[ci].0@));
                            if ci < old_counters.len() {
                                assert(counters@[ci] == old_counters[ci]);
                            } else {
                                lemma_has_key_after_upsert(old_counters, counters@, key@, counters@[ci].0@);
                                if counters@[ci].0@ != key@ {
                                    let oi = choose|oi: int| 0 <= oi < old_counters.len() && #[trigger] old_counters[oi].0@ == counters@[ci].0@;
                                    assert(counters@[oi].0@ == counters@[ci].0@);
                                }
                            }
                        }
                    }
                }
            },
            None => {},
        }
        proof {
            let nj = j + 1;
            assert forall|k: Seq<char>|
                #[trigger] has_key(counters@, k) <==> (in_queues(queues@, k) || has_counter_entry(
                    queues@,
                    filter,
                    stats@,
                    k,
                ) || exists|jj: int|
                    0 <= jj < nj && (#[trigger] snapshots@[jj]).0@ == k && match spec_fresh_enqueued(
                        snapshots@[jj].1,
                        now,
                    ) {
                        Some(n) => n > 0,
                        None => false,
                    }) by {
                if counters@ != old_counters {
                    lemma_has_key_after_upsert(old_counters, counters@, key@, k);
                }
            }
            assert forall|o: int| 0 <= o < out@.len() implies exists|jj: int|
                0 <= jj < nj && (#[trigger] snapshots@[jj]).0@ == (#[trigger] out@[o]).0@ && spec_fresh_enqueued(
                    snapshots@[jj].1,
                    now,
                ) == Some(out@[o].1) by {
                if o < old_out.len() {
                    assert(out@[o] == old_out[o]);
                    let jj = choose|jj: int|
                        0 <= jj < j && (#[trigger] snapshots@[jj]).0@ == (#[trigger] old_out[o]).0@
                            && spec_fresh_enqueued(snapshots@[jj].1, now) == Some(old_out[o].1);
                } else {
                    assert(snapshots@[j as int].0@ == out@[o].0@);
                }
            }
            assert forall|jj: int|
                0 <= jj < nj && spec_fresh_enqueued((#[trigger] snapshots@[jj]).1, now) is Some implies has_key(
                out@,
                snapshots@[jj].0@,
            ) by {
                if jj < j {
                    let o = choose|o: int| 0 <= o < old_out.len() && #[trigger] old_out[o].0@ == snapshots@[jj].0@;
                    assert(out@[o] == old_out[o]);
                } else {
                    assert(out@[out@.len() - 1].0@ == snapshots@[jj].0@);
                }
            }
            assert forall|a: int, b: int| 0 <= a < b < out@.len() implies out@[a].0@ != out@[b].0@ by {
                if b >= old_out.len() {
                    assert(out@[a] == old_out[a]);
                    let jj = choose|jj: int|
                        0 <= jj < j && (#[trigger] snapshots@[jj]).0@ == (#[trigger] old_out[a]).0@
                            && spec_fresh_enqueued(snapshots@[jj].1, now) == Some(old_out[a].1);
                    assert(snapshots@[jj].0@ != snapshots@[j as int].0@);
                } else {
                    assert(out@[a] == old_out[a]);
                    assert(out@[b] == old_out[b]);
                }
            }
        }
        j = j + 1;
    }
    out
}

} // verus!

verus! {

/// After all phases, the counter entries are exactly the listed queues.
proof fn lemma_counter_entries_are_listed_queues(
    queues: Seq<String>,
    filter: bool,
    entries: Seq<(String, i64)>,
    now: i64,
    snapshots: Seq<(String, QueueLengthSnapshot)>,
    counters: Seq<(String, QueueResultStats)>,
    k: Seq<char>,
)
    requires
        snapshots_hold(queues, filter, entries, snapshots),
        counters_listed_upto(queues, filter, entries, now, snapshots, snapshots.len() as int, counters),
    ensures
        has_key(counters, k) <==> is_counter_queue(queues, filter, entries, now, k),
{
    let fresh_positive = match spec_fresh_enqueued(snapshot_of(queues, filter, entries, k), now) {
        Some(n) => n > 0,
        None => false,
    };
    let listed_snapshot = exists|j: int|
        0 <= j < snapshots.len() && (#[trigger] snapshots[j]).0@ == k && match spec_fresh_enqueued(
            snapshots[j].1,
            now,
        ) {
            Some(n) => n > 0,
            None => false,
        };
    if fresh_positive {
        if !has_snapshot_entry(queues, filter, entries, k) {
            lemma_untouched_snapshot(queues, filter, entries, k);
        }
        assert(has_key(snapshots, k));
        let j = choose|j: int| 0 <= j < snapshots.len() && #[trigger] snapshots[j].0@ == k;
        assert(snapshots[j].1 == snapshot_of(queues, filter, entries, snapshots[j].0@));
        assert(listed_snapshot);
    }
    if listed_snapshot {
        let j = choose|j: int|
            0 <= j < snapshots.len() && (#[trigger] snapshots[j]).0@ == k && match spec_fresh_enqueued(
                snapshots[j].1,
                now,
            ) {
                Some(n) => n > 0,
                None => false,
            };
        assert(snapshots[j].1 == snapshot_of(queues, filter, entries, snapshots[j].0@));
    }
    assert(has_key(counters, k) <==> (in_queues(queues, k) || has_counter_entry(queues, filter, entries, k)
        || listed_snapshot));
}

/// The usable lengths are the fresh stored snapshots.
proof fn lemma_snapshots_result(
    queues: Seq<String>,
    filter: bool,
    entries: Seq<(String, i64)>,
    now: i64,
    snapshots: Seq<(String, QueueLengthSnapshot)>,
    out: Seq<(String, usize)>,
)
    requires
        snapshots_hold(queues, filter, entries, snapshots),
        out_from_snapshots(snapshots, now, snapshots.len() as int, out),
    ensures
        snapshots_ok(queues, filter, entries, now, out),
{
    assert forall|i: int| 0 <= i < out.len() implies spec_fresh_enqueued(
        snapshot_of(queues, filter, entries, (#[trigger] out[i]).0@),
        now,
    ) == Some(out[i].1) by {
        let j = choose|j: int|
            0 <= j < snapshots.len() && (#[trigger] snapshots[j]).0@ == (#[trigger] out[i]).0@ && spec_fresh_enqueued(
                snapshots[j].1,
                now,
            ) == Some(out[i].1);
        assert(snapshots[j].1 == snapshot_of(queues, filter, entries, snapshots[j].0@));
    }
    assert forall|q: Seq<char>|
        #[trigger] spec_fresh_enqueued(snapshot_of(queues, filter, entries, q), now) is Some implies has_key(out, q) by {
        if !has_snapshot_entry(queues, filter, entries, q) {
            lemma_untouched_snapshot(queues, filter, entries, q);
        }
        assert(has_key(snapshots, q));
        let j = choose|j: int| 0 <= j < snapshots.len() && #[trigger] snapshots[j].0@ == q;
        assert(snapshots[j].1 == snapshot_of(queues, filter, entries, snapshots[j].0@));
        assert(spec_fresh_enqueued(snapshots[j].1, now) is Some);
    }
}

/// The built queue statistics meet [`groups_ok`].
proof fn lemma_groups_result(
    queues: Seq<String>,
    filter: bool,
    entries: Seq<(String, i64)>,
    now: i64,
    snapshots: Seq<(String, QueueLengthSnapshot)>,
    counters: Seq<(String, QueueResultStats)>,
    groups: Seq<(String, QueueResultStats)>,
    out: Seq<QueueStats>,
)
    requires
        counters_hold_totals(queues, filter, entries, counters),
        groups_hold_totals(queues, filter, entries, groups),
        groups_cover(counters, groups),
        snapshots_hold(queues, filter, entries, snapshots),
        counters_listed_upto(queues, filter, entries, now, snapshots, snapshots.len() as int, counters),
        out.len() == groups.len(),
        forall|gi: int|
            0 <= gi < groups.len() ==> {
                &&& (#[trigger] out[gi]).key@ == groups[gi].0@
                &&& group_counts(out[gi]) == groups[gi].1
                &&& out[gi].enqueued == 0
                &&& children_from_counters(counters, groups[gi].0@, counters.len() as int, out[gi].queues@)
            },
    ensures
        groups_ok(queues, filter, entries, now, out),
{
    assert forall|k: Seq<char>| #[trigger] has_key(counters, k) <==> is_counter_queue(queues, filter, entries, now, k) by {
        lemma_counter_entries_are_listed_queues(queues, filter, entries, now, snapshots, counters, k);
    }
    assert forall|i: int, j: int| 0 <= i < j < out.len() implies out[i].key@ != out[j].key@ by {
        assert(out[i].key@ == groups[i].0@);
        assert(out[j].key@ == groups[j].0@);
    }
    assert forall|i: int| 0 <= i < out.len() implies base_is_listed(queues, filter, entries, now, (#[trigger] out[i]).key@) by {
        assert(out[i].key@ == groups[i].0@);
        let ci = choose|ci: int|
            0 <= ci < counters.len() && #[trigger] spec_queue_base(counters[ci].0@) == (#[trigger] groups[i]).0@;
        assert(has_key(counters, counters[ci].0@));
        assert(is_counter_queue(queues, filter, entries, now, counters[ci].0@));
    }
    assert forall|i: int| 0 <= i < out.len() implies {
        &&& (#[trigger] out[i]).enqueued == 0
        &&& counts_are_group_totals(group_counts(out[i]), queues, filter, entries, out[i].key@)
        &&& children_ok(queues, filter, entries, now, out[i].key@, out[i].queues@)
    } by {
        let g = groups[i].0@;
        assert(out[i].key@ == g);
        assert(counts_are_group_totals(groups[i].1, queues, filter, entries, g));
        let children = out[i].queues@;
        assert(children_from_counters(counters, g, counters.len() as int, children));
        assert forall|c: int| 0 <= c < children.len() implies exists|q: Seq<char>|
            #[trigger] is_counter_queue(queues, filter, entries, now, q) && spec_queue_base(q) == g
                && spec_queue_suffix(q) == Some((#[trigger] children[c]).suffix@) && counts_are_queue_totals(
                dynamic_counts(children[c]),
                queues,
                filter,
                entries,
                q,
            ) && children[c].enqueued == 0 by {
            let ci = choose|ci: int|
                0 <= ci < counters.len() && #[trigger] spec_queue_base(counters[ci].0@) == g && spec_queue_suffix(
                    counters[ci].0@,
                ) == Some((#[trigger] children[c]).suffix@) && dynamic_counts(children[c]) == counters[ci].1
                    && children[c].enqueued == 0;
            assert(has_key(counters, counters[ci].0@));
            assert(is_counter_queue(queues, filter, entries, now, counters[ci].0@));
            assert(counts_are_queue_totals(counters[ci].1, queues, filter, entries, counters[ci].0@));
        }
        assert forall|q: Seq<char>|
            #[trigger] is_counter_queue(queues, filter, entries, now, q) && spec_queue_base(q) == g
                && spec_queue_suffix(q) is Some implies exists|c: int|
            0 <= c < children.len() && Some(#[trigger] children[c].suffix@) == spec_queue_suffix(q) by {
            assert(has_key(counters, q));
            let ci = choose|ci: int| 0 <= ci < counters.len() && #[trigger] counters[ci].0@ == q;
            assert(spec_queue_base(counters[ci].0@) == g);
        }
    }
    assert forall|q: Seq<char>| #[trigger] is_counter_queue(queues, filter, entries, now, q) implies exists|i: int|
        0 <= i < out.len() && (#[trigger] out[i]).key@ == spec_queue_base(q) by {
        assert(has_key(counters, q));
        let ci = choose|ci: int| 0 <= ci < counters.len() && #[trigger] counters[ci].0@ == q;
        assert(has_key(groups, spec_queue_base(counters[ci].0@)));
        let gi = choose|gi: int| 0 <= gi < groups.len() && #[trigger] groups[gi].0@ == spec_queue_base(q);
        assert(out[gi].key@ == groups[gi].0@);
    }
}

/// Aggregates stored queue statistics.
///
/// `stats` holds the stored entries, keyed `<queue>:<stat>`: `processed`,
/// `succeeded`, `panicked` and `failed` add to the queue's counters, any
/// other name only keeps the queue listed, and `enqueued` / `enqueued_at`
/// form a cached queue length refreshed at a time in seconds. Entries
/// without `:` are ignored; with `filter`, so are entries whose queue has a
/// base no selected queue has.
///
/// Returns one statistics entry per base of a listed queue (a selected
/// queue, a queue with a kept counter, or a queue with a fresh positive
/// cached length), each with its dynamic sub-queues, and the usable cached
/// lengths (see [`spec_fresh_enqueued`]). Lengths start at zero; the caller
/// fills them from live reads. The stored counters must fit in `i64`
/// however they are summed ([`counters_fit`]).
pub fn aggregate_queue_stats(
    queues: &[String],
    stats: Vec<(String, i64)>,
    filter: bool,
    now: i64,
) -> (r: (Vec<QueueStats>, Vec<(String, usize)>))
    requires
        counters_fit(queues@, filter, stats@),
    ensures
        groups_ok(queues@, filter, stats@, now, r.0@),
        snapshots_ok(queues@, filter, stats@, now, r.1@),
{
    let (mut counters, mut groups) = seed_counters(queues);
    proof {
        assert forall|k: Seq<char>| #[trigger] has_key(counters@, k) <==> (in_queues(queues@, k) || has_counter_entry(
            queues@,
            filter,
            Seq::empty(),
            k,
        )) by {}
        assert(counters_hold_totals(queues@, filter, Seq::empty(), counters@));
        assert(groups_hold_totals(queues@, filter, Seq::empty(), groups@));
    }
    let snapshots = collect_entries(queues, &stats, filter, &mut counters, &mut groups);
    let enqueued = fresh_snapshots(queues, &stats, filter, now, &snapshots, &mut counters, &mut groups);
    let out = build_groups(&counters, &groups);
    proof {
        lemma_snapshots_result(queues@, filter, stats@, now, snapshots@, enqueued@);
        lemma_groups_result(queues@, filter, stats@, now, snapshots@, counters@, groups@, out@);
    }
    (out, enqueued)
}

/// The value stored under `key` in an association list: that of its last
/// entry with the key, as a map collected from the list keeps it.
pub open spec fn lookup_last(list: Seq<(String, i64)>, key: Seq<char>) -> Option<i64>
    decreases list.len(),
{
    if list.len() == 0 {
        None
    } else if list.last().0@ == key {
        Some(list.last().1)
    } else {
        lookup_last(list.drop_last(), key)
    }
}

/// The queue length a rate window starts from: the length the window's
/// oldest cached-length hash holds for `queue`, or zero when there is no
/// hash, the hash holds no length for it, or the length is not a `usize`.
pub open spec fn spec_window_start_enqueued(hashes: Seq<Vec<(String, i64)>>, queue: Seq<char>) -> int {
    if hashes.len() == 0 {
        0
    } else {
        match lookup_last(hashes[0]@, queue) {
            Some(v) => if 0 <= v && v <= usize::MAX {
                v as int
            } else {
                0
            },
            None => 0,
        }
    }
}

/// The queue length a rate window of `queue` starts from, read from the
/// window's cached-length hashes, oldest first.
pub fn window_start_enqueued(queue: &str, queue_length_hashes: &Vec<Vec<(String, i64)>>) -> (r: usize)
    ensures
        r == spec_window_start_enqueued(queue_length_hashes@, queue@),
{
    if queue_length_hashes.len() == 0 {
        return 0;
    }
    let first = &queue_length_hashes[0];
    let mut i: usize = first.len();
    proof {
        assert(first@.take(first@.len() as int) =~= first@);
    }
    while i > 0
        invariant
            queue_length_hashes@.len() > 0,
            i <= first@.len(),
            first@ == queue_length_hashes@[0]@,
            lookup_last(first@, queue@) == lookup_last(first@.take(i as int), queue@),
        decreases i,
    {
        let ghost prefix = first@.take(i as int);
        proof {
            assert(prefix.drop_last() =~= first@.take(i - 1));
            assert(prefix.last() == first@[i - 1]);
        }
        if str_eq(first[i - 1].0.as_str(), queue) {
            let v = first[i - 1].1;
            if v >= 0 && (v as u64) <= (usize::MAX as u64) {
                proof {
                    assert(v as u64 == v);
                    assert(usize::MAX as u64 == usize::MAX);
                }
                return v as usize;
            } else {
                return 0;
            }
        }
        i = i - 1;
    }
    proof {
        assert(first@.take(0) =~= Seq::<(String, i64)>::empty());
    }
    0
}

} // verus!
