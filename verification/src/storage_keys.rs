//! The Redis key layout used by the storage.
use vstd::prelude::*;
use vstd::string::*;

verus! {

/// Names one key or prefix of a [`StorageKeys`] layout.
#[derive(Clone, Copy, Debug, PartialEq, Eq)]
pub enum KeyField {
    Jobs,
    Dead,
    Schedule,
    Retry,
    QueuePrefix,
    ProcessingPrefix,
    Processes,
    ProcessesData,
    Stats,
    QueueConfigs,
    MetricsPrefix,
    ThrottlerPrefix,
}

/// Mathematical model of a key layout: the namespace and one character
/// sequence per key or prefix.
pub struct StorageKeysView {
    pub namespace: Seq<char>,
    pub jobs: Seq<char>,
    pub dead: Seq<char>,
    pub schedule: Seq<char>,
    pub retry: Seq<char>,
    pub queue_prefix: Seq<char>,
    pub processing_prefix: Seq<char>,
    pub processes: Seq<char>,
    pub processes_data: Seq<char>,
    pub stats: Seq<char>,
    pub queue_configs: Seq<char>,
    pub metrics_prefix: Seq<char>,
    pub throttler_prefix: Seq<char>,
}

impl StorageKeysView {
    /// The key or prefix named by `field`.
    pub open spec fn get(self, field: KeyField) -> Seq<char> {
        match field {
            KeyField::Jobs => self.jobs,
            KeyField::Dead => self.dead,
            KeyField::Schedule => self.schedule,
            KeyField::Retry => self.retry,
            KeyField::QueuePrefix => self.queue_prefix,
            KeyField::ProcessingPrefix => self.processing_prefix,
            KeyField::Processes => self.processes,
            KeyField::ProcessesData => self.processes_data,
            KeyField::Stats => self.stats,
            KeyField::QueueConfigs => self.queue_configs,
            KeyField::MetricsPrefix => self.metrics_prefix,
            KeyField::ThrottlerPrefix => self.throttler_prefix,
        }
    }

    /// The layout with the key or prefix named by `field` replaced by `key`.
    pub open spec fn set(self, field: KeyField, key: Seq<char>) -> StorageKeysView {
        match field {
            KeyField::Jobs => StorageKeysView { jobs: key, ..self },
            KeyField::Dead => StorageKeysView { dead: key, ..self },
            KeyField::Schedule => StorageKeysView { schedule: key, ..self },
            KeyField::Retry => StorageKeysView { retry: key, ..self },
            KeyField::QueuePrefix => StorageKeysView { queue_prefix: key, ..self },
            KeyField::ProcessingPrefix => StorageKeysView { processing_prefix: key, ..self },
            KeyField::Processes => StorageKeysView { processes: key, ..self },
            KeyField::ProcessesData => StorageKeysView { processes_data: key, ..self },
            KeyField::Stats => StorageKeysView { stats: key, ..self },
            KeyField::QueueConfigs => StorageKeysView { queue_configs: key, ..self },
            KeyField::MetricsPrefix => StorageKeysView { metrics_prefix: key, ..self },
            KeyField::ThrottlerPrefix => StorageKeysView { throttler_prefix: key, ..self },
        }
    }
}

/// The namespace a layout is built for: the given one, or `oxanus` when it
/// is empty.
pub open spec fn effective_namespace(namespace: Seq<char>) -> Seq<char> {
    if namespace.len() == 0 {
        "oxanus"@
    } else {
        namespace
    }
}

/// The structure name appended to the namespace for each namespaced key.
pub open spec fn structure_suffix(field: KeyField) -> Seq<char> {
    match field {
        KeyField::Jobs => ":jobs"@,
        KeyField::Dead => ":dead"@,
        KeyField::Schedule => ":schedule"@,
        KeyField::Retry => ":retry"@,
        KeyField::QueuePrefix => ":queue"@,
        KeyField::ProcessingPrefix => ":processing"@,
        KeyField::Processes => ":processes"@,
        KeyField::ProcessesData => ":processes_data"@,
        KeyField::Stats => ":stats"@,
        KeyField::QueueConfigs => ":queue_configs"@,
        KeyField::MetricsPrefix => ":metrics"@,
        KeyField::ThrottlerPrefix => ":throttler"@,
    }
}

/// The default layout of a namespace: every key is
/// `<namespace><structure_suffix>`, except the throttle windows, which stay
/// under `oxana:throttler`.
pub open spec fn default_layout(namespace: Seq<char>) -> StorageKeysView {
    let ns = effective_namespace(namespace);
    StorageKeysView {
        namespace: ns,
        jobs: ns + structure_suffix(KeyField::Jobs),
        dead: ns + structure_suffix(KeyField::Dead),
        schedule: ns + structure_suffix(KeyField::Schedule),
        retry: ns + structure_suffix(KeyField::Retry),
        queue_prefix: ns + structure_suffix(KeyField::QueuePrefix),
        processing_prefix: ns + structure_suffix(KeyField::ProcessingPrefix),
        processes: ns + structure_suffix(KeyField::Processes),
        processes_data: ns + structure_suffix(KeyField::ProcessesData),
        stats: ns + structure_suffix(KeyField::Stats),
        queue_configs: ns + structure_suffix(KeyField::QueueConfigs),
        metrics_prefix: ns + structure_suffix(KeyField::MetricsPrefix),
        throttler_prefix: "oxana:throttler"@,
    }
}

/// The Redis keys a storage reads and writes.
///
/// [`StorageKeys::new`] builds the default layout for a namespace. Each
/// `with_*` method overrides one key or prefix. Prefixes are extended with
/// `:<name>` by the storage: a queue list is `<queue_prefix>:<queue>`, a
/// processing list `<processing_prefix>:<process>`.
#[derive(Debug, Clone, PartialEq, Eq)]
pub struct StorageKeys {
    namespace: String,
    jobs: String,
    dead: String,
    schedule: String,
    retry: String,
    queue_prefix: String,
    processing_queue_prefix: String,
    processes: String,
    processes_data: String,
    stats: String,
    queue_configs: String,
    metrics_prefix: String,
    throttler_prefix: String,
}

impl View for StorageKeys {
    type V = StorageKeysView;

    closed spec fn view(&self) -> StorageKeysView {
        StorageKeysView {
            namespace: self.namespace@,
            jobs: self.jobs@,
            dead: self.dead@,
            schedule: self.schedule@,
            retry: self.retry@,
            queue_prefix: self.queue_prefix@,
            processing_prefix: self.processing_queue_prefix@,
            processes: self.processes@,
            processes_data: self.processes_data@,
            stats: self.stats@,
            queue_configs: self.queue_configs@,
            metrics_prefix: self.metrics_prefix@,
            throttler_prefix: self.throttler_prefix@,
        }
    }
}

/// `namespace` followed by `suffix`, as a new string.
fn joined(namespace: &str, suffix: &str) -> (res: String)
    ensures
        res@ == namespace@ + suffix@,
{
    String::from_str(namespace).concat(suffix)
}

impl StorageKeys {
    /// Builds the default layout for a namespace: every key is
    /// `<namespace>:<structure>`, except the throttle windows, which stay
    /// under `oxana:throttler`. An empty namespace falls back to `oxanus`.
    pub fn new(namespace: &str) -> (keys: StorageKeys)
        ensures
            keys@ == default_layout(namespace@),
    {
        let ns: &str = if namespace.is_empty() {
            "oxanus"
        } else {
            namespace
        };
        StorageKeys {
            jobs: joined(ns, ":jobs"),
            dead: joined(ns, ":dead"),
            schedule: joined(ns, ":schedule"),
            retry: joined(ns, ":retry"),
            queue_prefix: joined(ns, ":queue"),
            processing_queue_prefix: joined(ns, ":processing"),
            processes: joined(ns, ":processes"),
            processes_data: joined(ns, ":processes_data"),
            stats: joined(ns, ":stats"),
            queue_configs: joined(ns, ":queue_configs"),
            metrics_prefix: joined(ns, ":metrics"),
            throttler_prefix: String::from_str("oxana:throttler"),
            namespace: String::from_str(ns),
        }
    }

    /// The namespace the layout was built from.
    pub fn namespace(&self) -> (r: &str)
        ensures
            r@ == self@.namespace,
    {
        self.namespace.as_str()
    }

    /// The hash of stored jobs, keyed by job ID.
    pub fn jobs(&self) -> (r: &str)
        ensures
            r@ == self@.get(KeyField::Jobs),
    {
        self.jobs.as_str()
    }

    /// The dead-letter list.
    pub fn dead(&self) -> (r: &str)
        ensures
            r@ == self@.get(KeyField::Dead),
    {
        self.dead.as_str()
    }

    /// The sorted set of scheduled job IDs.
    pub fn schedule(&self) -> (r: &str)
        ensures
            r@ == self@.get(KeyField::Schedule),
    {
        self.schedule.as_str()
    }

    /// The sorted set of job IDs waiting to be retried.
    pub fn retry(&self) -> (r: &str)
        ensures
            r@ == self@.get(KeyField::Retry),
    {
        self.retry.as_str()
    }

    /// The prefix of the pending lists, one per queue.
    pub fn queue_prefix(&self) -> (r: &str)
        ensures
            r@ == self@.get(KeyField::QueuePrefix),
    {
        self.queue_prefix.as_str()
    }

    /// The prefix of the processing lists, one per process.
    pub fn processing_prefix(&self) -> (r: &str)
        ensures
            r@ == self@.get(KeyField::ProcessingPrefix),
    {
        self.processing_queue_prefix.as_str()
    }

    /// The sorted set of live process IDs, scored by last heartbeat.
    pub fn processes(&self) -> (r: &str)
        ensures
            r@ == self@.get(KeyField::Processes),
    {
        self.processes.as_str()
    }

    /// The hash of process records, keyed by process ID.
    pub fn processes_data(&self) -> (r: &str)
        ensures
            r@ == self@.get(KeyField::ProcessesData),
    {
        self.processes_data.as_str()
    }

    /// The hash of per-queue counters.
    pub fn stats(&self) -> (r: &str)
        ensures
            r@ == self@.get(KeyField::Stats),
    {
        self.stats.as_str()
    }

    /// The hash of runtime queue configuration, keyed by queue name.
    pub fn queue_configs(&self) -> (r: &str)
        ensures
            r@ == self@.get(KeyField::QueueConfigs),
    {
        self.queue_configs.as_str()
    }

    /// The prefix of the per-minute job metrics keys.
    pub fn metrics_prefix(&self) -> (r: &str)
        ensures
            r@ == self@.get(KeyField::MetricsPrefix),
    {
        self.metrics_prefix.as_str()
    }

    /// The prefix of the throttle windows, one per throttled queue.
    pub fn throttler_prefix(&self) -> (r: &str)
        ensures
            r@ == self@.get(KeyField::ThrottlerPrefix),
    {
        self.throttler_prefix.as_str()
    }

    /// Overrides the hash of stored jobs.
    pub fn with_jobs(self, key: &str) -> (r: StorageKeys)
        ensures
            r@ == self@.set(KeyField::Jobs, key@),
    {
        StorageKeys { jobs: String::from_str(key), ..self }
    }

    /// Overrides the dead-letter list.
    pub fn with_dead(self, key: &str) -> (r: StorageKeys)
        ensures
            r@ == self@.set(KeyField::Dead, key@),
    {
        StorageKeys { dead: String::from_str(key), ..self }
    }

    /// Overrides the sorted set of scheduled job IDs.
    pub fn with_schedule(self, key: &str) -> (r: StorageKeys)
        ensures
            r@ == self@.set(KeyField::Schedule, key@),
    {
        StorageKeys { schedule: String::from_str(key), ..self }
    }

    /// Overrides the sorted set of job IDs waiting to be retried.
    pub fn with_retry(self, key: &str) -> (r: StorageKeys)
        ensures
            r@ == self@.set(KeyField::Retry, key@),
    {
        StorageKeys { retry: String::from_str(key), ..self }
    }

    /// Overrides the prefix of the pending lists.
    pub fn with_queue_prefix(self, prefix: &str) -> (r: StorageKeys)
        ensures
            r@ == self@.set(KeyField::QueuePrefix, prefix@),
    {
        StorageKeys { queue_prefix: String::from_str(prefix), ..self }
    }

    /// Overrides the prefix of the processing lists.
    pub fn with_processing_prefix(self, prefix: &str) -> (r: StorageKeys)
        ensures
            r@ == self@.set(KeyField::ProcessingPrefix, prefix@),
    {
        StorageKeys { processing_queue_prefix: String::from_str(prefix), ..self }
    }

    /// Overrides the sorted set of live process IDs.
    pub fn with_processes(self, key: &str) -> (r: StorageKeys)
        ensures
            r@ == self@.set(KeyField::Processes, key@),
    {
        StorageKeys { processes: String::from_str(key), ..self }
    }

    /// Overrides the hash of process records.
    pub fn with_processes_data(self, key: &str) -> (r: StorageKeys)
        ensures
            r@ == self@.set(KeyField::ProcessesData, key@),
    {
        StorageKeys { processes_data: String::from_str(key), ..self }
    }

    /// Overrides the hash of per-queue counters.
    pub fn with_stats(self, key: &str) -> (r: StorageKeys)
        ensures
            r@ == self@.set(KeyField::Stats, key@),
    {
        StorageKeys { stats: String::from_str(key), ..self }
    }

    /// Overrides the hash of runtime queue configuration.
    pub fn with_queue_configs(self, key: &str) -> (r: StorageKeys)
        ensures
            r@ == self@.set(KeyField::QueueConfigs, key@),
    {
        StorageKeys { queue_configs: String::from_str(key), ..self }
    }

    /// Overrides the prefix of the per-minute job metrics keys.
    pub fn with_metrics_prefix(self, prefix: &str) -> (r: StorageKeys)
        ensures
            r@ == self@.set(KeyField::MetricsPrefix, prefix@),
    {
        StorageKeys { metrics_prefix: String::from_str(prefix), ..self }
    }

    /// Overrides the prefix of the throttle windows, for example to bring
    /// them under the namespace.
    pub fn with_throttler_prefix(self, prefix: &str) -> (r: StorageKeys)
        ensures
            r@ == self@.set(KeyField::ThrottlerPrefix, prefix@),
    {
        StorageKeys { throttler_prefix: String::from_str(prefix), ..self }
    }
}

/// An override sets the key it names: reading that key back gives the new
/// value.
pub proof fn lemma_override_then_read(keys: StorageKeysView, field: KeyField, key: Seq<char>)
    ensures
        keys.set(field, key).get(field) == key,
{
}

/// An override changes one key only: every other key, and the namespace,
/// keep their value.
pub proof fn lemma_override_changes_one_field(
    keys: StorageKeysView,
    field: KeyField,
    other: KeyField,
    key: Seq<char>,
)
    requires
        field != other,
    ensures
        keys.set(field, key).get(other) == keys.get(other),
        keys.set(field, key).namespace == keys.namespace,
{
}

/// Overrides of two different keys commute, and a second override of the
/// same key replaces the first.
pub proof fn lemma_overrides_commute(
    keys: StorageKeysView,
    a: KeyField,
    b: KeyField,
    ka: Seq<char>,
    kb: Seq<char>,
)
    ensures
        a != b ==> keys.set(a, ka).set(b, kb) == keys.set(b, kb).set(a, ka),
        keys.set(a, ka).set(a, kb) == keys.set(a, kb),
{
}

/// In the default layout every namespaced key starts with the namespace and
/// the throttle windows stay under `oxana:throttler`, whatever the namespace.
pub proof fn lemma_default_layout_is_namespaced(namespace: Seq<char>, field: KeyField)
    ensures
        field != KeyField::ThrottlerPrefix ==> default_layout(namespace).get(field)
            == effective_namespace(namespace) + structure_suffix(field),
        default_layout(namespace).get(KeyField::ThrottlerPrefix) == "oxana:throttler"@,
        effective_namespace(namespace).len() > 0,
{
    reveal_strlit("oxanus");
}

} // verus!
