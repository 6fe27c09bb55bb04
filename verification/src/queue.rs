//! Queue configuration: what a queue is called, how many jobs of it run at
//! once, and how it is throttled.
use vstd::prelude::*;
use vstd::string::*;
use crate::text::str_eq;

verus! {

/// A queue with a fixed key, or a family of dynamic queues sharing a prefix
/// (`<prefix>#<suffix>`).
pub enum QueueKind {
    Static { key: String },
    Dynamic { prefix: String },
}

/// How many jobs of a queue run at once: a fixed number, or a default that
/// may be overridden at runtime.
#[derive(Clone, Copy, Debug, PartialEq, Eq, Structural)]
pub enum QueueConcurrency {
    Fixed(usize),
    Dynamic(usize),
}

impl QueueConcurrency {
    /// The configured number of concurrent jobs.
    pub fn default_concurrency(&self) -> (r: usize)
        ensures
            r == match *self {
                QueueConcurrency::Fixed(n) => n,
                QueueConcurrency::Dynamic(n) => n,
            },
    {
        match *self {
            QueueConcurrency::Fixed(n) => n,
            QueueConcurrency::Dynamic(n) => n,
        }
    }

    /// Whether the concurrency may be overridden at runtime.
    pub fn is_dynamic(&self) -> (r: bool)
        ensures
            r == (*self is Dynamic),
    {
        match *self {
            QueueConcurrency::Fixed(_) => false,
            QueueConcurrency::Dynamic(_) => true,
        }
    }
}

/// At most `limit` jobs start per window of `window_ms` milliseconds.
#[derive(Clone, Copy, Debug, PartialEq, Eq, Structural)]
pub struct QueueThrottle {
    pub window_ms: u64,
    pub limit: u64,
}

/// A queue's configuration.
pub struct QueueConfig {
    pub kind: QueueKind,
    pub concurrency: QueueConcurrency,
    pub throttle: Option<QueueThrottle>,
}

/// What identifies a queue registration: its kind and its key or prefix.
pub struct QueueId {
    pub dynamic: bool,
    pub name: Seq<char>,
}

impl QueueConfig {
    /// The identity of this queue.
    pub open spec fn id(&self) -> QueueId {
        match self.kind {
            QueueKind::Static { key } => QueueId { dynamic: false, name: key@ },
            QueueKind::Dynamic { prefix } => QueueId { dynamic: true, name: prefix@ },
        }
    }

    /// The key of a static queue, or the prefix of a dynamic one.
    pub fn key(&self) -> (r: &str)
        ensures
            r@ == self.id().name,
    {
        match &self.kind {
            QueueKind::Static { key } => key.as_str(),
            QueueKind::Dynamic { prefix } => prefix.as_str(),
        }
    }

    /// Whether the queue is a family of dynamic queues.
    pub fn is_dynamic(&self) -> (r: bool)
        ensures
            r == self.id().dynamic,
    {
        match &self.kind {
            QueueKind::Static { .. } => false,
            QueueKind::Dynamic { .. } => true,
        }
    }

    /// The key of a static queue.
    pub fn static_key(&self) -> (r: Option<&str>)
        ensures
            r is Some <==> !self.id().dynamic,
            r matches Some(k) ==> k@ == self.id().name,
    {
        match &self.kind {
            QueueKind::Static { key } => Some(key.as_str()),
            QueueKind::Dynamic { .. } => None,
        }
    }

    /// Whether two configurations register the same queue.
    pub fn same_queue(&self, other: &QueueConfig) -> (r: bool)
        ensures
            r == (self.id() == other.id()),
    {
        self.is_dynamic() == other.is_dynamic() && str_eq(self.key(), other.key())
    }

    /// A copy of the configuration.
    pub fn copy(&self) -> (r: QueueConfig)
        ensures
            r.id() == self.id(),
            r.concurrency == self.concurrency,
            r.throttle == self.throttle,
    {
        let kind = match &self.kind {
            QueueKind::Static { key } => QueueKind::Static { key: String::from_str(key.as_str()) },
            QueueKind::Dynamic { prefix } => QueueKind::Dynamic { prefix: String::from_str(prefix.as_str()) },
        };
        QueueConfig { kind, concurrency: self.concurrency, throttle: self.throttle }
    }
}

/// No queue is registered twice in `queues`.
pub open spec fn queue_ids_distinct(queues: Seq<QueueConfig>) -> bool {
    forall|i: int, j: int| 0 <= i < j < queues.len() ==> queues[i].id() != queues[j].id()
}

/// Whether `queues` registers the queue `id`.
pub open spec fn has_queue(queues: Seq<QueueConfig>, id: QueueId) -> bool {
    exists|i: int| 0 <= i < queues.len() && #[trigger] queues[i].id() == id
}

/// The position of the first registration of `id` in `queues`, if any.
pub fn find_queue(queues: &Vec<QueueConfig>, config: &QueueConfig) -> (r: Option<usize>)
    ensures
        r matches Some(i) ==> i < queues@.len() && queues@[i as int].id() == config.id(),
        r is None ==> !has_queue(queues@, config.id()),
{
    let mut i: usize = 0;
    while i < queues.len()
        invariant
            i <= queues@.len(),
            forall|j: int| 0 <= j < i ==> queues@[j].id() != config.id(),
        decreases queues@.len() - i,
    {
        if queues[i].same_queue(config) {
            return Some(i);
        }
        i = i + 1;
    }
    None
}

} // verus!
