//! Verified core of the Oxana job queue: the storage key layout, queue
//! statistics aggregation, registration catalogs, failure bookkeeping and the
//! decisions taken by the executor, the drainer and the launcher.

pub mod storage_keys;
pub mod text;
pub mod queue_stats;
pub mod pagination;
pub mod sorting;
pub mod queue;
pub mod json;
pub mod config;
pub mod web;
pub mod failure;
pub mod executor;
pub mod drainer;
pub mod launcher;
pub mod prometheus;
pub mod worker_group;

pub use storage_keys::{KeyField, StorageKeys, StorageKeysView};
pub use queue_stats::{DynamicQueueStats, QueueStats};
pub use drainer::DrainStats;
pub use failure::{FailedJobMetadata, WorkerFailure, WorkerFailureMetadata, WorkerFailureReport};
pub use worker_group::{worker_group_id, WorkerGroup, WorkerGroups};
