# oxana

The decision-making core of the Oxana Redis job queue, written in Verus and
proved against its contracts.

- `src/` is the verified library: the Redis key layout (`storage_keys`),
  the aggregation of stored queue counters and cached lengths
  (`queue_stats`), queue and worker registration and the catalog built from
  it (`queue`, `config`), the executor's batch checks, retry policies,
  failure metadata and retry-or-kill decisions (`executor`, `failure`), the
  drain and shutdown bookkeeping (`drainer`, `launcher`), the rows of the
  Prometheus export (`prometheus`), the dashboard's links, pagination and
  navigation (`web`, `pagination`), and worker groups (`worker_group`).
  `text` and `sorting` hold the string and ordering helpers the rest is
  proved with.
- `app/` is the unverified shell: Sentry reporting, the Prometheus registry,
  panic capture, tokio shutdown and drain plumbing, and the `WorkerGroup`
  derive expansion. It calls the library for every decision.
- `tests/` exercises the library on concrete values.

Not here: the dashboard's HTML pages and router (they are markup in the
Topcoat framework, which does not build with this toolchain), and the Redis
storage, runtime and coordinator loops that drive the decisions above. The
library holds those decisions (which queues and cron workers run, how a
batch is checked, retried, dead-lettered or killed, how shutdown ends), and
`app/` holds the parts of the surrounding plumbing that need no storage.

Laws that span several functions are public proof functions next to the
functions they relate, for example `lemma_last_queue_registration_wins`
(`config`), `lemma_override_changes_one_field` (`storage_keys`) and
`lemma_report_matches_actions` (`executor`).
