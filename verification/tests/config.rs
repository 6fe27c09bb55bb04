use oxana::config::{
    Config, Job, OnDemandJobRegistration, RuntimeSettings, Worker, WorkerConfig, WorkerConfigKind,
};
use oxana::queue::{QueueConcurrency, QueueConfig, QueueKind, QueueThrottle};

#[allow(dead_code)]
struct PlainJob {
    value: String,
}

struct PlainWorker;

impl Job for PlainJob {
    fn name() -> String {
        "oxana::config::tests::PlainJob".to_string()
    }
}

impl Worker<PlainJob> for PlainWorker {
    fn worker_name() -> String {
        "oxana::config::tests::PlainWorker".to_string()
    }
}

#[allow(dead_code)]
struct ZetaJob {
    value: String,
}

struct ZetaWorker;

impl Job for ZetaJob {
    fn name() -> String {
        "oxana::config::tests::ZetaJob".to_string()
    }

    fn on_demand_args_template() -> Option<serde_json::Value> {
        Some(serde_json::from_str(r#"{"value": ""}"#).unwrap())
    }
}

impl Worker<ZetaJob> for ZetaWorker {
    fn worker_name() -> String {
        "oxana::config::tests::ZetaWorker".to_string()
    }
}

#[allow(dead_code)]
struct AlphaJob {
    id: u64,
    cost: u64,
}

struct AlphaWorker;

impl Job for AlphaJob {
    fn name() -> String {
        "oxana::config::tests::AlphaJob".to_string()
    }

    fn on_demand_args_template() -> Option<serde_json::Value> {
        Some(serde_json::from_str(r#"{"id": 0, "cost": 0}"#).unwrap())
    }
}

impl Worker<AlphaJob> for AlphaWorker {
    fn worker_name() -> String {
        "oxana::config::tests::AlphaWorker".to_string()
    }
}

struct CronCompatJob;

struct CronCompatWorker;

impl Job for CronCompatJob {
    fn name() -> String {
        "oxana::config::tests::CronCompatJob".to_string()
    }
}

impl Worker<CronCompatJob> for CronCompatWorker {
    fn worker_name() -> String {
        "oxana::config::tests::CronCompatWorker".to_string()
    }

    fn to_config() -> WorkerConfigKind {
        WorkerConfigKind::Cron {
            schedule: "*/5 * * * * *".to_string(),
            queue_key: "cron_compat".to_string(),
            resurrect: true,
        }
    }

    fn cron_queue_config() -> Option<QueueConfig> {
        Some(static_queue("cron_compat", 1))
    }
}

fn static_queue(key: &str, concurrency: usize) -> QueueConfig {
    QueueConfig {
        kind: QueueKind::Static {
            key: key.to_string(),
        },
        concurrency: QueueConcurrency::Fixed(concurrency),
        throttle: None,
    }
}

fn dynamic_queue(prefix: &str, concurrency: usize) -> QueueConfig {
    QueueConfig {
        kind: QueueKind::Dynamic {
            prefix: prefix.to_string(),
        },
        concurrency: QueueConcurrency::Dynamic(concurrency),
        throttle: Some(QueueThrottle {
            window_ms: 1000,
            limit: 5,
        }),
    }
}

#[test]
fn catalog_lists_only_on_demand_jobs_sorted() {
    let config = Config::<()>::new()
        .register_worker::<PlainWorker, PlainJob>(false)
        .register_worker::<ZetaWorker, ZetaJob>(false)
        .register_worker::<AlphaWorker, AlphaJob>(false);

    let names = config
        .catalog()
        .on_demand_jobs
        .into_iter()
        .map(|job| job.name)
        .collect::<Vec<_>>();

    assert_eq!(
        names,
        vec![
            "oxana::config::tests::AlphaJob".to_string(),
            "oxana::config::tests::ZetaJob".to_string(),
        ]
    );
}

#[test]
fn catalog_separates_cron_workers_and_sorts_every_list() {
    let config = Config::<()>::new()
        .register_worker::<ZetaWorker, ZetaJob>(false)
        .register_worker::<CronCompatWorker, CronCompatJob>(true)
        .register_worker::<PlainWorker, PlainJob>(false);
    let catalog = config.catalog();
    let workers: Vec<_> = catalog.workers.iter().map(|w| w.name.clone()).collect();
    let mut expected = vec![PlainJob::name(), ZetaJob::name()];
    expected.sort();
    assert_eq!(workers, expected);
    assert_eq!(catalog.cron_workers.len(), 1);
    assert_eq!(catalog.cron_workers[0].name, CronCompatJob::name());
    assert_eq!(catalog.cron_workers[0].queue_key, "cron_compat");
    // The cron worker's queue is registered implicitly.
    assert_eq!(catalog.queues.len(), 1);
    assert_eq!(catalog.queues[0].key, "cron_compat");
}

#[test]
fn worker_registration_accepts_canonical_and_legacy_worker_names() {
    let config = Config::<()>::new().register_worker::<PlainWorker, PlainJob>(false);
    let registry = config.registry();
    assert_eq!(registry.resolve(&PlainJob::name()), Some(0));
    assert_eq!(registry.resolve("oxana::config::tests::PlainWorker"), Some(0));
    assert_eq!(registry.resolve("unknown"), None);

    let worker_names = config
        .catalog()
        .workers
        .into_iter()
        .map(|worker| worker.name)
        .collect::<Vec<_>>();
    assert_eq!(worker_names, vec![PlainJob::name()]);
}

#[test]
fn cron_worker_uses_canonical_catalog_and_legacy_consumer_alias() {
    let config = Config::<()>::new().register_worker::<CronCompatWorker, CronCompatJob>(true);
    let registry = config.registry();

    let scheduled = registry
        .resolve(&CronCompatJob::name())
        .expect("the cron worker is registered under its job name");
    assert!(matches!(
        registry.registrations()[scheduled].kind,
        WorkerConfigKind::Cron { .. }
    ));
    assert!(registry
        .registrations()
        .iter()
        .all(|worker| worker.name != CronCompatWorker::worker_name()));

    let catalog = config.catalog();
    assert_eq!(catalog.cron_workers.len(), 1);
    assert_eq!(
        catalog
            .cron_workers
            .first()
            .expect("one cron worker should be cataloged")
            .name
            .as_str(),
        CronCompatJob::name()
    );

    assert_eq!(registry.resolve(&CronCompatWorker::worker_name()), Some(scheduled));
}

#[test]
fn queue_registration_is_last_write_wins_and_defaults_never_override() {
    let mut config = Config::<()>::new();
    config.register_queue_with(static_queue("mail", 2));
    config.register_queue_with(static_queue("mail", 7));
    config.register_default_queue(static_queue("mail", 1));
    config.register_default_queue(static_queue("cron", 3));
    config.register_queue_with(dynamic_queue("mail", 4));
    let catalog = config.catalog();
    let queues: Vec<_> = catalog
        .queues
        .iter()
        .map(|q| (q.key.clone(), q.dynamic, q.concurrency))
        .collect();
    assert_eq!(queues.len(), 3);
    assert_eq!(queues[0], ("cron".to_string(), false, 3));
    assert!(queues.contains(&("mail".to_string(), false, 7)));
    assert!(queues.contains(&("mail".to_string(), true, 4)));
    let dynamic = catalog.queues.iter().find(|q| q.dynamic).unwrap();
    assert!(dynamic.dynamic_concurrency);
    let throttle = dynamic.throttle.as_ref().unwrap();
    assert_eq!((throttle.window_ms, throttle.limit), (1000, 5));
}

#[test]
fn catalog_with_queues_adds_extra_queues_once_and_keeps_registered_ones() {
    let mut config = Config::<()>::new();
    config.register_queue_with(static_queue("b", 2));
    let extra = vec![static_queue("b", 9), static_queue("a", 1), static_queue("a", 5)];
    let catalog = config.catalog_with_queues(&extra);
    let queues: Vec<_> = catalog
        .queues
        .iter()
        .map(|q| (q.key.clone(), q.concurrency))
        .collect();
    assert_eq!(queues, vec![("a".to_string(), 1), ("b".to_string(), 2)]);
}

#[test]
fn manual_worker_registration_replaces_by_name() {
    let mut config = Config::<()>::new();
    config.register_worker_with(WorkerConfig {
        name: "job".to_string(),
        legacy_names: vec!["old".to_string()],
        on_demand: None,
        kind: WorkerConfigKind::Standard,
    });
    config.register_worker_with(WorkerConfig {
        name: "job".to_string(),
        legacy_names: Vec::new(),
        on_demand: Some(OnDemandJobRegistration {
            args_template: serde_json::from_str("{}").unwrap(),
        }),
        kind: WorkerConfigKind::Standard,
    });
    let catalog = config.catalog();
    assert_eq!(catalog.workers.len(), 1);
    assert_eq!(catalog.on_demand_jobs.len(), 1);
    assert_eq!(config.registry().resolve("old"), None);
}

#[test]
fn runtime_settings_select_queues() {
    let mut settings = RuntimeSettings::new();
    assert!(settings.runs_queue(&static_queue("any", 1)));
    assert!(settings.runs_static_queue("any"));
    assert_eq!(settings.shutdown_timeout_ms, 180_000);
    settings.queue_allowlist.push(static_queue("selected", 1));
    settings.queue_allowlist.push(dynamic_queue("tenant", 1));
    assert!(settings.runs_queue(&static_queue("selected", 5)));
    assert!(!settings.runs_queue(&static_queue("excluded", 1)));
    assert!(settings.runs_queue(&dynamic_queue("tenant", 2)));
    assert!(!settings.runs_queue(&static_queue("tenant", 2)));
    assert!(settings.runs_static_queue("selected"));
    assert!(!settings.runs_static_queue("tenant"));
}

#[test]
fn worker_parts_register_names_kind_template_and_cron_queue() {
    let template: serde_json::Value = serde_json::from_str(r#"{"id": 0}"#).unwrap();
    let config = Config::<()>::new().register_worker_parts(
        "app::ReportJob".to_string(),
        "app::ReportWorker".to_string(),
        WorkerConfigKind::Cron {
            schedule: "0 * * * * *".to_string(),
            queue_key: "reports".to_string(),
            resurrect: false,
        },
        Some(template.clone()),
        Some(static_queue("reports", 2)),
        true,
    );
    let worker = &config.registry().registrations()[0];
    assert_eq!(worker.name, "app::ReportJob");
    assert_eq!(worker.legacy_names, vec!["app::ReportWorker".to_string()]);
    assert!(matches!(&worker.kind, WorkerConfigKind::Cron { queue_key, .. } if queue_key == "reports"));
    assert_eq!(worker.on_demand.as_ref().map(|o| &o.args_template), Some(&template));
    assert_eq!(config.registered_queues().len(), 1);

    let standard = Config::<()>::new().register_worker_parts(
        "app::MailJob".to_string(),
        "app::MailWorker".to_string(),
        WorkerConfigKind::Standard,
        None,
        Some(static_queue("ignored", 1)),
        false,
    );
    assert!(standard.registered_queues().is_empty());
    assert!(standard.registry().registrations()[0].on_demand.is_none());
}
