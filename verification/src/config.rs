//! Registration of workers and queues, the catalog built from it, and the
//! runtime settings that select which queues run.
use vstd::prelude::*;
use vstd::string::*;
use crate::json::clone_json;
use crate::queue::{find_queue, has_queue, queue_ids_distinct, QueueConfig, QueueId, QueueKind, QueueThrottle};
use crate::sorting::{sort_by_key, sorted_by_key, Keyed};
use crate::text::str_eq;

verus! {

/// How a registered worker is started: on demand from its queue, or by a
/// cron schedule into a queue.
pub enum WorkerConfigKind {
    Standard,
    Cron { schedule: String, queue_key: String, resurrect: bool },
}

/// A job that can be enqueued by hand from the dashboard, with the JSON
/// arguments the form starts from.
pub struct OnDemandJobRegistration {
    pub args_template: serde_json::Value,
}

/// The registration of one worker: its job name, older names it still
/// answers to, its on-demand form, and how it is started.
pub struct WorkerConfig {
    pub name: String,
    pub legacy_names: Vec<String>,
    pub on_demand: Option<OnDemandJobRegistration>,
    pub kind: WorkerConfigKind,
}

impl Keyed for WorkerConfig {
    open spec fn sort_key(&self) -> Seq<char> {
        self.name@
    }

    fn key_str(&self) -> (r: &str) {
        self.name.as_str()
    }
}

/// No job name is registered twice.
pub open spec fn names_distinct(workers: Seq<WorkerConfig>) -> bool {
    forall|i: int, j: int| 0 <= i < j < workers.len() ==> workers[i].name@ != workers[j].name@
}

/// Whether a worker is registered under `name`.
pub open spec fn has_worker(workers: Seq<WorkerConfig>, name: Seq<char>) -> bool {
    exists|i: int| 0 <= i < workers.len() && #[trigger] workers[i].name@ == name
}

/// Whether worker `w` answers to `name`: its own name or a legacy one.
pub open spec fn answers_to(w: WorkerConfig, name: Seq<char>) -> bool {
    w.name@ == name || exists|k: int| 0 <= k < w.legacy_names@.len() && #[trigger] w.legacy_names@[k]@ == name
}

/// The registered workers, keyed by job name.
pub struct WorkerRegistry {
    workers: Vec<WorkerConfig>,
}

impl WorkerRegistry {
    /// The registrations, in registration order.
    pub closed spec fn workers(&self) -> Seq<WorkerConfig> {
        self.workers@
    }

    /// The registry's invariant: job names are distinct.
    pub closed spec fn wf(&self) -> bool {
        names_distinct(self.workers@)
    }

    /// An empty registry.
    pub fn new() -> (r: WorkerRegistry)
        ensures
            r.wf(),
            r.workers() == Seq::<WorkerConfig>::empty(),
    {
        WorkerRegistry { workers: Vec::new() }
    }

    /// The registrations.
    pub fn registrations(&self) -> (r: &Vec<WorkerConfig>)
        ensures
            r@ == self.workers(),
    {
        &self.workers
    }

    /// Registers a worker; a registration under the same job name is
    /// replaced in place.
    pub fn register_worker_with(&mut self, config: WorkerConfig)
        requires
            old(self).wf(),
        ensures
            final(self).wf(),
            has_worker(old(self).workers(), config.name@) ==> exists|i: int|
                0 <= i < old(self).workers().len() && old(self).workers()[i].name@ == config.name@
                    && final(self).workers() == old(self).workers().update(i, config),
            !has_worker(old(self).workers(), config.name@) ==> final(self).workers() == old(
                self,
            ).workers().push(config),
    {
        let mut i: usize = 0;
        while i < self.workers.len()
            invariant
                i <= self.workers@.len(),
                self.workers@ == old(self).workers@,
                names_distinct(self.workers@),
                forall|j: int| 0 <= j < i ==> self.workers@[j].name@ != config.name@,
            decreases self.workers@.len() - i,
        {
            if str_eq(self.workers[i].name.as_str(), config.name.as_str()) {
                let ghost before = self.workers@;
                let ghost cfg = config;
                self.workers.set(i, config);
                proof {
                    assert(self.workers@ == before.update(i as int, cfg));
                    assert forall|a: int, b: int| 0 <= a < b < self.workers@.len() implies self.workers@[a].name@
                        != self.workers@[b].name@ by {
                        if a != i && b != i {
                            assert(self.workers@[a] == before[a] && self.workers@[b] == before[b]);
                        } else if a == i {
                            assert(self.workers@[b] == before[b]);
                        } else {
                            assert(self.workers@[a] == before[a]);
                        }
                    }
                }
                return ;
            }
            i = i + 1;
        }
        let ghost before = self.workers@;
        self.workers.push(config);
        proof {
            assert forall|a: int, b: int| 0 <= a < b < self.workers@.len() implies self.workers@[a].name@
                != self.workers@[b].name@ by {
                assert(self.workers@[a] == before[a]);
                if b < before.len() {
                    assert(self.workers@[b] == before[b]);
                }
            }
            if has_worker(before, self.workers@.last().name@) {
                let j = choose|j: int| 0 <= j < before.len() && #[trigger] before[j].name@ == self.workers@.last().name@;
                assert(before[j].name@ != self.workers@.last().name@);
            }
        }
    }

    /// The registration answering to `name`: the worker with that job name,
    /// or else the first whose legacy names include it.
    pub fn resolve(&self, name: &str) -> (r: Option<usize>)
        ensures
            r matches Some(i) ==> i < self.workers().len() && answers_to(self.workers()[i as int], name@),
            r matches Some(i) ==> (has_worker(self.workers(), name@) ==> self.workers()[i as int].name@ == name@),
            r matches Some(i) ==> (!has_worker(self.workers(), name@) ==> forall|j: int|
                0 <= j < i ==> !answers_to(#[trigger] self.workers()[j], name@)),
            r is None ==> forall|i: int| 0 <= i < self.workers().len() ==> !answers_to(#[trigger] self.workers()[i], name@),
    {
        let mut i: usize = 0;
        while i < self.workers.len()
            invariant
                i <= self.workers@.len(),
                forall|j: int| 0 <= j < i ==> self.workers@[j].name@ != name@,
            decreases self.workers@.len() - i,
        {
            if str_eq(self.workers[i].name.as_str(), name) {
                return Some(i);
            }
            i = i + 1;
        }
        proof {
            assert(!has_worker(self.workers@, name@));
        }
        let mut i: usize = 0;
        while i < self.workers.len()
            invariant
                i <= self.workers@.len(),
                !has_worker(self.workers@, name@),
                forall|j: int| 0 <= j < i ==> !answers_to(#[trigger] self.workers@[j], name@),
            decreases self.workers@.len() - i,
        {
            let legacy = &self.workers[i].legacy_names;
            let mut k: usize = 0;
            while k < legacy.len()
                invariant
                    i < self.workers@.len(),
                    !has_worker(self.workers@, name@),
                    forall|j: int| 0 <= j < i ==> !answers_to(#[trigger] self.workers@[j], name@),
                    k <= legacy@.len(),
                    legacy@ == self.workers@[i as int].legacy_names@,
                    forall|m: int| 0 <= m < k ==> legacy@[m]@ != name@,
                decreases legacy@.len() - k,
            {
                if str_eq(legacy[k].as_str(), name) {
                    proof {
                        assert(self.workers@[i as int].legacy_names@[k as int]@ == name@);
                    }
                    return Some(i);
                }
                k = k + 1;
            }
            proof {
                assert(self.workers@[i as int].name@ != name@);
            }
            i = i + 1;
        }
        None
    }
}

} // verus!

verus! {

/// A registered worker that is not started by a schedule.
pub struct WorkerInfo {
    pub name: String,
}

/// A registered worker started by a cron schedule.
pub struct CronWorkerInfo {
    pub name: String,
    pub schedule: String,
    pub queue_key: String,
    pub resurrect: bool,
}

/// A queue's throttle, as listed in the catalog.
pub struct QueueThrottleInfo {
    pub window_ms: u64,
    pub limit: u64,
}

/// A registered queue, as listed in the catalog.
pub struct QueueInfo {
    pub key: String,
    pub dynamic: bool,
    pub concurrency: usize,
    pub dynamic_concurrency: bool,
    pub throttle: Option<QueueThrottleInfo>,
}

/// A job that can be enqueued by hand, with its argument template.
pub struct OnDemandJobInfo {
    pub name: String,
    pub args_template: serde_json::Value,
}

/// Everything registered: workers, cron workers, queues and on-demand
/// jobs, each list sorted by name or key.
pub struct Catalog {
    pub workers: Vec<WorkerInfo>,
    pub cron_workers: Vec<CronWorkerInfo>,
    pub queues: Vec<QueueInfo>,
    pub on_demand_jobs: Vec<OnDemandJobInfo>,
}

impl Keyed for WorkerInfo {
    open spec fn sort_key(&self) -> Seq<char> {
        self.name@
    }

    fn key_str(&self) -> (r: &str) {
        self.name.as_str()
    }
}

impl Keyed for CronWorkerInfo {
    open spec fn sort_key(&self) -> Seq<char> {
        self.name@
    }

    fn key_str(&self) -> (r: &str) {
        self.name.as_str()
    }
}

impl Keyed for QueueInfo {
    open spec fn sort_key(&self) -> Seq<char> {
        self.key@
    }

    fn key_str(&self) -> (r: &str) {
        self.key.as_str()
    }
}

impl Keyed for OnDemandJobInfo {
    open spec fn sort_key(&self) -> Seq<char> {
        self.name@
    }

    fn key_str(&self) -> (r: &str) {
        self.name.as_str()
    }
}

/// The catalog entries of the workers that are not cron workers.
pub open spec fn standard_infos(workers: Seq<WorkerConfig>) -> Seq<WorkerInfo>
    decreases workers.len(),
{
    if workers.len() == 0 {
        Seq::empty()
    } else {
        let rest = standard_infos(workers.drop_last());
        let w = workers.last();
        match w.kind {
            WorkerConfigKind::Standard => rest.push(WorkerInfo { name: w.name }),
            WorkerConfigKind::Cron { .. } => rest,
        }
    }
}

/// The catalog entries of the cron workers.
pub open spec fn cron_infos(workers: Seq<WorkerConfig>) -> Seq<CronWorkerInfo>
    decreases workers.len(),
{
    if workers.len() == 0 {
        Seq::empty()
    } else {
        let rest = cron_infos(workers.drop_last());
        let w = workers.last();
        match w.kind {
            WorkerConfigKind::Standard => rest,
            WorkerConfigKind::Cron { schedule, queue_key, resurrect } => rest.push(
                CronWorkerInfo { name: w.name, schedule, queue_key, resurrect },
            ),
        }
    }
}

/// The catalog entries of the jobs with an on-demand form.
pub open spec fn on_demand_infos(workers: Seq<WorkerConfig>) -> Seq<OnDemandJobInfo>
    decreases workers.len(),
{
    if workers.len() == 0 {
        Seq::empty()
    } else {
        let rest = on_demand_infos(workers.drop_last());
        let w = workers.last();
        match w.on_demand {
            Some(registration) => rest.push(
                OnDemandJobInfo { name: w.name, args_template: registration.args_template },
            ),
            None => rest,
        }
    }
}

/// The catalog entry of a queue.
pub open spec fn queue_info(queue: QueueConfig) -> QueueInfo {
    QueueInfo {
        key: match queue.kind {
            QueueKind::Static { key } => key,
            QueueKind::Dynamic { prefix } => prefix,
        },
        dynamic: queue.kind is Dynamic,
        concurrency: match queue.concurrency {
            crate::queue::QueueConcurrency::Fixed(n) => n,
            crate::queue::QueueConcurrency::Dynamic(n) => n,
        },
        dynamic_concurrency: queue.concurrency is Dynamic,
        throttle: match queue.throttle {
            Some(t) => Some(QueueThrottleInfo { window_ms: t.window_ms, limit: t.limit }),
            None => None,
        },
    }
}

/// The queues of `extra` that `own` does not register, each once (its first
/// occurrence).
pub open spec fn new_extra_queues(own: Seq<QueueConfig>, extra: Seq<QueueConfig>) -> Seq<QueueConfig>
    decreases extra.len(),
{
    if extra.len() == 0 {
        Seq::empty()
    } else {
        let rest = new_extra_queues(own, extra.drop_last());
        let q = extra.last();
        if has_queue(own, q.id()) || has_queue(extra.drop_last(), q.id()) {
            rest
        } else {
            rest.push(q)
        }
    }
}

/// The catalog entries of the union of two queue registrations; the first
/// one's registrations win.
pub open spec fn union_queue_infos(own: Seq<QueueConfig>, extra: Seq<QueueConfig>) -> Seq<QueueInfo> {
    (own + new_extra_queues(own, extra)).map_values(|q: QueueConfig| queue_info(q))
}

fn worker_infos(workers: &Vec<WorkerConfig>) -> (r: (Vec<WorkerInfo>, Vec<CronWorkerInfo>, Vec<OnDemandJobInfo>))
    ensures
        r.0@ == standard_infos(workers@),
        r.1@ == cron_infos(workers@),
        r.2@ == on_demand_infos(workers@),
{
    let mut standard: Vec<WorkerInfo> = Vec::new();
    let mut cron: Vec<CronWorkerInfo> = Vec::new();
    let mut on_demand: Vec<OnDemandJobInfo> = Vec::new();
    let mut i: usize = 0;
    while i < workers.len()
        invariant
            i <= workers@.len(),
            standard@ == standard_infos(workers@.take(i as int)),
            cron@ == cron_infos(workers@.take(i as int)),
            on_demand@ == on_demand_infos(workers@.take(i as int)),
        decreases workers@.len() - i,
    {
        proof {
            assert(workers@.take(i + 1).drop_last() =~= workers@.take(i as int));
            assert(workers@.take(i + 1).last() == workers@[i as int]);
        }
        let w = &workers[i];
        match &w.kind {
            WorkerConfigKind::Standard => {
                standard.push(WorkerInfo { name: w.name.clone() });
            },
            WorkerConfigKind::Cron { schedule, queue_key, resurrect } => {
                cron.push(
                    CronWorkerInfo {
                        name: w.name.clone(),
                        schedule: schedule.clone(),
                        queue_key: queue_key.clone(),
                        resurrect: *resurrect,
                    },
                );
            },
        }
        match &w.on_demand {
            Some(registration) => {
                on_demand.push(
                    OnDemandJobInfo { name: w.name.clone(), args_template: clone_json(&registration.args_template) },
                );
            },
            None => {},
        }
        i = i + 1;
    }
    proof {
        assert(workers@.take(i as int) =~= workers@);
    }
    (standard, cron, on_demand)
}

fn make_queue_info(queue: &QueueConfig) -> (r: QueueInfo)
    ensures
        r == queue_info(*queue),
{
    let key = match &queue.kind {
        QueueKind::Static { key } => key.clone(),
        QueueKind::Dynamic { prefix } => prefix.clone(),
    };
    QueueInfo {
        key,
        dynamic: queue.is_dynamic(),
        concurrency: queue.concurrency.default_concurrency(),
        dynamic_concurrency: queue.concurrency.is_dynamic(),
        throttle: match queue.throttle {
            Some(t) => Some(QueueThrottleInfo { window_ms: t.window_ms, limit: t.limit }),
            None => None,
        },
    }
}

/// Whether one of the first `upto` queues of `queues` registers the same
/// queue as `config`.
fn registered_before(queues: &Vec<QueueConfig>, upto: usize, config: &QueueConfig) -> (r: bool)
    requires
        upto <= queues@.len(),
    ensures
        r == has_queue(queues@.take(upto as int), config.id()),
{
    let mut k: usize = 0;
    while k < upto
        invariant
            k <= upto <= queues@.len(),
            forall|m: int| 0 <= m < k ==> queues@[m].id() != config.id(),
        decreases upto - k,
    {
        if queues[k].same_queue(config) {
            proof {
                assert(queues@.take(upto as int)[k as int] == queues@[k as int]);
            }
            return true;
        }
        k = k + 1;
    }
    proof {
        if has_queue(queues@.take(upto as int), config.id()) {
            let m = choose|m: int| 0 <= m < upto && #[trigger] queues@.take(upto as int)[m].id() == config.id();
            assert(queues@.take(upto as int)[m] == queues@[m]);
        }
    }
    false
}

fn queue_infos(own: &Vec<QueueConfig>, extra: &Vec<QueueConfig>) -> (r: Vec<QueueInfo>)
    ensures
        r@ == union_queue_infos(own@, extra@),
{
    let mut out: Vec<QueueInfo> = Vec::new();
    let mut i: usize = 0;
    while i < own.len()
        invariant
            i <= own@.len(),
            out@ == own@.take(i as int).map_values(|q: QueueConfig| queue_info(q)),
        decreases own@.len() - i,
    {
        out.push(make_queue_info(&own[i]));
        proof {
            assert(own@.take(i + 1) =~= own@.take(i as int).push(own@[i as int]));
            assert(out@ =~= own@.take(i + 1).map_values(|q: QueueConfig| queue_info(q)));
        }
        i = i + 1;
    }
    proof {
        assert(own@.take(i as int) =~= own@);
        assert(extra@.take(0) =~= Seq::<QueueConfig>::empty());
    }
    let mut j: usize = 0;
    while j < extra.len()
        invariant
            j <= extra@.len(),
            out@ == (own@ + new_extra_queues(own@, extra@.take(j as int))).map_values(
                |q: QueueConfig| queue_info(q),
            ),
        decreases extra@.len() - j,
    {
        let ghost prefix = extra@.take(j as int);
        proof {
            assert(extra@.take(j + 1).drop_last() =~= prefix);
            assert(extra@.take(j + 1).last() == extra@[j as int]);
        }
        let q = &extra[j];
        let in_own = find_queue(own, q).is_some();
        proof {
            if in_own {
                let i = choose|i: int| 0 <= i < own@.len() && own@[i].id() == q.id();
                assert(own@[i].id() == q.id());
            }
        }
        if !in_own && !registered_before(extra, j, q) {
            out.push(make_queue_info(q));
            proof {
                let before = own@ + new_extra_queues(own@, prefix);
                assert(own@ + new_extra_queues(own@, extra@.take(j + 1)) =~= before.push(*q));
                assert(out@ =~= before.push(*q).map_values(|c: QueueConfig| queue_info(c)));
            }
        }
        j = j + 1;
    }
    proof {
        assert(extra@.take(j as int) =~= extra@);
    }
    out
}

} // verus!

verus! {

/// The registration of queue `id` in `queues`, if any.
pub open spec fn queue_lookup(queues: Seq<QueueConfig>, id: crate::queue::QueueId) -> Option<QueueConfig> {
    if has_queue(queues, id) {
        Some(queues[choose|i: int| 0 <= i < queues.len() && #[trigger] queues[i].id() == id])
    } else {
        None
    }
}

/// `new` is `old` with `config` registered: its queue now has `config`,
/// every other queue keeps its registration.
pub open spec fn queue_registered(old: Seq<QueueConfig>, new: Seq<QueueConfig>, config: QueueConfig) -> bool {
    &&& queue_ids_distinct(new)
    &&& queue_lookup(new, config.id()) == Some(config)
    &&& forall|id: crate::queue::QueueId|
        id != config.id() ==> #[trigger] queue_lookup(new, id) == queue_lookup(old, id)
    &&& new.len() == old.len() + if has_queue(old, config.id()) { 0int } else { 1int }
}

/// `new` is `old` with `config` registered only if its queue had no
/// registration yet.
pub open spec fn default_queue_registered(old: Seq<QueueConfig>, new: Seq<QueueConfig>, config: QueueConfig) -> bool {
    if has_queue(old, config.id()) {
        new == old
    } else {
        queue_registered(old, new, config)
    }
}

/// The registrations after a worker was registered from its parts: a
/// registration with those parts replaced or joined the workers, and a cron
/// worker's queue was registered as a default queue.
pub open spec fn parts_registered(
    old_workers: Seq<WorkerConfig>,
    new_workers: Seq<WorkerConfig>,
    old_queues: Seq<QueueConfig>,
    new_queues: Seq<QueueConfig>,
    name: String,
    worker_name: String,
    kind: WorkerConfigKind,
    template: Option<serde_json::Value>,
    cron_queue: Option<QueueConfig>,
) -> bool {
    &&& exists|config: WorkerConfig| #[trigger]
        worker_registered(old_workers, new_workers, config) && registration_of(
            config,
            name@,
            worker_name@,
            kind,
            template,
        )
    &&& (kind is Cron && cron_queue is Some) ==> default_queue_registered(old_queues, new_queues, cron_queue->0)
    &&& !(kind is Cron && cron_queue is Some) ==> new_queues == old_queues
}

/// What a worker registration holds: the job name, the worker name as its
/// one legacy name, how it is started, and its on-demand template.
pub open spec fn registration_of(
    config: WorkerConfig,
    name: Seq<char>,
    worker_name: Seq<char>,
    kind: WorkerConfigKind,
    template: Option<serde_json::Value>,
) -> bool {
    &&& config.name@ == name
    &&& config.legacy_names@.len() == 1
    &&& config.legacy_names@[0]@ == worker_name
    &&& config.kind == kind
    &&& config.on_demand == match template {
        Some(t) => Some(OnDemandJobRegistration { args_template: t }),
        None => None,
    }
}

/// `new` is `old` with `config` registered under its job name, replacing a
/// registration of the same name in place.
pub open spec fn worker_registered(old: Seq<WorkerConfig>, new: Seq<WorkerConfig>, config: WorkerConfig) -> bool {
    &&& names_distinct(new)
    &&& has_worker(old, config.name@) ==> exists|i: int|
        0 <= i < old.len() && old[i].name@ == config.name@ && new == old.update(i, config)
    &&& !has_worker(old, config.name@) ==> new == old.push(config)
}

/// With distinct queue identities, the lookup finds the registration at
/// any position holding that queue.
proof fn lemma_queue_lookup_at(queues: Seq<QueueConfig>, i: int)
    requires
        queue_ids_distinct(queues),
        0 <= i < queues.len(),
    ensures
        queue_lookup(queues, queues[i].id()) == Some(queues[i]),
{
    let id = queues[i].id();
    assert(has_queue(queues, id));
    let k = choose|k: int| 0 <= k < queues.len() && #[trigger] queues[k].id() == id;
    if k != i {
        if k < i {
            assert(queues[k].id() != queues[i].id());
        } else {
            assert(queues[i].id() != queues[k].id());
        }
    }
}

/// A job type that workers process.
pub trait Job: Sized {
    /// The job's registered name.
    fn name() -> String;

    /// The JSON arguments the dashboard's on-demand form starts from, for
    /// jobs that can be enqueued by hand; by default none.
    fn on_demand_args_template() -> (r: Option<serde_json::Value>)
        default_ensures
            r is None,
    {
        None
    }
}

/// A worker that processes jobs of type `A`.
pub trait Worker<A: Job>: Sized {
    /// The worker's own name, which the registry keeps as a legacy name of
    /// the job.
    fn worker_name() -> String;

    /// How the worker is started; by default from its queue.
    fn to_config() -> (r: WorkerConfigKind)
        default_ensures
            r is Standard,
    {
        WorkerConfigKind::Standard
    }

    /// The queue a cron worker's jobs go to, registered with it unless the
    /// queue is registered explicitly; by default none.
    fn cron_queue_config() -> (r: Option<QueueConfig>)
        default_ensures
            r is None,
    {
        None
    }
}

/// The registration container for workers and queues.
pub struct Config<DT> {
    registry: WorkerRegistry,
    queues: Vec<QueueConfig>,
    context: core::marker::PhantomData<DT>,
}

impl<DT> Config<DT> {
    /// The registered workers.
    pub closed spec fn workers(&self) -> Seq<WorkerConfig> {
        self.registry.workers()
    }

    /// The registered queues, each once.
    pub closed spec fn queues(&self) -> Seq<QueueConfig> {
        self.queues@
    }

    /// The container's invariant: job names and queues are distinct.
    pub closed spec fn wf(&self) -> bool {
        &&& self.registry.wf()
        &&& queue_ids_distinct(self.queues@)
    }

    /// Creates an empty registration container for workers and queues.
    pub fn new() -> (r: Config<DT>)
        ensures
            r.wf(),
            r.workers() == Seq::<WorkerConfig>::empty(),
            r.queues() == Seq::<QueueConfig>::empty(),
    {
        Config { registry: WorkerRegistry::new(), queues: Vec::new(), context: core::marker::PhantomData }
    }

    /// The registered workers.
    pub fn registry(&self) -> (r: &WorkerRegistry)
        ensures
            r.workers() == self.workers(),
            self.wf() ==> r.wf(),
    {
        &self.registry
    }

    /// The registered queues.
    pub fn registered_queues(&self) -> (r: &Vec<QueueConfig>)
        ensures
            r@ == self.queues(),
    {
        &self.queues
    }

    /// Registers a queue from a [`QueueConfig`]. Registering the same queue
    /// again replaces the previous configuration (last write wins).
    pub fn register_queue_with(&mut self, config: QueueConfig)
        requires
            old(self).wf(),
        ensures
            final(self).wf(),
            final(self).workers() == old(self).workers(),
            queue_registered(old(self).queues(), final(self).queues(), config),
    {
        let ghost cfg = config;
        let ghost before = self.queues@;
        match find_queue(&self.queues, &config) {
            Some(i) => {
                self.queues.set(i, config);
                proof {
                    lemma_replace_queue(before, self.queues@, i as int, cfg);
                }
            },
            None => {
                self.queues.push(config);
                proof {
                    lemma_push_queue(before, self.queues@, cfg);
                }
            },
        }
    }

    /// Registers a queue only if it is not registered yet, keeping any
    /// explicit configuration; used for implicit registrations such as cron
    /// queues.
    pub fn register_default_queue(&mut self, config: QueueConfig)
        requires
            old(self).wf(),
        ensures
            final(self).wf(),
            final(self).workers() == old(self).workers(),
            default_queue_registered(old(self).queues(), final(self).queues(), config),
    {
        let ghost cfg = config;
        let ghost before = self.queues@;
        if find_queue(&self.queues, &config).is_none() {
            self.queues.push(config);
            proof {
                lemma_push_queue(before, self.queues@, cfg);
            }
        }
    }

    /// Registers a worker from a [`WorkerConfig`]. Manual cron
    /// registration is not supported: cron workers are registered through
    /// [`Config::register_worker`], which knows their job type.
    pub fn register_worker_with(&mut self, config: WorkerConfig)
        requires
            old(self).wf(),
            config.kind is Standard,
        ensures
            final(self).wf(),
            final(self).queues() == old(self).queues(),
            worker_registered(old(self).workers(), final(self).workers(), config),
    {
        self.registry.register_worker_with(config);
    }

    /// Registers worker `W` for job type `A`: under the job's name, with the
    /// worker's name as a legacy name; a cron worker's queue is registered
    /// too unless it already is. The names, kind, template and queue are
    /// what the `Job` and `Worker` impls return (the cron queue is asked
    /// for only of a cron worker), handed to
    /// [`Config::register_worker_parts`]. A cron job is started without
    /// arguments, so a cron worker is refused unless its job's arguments can
    /// be read from an empty JSON object: `args_from_empty_json` is the
    /// outcome of that read, which needs the job's deserializer and is made
    /// by the caller.
    pub fn register_worker<W: Worker<A>, A: Job>(self, args_from_empty_json: bool) -> (r: Config<DT>)
        requires
            self.wf(),
            forall|kind: WorkerConfigKind| #[trigger] call_ensures(W::to_config, (), kind) && kind is Cron
                ==> args_from_empty_json,
        ensures
            r.wf(),
            exists|
                name: String,
                worker_name: String,
                kind: WorkerConfigKind,
                template: Option<serde_json::Value>,
                cron_queue: Option<QueueConfig>,
            |
                #![trigger parts_registered(self.workers(), r.workers(), self.queues(), r.queues(), name, worker_name, kind, template, cron_queue)]
                {
                    &&& call_ensures(A::name, (), name)
                    &&& call_ensures(W::worker_name, (), worker_name)
                    &&& call_ensures(W::to_config, (), kind)
                    &&& call_ensures(A::on_demand_args_template, (), template)
                    &&& kind is Cron ==> call_ensures(W::cron_queue_config, (), cron_queue)
                    &&& kind is Standard ==> cron_queue is None
                    &&& parts_registered(
                        self.workers(),
                        r.workers(),
                        self.queues(),
                        r.queues(),
                        name,
                        worker_name,
                        kind,
                        template,
                        cron_queue,
                    )
                },
    {
        let name = A::name();
        let kind = W::to_config();
        let template = A::on_demand_args_template();
        let cron_queue = match &kind {
            WorkerConfigKind::Cron { .. } => W::cron_queue_config(),
            WorkerConfigKind::Standard => None,
        };
        let worker_name = W::worker_name();
        let ghost parts = (name, worker_name, kind, template, cron_queue);
        let r = self.register_worker_parts(name, worker_name, kind, template, cron_queue, args_from_empty_json);
        proof {
            assert(parts_registered(
                self.workers(),
                r.workers(),
                self.queues(),
                r.queues(),
                parts.0,
                parts.1,
                parts.2,
                parts.3,
                parts.4,
            ));
        }
        r
    }

    /// Registers a worker from the values its types give: under `name`,
    /// with `worker_name` as its one legacy name, started as `kind`, and
    /// enqueueable by hand from `template` when there is one. A cron
    /// worker's `cron_queue` is registered as a default queue, so an
    /// explicit registration of that queue is kept. A cron worker is only
    /// registered when its job's arguments can be read from an empty JSON
    /// object (`args_from_empty_json`).
    pub fn register_worker_parts(
        self,
        name: String,
        worker_name: String,
        kind: WorkerConfigKind,
        template: Option<serde_json::Value>,
        cron_queue: Option<QueueConfig>,
        args_from_empty_json: bool,
    ) -> (r: Config<DT>)
        requires
            self.wf(),
            kind is Cron ==> args_from_empty_json,
        ensures
            r.wf(),
            exists|config: WorkerConfig| #[trigger]
                worker_registered(self.workers(), r.workers(), config) && registration_of(
                    config,
                    name@,
                    worker_name@,
                    kind,
                    template,
                ),
            (kind is Cron && cron_queue is Some) ==> default_queue_registered(
                self.queues(),
                r.queues(),
                cron_queue->0,
            ),
            !(kind is Cron && cron_queue is Some) ==> r.queues() == self.queues(),
    {
        let on_demand = match template {
            Some(args_template) => Some(OnDemandJobRegistration { args_template }),
            None => None,
        };
        let mut config = self;
        let ghost queues_before = config.queues@;
        match &kind {
            WorkerConfigKind::Cron { .. } => {
                match cron_queue {
                    Some(queue) => {
                        config.register_default_queue(queue);
                    },
                    None => {},
                }
            },
            WorkerConfigKind::Standard => {},
        }
        let mut legacy_names: Vec<String> = Vec::new();
        legacy_names.push(worker_name);
        let worker = WorkerConfig { name, legacy_names, on_demand, kind };
        let ghost w = worker;
        config.registry.register_worker_with(worker);
        proof {
            assert(worker_registered(self.workers(), config.workers(), w));
            assert(registration_of(w, name@, worker_name@, kind, template));
        }
        config
    }

    /// Returns a catalog of all registered workers and queues.
    pub fn catalog(&self) -> (r: Catalog)
        ensures
            catalog_lists(self.workers(), self.queues(), Seq::empty(), r),
            forall|k: int|
                0 <= k < r.queues@.len() ==> describes_some_queue(#[trigger] r.queues@[k], self.queues(), Seq::empty()),
            forall|i: int| 0 <= i < self.queues().len() ==> has_entry_for(r.queues@, #[trigger] self.queues()[i]),
    {
        let extra: Vec<QueueConfig> = Vec::new();
        let r = self.catalog_with_queues(&extra);
        proof {
            assert(extra@ =~= Seq::<QueueConfig>::empty());
        }
        r
    }

    /// Returns a catalog of all registered workers, and of the registered
    /// queues together with `extra_queues` (registered ones win).
    pub fn catalog_with_queues(&self, extra_queues: &Vec<QueueConfig>) -> (r: Catalog)
        ensures
            catalog_lists(self.workers(), self.queues(), extra_queues@, r),
            forall|k: int|
                0 <= k < r.queues@.len() ==> describes_some_queue(#[trigger] r.queues@[k], self.queues(), extra_queues@),
            forall|i: int| 0 <= i < self.queues().len() ==> has_entry_for(r.queues@, #[trigger] self.queues()[i]),
    {
        let (workers, cron_workers, on_demand_jobs) = worker_infos(self.registry.registrations());
        let queues = queue_infos(&self.queues, extra_queues);
        let r = Catalog {
            workers: sort_by_key(workers),
            cron_workers: sort_by_key(cron_workers),
            queues: sort_by_key(queues),
            on_demand_jobs: sort_by_key(on_demand_jobs),
        };
        proof {
            lemma_catalog_queues_describe_registrations(self.workers(), self.queues(), extra_queues@, r);
        }
        r
    }
}

/// The catalog lists: each list holds exactly the entries of the
/// registrations, sorted by name or key.
pub open spec fn catalog_lists(
    workers: Seq<WorkerConfig>,
    queues: Seq<QueueConfig>,
    extra: Seq<QueueConfig>,
    catalog: Catalog,
) -> bool {
    &&& catalog.workers@.to_multiset() == standard_infos(workers).to_multiset()
    &&& sorted_by_key(catalog.workers@)
    &&& catalog.cron_workers@.to_multiset() == cron_infos(workers).to_multiset()
    &&& sorted_by_key(catalog.cron_workers@)
    &&& catalog.queues@.to_multiset() == union_queue_infos(queues, extra).to_multiset()
    &&& sorted_by_key(catalog.queues@)
    &&& catalog.on_demand_jobs@.to_multiset() == on_demand_infos(workers).to_multiset()
    &&& sorted_by_key(catalog.on_demand_jobs@)
}

proof fn lemma_replace_queue(before: Seq<QueueConfig>, after: Seq<QueueConfig>, i: int, config: QueueConfig)
    requires
        queue_ids_distinct(before),
        0 <= i < before.len(),
        before[i].id() == config.id(),
        after == before.update(i, config),
    ensures
        queue_registered(before, after, config),
{
    assert forall|a: int, b: int| 0 <= a < b < after.len() implies after[a].id() != after[b].id() by {
        if a != i {
            assert(after[a] == before[a]);
        }
        if b != i {
            assert(after[b] == before[b]);
        }
    }
    lemma_queue_lookup_at(after, i);
    assert(has_queue(before, config.id()));
    assert forall|id: crate::queue::QueueId| id != config.id() implies #[trigger] queue_lookup(after, id)
        == queue_lookup(before, id) by {
        if has_queue(before, id) {
            let k = choose|k: int| 0 <= k < before.len() && #[trigger] before[k].id() == id;
            assert(k != i);
            assert(after[k] == before[k]);
            lemma_queue_lookup_at(before, k);
            lemma_queue_lookup_at(after, k);
        } else if has_queue(after, id) {
            let k = choose|k: int| 0 <= k < after.len() && #[trigger] after[k].id() == id;
            assert(k != i);
            assert(before[k] == after[k]);
        }
    }
}

proof fn lemma_push_queue(before: Seq<QueueConfig>, after: Seq<QueueConfig>, config: QueueConfig)
    requires
        queue_ids_distinct(before),
        !has_queue(before, config.id()),
        after == before.push(config),
    ensures
        queue_registered(before, after, config),
{
    let n = before.len() as int;
    assert forall|a: int, b: int| 0 <= a < b < after.len() implies after[a].id() != after[b].id() by {
        assert(after[a] == before[a]);
        if b < n {
            assert(after[b] == before[b]);
        } else {
            assert(!(before[a].id() == config.id()));
        }
    }
    assert(after[n] == config);
    lemma_queue_lookup_at(after, n);
    assert forall|id: crate::queue::QueueId| id != config.id() implies #[trigger] queue_lookup(after, id)
        == queue_lookup(before, id) by {
        if has_queue(before, id) {
            let k = choose|k: int| 0 <= k < before.len() && #[trigger] before[k].id() == id;
            assert(after[k] == before[k]);
            lemma_queue_lookup_at(before, k);
            lemma_queue_lookup_at(after, k);
        } else if has_queue(after, id) {
            let k = choose|k: int| 0 <= k < after.len() && #[trigger] after[k].id() == id;
            assert(k != n);
            assert(before[k] == after[k]);
        }
    }
}

/// How a catalog entry describes a registered queue: its key (or prefix),
/// whether it is a dynamic queue family, its concurrency, whether that
/// concurrency may be overridden at runtime (a property of the
/// concurrency, whatever the queue's kind), and its throttle.
pub open spec fn describes_queue(info: QueueInfo, q: QueueConfig) -> bool {
    &&& info.key@ == match q.kind {
        QueueKind::Static { key } => key@,
        QueueKind::Dynamic { prefix } => prefix@,
    }
    &&& info.dynamic == (q.kind is Dynamic)
    &&& info.concurrency == match q.concurrency {
        crate::queue::QueueConcurrency::Fixed(n) => n,
        crate::queue::QueueConcurrency::Dynamic(n) => n,
    }
    &&& info.dynamic_concurrency == (q.concurrency is Dynamic)
    &&& info.throttle == match q.throttle {
        Some(t) => Some(QueueThrottleInfo { window_ms: t.window_ms, limit: t.limit }),
        None => None,
    }
}

/// Every queue taken from `extra` into the union is one of `extra`'s.
proof fn lemma_new_extra_from_extra(own: Seq<QueueConfig>, extra: Seq<QueueConfig>, m: int)
    requires
        0 <= m < new_extra_queues(own, extra).len(),
    ensures
        extra.contains(new_extra_queues(own, extra)[m]),
    decreases extra.len(),
{
    let rest = new_extra_queues(own, extra.drop_last());
    if m < rest.len() {
        lemma_new_extra_from_extra(own, extra.drop_last(), m);
        let i = choose|i: int| 0 <= i < extra.drop_last().len() && extra.drop_last()[i] == rest[m];
        assert(extra[i] == rest[m]);
    } else {
        assert(extra[extra.len() - 1] == extra.last());
    }
}

/// Whether `info` describes one of the queues of `queues` or `extra`.
pub open spec fn describes_some_queue(info: QueueInfo, queues: Seq<QueueConfig>, extra: Seq<QueueConfig>) -> bool {
    exists|q: QueueConfig| (queues.contains(q) || extra.contains(q)) && describes_queue(info, q)
}

/// Whether some entry of `infos` describes the queue `q`.
pub open spec fn has_entry_for(infos: Seq<QueueInfo>, q: QueueConfig) -> bool {
    exists|k: int| 0 <= k < infos.len() && describes_queue(infos[k], q)
}

/// The catalog's queue entries are the registered queues (and the extra
/// ones the catalog was asked for), each described by its own
/// configuration: in particular an entry's concurrency is dynamic exactly
/// when the queue was registered with a dynamic concurrency, and every
/// registered queue has an entry.
pub proof fn lemma_catalog_queues_describe_registrations(
    workers: Seq<WorkerConfig>,
    queues: Seq<QueueConfig>,
    extra: Seq<QueueConfig>,
    c: Catalog,
)
    requires
        catalog_lists(workers, queues, extra, c),
    ensures
        forall|k: int| 0 <= k < c.queues@.len() ==> describes_some_queue(#[trigger] c.queues@[k], queues, extra),
        forall|i: int| 0 <= i < queues.len() ==> has_entry_for(c.queues@, #[trigger] queues[i]),
{
    broadcast use vstd::seq_lib::group_to_multiset_ensures;
    let all = queues + new_extra_queues(queues, extra);
    let u = union_queue_infos(queues, extra);
    assert(u.len() == all.len());
    assert forall|k: int| 0 <= k < c.queues@.len() implies describes_some_queue(#[trigger] c.queues@[k], queues, extra) by {
        assert(c.queues@.contains(c.queues@[k]));
        assert(u.to_multiset().count(c.queues@[k]) > 0);
        assert(u.contains(c.queues@[k]));
        let m = choose|m: int| 0 <= m < u.len() && u[m] == c.queues@[k];
        assert(u[m] == queue_info(all[m]));
        if m < queues.len() {
            assert(all[m] == queues[m]);
            assert(queues.contains(queues[m]));
            assert(describes_queue(c.queues@[k], queues[m]));
        } else {
            let n = m - queues.len();
            assert(all[m] == new_extra_queues(queues, extra)[n]);
            lemma_new_extra_from_extra(queues, extra, n);
            assert(describes_queue(c.queues@[k], all[m]));
        }
    }
    assert forall|i: int| 0 <= i < queues.len() implies has_entry_for(c.queues@, #[trigger] queues[i]) by {
        assert(all[i] == queues[i]);
        assert(u[i] == queue_info(queues[i]));
        assert(u.contains(u[i]));
        assert(c.queues@.to_multiset().count(u[i]) > 0);
        assert(c.queues@.contains(u[i]));
        let k = choose|k: int| 0 <= k < c.queues@.len() && c.queues@[k] == u[i];
        assert(describes_queue(c.queues@[k], queues[i]));
    }
}

/// Registering the same queue twice keeps the second configuration (last
/// write wins).
pub proof fn lemma_last_queue_registration_wins(
    s0: Seq<QueueConfig>,
    s1: Seq<QueueConfig>,
    s2: Seq<QueueConfig>,
    first: QueueConfig,
    second: QueueConfig,
)
    requires
        queue_registered(s0, s1, first),
        queue_registered(s1, s2, second),
        first.id() == second.id(),
    ensures
        queue_lookup(s2, first.id()) == Some(second),
        s2.len() == s1.len(),
{
    assert(has_queue(s1, second.id())) by {
        assert(queue_lookup(s1, first.id()) is Some);
    }
}

/// An implicit (default) registration never overrides an explicit one, and
/// fills in a queue that had none.
pub proof fn lemma_default_registration_keeps_explicit(
    s0: Seq<QueueConfig>,
    s1: Seq<QueueConfig>,
    s2: Seq<QueueConfig>,
    explicit: QueueConfig,
    default: QueueConfig,
)
    requires
        queue_registered(s0, s1, explicit),
        default_queue_registered(s1, s2, default),
    ensures
        explicit.id() == default.id() ==> queue_lookup(s2, explicit.id()) == Some(explicit),
        queue_lookup(s1, default.id()) is None ==> queue_lookup(s2, default.id()) == Some(default),
        queue_lookup(s1, default.id()) is Some ==> s2 == s1,
{
    if explicit.id() == default.id() {
        assert(queue_lookup(s1, explicit.id()) is Some);
        assert(has_queue(s1, default.id()));
    }
}

/// Registering a worker under a name makes it answer to that name, and a
/// second registration under the same name replaces the first without
/// adding an entry.
pub proof fn lemma_worker_registration_replaces(
    w0: Seq<WorkerConfig>,
    w1: Seq<WorkerConfig>,
    w2: Seq<WorkerConfig>,
    first: WorkerConfig,
    second: WorkerConfig,
)
    requires
        names_distinct(w0),
        worker_registered(w0, w1, first),
        worker_registered(w1, w2, second),
        first.name@ == second.name@,
    ensures
        has_worker(w1, first.name@),
        w2.len() == w1.len(),
        exists|i: int| 0 <= i < w2.len() && w2[i] == second,
{
    if has_worker(w0, first.name@) {
        let i = choose|i: int| 0 <= i < w0.len() && w0[i].name@ == first.name@ && w1 == w0.update(i, first);
        assert(w1[i] == first);
    } else {
        assert(w1[w0.len() as int] == first);
    }
    let k = choose|k: int| 0 <= k < w1.len() && #[trigger] w1[k].name@ == first.name@;
    assert(has_worker(w1, second.name@));
    let i = choose|i: int| 0 <= i < w1.len() && w1[i].name@ == second.name@ && w2 == w1.update(i, second);
    assert(w2[i] == second);
}

} // verus!

verus! {

/// The dead-process threshold, in milliseconds, unless configured.
pub const DEFAULT_DEAD_PROCESS_THRESHOLD_MS: u64 = 5000;

/// Runtime settings that take plain values: the intervals and timeouts (in
/// milliseconds) the runtime waits on, how many Redis failures it tolerates,
/// and the queues it is restricted to. The closures (error formatting,
/// retry-delay override, failure reporting) and the shutdown signal stay
/// with the host.
pub struct RuntimeSettings {
    pub exit_when_processed: Option<u64>,
    pub shutdown_timeout_ms: u64,
    pub heartbeat_interval_ms: u64,
    pub dead_process_threshold_ms: u64,
    pub resurrect_scan_interval_ms: u64,
    pub redis_failure_tolerance: u32,
    pub retry_poll_interval_ms: u64,
    pub schedule_poll_interval_ms: u64,
    pub cron_initial_offset_ms: u64,
    pub cron_lookahead_ms: u64,
    pub cron_tick_interval_ms: u64,
    pub dequeue_timeout_ms: u64,
    pub dispatcher_idle_sleep_ms: u64,
    pub throttled_queue_fallback_wait_ms: u64,
    pub queue_allowlist: Vec<QueueConfig>,
}

impl RuntimeSettings {
    /// Whether the runtime processes the queue `id`: every queue when no
    /// allowlist is set, otherwise the listed ones.
    pub open spec fn runs(&self, id: QueueId) -> bool {
        self.queue_allowlist@.len() == 0 || has_queue(self.queue_allowlist@, id)
    }

    /// The default settings: no exit count, a three-minute shutdown
    /// timeout, and no queue restriction.
    pub fn new() -> (r: RuntimeSettings)
        ensures
            r.exit_when_processed is None,
            r.shutdown_timeout_ms == 180_000,
            r.heartbeat_interval_ms == 500,
            r.dead_process_threshold_ms == DEFAULT_DEAD_PROCESS_THRESHOLD_MS,
            r.resurrect_scan_interval_ms == 2000,
            r.redis_failure_tolerance == 30,
            r.retry_poll_interval_ms == 300,
            r.schedule_poll_interval_ms == 300,
            r.cron_initial_offset_ms == 3000,
            r.cron_lookahead_ms == 30_000,
            r.cron_tick_interval_ms == 1000,
            r.dequeue_timeout_ms == 10_000,
            r.dispatcher_idle_sleep_ms == 1000,
            r.throttled_queue_fallback_wait_ms == 100,
            r.queue_allowlist@.len() == 0,
    {
        RuntimeSettings {
            exit_when_processed: None,
            shutdown_timeout_ms: 180_000,
            heartbeat_interval_ms: 500,
            dead_process_threshold_ms: DEFAULT_DEAD_PROCESS_THRESHOLD_MS,
            resurrect_scan_interval_ms: 2000,
            redis_failure_tolerance: 30,
            retry_poll_interval_ms: 300,
            schedule_poll_interval_ms: 300,
            cron_initial_offset_ms: 3000,
            cron_lookahead_ms: 30_000,
            cron_tick_interval_ms: 1000,
            dequeue_timeout_ms: 10_000,
            dispatcher_idle_sleep_ms: 1000,
            throttled_queue_fallback_wait_ms: 100,
            queue_allowlist: Vec::new(),
        }
    }

    /// Whether the runtime processes `queue`: every queue when no allowlist
    /// is set, otherwise the listed ones.
    pub fn runs_queue(&self, queue: &QueueConfig) -> (r: bool)
        ensures
            r == self.runs(queue.id()),
    {
        if self.queue_allowlist.len() == 0 {
            return true;
        }
        match find_queue(&self.queue_allowlist, queue) {
            Some(i) => {
                proof {
                    assert(self.queue_allowlist@[i as int].id() == queue.id());
                }
                true
            },
            None => false,
        }
    }

    /// Whether the runtime processes the static queue `queue_key` (cron
    /// jobs go to static queues): always without an allowlist, otherwise
    /// when a listed static queue has that key.
    pub fn runs_static_queue(&self, queue_key: &str) -> (r: bool)
        ensures
            r == self.runs(QueueId { dynamic: false, name: queue_key@ }),
    {
        if self.queue_allowlist.len() == 0 {
            return true;
        }
        let mut i: usize = 0;
        while i < self.queue_allowlist.len()
            invariant
                i <= self.queue_allowlist@.len(),
                forall|j: int|
                    0 <= j < i ==> self.queue_allowlist@[j].id() != (QueueId {
                        dynamic: false,
                        name: queue_key@,
                    }),
            decreases self.queue_allowlist@.len() - i,
        {
            match self.queue_allowlist[i].static_key() {
                Some(key) => {
                    if str_eq(key, queue_key) {
                        return true;
                    }
                },
                None => {},
            }
            i = i + 1;
        }
        false
    }
}

} // verus!

verus! {

/// The runtime runs a static queue exactly when it runs that queue's key:
/// choosing which queues get a coordinator and choosing which cron workers
/// run by their queue key agree.
pub proof fn lemma_static_queue_selection_agrees(settings: RuntimeSettings, queue: QueueConfig)
    requires
        queue.kind is Static,
    ensures
        settings.runs(queue.id()) == settings.runs(QueueId { dynamic: false, name: queue.kind->key@ }),
{
}

impl<DT> Default for Config<DT> {
    fn default() -> (r: Config<DT>)
        ensures
            r.wf(),
            r.workers() == Seq::<WorkerConfig>::empty(),
            r.queues() == Seq::<QueueConfig>::empty(),
    {
        Config::new()
    }
}

impl Default for RuntimeSettings {
    fn default() -> (r: RuntimeSettings)
        ensures
            r.exit_when_processed is None,
            r.shutdown_timeout_ms == 180_000,
            r.queue_allowlist@.len() == 0,
    {
        RuntimeSettings::new()
    }
}

} // verus!
