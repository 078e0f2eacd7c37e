//! The worker manager: the decisions it takes for each message, over the
//! workers it started on the farms, the idle workers of each category, the
//! categories waiting for a worker, and the jobs each running worker runs.
//! The application performs the actions it returns (messages to the job
//! scheduler, the worker table on disk, processes and remote calls).

use vstd::prelude::*;
use std::collections::HashMap;
use crate::farm::{config_local_disk, config_disk_threshold, disk_envs, envs_view, get_farm_config,
    DistributedConfig, FarmConfig, ProtocolMap, resolve_protocol};
use crate::hashing::{get_hash, name_hash};
use crate::job::{category_of, copy_categories, copy_opt_string, is_new_job, opt_chars, Job, JobType,
    JobView, Worker, WorkerView};
use crate::protocol_maps::{has_job, ProtocolQueues, RunningWorkers, WorkerJobs};
use crate::queues::{without, CategoryQueues};
use crate::status::Status;
use crate::text::{decimal, i64_to_string, int_decimal, push_decimal, str_eq};

verus! {

broadcast use vstd::std_specs::hash::group_hash_axioms;

/// What the worker manager asks the application to do.
#[derive(Debug)]
pub enum WorkerAction {
    /// Hand a job to the job scheduler's queues, without running it.
    QueueJob { job: Job, command: String, cache_dir: Option<String> },
    /// Tell the job scheduler of a job's new status.
    UpdateJobStatus {
        job_hash: u64,
        status: Status,
        update_flow_engine: bool,
        message: Option<String>,
        job_type: JobType,
    },
    /// Tell the job scheduler which worker runs a job.
    UpdateJobIdentifier { job_hash: u64, worker_hash: u64 },
    /// Ask the job scheduler to run the next job of a category on a worker.
    RunQueuedCategory { category: u64 },
    /// Tell the job scheduler that a category failed once more.
    IncrementRetry { category: u64, message: Option<String> },
    /// Write a worker to the worker table.
    StoreWorker { worker_hash: u64, worker: Worker },
    /// Remove a worker from the worker table.
    DeleteWorker { worker_hash: u64 },
    /// Start a worker on its farm with the given command.
    SpawnWorker { worker_hash: u64, name: String, command: String, protocol: String, category: u64 },
    /// Kill a worker, or only one of its jobs.
    KillWorker { worker: Worker, job_hash: Option<u64> },
    /// Watch a worker that its farm has started.
    MonitorWorker { worker: Worker },
}

/// The abstract value of an action.
pub enum WorkerActionView {
    QueueJob { job: JobView, command: Seq<char>, cache_dir: Option<Seq<char>> },
    UpdateJobStatus {
        job_hash: u64,
        status: Status,
        update_flow_engine: bool,
        message: Option<Seq<char>>,
        job_type: JobType,
    },
    UpdateJobIdentifier { job_hash: u64, worker_hash: u64 },
    RunQueuedCategory { category: u64 },
    IncrementRetry { category: u64, message: Option<Seq<char>> },
    StoreWorker { worker_hash: u64, worker: WorkerView },
    DeleteWorker { worker_hash: u64 },
    SpawnWorker { worker_hash: u64, name: Seq<char>, command: Seq<char>, protocol: Seq<char>, category: u64 },
    KillWorker { worker: WorkerView, job_hash: Option<u64> },
    MonitorWorker { worker: WorkerView },
}

impl View for WorkerAction {
    type V = WorkerActionView;

    open spec fn view(&self) -> WorkerActionView {
        match self {
            WorkerAction::QueueJob { job, command, cache_dir } => WorkerActionView::QueueJob {
                job: job@,
                command: command@,
                cache_dir: opt_chars(*cache_dir),
            },
            WorkerAction::UpdateJobStatus { job_hash, status, update_flow_engine, message, job_type } =>
                WorkerActionView::UpdateJobStatus {
                job_hash: *job_hash,
                status: *status,
                update_flow_engine: *update_flow_engine,
                message: opt_chars(*message),
                job_type: *job_type,
            },
            WorkerAction::UpdateJobIdentifier { job_hash, worker_hash } =>
                WorkerActionView::UpdateJobIdentifier { job_hash: *job_hash, worker_hash: *worker_hash },
            WorkerAction::RunQueuedCategory { category } =>
                WorkerActionView::RunQueuedCategory { category: *category },
            WorkerAction::IncrementRetry { category, message } =>
                WorkerActionView::IncrementRetry { category: *category, message: opt_chars(*message) },
            WorkerAction::StoreWorker { worker_hash, worker } =>
                WorkerActionView::StoreWorker { worker_hash: *worker_hash, worker: worker@ },
            WorkerAction::DeleteWorker { worker_hash } =>
                WorkerActionView::DeleteWorker { worker_hash: *worker_hash },
            WorkerAction::SpawnWorker { worker_hash, name, command, protocol, category } =>
                WorkerActionView::SpawnWorker {
                worker_hash: *worker_hash,
                name: name@,
                command: command@,
                protocol: protocol@,
                category: *category,
            },
            WorkerAction::KillWorker { worker, job_hash } =>
                WorkerActionView::KillWorker { worker: worker@, job_hash: *job_hash },
            WorkerAction::MonitorWorker { worker } => WorkerActionView::MonitorWorker { worker: worker@ },
        }
    }
}

/// The abstract values of a list of actions.
pub open spec fn wm_actions_view(actions: Seq<WorkerAction>) -> Seq<WorkerActionView> {
    actions.map_values(|a: WorkerAction| a@)
}

/// Appends an action to a list of actions.
fn push_wm_action(actions: &mut Vec<WorkerAction>, a: WorkerAction)
    ensures
        wm_actions_view(final(actions)@) == wm_actions_view(old(actions)@).push(a@),
{
    let ghost v = a@;
    actions.push(a);
    assert(wm_actions_view(actions@) =~= wm_actions_view(old(actions)@).push(v));
}

/// The rendering of a flag.
pub open spec fn bool_text(b: bool) -> Seq<char> {
    if b {
        "true"@
    } else {
        "false"@
    }
}

fn push_bool(s: &mut String, b: bool)
    ensures
        final(s)@ == old(s)@ + bool_text(b),
{
    if b {
        s.append("true");
    } else {
        s.append("false");
    }
}

/// The settings a worker is started with.
#[derive(Clone, Debug)]
pub struct WorkerSettings {
    /// The agent program a worker runs.
    pub worker_script: String,
    /// The controller's work area.
    pub workarea: String,
    /// The directory the cluster manager is installed in.
    pub cluster_home: String,
    /// The URL of the spark master.
    pub spark_master_url: String,
    /// The URL the workers reach the controller at, when it is set.
    pub cluster_url: Option<String>,
}

/// The command that starts a worker running the jobs `first` and `second`
/// through the farm's launch script.
pub open spec fn worker_command(
    first: JobView,
    second: JobView,
    worker_name: Seq<char>,
    worker_script: Seq<char>,
    launcher: Seq<char>,
    worker_hash: u64,
    cluster_url: Seq<char>,
    workarea: Seq<char>,
    cluster_home: Seq<char>,
    spark_master_url: Seq<char>,
) -> Seq<char> {
    let cores = int_decimal(first.specs[0].cores as int);
    let memory = int_decimal(first.specs[0].memory as int);
    launcher + " submit --cores "@ + cores + " --memory "@ + memory + " --command '"@ + worker_script
        + " --job-names "@ + first.job_name + " "@ + second.job_name + " --master-url "@ + cluster_url
        + " --master-workarea "@ + workarea + " --categories "@ + decimal(category_of(first) as nat) + " "@
        + decimal(category_of(second) as nat) + " --protocol "@ + first.protocol + " --job-types "@
        + first.job_type + " "@ + second.job_type + " --lightweight "@ + bool_text(first.lightweight) + " "@
        + bool_text(second.lightweight) + " --name "@ + worker_name + " --cluster-home "@ + cluster_home
        + " --worker-hash "@ + decimal(worker_hash as nat) + " --spark-master-url "@ + spark_master_url
        + " --max-cores "@ + cores + " --max-memory "@ + memory + "'"@
}

impl Job {
    /// The command that starts a worker for this job and `second_job`; an
    /// error when the controller's URL is not set.
    pub fn get_command(
        &self,
        worker_name: &str,
        worker_script: &str,
        launcher: &str,
        second_job: &Job,
        worker_hash: u64,
        cluster_url: &Option<String>,
        workarea: &str,
        cluster_home: &str,
        spark_master_url: &str,
    ) -> (r: Result<String, String>)
        requires
            self.specs@.len() > 0,
        ensures
            match cluster_url {
                Some(url) => r matches Ok(c) && c@ == worker_command(self@, second_job@, worker_name@,
                    worker_script@, launcher@, worker_hash, url@, workarea@, cluster_home@, spark_master_url@),
                None => r matches Err(m) && m@ == "Failed to get cluster url"@,
            },
    {
        let url = match cluster_url {
            Some(u) => u,
            None => {
                return Err(String::from_str("Failed to get cluster url"));
            },
        };
        let cores = i64_to_string(self.specs[0].cores);
        let memory = i64_to_string(self.specs[0].memory);
        let mut c = String::from_str(launcher);
        c.append(" submit --cores ");
        c.append(cores.as_str());
        c.append(" --memory ");
        c.append(memory.as_str());
        c.append(" --command '");
        c.append(worker_script);
        c.append(" --job-names ");
        c.append(self.job_name.as_str());
        c.append(" ");
        c.append(second_job.job_name.as_str());
        c.append(" --master-url ");
        c.append(url.as_str());
        c.append(" --master-workarea ");
        c.append(workarea);
        c.append(" --categories ");
        push_decimal(&mut c, self.get_category());
        c.append(" ");
        push_decimal(&mut c, second_job.get_category());
        c.append(" --protocol ");
        c.append(self.protocol.as_str());
        c.append(" --job-types ");
        c.append(self.job_type.as_str());
        c.append(" ");
        c.append(second_job.job_type.as_str());
        c.append(" --lightweight ");
        push_bool(&mut c, self.lightweight);
        c.append(" ");
        push_bool(&mut c, second_job.lightweight);
        c.append(" --name ");
        c.append(worker_name);
        c.append(" --cluster-home ");
        c.append(cluster_home);
        c.append(" --worker-hash ");
        push_decimal(&mut c, worker_hash);
        c.append(" --spark-master-url ");
        c.append(spark_master_url);
        c.append(" --max-cores ");
        c.append(cores.as_str());
        c.append(" --max-memory ");
        c.append(memory.as_str());
        c.append("'");
        assert(c@ =~= worker_command(self@, second_job@, worker_name@, worker_script@, launcher@, worker_hash,
            url@, workarea@, cluster_home@, spark_master_url@));
        Ok(c)
    }
}

/// A category waiting for a worker of a protocol is run: the category
/// itself is run, and the protocol's longest-waiting category too when it
/// is another one (it leaves the protocol's queue).
pub open spec fn schedule_queued_spec(q: Map<Seq<char>, Seq<u64>>, c: u64, p: Seq<char>)
    -> (Map<Seq<char>, Seq<u64>>, Seq<WorkerActionView>) {
    if q.contains_key(p) && q[p].len() > 0 {
        let c2 = q[p][0];
        (q.insert(p, q[p].drop_first()), if c2 != c {
            seq![WorkerActionView::RunQueuedCategory { category: c },
                WorkerActionView::RunQueuedCategory { category: c2 }]
        } else {
            seq![WorkerActionView::RunQueuedCategory { category: c }]
        })
    } else {
        (q, seq![WorkerActionView::RunQueuedCategory { category: c }])
    }
}

/// Runs a category that waited for a worker of a protocol, and the
/// protocol's longest-waiting category when it is another one (see
/// `schedule_queued_spec`).
pub fn update_queued_workers_and_schedule_job(
    queued_category: u64,
    queued_workers_in_scheduler: &mut ProtocolQueues,
    protocol: &str,
    actions: &mut Vec<WorkerAction>,
)
    requires
        old(queued_workers_in_scheduler).wf(),
    ensures
        final(queued_workers_in_scheduler).wf(),
        ({
            let (q, a) = schedule_queued_spec(old(queued_workers_in_scheduler).view(), queued_category, protocol@);
            &&& final(queued_workers_in_scheduler).view() == q
            &&& wm_actions_view(final(actions)@) == wm_actions_view(old(actions)@) + a
        }),
{
    let ghost a0 = wm_actions_view(actions@);
    let next = queued_workers_in_scheduler.pop_front(protocol);
    push_wm_action(actions, WorkerAction::RunQueuedCategory { category: queued_category });
    match next {
        Some(c2) => {
            if c2 != queued_category {
                push_wm_action(actions, WorkerAction::RunQueuedCategory { category: c2 });
            }
        },
        None => {},
    }
    proof {
        let (q, a) = schedule_queued_spec(old(queued_workers_in_scheduler).view(), queued_category, protocol@);
        assert(wm_actions_view(actions@) =~= a0 + a);
    }
}

/// The running-jobs map with a job added to a worker of a protocol.
pub open spec fn add_running_job(r: Map<Seq<char>, Map<u64, Seq<u64>>>, p: Seq<char>, w: u64, j: u64)
    -> Map<Seq<char>, Map<u64, Seq<u64>>> {
    if r.contains_key(p) {
        let m = r[p];
        r.insert(p, m.insert(w, if m.contains_key(w) { m[w].push(j) } else { seq![j] }))
    } else {
        r.insert(p, map![w => seq![j]])
    }
}

/// Records that a worker runs a job, under the worker's protocol.
pub fn update_running_worker_job_mapper(
    running_worker_job_mapper: &mut RunningWorkers,
    worker: &Worker,
    job_hash: u64,
    worker_hash: u64,
)
    requires
        old(running_worker_job_mapper).wf(),
    ensures
        final(running_worker_job_mapper).wf(),
        final(running_worker_job_mapper).view() == add_running_job(old(running_worker_job_mapper).view(),
            worker.protocol@, worker_hash, job_hash),
{
    let mut jobs = match running_worker_job_mapper.take(worker.protocol.as_str()) {
        Some(w) => w,
        None => WorkerJobs::new(),
    };
    jobs.add_job(worker_hash, job_hash);
    running_worker_job_mapper.put(worker.protocol.as_str(), jobs);
    proof {
        let r = old(running_worker_job_mapper).view();
        let p = worker.protocol@;
        if !r.contains_key(p) {
            assert(Map::<u64, Seq<u64>>::empty().insert(worker_hash, seq![job_hash]) =~= map![worker_hash => seq![job_hash]]);
        }
        assert(running_worker_job_mapper.view() =~= add_running_job(r, p, worker_hash, job_hash));
    }
}

/// The abstract state of the worker manager.
pub struct ManagerView {
    /// The idle workers of each category, longest idle first.
    pub idle: Map<u64, Seq<u64>>,
    /// The worker being started for a category on its farm.
    pub queued_in_grid: Map<u64, u64>,
    /// The categories of each protocol waiting for a worker, in order.
    pub queued_in_scheduler: Map<Seq<char>, Seq<u64>>,
    /// The running workers of each protocol and the jobs each one runs.
    pub running: Map<Seq<char>, Map<u64, Seq<u64>>>,
    /// The worker table.
    pub workers: Map<u64, WorkerView>,
}

/// The worker manager's state.
#[derive(Debug)]
pub struct WorkerManager {
    pub idle_workers_map: CategoryQueues,
    pub queued_workers_in_grid: HashMap<u64, u64>,
    pub queued_jobs_in_scheduler: ProtocolQueues,
    pub running_worker_job_mapper: RunningWorkers,
    pub workers: HashMap<u64, Worker>,
}

impl View for WorkerManager {
    type V = ManagerView;

    open spec fn view(&self) -> ManagerView {
        ManagerView {
            idle: self.idle_workers_map@,
            queued_in_grid: self.queued_workers_in_grid@,
            queued_in_scheduler: self.queued_jobs_in_scheduler.view(),
            running: self.running_worker_job_mapper.view(),
            workers: self.workers@.map_values(|w: Worker| w@),
        }
    }
}

/// Every worker in the table has at least one category.
pub open spec fn workers_have_categories(workers: Map<u64, WorkerView>) -> bool {
    forall|h: u64| #[trigger] workers.contains_key(h) ==> workers[h].categories.len() > 0
}

/// The idle queues with a worker added to a category's queue.
pub open spec fn add_idle(idle: Map<u64, Seq<u64>>, c: u64, w: u64) -> Map<u64, Seq<u64>> {
    idle.insert(c, if idle.contains_key(c) { idle[c].push(w) } else { seq![w] })
}

/// The running-jobs map without a job of a worker of a protocol (unchanged
/// when the protocol or the worker has no entry).
pub open spec fn drop_running_job(r: Map<Seq<char>, Map<u64, Seq<u64>>>, p: Seq<char>, w: u64, j: u64)
    -> Map<Seq<char>, Map<u64, Seq<u64>>> {
    if r.contains_key(p) && r[p].contains_key(w) {
        r.insert(p, r[p].insert(w, without(r[p][w], j)))
    } else {
        r
    }
}

/// The running-jobs map without a worker of a protocol.
pub open spec fn drop_running_worker(r: Map<Seq<char>, Map<u64, Seq<u64>>>, p: Seq<char>, w: u64)
    -> Map<Seq<char>, Map<u64, Seq<u64>>> {
    if r.contains_key(p) {
        r.insert(p, r[p].remove(w))
    } else {
        r
    }
}

/// Each category in turn: when the worker `h` was being started for it, it
/// no longer is, and the category is run (see `schedule_queued_spec`).
pub open spec fn release_spec(s: ManagerView, h: u64, cs: Seq<u64>, p: Seq<char>)
    -> (ManagerView, Seq<WorkerActionView>)
    decreases cs.len(),
{
    if cs.len() == 0 {
        (s, Seq::empty())
    } else {
        let c = cs[0];
        let (s1, a1) = if s.queued_in_grid.contains_key(c) && s.queued_in_grid[c] == h {
            let (q, a) = schedule_queued_spec(s.queued_in_scheduler, c, p);
            (ManagerView { queued_in_scheduler: q, queued_in_grid: s.queued_in_grid.remove(c), ..s }, a)
        } else {
            (s, Seq::empty())
        };
        let (s2, a2) = release_spec(s1, h, cs.drop_first(), p);
        (s2, a1 + a2)
    }
}

/// Each category in turn is run (see `schedule_queued_spec`).
pub open spec fn schedule_all_spec(s: ManagerView, cs: Seq<u64>, p: Seq<char>)
    -> (ManagerView, Seq<WorkerActionView>)
    decreases cs.len(),
{
    if cs.len() == 0 {
        (s, Seq::empty())
    } else {
        let (q, a1) = schedule_queued_spec(s.queued_in_scheduler, cs[0], p);
        let (s2, a2) = schedule_all_spec(ManagerView { queued_in_scheduler: q, ..s }, cs.drop_first(), p);
        (s2, a1 + a2)
    }
}

/// A worker that its farm started becomes idle for each of its categories
/// in turn, and the category is run; when the worker was being started for
/// the category, it no longer is, and the category is run again (see
/// `schedule_queued_spec`).
pub open spec fn register_spec(s: ManagerView, h: u64, cs: Seq<u64>, p: Seq<char>)
    -> (ManagerView, Seq<WorkerActionView>)
    decreases cs.len(),
{
    if cs.len() == 0 {
        (s, Seq::empty())
    } else {
        let c = cs[0];
        let s0 = ManagerView { idle: add_idle(s.idle, c, h), ..s };
        let a0 = seq![WorkerActionView::RunQueuedCategory { category: c }];
        let (s1, a1) = if s0.queued_in_grid.contains_key(c) && s0.queued_in_grid[c] == h {
            let (q, a) = schedule_queued_spec(s0.queued_in_scheduler, c, p);
            (ManagerView { queued_in_scheduler: q, queued_in_grid: s0.queued_in_grid.remove(c), ..s0 }, a)
        } else {
            (s0, Seq::empty())
        };
        let (s2, a2) = register_spec(s1, h, cs.drop_first(), p);
        (s2, a0 + a1 + a2)
    }
}

/// The idle queues without a worker in each of the given categories whose
/// queue holds it, and whether some queue held it.
pub open spec fn unidle_spec(idle: Map<u64, Seq<u64>>, h: u64, cs: Seq<u64>) -> (Map<u64, Seq<u64>>, bool)
    decreases cs.len(),
{
    if cs.len() == 0 {
        (idle, false)
    } else {
        let c = cs[0];
        let (i1, k1) = if idle.contains_key(c) && idle[c].contains(h) {
            (idle.insert(c, without(idle[c], h)), true)
        } else {
            (idle, false)
        };
        let (i2, k2) = unidle_spec(i1, h, cs.drop_first());
        (i2, k1 || k2)
    }
}

/// A status a worker reports for one of its jobs: a disqualified job leaves
/// the worker's jobs; a finished job leaves them and the worker becomes
/// idle for the job's category; a failed worker makes its first category
/// count one more failure, and the categories it was being started for are
/// run (see `release_spec`). Nothing happens for an unknown worker or
/// another status.
pub open spec fn worker_status_spec(
    s: ManagerView,
    h: u64,
    status: Status,
    job_hash: u64,
    category: u64,
    message: Option<Seq<char>>,
) -> (ManagerView, Seq<WorkerActionView>) {
    if !s.workers.contains_key(h) {
        (s, Seq::empty())
    } else {
        let w = s.workers[h];
        let p = w.protocol;
        match status {
            Status::DisQualified => (ManagerView { running: drop_running_job(s.running, p, h, job_hash), ..s },
                Seq::empty()),
            Status::Idle => if s.running.contains_key(p) && s.running[p].contains_key(h) {
                (ManagerView {
                    running: drop_running_job(s.running, p, h, job_hash),
                    idle: add_idle(s.idle, category, h),
                    ..s
                }, Seq::empty())
            } else {
                (s, Seq::empty())
            },
            Status::Failed => {
                let (s1, a1) = release_spec(s, h, w.categories, p);
                (s1, seq![WorkerActionView::IncrementRetry { category: w.categories[0], message }] + a1)
            },
            _ => (s, Seq::empty()),
        }
    }
}

impl WorkerManager {
    /// The internal maps are consistent and every worker in the table has a
    /// category.
    pub open spec fn wf(&self) -> bool {
        &&& self.queued_jobs_in_scheduler.wf()
        &&& self.running_worker_job_mapper.wf()
        &&& workers_have_categories(self@.workers)
    }

    /// A worker manager with no worker.
    pub fn new() -> (r: WorkerManager)
        ensures
            r.wf(),
            r@.idle == Map::<u64, Seq<u64>>::empty(),
            r@.queued_in_grid == Map::<u64, u64>::empty(),
            r@.queued_in_scheduler == Map::<Seq<char>, Seq<u64>>::empty(),
            r@.running == Map::<Seq<char>, Map<u64, Seq<u64>>>::empty(),
            r@.workers == Map::<u64, WorkerView>::empty(),
    {
        let r = WorkerManager {
            idle_workers_map: CategoryQueues::new(),
            queued_workers_in_grid: HashMap::new(),
            queued_jobs_in_scheduler: ProtocolQueues::new(),
            running_worker_job_mapper: RunningWorkers::new(),
            workers: HashMap::new(),
        };
        assert(r@.workers =~= Map::<u64, WorkerView>::empty());
        assert(r@.queued_in_grid =~= Map::<u64, u64>::empty());
        r
    }

    /// Puts a worker read back from the worker table into the table.
    pub fn load_worker(&mut self, worker_hash: u64, worker: Worker)
        requires
            old(self).wf(),
            worker.categories@.len() > 0,
        ensures
            final(self).wf(),
            final(self)@ == (ManagerView { workers: old(self)@.workers.insert(worker_hash, worker@), ..old(self)@ }),
    {
        self.set_worker(worker_hash, worker);
    }

    fn set_worker(&mut self, worker_hash: u64, worker: Worker)
        requires
            old(self).wf(),
            worker.categories@.len() > 0,
        ensures
            final(self).wf(),
            final(self)@ == (ManagerView { workers: old(self)@.workers.insert(worker_hash, worker@), ..old(self)@ }),
    {
        let ghost wv = worker@;
        self.workers.insert(worker_hash, worker);
        assert(self@.workers =~= old(self)@.workers.insert(worker_hash, wv));
    }

    fn delete_worker(&mut self, worker_hash: u64)
        requires
            old(self).wf(),
        ensures
            final(self).wf(),
            final(self)@ == (ManagerView { workers: old(self)@.workers.remove(worker_hash), ..old(self)@ }),
    {
        self.workers.remove(&worker_hash);
        assert(self@.workers =~= old(self)@.workers.remove(worker_hash));
    }

    /// A copy of a worker in the table.
    fn read_worker(&self, worker_hash: u64) -> (r: Option<Worker>)
        ensures
            match r {
                Some(w) => self@.workers.contains_key(worker_hash) && w@ == self@.workers[worker_hash],
                None => !self@.workers.contains_key(worker_hash),
            },
    {
        match self.workers.get(&worker_hash) {
            Some(w) => Some(w.copy()),
            None => None,
        }
    }

    /// The number of workers in the table.
    pub fn table_len(&self) -> (r: usize)
        ensures
            r == self@.workers.len(),
    {
        proof {
            assert(self.workers@.dom() =~= self@.workers.dom());
        }
        self.workers.len()
    }

    /// The number of running workers of a protocol (`None` for a protocol
    /// with no entry), or, without a protocol, the number of workers in the
    /// table.
    pub fn get_workers_count(&self, protocol: &Option<String>) -> (r: Option<u32>)
        requires
            self.wf(),
        ensures
            match protocol {
                Some(p) => if self@.running.contains_key(p@) {
                    r == Some(self@.running[p@].len() as u32)
                } else {
                    r is None
                },
                None => r == Some(self@.workers.len() as u32),
            },
    {
        match protocol {
            Some(p) => match self.running_worker_job_mapper.get(p.as_str()) {
                Some(w) => Some(w.len() as u32),
                None => None,
            },
            None => Some(self.table_len() as u32),
        }
    }

    /// Adds a worker to the idle workers of a category.
    pub fn add_to_idle_workers_map(&mut self, worker_hash: u64, category: u64)
        ensures
            final(self)@ == (ManagerView { idle: add_idle(old(self)@.idle, category, worker_hash), ..old(self)@ }),
            final(self).wf() == old(self).wf(),
    {
        self.idle_workers_map.push_back(category, worker_hash);
    }

    fn drop_job(&mut self, protocol: &str, worker_hash: u64, job_hash: u64)
        requires
            old(self).wf(),
        ensures
            final(self).wf(),
            final(self)@ == (ManagerView {
                running: drop_running_job(old(self)@.running, protocol@, worker_hash, job_hash),
                ..old(self)@
            }),
    {
        match self.running_worker_job_mapper.take(protocol) {
            Some(mut w) => {
                let ghost wv = w@;
                w.drop_job(worker_hash, job_hash);
                self.running_worker_job_mapper.put(protocol, w);
                proof {
                    let r = old(self)@.running;
                    if !wv.contains_key(worker_hash) {
                        assert(r.insert(protocol@, wv) =~= r);
                    }
                    assert(self@.running =~= drop_running_job(r, protocol@, worker_hash, job_hash));
                }
            },
            None => {},
        }
    }

    /// Kills one job of a worker (the scheduler's kill request for a job run
    /// by a worker): when the worker runs the job, the job leaves its jobs
    /// and the worker is asked to kill it. Nothing happens for a job without
    /// a worker, an unknown worker, or a job the worker does not run.
    pub fn kill_job(&mut self, job_hash: u64, worker_hash: Option<u64>, actions: &mut Vec<WorkerAction>)
        requires
            old(self).wf(),
        ensures
            final(self).wf(),
            match worker_hash {
                Some(h) => {
                    let s = old(self)@;
                    if s.workers.contains_key(h) && s.running.contains_key(s.workers[h].protocol)
                        && s.running[s.workers[h].protocol].contains_key(h)
                        && s.running[s.workers[h].protocol][h].contains(job_hash) {
                        &&& final(self)@ == (ManagerView {
                            running: drop_running_job(s.running, s.workers[h].protocol, h, job_hash),
                            ..s
                        })
                        &&& wm_actions_view(final(actions)@) == wm_actions_view(old(actions)@).push(
                            WorkerActionView::KillWorker { worker: s.workers[h], job_hash: Some(job_hash) })
                    } else {
                        &&& final(self)@ == s
                        &&& final(actions)@ == old(actions)@
                    }
                },
                None => final(self)@ == old(self)@ && final(actions)@ == old(actions)@,
            },
    {
        let h = match worker_hash {
            Some(h) => h,
            None => {
                return;
            },
        };
        let worker = match self.read_worker(h) {
            Some(w) => w,
            None => {
                return;
            },
        };
        let runs = match self.running_worker_job_mapper.get(worker.protocol.as_str()) {
            Some(ws) => match ws.get(h) {
                Some(jobs) => has_job(jobs, job_hash),
                None => false,
            },
            None => false,
        };
        if runs {
            self.drop_job(worker.protocol.as_str(), h, job_hash);
            push_wm_action(actions, WorkerAction::KillWorker { worker, job_hash: Some(job_hash) });
        }
    }
}

impl WorkerManager {
    /// Whether the worker `h` is being started for a category.
    fn started_for(&self, c: u64, h: u64) -> (r: bool)
        ensures
            r == (self@.queued_in_grid.contains_key(c) && self@.queued_in_grid[c] == h),
    {
        match self.queued_workers_in_grid.get(&c) {
            Some(x) => *x == h,
            None => false,
        }
    }

    fn forget_started(&mut self, c: u64)
        requires
            old(self).wf(),
        ensures
            final(self).wf(),
            final(self)@ == (ManagerView { queued_in_grid: old(self)@.queued_in_grid.remove(c), ..old(self)@ }),
    {
        self.queued_workers_in_grid.remove(&c);
    }

    fn schedule_queued(&mut self, c: u64, protocol: &str, actions: &mut Vec<WorkerAction>)
        requires
            old(self).wf(),
        ensures
            final(self).wf(),
            ({
                let (q, a) = schedule_queued_spec(old(self)@.queued_in_scheduler, c, protocol@);
                &&& final(self)@ == (ManagerView { queued_in_scheduler: q, ..old(self)@ })
                &&& wm_actions_view(final(actions)@) == wm_actions_view(old(actions)@) + a
            }),
    {
        update_queued_workers_and_schedule_job(c, &mut self.queued_jobs_in_scheduler, protocol, actions);
    }

    /// See `release_spec`.
    fn release_categories(&mut self, h: u64, cs: &Vec<u64>, protocol: &str, actions: &mut Vec<WorkerAction>)
        requires
            old(self).wf(),
        ensures
            final(self).wf(),
            ({
                let (s1, a1) = release_spec(old(self)@, h, cs@, protocol@);
                &&& final(self)@ == s1
                &&& wm_actions_view(final(actions)@) == wm_actions_view(old(actions)@) + a1
            }),
    {
        let ghost total = release_spec(old(self)@, h, cs@, protocol@);
        let ghost a0 = wm_actions_view(actions@);
        let n = cs.len();
        let mut i: usize = 0;
        assert(cs@.subrange(0, n as int) =~= cs@);
        assert(wm_actions_view(actions@) + total.1 =~= a0 + total.1);
        while i < n
            invariant
                n == cs@.len(),
                i <= n,
                self.wf(),
                total == release_spec(old(self)@, h, cs@, protocol@),
                ({
                    let rest = release_spec(self@, h, cs@.subrange(i as int, n as int), protocol@);
                    &&& rest.0 == total.0
                    &&& wm_actions_view(actions@) + rest.1 == a0 + total.1
                }),
            decreases n - i,
        {
            let ghost rest = cs@.subrange(i as int, n as int);
            assert(rest.drop_first() =~= cs@.subrange(i + 1, n as int));
            let ghost acts = wm_actions_view(actions@);
            let ghost before = self@;
            let c = cs[i];
            if self.started_for(c, h) {
                self.schedule_queued(c, protocol, actions);
                self.forget_started(c);
            }
            proof {
                let (s1, a1) = if before.queued_in_grid.contains_key(c) && before.queued_in_grid[c] == h {
                    let (q, a) = schedule_queued_spec(before.queued_in_scheduler, c, protocol@);
                    (ManagerView { queued_in_scheduler: q, queued_in_grid: before.queued_in_grid.remove(c), ..before }, a)
                } else {
                    (before, Seq::empty())
                };
                assert(self@ == s1);
                assert(wm_actions_view(actions@) =~= acts + a1);
                let (s2, a2) = release_spec(s1, h, rest.drop_first(), protocol@);
                assert(wm_actions_view(actions@) + a2 =~= acts + (a1 + a2));
            }
            i = i + 1;
        }
        assert(cs@.subrange(n as int, n as int) =~= Seq::<u64>::empty());
        assert(wm_actions_view(actions@) =~= wm_actions_view(actions@) + Seq::empty());
    }

    /// See `schedule_all_spec`.
    fn schedule_categories(&mut self, cs: &Vec<u64>, protocol: &str, actions: &mut Vec<WorkerAction>)
        requires
            old(self).wf(),
        ensures
            final(self).wf(),
            ({
                let (s1, a1) = schedule_all_spec(old(self)@, cs@, protocol@);
                &&& final(self)@ == s1
                &&& wm_actions_view(final(actions)@) == wm_actions_view(old(actions)@) + a1
            }),
    {
        let ghost total = schedule_all_spec(old(self)@, cs@, protocol@);
        let ghost a0 = wm_actions_view(actions@);
        let n = cs.len();
        let mut i: usize = 0;
        assert(cs@.subrange(0, n as int) =~= cs@);
        assert(wm_actions_view(actions@) + total.1 =~= a0 + total.1);
        while i < n
            invariant
                n == cs@.len(),
                i <= n,
                self.wf(),
                total == schedule_all_spec(old(self)@, cs@, protocol@),
                ({
                    let rest = schedule_all_spec(self@, cs@.subrange(i as int, n as int), protocol@);
                    &&& rest.0 == total.0
                    &&& wm_actions_view(actions@) + rest.1 == a0 + total.1
                }),
            decreases n - i,
        {
            let ghost rest = cs@.subrange(i as int, n as int);
            assert(rest.drop_first() =~= cs@.subrange(i + 1, n as int));
            let ghost acts = wm_actions_view(actions@);
            let ghost before = self@;
            let c = cs[i];
            self.schedule_queued(c, protocol, actions);
            proof {
                let (q, a1) = schedule_queued_spec(before.queued_in_scheduler, c, protocol@);
                let (s2, a2) = schedule_all_spec(ManagerView { queued_in_scheduler: q, ..before }, rest.drop_first(), protocol@);
                assert(wm_actions_view(actions@) + a2 =~= acts + (a1 + a2));
            }
            i = i + 1;
        }
        assert(cs@.subrange(n as int, n as int) =~= Seq::<u64>::empty());
        assert(wm_actions_view(actions@) =~= wm_actions_view(actions@) + Seq::empty());
    }

    /// See `register_spec`.
    fn register_categories(&mut self, h: u64, cs: &Vec<u64>, protocol: &str, actions: &mut Vec<WorkerAction>)
        requires
            old(self).wf(),
        ensures
            final(self).wf(),
            ({
                let (s1, a1) = register_spec(old(self)@, h, cs@, protocol@);
                &&& final(self)@ == s1
                &&& wm_actions_view(final(actions)@) == wm_actions_view(old(actions)@) + a1
            }),
    {
        let ghost total = register_spec(old(self)@, h, cs@, protocol@);
        let ghost a0 = wm_actions_view(actions@);
        let n = cs.len();
        let mut i: usize = 0;
        assert(cs@.subrange(0, n as int) =~= cs@);
        assert(wm_actions_view(actions@) + total.1 =~= a0 + total.1);
        while i < n
            invariant
                n == cs@.len(),
                i <= n,
                self.wf(),
                total == register_spec(old(self)@, h, cs@, protocol@),
                ({
                    let rest = register_spec(self@, h, cs@.subrange(i as int, n as int), protocol@);
                    &&& rest.0 == total.0
                    &&& wm_actions_view(actions@) + rest.1 == a0 + total.1
                }),
            decreases n - i,
        {
            let ghost rest = cs@.subrange(i as int, n as int);
            assert(rest.drop_first() =~= cs@.subrange(i + 1, n as int));
            let ghost acts = wm_actions_view(actions@);
            let ghost before = self@;
            let c = cs[i];
            self.add_to_idle_workers_map(h, c);
            push_wm_action(actions, WorkerAction::RunQueuedCategory { category: c });
            let ghost s0 = self@;
            let ghost acts0 = wm_actions_view(actions@);
            if self.started_for(c, h) {
                self.forget_started(c);
                self.schedule_queued(c, protocol, actions);
            }
            proof {
                let a0s = seq![WorkerActionView::RunQueuedCategory { category: c }];
                let (s1, a1) = if s0.queued_in_grid.contains_key(c) && s0.queued_in_grid[c] == h {
                    let (q, a) = schedule_queued_spec(s0.queued_in_scheduler, c, protocol@);
                    (ManagerView { queued_in_scheduler: q, queued_in_grid: s0.queued_in_grid.remove(c), ..s0 }, a)
                } else {
                    (s0, Seq::empty())
                };
                assert(self@ == s1);
                assert(wm_actions_view(actions@) =~= acts + a0s + a1);
                let (s2, a2) = register_spec(s1, h, rest.drop_first(), protocol@);
                assert(wm_actions_view(actions@) + a2 =~= acts + (a0s + a1 + a2));
            }
            i = i + 1;
        }
        assert(cs@.subrange(n as int, n as int) =~= Seq::<u64>::empty());
        assert(wm_actions_view(actions@) =~= wm_actions_view(actions@) + Seq::empty());
    }

    /// See `unidle_spec`.
    fn unidle(&mut self, h: u64, cs: &Vec<u64>) -> (kill: bool)
        requires
            old(self).wf(),
        ensures
            final(self).wf(),
            ({
                let (idle, k) = unidle_spec(old(self)@.idle, h, cs@);
                &&& final(self)@ == (ManagerView { idle, ..old(self)@ })
                &&& kill == k
            }),
    {
        let ghost total = unidle_spec(old(self)@.idle, h, cs@);
        let n = cs.len();
        let mut i: usize = 0;
        let mut kill = false;
        assert(cs@.subrange(0, n as int) =~= cs@);
        while i < n
            invariant
                n == cs@.len(),
                i <= n,
                self.wf(),
                self@ == (ManagerView { idle: self@.idle, ..old(self)@ }),
                total == unidle_spec(old(self)@.idle, h, cs@),
                ({
                    let rest = unidle_spec(self@.idle, h, cs@.subrange(i as int, n as int));
                    &&& rest.0 == total.0
                    &&& (kill || rest.1) == total.1
                }),
            decreases n - i,
        {
            let ghost rest = cs@.subrange(i as int, n as int);
            assert(rest.drop_first() =~= cs@.subrange(i + 1, n as int));
            let c = cs[i];
            if self.idle_workers_map.contains_job(c, h) {
                self.idle_workers_map.retain_other(c, h);
                kill = true;
            }
            i = i + 1;
        }
        assert(cs@.subrange(n as int, n as int) =~= Seq::<u64>::empty());
        kill
    }

    /// A worker's categories stop waiting for it (the `UpdateQueued`
    /// message): see `release_spec`. Nothing happens for an unknown worker.
    pub fn update_queued(&mut self, worker_hash: u64, actions: &mut Vec<WorkerAction>)
        requires
            old(self).wf(),
        ensures
            final(self).wf(),
            old(self)@.workers.contains_key(worker_hash) ==> ({
                let w = old(self)@.workers[worker_hash];
                let (s1, a1) = release_spec(old(self)@, worker_hash, w.categories, w.protocol);
                &&& final(self)@ == s1
                &&& wm_actions_view(final(actions)@) == wm_actions_view(old(actions)@) + a1
            }),
            !old(self)@.workers.contains_key(worker_hash) ==> final(self)@ == old(self)@
                && final(actions)@ == old(actions)@,
    {
        match self.read_worker(worker_hash) {
            Some(w) => self.release_categories(worker_hash, &w.categories, w.protocol.as_str(), actions),
            None => {},
        }
    }

    /// A status a worker reports for one of its jobs (see
    /// `worker_status_spec`).
    pub fn update_worker_status(
        &mut self,
        worker_hash: u64,
        status: Status,
        job_hash: u64,
        category: u64,
        message: Option<String>,
        actions: &mut Vec<WorkerAction>,
    )
        requires
            old(self).wf(),
        ensures
            final(self).wf(),
            ({
                let (s1, a1) = worker_status_spec(old(self)@, worker_hash, status, job_hash, category,
                    opt_chars(message));
                &&& final(self)@ == s1
                &&& wm_actions_view(final(actions)@) == wm_actions_view(old(actions)@) + a1
            }),
    {
        let ghost a0 = wm_actions_view(actions@);
        let worker = match self.read_worker(worker_hash) {
            Some(w) => w,
            None => {
                assert(wm_actions_view(actions@) =~= a0 + Seq::empty());
                return;
            },
        };
        match status {
            Status::DisQualified => {
                self.drop_job(worker.protocol.as_str(), worker_hash, job_hash);
                assert(wm_actions_view(actions@) =~= a0 + Seq::empty());
            },
            Status::Idle => {
                let known = match self.running_worker_job_mapper.get(worker.protocol.as_str()) {
                    Some(ws) => match ws.get(worker_hash) {
                        Some(_) => true,
                        None => false,
                    },
                    None => false,
                };
                if known {
                    self.drop_job(worker.protocol.as_str(), worker_hash, job_hash);
                    self.add_to_idle_workers_map(worker_hash, category);
                }
                assert(wm_actions_view(actions@) =~= a0 + Seq::empty());
            },
            Status::Failed => {
                let first = worker.categories[0];
                push_wm_action(actions, WorkerAction::IncrementRetry { category: first, message });
                let ghost a1 = wm_actions_view(actions@);
                self.release_categories(worker_hash, &worker.categories, worker.protocol.as_str(), actions);
                proof {
                    let (s1, r) = release_spec(old(self)@, worker_hash, worker@.categories, worker@.protocol);
                    assert(wm_actions_view(actions@) =~= a0 + (seq![WorkerActionView::IncrementRetry {
                        category: first, message: opt_chars(message) }] + r));
                }
            },
            _ => {
                assert(wm_actions_view(actions@) =~= a0 + Seq::empty());
            },
        }
    }
}

/// A worker reports its farm job id and, once it runs, the URL it is
/// reached at (the `UpdateWorker` message). With a URL the worker becomes
/// idle for its categories (see `register_spec`). The worker is written back
/// to the table, and watched when both are known. Nothing happens for an
/// unknown worker.
pub open spec fn update_worker_spec(s: ManagerView, h: u64, job_id: Option<Seq<char>>, url: Option<Seq<char>>)
    -> (ManagerView, Seq<WorkerActionView>) {
    if !s.workers.contains_key(h) {
        (s, Seq::empty())
    } else {
        let w = s.workers[h];
        let w1 = match job_id {
            Some(j) => WorkerView { job_id: Some(j), ..w },
            None => w,
        };
        let (w2, s1, a1) = match url {
            Some(u) => {
                let (s1, a1) = register_spec(s, h, w.categories, w.protocol);
                (WorkerView { identifier: Some(u), ..w1 }, s1, a1)
            },
            None => (w1, s, Seq::empty()),
        };
        let s2 = ManagerView { workers: s1.workers.insert(h, w2), ..s1 };
        let a2 = seq![WorkerActionView::StoreWorker { worker_hash: h, worker: w2 }];
        let a3 = if w2.job_id is Some && w2.identifier is Some {
            seq![WorkerActionView::MonitorWorker { worker: w2 }]
        } else {
            Seq::empty()
        };
        (s2, a1 + a2 + a3)
    }
}

/// The status updates that fail each job of a killed worker.
pub open spec fn failed_jobs_actions(jobs: Seq<u64>, h: u64, update_flow_engine: bool, message: Option<Seq<char>>)
    -> Seq<WorkerActionView> {
    jobs.map_values(|j: u64| WorkerActionView::UpdateJobStatus {
        job_hash: j,
        status: Status::Failed,
        update_flow_engine,
        message,
        job_type: JobType::Remote(h),
    })
}

/// Killing a worker: its jobs, when it has an entry under its protocol, leave
/// the running jobs and (when asked) are reported failed; each of its
/// categories is run (see `schedule_all_spec`); then the worker is killed.
pub open spec fn kill_worker_spec(
    s: ManagerView,
    h: u64,
    w: WorkerView,
    update_flow_engine: bool,
    message: Option<Seq<char>>,
    update_job_status: bool,
) -> (ManagerView, Seq<WorkerActionView>) {
    let p = w.protocol;
    let a1 = if update_job_status && s.running.contains_key(p) && s.running[p].contains_key(h) {
        failed_jobs_actions(s.running[p][h], h, update_flow_engine, message)
    } else {
        Seq::empty()
    };
    let s1 = ManagerView { running: drop_running_worker(s.running, p, h), ..s };
    let (s2, a2) = schedule_all_spec(s1, w.categories, p);
    (s2, a1 + a2 + seq![WorkerActionView::KillWorker { worker: w, job_hash: None }])
}

/// The `KillWorker` message: the worker leaves the table and is killed, its
/// jobs reported failed (see `kill_worker_spec`). Nothing happens for an
/// unknown worker.
pub open spec fn kill_message_spec(s: ManagerView, h: u64, message: Option<Seq<char>>, update_flow_engine: bool)
    -> (ManagerView, Seq<WorkerActionView>) {
    if !s.workers.contains_key(h) {
        (s, Seq::empty())
    } else {
        let w = s.workers[h];
        let s0 = ManagerView { workers: s.workers.remove(h), ..s };
        let (s1, a1) = kill_worker_spec(s0, h, w, update_flow_engine, message, true);
        (s1, seq![WorkerActionView::DeleteWorker { worker_hash: h }] + a1)
    }
}

/// The `KillIdleWorker` message: a worker that runs no job and is idle for
/// one of its categories leaves those idle queues and the table, its entry
/// leaves the running workers, it is killed and each of its categories is
/// run. A worker running a job, or idle for none of its categories, only
/// leaves the idle queues it is in (none, for a busy one); nothing happens
/// for an unknown worker.
pub open spec fn kill_idle_spec(s: ManagerView, h: u64) -> (ManagerView, Seq<WorkerActionView>) {
    if !s.workers.contains_key(h) {
        (s, Seq::empty())
    } else {
        let w = s.workers[h];
        let p = w.protocol;
        if s.running.contains_key(p) && s.running[p].contains_key(h) && s.running[p][h].len() > 0 {
            (s, Seq::empty())
        } else {
            let (idle, kill) = unidle_spec(s.idle, h, w.categories);
            let s1 = ManagerView { idle, ..s };
            if !kill {
                (s1, Seq::empty())
            } else {
                let s2 = ManagerView {
                    workers: s1.workers.remove(h),
                    running: drop_running_worker(s1.running, p, h),
                    ..s1
                };
                let (s3, a3) = schedule_all_spec(s2, w.categories, p);
                (s3, seq![WorkerActionView::DeleteWorker { worker_hash: h },
                    WorkerActionView::KillWorker { worker: w, job_hash: None }] + a3)
            }
        }
    }
}

impl WorkerManager {
    /// See `update_worker_spec`.
    pub fn update_worker(
        &mut self,
        worker_hash: u64,
        job_id: Option<String>,
        url: Option<String>,
        actions: &mut Vec<WorkerAction>,
    )
        requires
            old(self).wf(),
        ensures
            final(self).wf(),
            ({
                let (s1, a1) = update_worker_spec(old(self)@, worker_hash, opt_chars(job_id), opt_chars(url));
                &&& final(self)@ == s1
                &&& wm_actions_view(final(actions)@) == wm_actions_view(old(actions)@) + a1
            }),
    {
        let ghost a0 = wm_actions_view(actions@);
        let mut worker = match self.read_worker(worker_hash) {
            Some(w) => w,
            None => {
                assert(wm_actions_view(actions@) =~= a0 + Seq::empty());
                return;
            },
        };
        let ghost w0 = worker@;
        match job_id {
            Some(j) => {
                worker.job_id = Some(j);
            },
            None => {},
        }
        let ghost a1_start = wm_actions_view(actions@);
        match url {
            Some(u) => {
                worker.identifier = Some(u);
                self.register_categories(worker_hash, &worker.categories, worker.protocol.as_str(), actions);
            },
            None => {},
        }
        let ghost a1 = wm_actions_view(actions@);
        self.set_worker(worker_hash, worker.copy());
        push_wm_action(actions, WorkerAction::StoreWorker { worker_hash, worker: worker.copy() });
        let ghost a2 = wm_actions_view(actions@);
        let watch = worker.job_id.is_some() && worker.identifier.is_some();
        if watch {
            push_wm_action(actions, WorkerAction::MonitorWorker { worker });
        }
        proof {
            let (s1, r) = update_worker_spec(old(self)@, worker_hash, opt_chars(job_id), opt_chars(url));
            assert(wm_actions_view(actions@) =~= a0 + r);
        }
    }

    /// Reports the jobs of a killed worker failed.
    fn fail_jobs(
        jobs: &Vec<u64>,
        worker_hash: u64,
        update_flow_engine: bool,
        message: &Option<String>,
        actions: &mut Vec<WorkerAction>,
    )
        ensures
            wm_actions_view(final(actions)@) == wm_actions_view(old(actions)@) + failed_jobs_actions(jobs@,
                worker_hash, update_flow_engine, opt_chars(*message)),
    {
        let ghost a0 = wm_actions_view(actions@);
        let ghost m = opt_chars(*message);
        let mut i: usize = 0;
        while i < jobs.len()
            invariant
                i <= jobs@.len(),
                m == opt_chars(*message),
                wm_actions_view(actions@) == a0 + failed_jobs_actions(jobs@.subrange(0, i as int), worker_hash,
                    update_flow_engine, m),
            decreases jobs@.len() - i,
        {
            let msg = copy_opt_string(message);
            assert(opt_chars(msg) == m);
            push_wm_action(actions, WorkerAction::UpdateJobStatus {
                job_hash: jobs[i],
                status: Status::Failed,
                update_flow_engine,
                message: msg,
                job_type: JobType::Remote(worker_hash),
            });
            assert(jobs@.subrange(0, i + 1) =~= jobs@.subrange(0, i as int).push(jobs@[i as int]));
            assert(failed_jobs_actions(jobs@.subrange(0, i + 1), worker_hash, update_flow_engine, m) =~=
                failed_jobs_actions(jobs@.subrange(0, i as int), worker_hash, update_flow_engine, m).push(
                WorkerActionView::UpdateJobStatus {
                    job_hash: jobs@[i as int],
                    status: Status::Failed,
                    update_flow_engine,
                    message: m,
                    job_type: JobType::Remote(worker_hash),
                }));
            i = i + 1;
        }
        assert(jobs@.subrange(0, jobs@.len() as int) =~= jobs@);
    }

    /// Removes a worker's entry from the running workers of a protocol,
    /// giving back its jobs.
    fn drop_worker(&mut self, protocol: &str, worker_hash: u64) -> (r: Option<Vec<u64>>)
        requires
            old(self).wf(),
        ensures
            final(self).wf(),
            final(self)@ == (ManagerView {
                running: drop_running_worker(old(self)@.running, protocol@, worker_hash),
                ..old(self)@
            }),
            match r {
                Some(v) => old(self)@.running.contains_key(protocol@)
                    && old(self)@.running[protocol@].contains_key(worker_hash)
                    && v@ == old(self)@.running[protocol@][worker_hash],
                None => !(old(self)@.running.contains_key(protocol@)
                    && old(self)@.running[protocol@].contains_key(worker_hash)),
            },
    {
        match self.running_worker_job_mapper.take(protocol) {
            Some(mut w) => {
                let r = w.remove(worker_hash);
                self.running_worker_job_mapper.put(protocol, w);
                assert(self@.running =~= drop_running_worker(old(self)@.running, protocol@, worker_hash));
                r
            },
            None => None,
        }
    }

    /// Kills a worker (see `kill_worker_spec`).
    pub fn kill_worker(
        &mut self,
        worker_hash: u64,
        worker: Worker,
        update_flow_engine: bool,
        message: Option<String>,
        update_job_status: bool,
        actions: &mut Vec<WorkerAction>,
    )
        requires
            old(self).wf(),
        ensures
            final(self).wf(),
            ({
                let (s1, a1) = kill_worker_spec(old(self)@, worker_hash, worker@, update_flow_engine,
                    opt_chars(message), update_job_status);
                &&& final(self)@ == s1
                &&& wm_actions_view(final(actions)@) == wm_actions_view(old(actions)@) + a1
            }),
    {
        let ghost a0 = wm_actions_view(actions@);
        let jobs = self.drop_worker(worker.protocol.as_str(), worker_hash);
        match jobs {
            Some(v) => {
                if update_job_status {
                    Self::fail_jobs(&v, worker_hash, update_flow_engine, &message, actions);
                }
            },
            None => {},
        }
        let ghost a1 = wm_actions_view(actions@);
        self.schedule_categories(&worker.categories, worker.protocol.as_str(), actions);
        let ghost a2 = wm_actions_view(actions@);
        push_wm_action(actions, WorkerAction::KillWorker { worker, job_hash: None });
        proof {
            let (s1, r) = kill_worker_spec(old(self)@, worker_hash, worker@, update_flow_engine,
                opt_chars(message), update_job_status);
            assert(a1 =~= a0 + (if update_job_status && old(self)@.running.contains_key(worker@.protocol)
                && old(self)@.running[worker@.protocol].contains_key(worker_hash) {
                failed_jobs_actions(old(self)@.running[worker@.protocol][worker_hash], worker_hash,
                    update_flow_engine, opt_chars(message))
            } else {
                Seq::empty()
            }));
            assert(wm_actions_view(actions@) =~= a0 + r);
        }
    }

    /// The `KillWorker` message (see `kill_message_spec`).
    pub fn kill_worker_by_hash(
        &mut self,
        worker_hash: u64,
        message: Option<String>,
        update_flow_engine: bool,
        actions: &mut Vec<WorkerAction>,
    )
        requires
            old(self).wf(),
        ensures
            final(self).wf(),
            ({
                let (s1, a1) = kill_message_spec(old(self)@, worker_hash, opt_chars(message), update_flow_engine);
                &&& final(self)@ == s1
                &&& wm_actions_view(final(actions)@) == wm_actions_view(old(actions)@) + a1
            }),
    {
        let ghost a0 = wm_actions_view(actions@);
        match self.read_worker(worker_hash) {
            Some(worker) => {
                self.delete_worker(worker_hash);
                push_wm_action(actions, WorkerAction::DeleteWorker { worker_hash });
                let ghost a1 = wm_actions_view(actions@);
                self.kill_worker(worker_hash, worker, update_flow_engine, message, true, actions);
                proof {
                    let (s1, r) = kill_message_spec(old(self)@, worker_hash, opt_chars(message), update_flow_engine);
                    assert(wm_actions_view(actions@) =~= a0 + r);
                }
            },
            None => {
                assert(wm_actions_view(actions@) =~= a0 + Seq::empty());
            },
        }
    }

    /// The `KillIdleWorker` message (see `kill_idle_spec`).
    pub fn kill_idle_worker(&mut self, worker_hash: u64, actions: &mut Vec<WorkerAction>)
        requires
            old(self).wf(),
        ensures
            final(self).wf(),
            ({
                let (s1, a1) = kill_idle_spec(old(self)@, worker_hash);
                &&& final(self)@ == s1
                &&& wm_actions_view(final(actions)@) == wm_actions_view(old(actions)@) + a1
            }),
    {
        let ghost a0 = wm_actions_view(actions@);
        let worker = match self.read_worker(worker_hash) {
            Some(w) => w,
            None => {
                assert(wm_actions_view(actions@) =~= a0 + Seq::empty());
                return;
            },
        };
        let busy = match self.running_worker_job_mapper.get(worker.protocol.as_str()) {
            Some(ws) => match ws.get(worker_hash) {
                Some(jobs) => jobs.len() > 0,
                None => false,
            },
            None => false,
        };
        if busy {
            assert(wm_actions_view(actions@) =~= a0 + Seq::empty());
            return;
        }
        let kill = self.unidle(worker_hash, &worker.categories);
        if !kill {
            assert(wm_actions_view(actions@) =~= a0 + Seq::empty());
            return;
        }
        self.delete_worker(worker_hash);
        let _ = self.drop_worker(worker.protocol.as_str(), worker_hash);
        push_wm_action(actions, WorkerAction::DeleteWorker { worker_hash });
        push_wm_action(actions, WorkerAction::KillWorker { worker: worker.copy(), job_hash: None });
        let ghost a1 = wm_actions_view(actions@);
        self.schedule_categories(&worker.categories, worker.protocol.as_str(), actions);
        proof {
            let (s1, r) = kill_idle_spec(old(self)@, worker_hash);
            assert(wm_actions_view(actions@) =~= a0 + r);
        }
    }
}

/// The message a job of an unknown protocol fails with.
pub open spec fn missing_launcher_message(job: JobView) -> Seq<char> {
    "Launcher not found for protocol: "@ + job.protocol + " used by job: "@ + job.job_name
        + ". Skipping launching of this job"@
}

/// The name of a new worker: the time, the protocol and the size of the
/// worker table, joined by underscores.
pub open spec fn new_worker_name(ts: i64, p: Seq<char>, n: nat) -> Seq<char> {
    int_decimal(ts as int) + "_"@ + p + "_"@ + decimal(n)
}

/// The dummy job of a worker started for `job`, of the given weight.
pub open spec fn dummy_view(job: JobView, lightweight: bool) -> JobView {
    JobView {
        job_name: crate::job::dummy_job_name(),
        job_type: Seq::empty(),
        status: Status::New,
        protocol: job.protocol,
        specs: job.specs,
        lightweight,
        lightweight_spec: None,
        identifier: None,
    }
}

/// The protocol queues with a category appended to a protocol's queue.
pub open spec fn push_protocol_queue(q: Map<Seq<char>, Seq<u64>>, p: Seq<char>, c: u64) -> Map<Seq<char>, Seq<u64>> {
    q.insert(p, if q.contains_key(p) { q[p].push(c) } else { seq![c] })
}

/// The running-jobs map with a new worker of a protocol, running no job.
pub open spec fn set_running_worker(r: Map<Seq<char>, Map<u64, Seq<u64>>>, p: Seq<char>, h: u64)
    -> Map<Seq<char>, Map<u64, Seq<u64>>> {
    if r.contains_key(p) {
        r.insert(p, r[p].insert(h, Seq::empty()))
    } else {
        r.insert(p, map![h => Seq::empty()])
    }
}

/// A job of a farm protocol that no idle worker took: it goes to the job
/// scheduler's queues and its category waits for a worker of the protocol.
/// Unless a worker is already being started for the category, or the
/// protocol runs as many workers as the farm allows (the count taken as an
/// `i8`), a new worker is started for the job and its companion (see
/// `worker_command`): it enters the table, is being started for the
/// category, and runs no job yet. Without the controller's URL no worker is
/// started.
pub open spec fn queue_remote_spec(
    s: ManagerView,
    job: JobView,
    command: Seq<char>,
    cache_dir: Option<Seq<char>>,
    p: Seq<char>,
    max_workers: i8,
    script: Seq<char>,
    ts: i64,
    settings: WorkerSettings,
) -> (ManagerView, Seq<WorkerActionView>) {
    let c = category_of(job);
    let a1 = seq![WorkerActionView::QueueJob { job, command, cache_dir }];
    let s1 = ManagerView { queued_in_scheduler: push_protocol_queue(s.queued_in_scheduler, p, c), ..s };
    let n = if s1.running.contains_key(p) { s1.running[p].len() } else { 0 };
    if s1.queued_in_grid.contains_key(c) || (n as i8) >= max_workers {
        (s1, a1)
    } else {
        let name = new_worker_name(ts, p, s1.workers.len());
        let h = name_hash(name);
        match settings.cluster_url {
            None => (s1, a1),
            Some(url) => {
                let first = dummy_view(job, job.lightweight);
                let second = dummy_view(job, !job.lightweight);
                let cmd = worker_command(first, second, name, settings.worker_script@, script, h, url@,
                    settings.workarea@, settings.cluster_home@, settings.spark_master_url@);
                let w = WorkerView {
                    name,
                    identifier: None,
                    job_id: None,
                    protocol: p,
                    categories: seq![category_of(first), category_of(second)],
                };
                let s2 = ManagerView {
                    workers: s1.workers.insert(h, w),
                    queued_in_grid: s1.queued_in_grid.insert(c, h),
                    running: set_running_worker(s1.running, p, h),
                    ..s1
                };
                (s2, a1 + seq![WorkerActionView::StoreWorker { worker_hash: h, worker: w },
                    WorkerActionView::SpawnWorker {
                        worker_hash: h,
                        name,
                        command: cmd,
                        protocol: p,
                        category: category_of(first),
                    }])
            },
        }
    }
}

/// A job handed to an idle worker; the remote call that submits it is the
/// application's.
#[derive(Debug)]
pub struct Submission {
    /// The idle worker that is to take the job.
    pub worker: Worker,
    /// The job's protocol.
    pub protocol: String,
    /// The farm's limit on running workers.
    pub max_workers: i8,
    /// The farm's launch script.
    pub script: String,
    /// The environment the job runs with.
    pub envs: Vec<(String, String)>,
}

/// The abstract value of a submission.
pub struct SubmissionView {
    pub worker: WorkerView,
    pub protocol: Seq<char>,
    pub max_workers: i8,
    pub script: Seq<char>,
    pub envs: Seq<(Seq<char>, Seq<char>)>,
}

impl View for Submission {
    type V = SubmissionView;

    open spec fn view(&self) -> SubmissionView {
        SubmissionView {
            worker: self.worker@,
            protocol: self.protocol@,
            max_workers: self.max_workers,
            script: self.script@,
            envs: envs_view(self.envs@),
        }
    }
}

/// The protocol a job of a farm protocol runs under is set up as a farm.
pub open spec fn farm_ready(protocols: ProtocolMap, job: JobView, default_protocol: Seq<char>) -> bool {
    let p = resolve_protocol(job.protocol, default_protocol);
    p != "local"@ ==> match protocols.lookup(p) {
        Some(pr) => pr.config is Farm,
        None => true,
    }
}

/// The `RunJob` message: a job of the local protocol ("default" meaning the
/// default protocol) goes to the job scheduler's queues; a job of an unknown
/// protocol fails; a job of a farm protocol goes to the longest-idle worker
/// of its category when that worker is in the table (the worker leaves the
/// idle queue either way), and otherwise is queued (see
/// `queue_remote_spec`).
pub open spec fn run_job_spec(
    s: ManagerView,
    job: JobView,
    command: Seq<char>,
    cache_dir: Option<Seq<char>>,
    ts: i64,
    default_protocol: Seq<char>,
    protocols: ProtocolMap,
    settings: WorkerSettings,
) -> (ManagerView, Seq<WorkerActionView>, Option<SubmissionView>) {
    let p = resolve_protocol(job.protocol, default_protocol);
    if p == "local"@ {
        (s, seq![WorkerActionView::QueueJob { job, command, cache_dir }], None)
    } else {
        match protocols.lookup(p) {
            None => (s, seq![WorkerActionView::UpdateJobStatus {
                job_hash: name_hash(job.job_name),
                status: Status::Failed,
                update_flow_engine: true,
                message: Some(missing_launcher_message(job)),
                job_type: JobType::Remote(0),
            }], None),
            Some(pr) => {
                let d = pr.config->Farm_0;
                let c = category_of(job);
                let picked = s.idle.contains_key(c) && s.idle[c].len() > 0;
                let s1 = if picked {
                    ManagerView { idle: s.idle.insert(c, s.idle[c].drop_first()), ..s }
                } else {
                    s
                };
                if picked && s1.workers.contains_key(s.idle[c][0]) {
                    (s1, Seq::empty(), Some(SubmissionView {
                        worker: s1.workers[s.idle[c][0]],
                        protocol: p,
                        max_workers: d.max_workers,
                        script: d.script@,
                        envs: disk_envs(config_local_disk(pr.config), config_disk_threshold(pr.config)),
                    }))
                } else {
                    let (s2, a2) = queue_remote_spec(s1, job, command, cache_dir, p, d.max_workers, d.script@,
                        ts, settings);
                    (s2, a2, None)
                }
            },
        }
    }
}

/// What follows the remote call that submitted a job to an idle worker: the
/// worker takes the job (it runs under the worker's protocol, and the job
/// scheduler learns the job's worker), or the job is queued (see
/// `queue_remote_spec`).
pub open spec fn submitted_spec(
    s: ManagerView,
    job: JobView,
    command: Seq<char>,
    cache_dir: Option<Seq<char>>,
    ts: i64,
    sub: SubmissionView,
    accepted: bool,
    settings: WorkerSettings,
) -> (ManagerView, Seq<WorkerActionView>) {
    if accepted {
        let wh = name_hash(sub.worker.name);
        let jh = name_hash(job.job_name);
        (ManagerView { running: add_running_job(s.running, sub.worker.protocol, wh, jh), ..s },
            seq![WorkerActionView::UpdateJobIdentifier { job_hash: jh, worker_hash: wh }])
    } else {
        queue_remote_spec(s, job, command, cache_dir, sub.protocol, sub.max_workers, sub.script, ts, settings)
    }
}

impl WorkerManager {
    fn new_worker_name(ts: i64, protocol: &str, n: usize) -> (r: String)
        ensures
            r@ == new_worker_name(ts, protocol@, n as nat),
    {
        let mut r = i64_to_string(ts);
        r.append("_");
        r.append(protocol);
        r.append("_");
        push_decimal(&mut r, n as u64);
        r
    }

    fn set_running(&mut self, protocol: &str, worker_hash: u64)
        requires
            old(self).wf(),
        ensures
            final(self).wf(),
            final(self)@ == (ManagerView {
                running: set_running_worker(old(self)@.running, protocol@, worker_hash),
                ..old(self)@
            }),
    {
        let mut w = match self.running_worker_job_mapper.take(protocol) {
            Some(w) => w,
            None => WorkerJobs::new(),
        };
        w.insert(worker_hash, Vec::new());
        self.running_worker_job_mapper.put(protocol, w);
        proof {
            let r = old(self)@.running;
            if !r.contains_key(protocol@) {
                assert(Map::<u64, Seq<u64>>::empty().insert(worker_hash, Seq::empty()) =~= map![worker_hash => Seq::<u64>::empty()]);
            }
            assert(self@.running =~= set_running_worker(r, protocol@, worker_hash));
        }
    }

    /// See `queue_remote_spec`.
    fn queue_remote(
        &mut self,
        job: Job,
        command: String,
        cache_dir: Option<String>,
        protocol: &str,
        max_workers: i8,
        script: &str,
        ts: i64,
        settings: &WorkerSettings,
        actions: &mut Vec<WorkerAction>,
    )
        requires
            old(self).wf(),
            job.specs@.len() > 0,
        ensures
            final(self).wf(),
            ({
                let (s1, a1) = queue_remote_spec(old(self)@, job@, command@, opt_chars(cache_dir), protocol@,
                    max_workers, script@, ts, *settings);
                &&& final(self)@ == s1
                &&& wm_actions_view(final(actions)@) == wm_actions_view(old(actions)@) + a1
            }),
    {
        let ghost a0 = wm_actions_view(actions@);
        let ghost jv = job@;
        let c = job.get_category();
        let jobs = job.get_dummy_jobs();
        push_wm_action(actions, WorkerAction::QueueJob { job, command, cache_dir });
        self.queued_jobs_in_scheduler.push_back(protocol, c);
        let n = match self.running_worker_job_mapper.get(protocol) {
            Some(w) => w.len(),
            None => 0,
        };
        if self.queued_workers_in_grid.contains_key(&c) || (n as i8) >= max_workers {
            return;
        }
        let name = Self::new_worker_name(ts, protocol, self.table_len());
        let h = get_hash(name.as_str());
        assert(jobs@[0]@ == dummy_view(jv, jv.lightweight));
        assert(jobs@[1]@ == dummy_view(jv, !jv.lightweight));
        let cmd = match jobs[0].get_command(name.as_str(), settings.worker_script.as_str(), script, &jobs[1], h,
            &settings.cluster_url, settings.workarea.as_str(), settings.cluster_home.as_str(),
            settings.spark_master_url.as_str()) {
            Ok(cmd) => cmd,
            Err(_) => {
                return;
            },
        };
        let first = jobs[0].get_category();
        let mut cats: Vec<u64> = Vec::new();
        cats.push(first);
        cats.push(jobs[1].get_category());
        let worker = Worker::new(name.as_str(), String::from_str(protocol), cats);
        self.set_worker(h, worker.copy());
        push_wm_action(actions, WorkerAction::StoreWorker { worker_hash: h, worker });
        self.queued_workers_in_grid.insert(c, h);
        self.set_running(protocol, h);
        push_wm_action(actions, WorkerAction::SpawnWorker {
            worker_hash: h,
            name,
            command: cmd,
            protocol: String::from_str(protocol),
            category: first,
        });
        proof {
            let (s1, r) = queue_remote_spec(old(self)@, jv, command@, opt_chars(cache_dir), protocol@,
                max_workers, script@, ts, *settings);
            assert(cats@ =~= seq![category_of(dummy_view(jv, jv.lightweight)), category_of(dummy_view(jv, !jv.lightweight))]);
            assert(self@ =~= s1);
            assert(wm_actions_view(actions@) =~= a0 + r);
        }
    }

    /// See `run_job_spec`. A submission returned is for the application to
    /// make; it then calls `job_submitted` with the outcome.
    pub fn run_job(
        &mut self,
        job: Job,
        command: String,
        cache_dir: Option<String>,
        ts: i64,
        default_protocol: &str,
        protocols: &ProtocolMap,
        settings: &WorkerSettings,
        actions: &mut Vec<WorkerAction>,
    ) -> (r: Option<Submission>)
        requires
            old(self).wf(),
            job.specs@.len() > 0,
            farm_ready(*protocols, job@, default_protocol@),
        ensures
            final(self).wf(),
            ({
                let (s1, a1, sub) = run_job_spec(old(self)@, job@, command@, opt_chars(cache_dir), ts,
                    default_protocol@, *protocols, *settings);
                &&& final(self)@ == s1
                &&& wm_actions_view(final(actions)@) == wm_actions_view(old(actions)@) + a1
                &&& match r {
                    Some(x) => sub == Some(x@),
                    None => sub is None,
                }
            }),
    {
        let ghost a0 = wm_actions_view(actions@);
        let p: String = if str_eq(job.protocol.as_str(), "default") {
            String::from_str(default_protocol)
        } else {
            job.protocol.clone()
        };
        if str_eq(p.as_str(), "local") {
            push_wm_action(actions, WorkerAction::QueueJob { job, command, cache_dir });
            assert(wm_actions_view(actions@) =~= a0 + wm_actions_view(actions@).subrange(a0.len() as int, a0.len() as int + 1));
            return None;
        }
        let pr = match protocols.get(p.as_str()) {
            Some(pr) => pr,
            None => {
                let mut message = String::from_str("Launcher not found for protocol: ");
                message.append(job.protocol.as_str());
                message.append(" used by job: ");
                message.append(job.job_name.as_str());
                message.append(". Skipping launching of this job");
                let job_hash = job.get_hash();
                proof {
                    assert(message@ =~= missing_launcher_message(job@));
                }
                push_wm_action(actions, WorkerAction::UpdateJobStatus {
                    job_hash,
                    status: Status::Failed,
                    update_flow_engine: true,
                    message: Some(message),
                    job_type: JobType::Remote(0),
                });
                assert(wm_actions_view(actions@) =~= a0 + wm_actions_view(actions@).subrange(a0.len() as int, a0.len() as int + 1));
                return None;
            },
        };
        let (max_workers, script) = match get_farm_config(&pr.config) {
            Some(d) => (d.max_workers, d.script.clone()),
            None => {
                return None;
            },
        };
        let c = job.get_category();
        match self.idle_workers_map.take_front(c) {
            Some(wh) => match self.read_worker(wh) {
                Some(w) => {
                    let envs = pr.get_envs();
                    assert(wm_actions_view(actions@) =~= a0 + Seq::empty());
                    return Some(Submission { worker: w, protocol: p, max_workers, script, envs });
                },
                None => {},
            },
            None => {},
        }
        self.queue_remote(job, command, cache_dir, p.as_str(), max_workers, script.as_str(), ts, settings, actions);
        None
    }

    /// What follows the remote call that submitted a job to an idle worker
    /// (see `submitted_spec`).
    pub fn job_submitted(
        &mut self,
        job: Job,
        command: String,
        cache_dir: Option<String>,
        ts: i64,
        submission: Submission,
        accepted: bool,
        settings: &WorkerSettings,
        actions: &mut Vec<WorkerAction>,
    )
        requires
            old(self).wf(),
            job.specs@.len() > 0,
        ensures
            final(self).wf(),
            ({
                let (s1, a1) = submitted_spec(old(self)@, job@, command@, opt_chars(cache_dir), ts, submission@,
                    accepted, *settings);
                &&& final(self)@ == s1
                &&& wm_actions_view(final(actions)@) == wm_actions_view(old(actions)@) + a1
            }),
    {
        let ghost a0 = wm_actions_view(actions@);
        if accepted {
            let worker_hash = submission.worker.get_hash();
            let job_hash = job.get_hash();
            update_running_worker_job_mapper(&mut self.running_worker_job_mapper, &submission.worker, job_hash,
                worker_hash);
            push_wm_action(actions, WorkerAction::UpdateJobIdentifier { job_hash, worker_hash });
            assert(wm_actions_view(actions@) =~= a0 + wm_actions_view(actions@).subrange(a0.len() as int, a0.len() as int + 1));
        } else {
            self.queue_remote(job, command, cache_dir, submission.protocol.as_str(), submission.max_workers,
                submission.script.as_str(), ts, settings, actions);
        }
    }
}

/// The hashes increase along the sequence.
pub open spec fn strictly_increasing(s: Seq<u64>) -> bool {
    forall|i: int, j: int| 0 <= i < j < s.len() ==> s[i] < s[j]
}

/// Puts a hash into an increasing list, unless it is there already.
fn insert_sorted(v: &mut Vec<u64>, x: u64)
    requires
        strictly_increasing(old(v)@),
    ensures
        strictly_increasing(final(v)@),
        forall|h: u64| final(v)@.contains(h) <==> (old(v)@.contains(h) || h == x),
{
    let mut i: usize = 0;
    while i < v.len() && v[i] < x
        invariant
            i <= v@.len(),
            v@ == old(v)@,
            forall|k: int| 0 <= k < i ==> v@[k] < x,
        decreases v@.len() - i,
    {
        i = i + 1;
    }
    if i < v.len() && v[i] == x {
        assert(v@[i as int] == x);
        return;
    }
    let ghost o = v@;
    v.insert(i, x);
    proof {
        let n = v@;
        assert(n == o.insert(i as int, x));
        assert forall|a: int, b: int| 0 <= a < b < n.len() implies n[a] < n[b] by {
            if b < i {
            } else if b == i {
            } else if a < i {
                assert(o[a] < x);
                assert(x < o[i as int]);
                if b - 1 > i {
                    assert(o[i as int] < o[b - 1]);
                }
            } else if a == i {
                assert(x < o[i as int]);
                if b - 1 > i {
                    assert(o[i as int] < o[b - 1]);
                }
            } else {
                assert(o[a - 1] < o[b - 1]);
            }
        }
        assert forall|h: u64| n.contains(h) <==> (o.contains(h) || h == x) by {
            if n.contains(h) {
                let t = choose|t: int| 0 <= t < n.len() && n[t] == h;
                if t < i {
                    assert(o[t] == h);
                } else if t > i {
                    assert(o[t - 1] == h);
                }
            }
            if o.contains(h) {
                let t = choose|t: int| 0 <= t < o.len() && o[t] == h;
                if t < i {
                    assert(n[t] == h);
                } else {
                    assert(n[t + 1] == h);
                }
            }
            if h == x {
                assert(n[i as int] == h);
            }
        }
    }
}

impl WorkerManager {
    /// The hashes of the worker table, increasing.
    fn sorted_hashes(&self) -> (ks: Vec<u64>)
        ensures
            strictly_increasing(ks@),
            forall|h: u64| ks@.contains(h) <==> self@.workers.contains_key(h),
    {
        let mut ks: Vec<u64> = Vec::new();
        for k in it: self.workers.keys()
            invariant
                strictly_increasing(ks@),
                forall|h: u64| ks@.contains(h) ==> self.workers@.contains_key(h),
                forall|j: int| 0 <= j < it.index() ==> ks@.contains(*it.seq()[j]),
        {
            let ghost before = ks@;
            insert_sorted(&mut ks, *k);
        }
        proof {
            assert forall|h: u64| self@.workers.contains_key(h) implies ks@.contains(h) by {
                assert(self.workers@.dom().contains(h));
            }
        }
        ks
    }

    /// The `Shutdown` message: every worker leaves the table, last hash
    /// first (the order in which the table gives its entries back), for the
    /// application to kill each one.
    pub fn shutdown(&mut self) -> (r: Vec<(u64, Worker)>)
        requires
            old(self).wf(),
        ensures
            final(self).wf(),
            final(self)@ == (ManagerView { workers: Map::empty(), ..old(self)@ }),
            forall|i: int, j: int| 0 <= i < j < r@.len() ==> r@[i].0 > r@[j].0,
            forall|i: int| 0 <= i < r@.len() ==> old(self)@.workers.contains_key(#[trigger] r@[i].0)
                && r@[i].1@ == old(self)@.workers[r@[i].0],
            forall|h: u64| old(self)@.workers.contains_key(h) ==> exists|i: int| 0 <= i < r@.len() && #[trigger] r@[i].0 == h,
    {
        let ks = self.sorted_hashes();
        let mut r: Vec<(u64, Worker)> = Vec::new();
        let n = ks.len();
        let mut i: usize = 0;
        while i < n
            invariant
                n == ks@.len(),
                i <= n,
                self@ == old(self)@,
                strictly_increasing(ks@),
                forall|h: u64| ks@.contains(h) <==> self@.workers.contains_key(h),
                r@.len() == i,
                forall|t: int| 0 <= t < i ==> (#[trigger] r@[t]).0 == ks@[n - 1 - t] && r@[t].1@ == self@.workers[ks@[n - 1 - t]],
            decreases n - i,
        {
            let h = ks[n - 1 - i];
            assert(ks@.contains(h)) by {
                assert(ks@[n - 1 - i] == h);
            }
            match self.workers.get(&h) {
                Some(w) => {
                    r.push((h, w.copy()));
                },
                None => {
                    assert(false);
                },
            }
            i = i + 1;
        }
        proof {
            assert forall|t: int| 0 <= t < r@.len() implies old(self)@.workers.contains_key(#[trigger] r@[t].0)
                && r@[t].1@ == old(self)@.workers[r@[t].0] by {
                assert(ks@.contains(ks@[n - 1 - t]));
            }
            assert forall|a: int, b: int| 0 <= a < b < r@.len() implies r@[a].0 > r@[b].0 by {
                assert(ks@[n - 1 - b] < ks@[n - 1 - a]);
            }
        }
        self.workers.clear();
        proof {
            assert(self@.workers =~= Map::<u64, WorkerView>::empty());
            assert forall|h: u64| old(self)@.workers.contains_key(h) implies exists|i: int| 0 <= i < r@.len() && #[trigger] r@[i].0 == h by {
                assert(ks@.contains(h));
                let t = choose|t: int| 0 <= t < ks@.len() && ks@[t] == h;
                assert(r@[n - 1 - t].0 == h);
            }
        }
        r
    }
}

/// Registering a worker for some categories keeps every worker already
/// idle for a category idle for it.
proof fn lemma_register_keeps_idle(s: ManagerView, h: u64, cs: Seq<u64>, p: Seq<char>, c: u64, x: u64)
    requires
        s.idle.contains_key(c) && s.idle[c].contains(x),
    ensures
        ({
            let s1 = register_spec(s, h, cs, p).0;
            s1.idle.contains_key(c) && s1.idle[c].contains(x)
        }),
    decreases cs.len(),
{
    if cs.len() > 0 {
        let d = cs[0];
        let s0 = ManagerView { idle: add_idle(s.idle, d, h), ..s };
        if d == c {
            crate::queues::lemma_push_contains(s.idle[c], h, x);
        }
        let s1 = if s0.queued_in_grid.contains_key(d) && s0.queued_in_grid[d] == h {
            let (q, a) = schedule_queued_spec(s0.queued_in_scheduler, d, p);
            ManagerView { queued_in_scheduler: q, queued_in_grid: s0.queued_in_grid.remove(d), ..s0 }
        } else {
            s0
        };
        lemma_register_keeps_idle(s1, h, cs.drop_first(), p, c, x);
    }
}

/// Registering a worker for some categories makes it idle for each of them.
proof fn lemma_register_makes_idle(s: ManagerView, h: u64, cs: Seq<u64>, p: Seq<char>, c: u64)
    requires
        cs.contains(c),
    ensures
        ({
            let s1 = register_spec(s, h, cs, p).0;
            s1.idle.contains_key(c) && s1.idle[c].contains(h)
        }),
    decreases cs.len(),
{
    let d = cs[0];
    let s0 = ManagerView { idle: add_idle(s.idle, d, h), ..s };
    let s1 = if s0.queued_in_grid.contains_key(d) && s0.queued_in_grid[d] == h {
        let (q, a) = schedule_queued_spec(s0.queued_in_scheduler, d, p);
        ManagerView { queued_in_scheduler: q, queued_in_grid: s0.queued_in_grid.remove(d), ..s0 }
    } else {
        s0
    };
    if d == c {
        let q = if s.idle.contains_key(c) { s.idle[c] } else { Seq::empty() };
        crate::queues::lemma_push_contains(q, h, h);
        assert(s1.idle[c] == add_idle(s.idle, c, h)[c]);
        if !s.idle.contains_key(c) {
            assert(seq![h][0] == h);
        }
        lemma_register_keeps_idle(s1, h, cs.drop_first(), p, c, h);
    } else {
        let i = choose|i: int| 0 <= i < cs.len() && cs[i] == c;
        assert(cs.drop_first()[i - 1] == c);
        lemma_register_makes_idle(s1, h, cs.drop_first(), p, c);
    }
}

/// A worker in the table that reports the URL it is reached at is then idle
/// for each of its categories.
pub proof fn lemma_reachable_worker_is_idle(s: ManagerView, h: u64, job_id: Option<Seq<char>>, url: Seq<char>, c: u64)
    requires
        s.workers.contains_key(h),
        s.workers[h].categories.contains(c),
    ensures
        ({
            let s1 = update_worker_spec(s, h, job_id, Some(url)).0;
            s1.idle.contains_key(c) && s1.idle[c].contains(h)
        }),
{
    let w = s.workers[h];
    lemma_register_makes_idle(s, h, w.categories, w.protocol, c);
}

/// A job that an idle worker accepted runs on that worker: it is among the
/// worker's jobs under the worker's protocol.
pub proof fn lemma_accepted_job_runs_on_worker(
    s: ManagerView,
    job: JobView,
    command: Seq<char>,
    cache_dir: Option<Seq<char>>,
    ts: i64,
    sub: SubmissionView,
    settings: WorkerSettings,
)
    ensures
        ({
            let s1 = submitted_spec(s, job, command, cache_dir, ts, sub, true, settings).0;
            let p = sub.worker.protocol;
            let wh = name_hash(sub.worker.name);
            &&& s1.running.contains_key(p)
            &&& s1.running[p].contains_key(wh)
            &&& s1.running[p][wh].contains(name_hash(job.job_name))
        }),
{
    let p = sub.worker.protocol;
    let wh = name_hash(sub.worker.name);
    let jh = name_hash(job.job_name);
    if s.running.contains_key(p) && s.running[p].contains_key(wh) {
        crate::queues::lemma_push_contains(s.running[p][wh], jh, jh);
    } else {
        assert(seq![jh][0] == jh);
    }
}

/// A worker that runs a job is never killed as idle, and nothing changes.
pub proof fn lemma_busy_worker_is_kept(s: ManagerView, h: u64)
    requires
        s.workers.contains_key(h),
        s.running.contains_key(s.workers[h].protocol),
        s.running[s.workers[h].protocol].contains_key(h),
        s.running[s.workers[h].protocol][h].len() > 0,
    ensures
        kill_idle_spec(s, h) == (s, Seq::<WorkerActionView>::empty()),
{
}

/// Running queued categories touches neither the worker table nor the
/// running workers.
proof fn lemma_schedule_all_keeps(s: ManagerView, cs: Seq<u64>, p: Seq<char>)
    ensures
        schedule_all_spec(s, cs, p).0.workers == s.workers,
        schedule_all_spec(s, cs, p).0.running == s.running,
    decreases cs.len(),
{
    if cs.len() > 0 {
        let (q, a1) = schedule_queued_spec(s.queued_in_scheduler, cs[0], p);
        lemma_schedule_all_keeps(ManagerView { queued_in_scheduler: q, ..s }, cs.drop_first(), p);
    }
}

/// A worker killed by hash leaves the table and the running workers of its
/// protocol, and is killed last.
pub proof fn lemma_killed_worker_is_forgotten(s: ManagerView, h: u64, message: Option<Seq<char>>, update_flow_engine: bool)
    requires
        s.workers.contains_key(h),
    ensures
        ({
            let (s1, a1) = kill_message_spec(s, h, message, update_flow_engine);
            let p = s.workers[h].protocol;
            &&& !s1.workers.contains_key(h)
            &&& s1.running.contains_key(p) ==> !s1.running[p].contains_key(h)
            &&& a1.last() == WorkerActionView::KillWorker { worker: s.workers[h], job_hash: None }
        }),
{
    let w = s.workers[h];
    let p = w.protocol;
    let s0 = ManagerView { workers: s.workers.remove(h), ..s };
    let s1 = ManagerView { running: drop_running_worker(s0.running, p, h), ..s0 };
    lemma_schedule_all_keeps(s1, w.categories, p);
}


/// How many workers run under a protocol.
pub open spec fn running_count(r: Map<Seq<char>, Map<u64, Seq<u64>>>, p: Seq<char>) -> nat {
    if r.contains_key(p) {
        r[p].len()
    } else {
        0
    }
}

/// The farm's limit on running workers, for a protocol set up as a farm.
pub open spec fn farm_limit(protocols: ProtocolMap, p: Seq<char>) -> Option<i8> {
    match protocols.lookup(p) {
        Some(pr) => match pr.config {
            FarmConfig::Farm(d) => Some(d.max_workers),
            FarmConfig::Local(_) => None,
        },
        None => None,
    }
}

/// No farm protocol runs more workers than its farm allows.
pub open spec fn within_farm_limits(r: Map<Seq<char>, Map<u64, Seq<u64>>>, protocols: ProtocolMap) -> bool {
    forall|p: Seq<char>| #[trigger] farm_limit(protocols, p) is Some ==> running_count(r, p)
        <= farm_limit(protocols, p).unwrap()
}

/// Each protocol runs finitely many workers (as every map the manager holds
/// does).
pub open spec fn running_finite(r: Map<Seq<char>, Map<u64, Seq<u64>>>) -> bool {
    forall|p: Seq<char>| #[trigger] r.contains_key(p) ==> r[p].dom().finite()
}

/// Every worker of the table is keyed by the hash of its name and runs under
/// its protocol.
pub open spec fn table_runs(s: ManagerView) -> bool {
    forall|h: u64| #[trigger] s.workers.contains_key(h) ==> {
        &&& name_hash(s.workers[h].name) == h
        &&& s.running.contains_key(s.workers[h].protocol)
        &&& s.running[s.workers[h].protocol].contains_key(h)
    }
}

/// The manager's state as its messages build it from an empty manager:
/// finitely many running workers per protocol, and the table agrees with the
/// running workers (see `table_runs`).
pub open spec fn manager_consistent(s: ManagerView) -> bool {
    running_finite(s.running) && table_runs(s)
}

/// What a job's submission to an idle worker relies on for the farm limits:
/// the worker that takes the job already runs under its protocol, and a job
/// that no worker took is queued under its protocol's limit.
pub open spec fn submission_within_limits(s: ManagerView, protocols: ProtocolMap, sub: SubmissionView,
    accepted: bool) -> bool {
    &&& accepted ==> s.running.contains_key(sub.worker.protocol)
        && s.running[sub.worker.protocol].contains_key(name_hash(sub.worker.name))
    &&& !accepted ==> farm_limit(protocols, sub.protocol) == Some(sub.max_workers)
}

/// A submission of a job to a worker of the table, made under the farm's
/// limit of the job's protocol.
pub open spec fn submission_fits(s: ManagerView, protocols: ProtocolMap, sub: SubmissionView) -> bool {
    &&& s.workers.contains_key(name_hash(sub.worker.name))
    &&& s.workers[name_hash(sub.worker.name)] == sub.worker
    &&& farm_limit(protocols, sub.protocol) == Some(sub.max_workers)
}

/// Running workers that only lose jobs or workers: the count of no protocol
/// grows.
proof fn lemma_counts_not_grown(r: Map<Seq<char>, Map<u64, Seq<u64>>>, r1: Map<Seq<char>, Map<u64, Seq<u64>>>,
    protocols: ProtocolMap)
    requires
        within_farm_limits(r, protocols),
        forall|p: Seq<char>| #[trigger] running_count(r1, p) <= running_count(r, p),
    ensures
        within_farm_limits(r1, protocols),
{
    assert forall|p: Seq<char>| #[trigger] farm_limit(protocols, p) is Some implies
        running_count(r1, p) <= farm_limit(protocols, p).unwrap() by {
        assert(running_count(r1, p) <= running_count(r, p));
    }
}

/// Registering a worker touches neither the table nor the running workers.
proof fn lemma_register_keeps_tables(s: ManagerView, h: u64, cs: Seq<u64>, p: Seq<char>)
    ensures
        register_spec(s, h, cs, p).0.workers == s.workers,
        register_spec(s, h, cs, p).0.running == s.running,
    decreases cs.len(),
{
    if cs.len() > 0 {
        let c = cs[0];
        let s0 = ManagerView { idle: add_idle(s.idle, c, h), ..s };
        let s1 = if s0.queued_in_grid.contains_key(c) && s0.queued_in_grid[c] == h {
            let (q, a) = schedule_queued_spec(s0.queued_in_scheduler, c, p);
            ManagerView { queued_in_scheduler: q, queued_in_grid: s0.queued_in_grid.remove(c), ..s0 }
        } else {
            s0
        };
        lemma_register_keeps_tables(s1, h, cs.drop_first(), p);
    }
}

/// Releasing the categories a worker was started for touches neither the
/// table nor the running workers.
proof fn lemma_release_keeps_tables(s: ManagerView, h: u64, cs: Seq<u64>, p: Seq<char>)
    ensures
        release_spec(s, h, cs, p).0.workers == s.workers,
        release_spec(s, h, cs, p).0.running == s.running,
    decreases cs.len(),
{
    if cs.len() > 0 {
        let c = cs[0];
        let s1 = if s.queued_in_grid.contains_key(c) && s.queued_in_grid[c] == h {
            let (q, a) = schedule_queued_spec(s.queued_in_scheduler, c, p);
            ManagerView { queued_in_scheduler: q, queued_in_grid: s.queued_in_grid.remove(c), ..s }
        } else {
            s
        };
        lemma_release_keeps_tables(s1, h, cs.drop_first(), p);
    }
}

/// Dropping a job of a worker keeps every protocol's workers.
proof fn lemma_drop_job_keeps(s: ManagerView, p: Seq<char>, w: u64, j: u64)
    requires
        running_finite(s.running),
    ensures
        ({
            let r = drop_running_job(s.running, p, w, j);
            &&& running_finite(r)
            &&& forall|q: Seq<char>| #[trigger] running_count(r, q) == running_count(s.running, q)
            &&& table_runs(s) ==> table_runs(ManagerView { running: r, ..s })
        }),
{
    let r = drop_running_job(s.running, p, w, j);
    if s.running.contains_key(p) && s.running[p].contains_key(w) {
        assert(r[p].dom() =~= s.running[p].dom());
    }
}

/// Dropping a worker of a protocol keeps the counts from growing, and keeps
/// the table agreeing with the running workers when the worker left the
/// table.
proof fn lemma_drop_worker_keeps(s: ManagerView, p: Seq<char>, w: u64)
    requires
        running_finite(s.running),
    ensures
        ({
            let r = drop_running_worker(s.running, p, w);
            &&& running_finite(r)
            &&& forall|q: Seq<char>| #[trigger] running_count(r, q) <= running_count(s.running, q)
            &&& table_runs(s) && !s.workers.contains_key(w) ==> table_runs(ManagerView { running: r, ..s })
        }),
{
    let r = drop_running_worker(s.running, p, w);
    let s1 = ManagerView { running: r, ..s };
    assert forall|q: Seq<char>| #[trigger] running_count(r, q) <= running_count(s.running, q) by {
        if q == p && s.running.contains_key(p) {
            assert(r[p].dom() =~= s.running[p].dom().remove(w));
        }
    }
    assert forall|q: Seq<char>| #[trigger] r.contains_key(q) implies r[q].dom().finite() by {
        if q == p {
            assert(r[p].dom() =~= s.running[p].dom().remove(w));
        }
    }
    if table_runs(s) && !s.workers.contains_key(w) {
        assert forall|h: u64| #[trigger] s1.workers.contains_key(h) implies {
            &&& name_hash(s1.workers[h].name) == h
            &&& s1.running.contains_key(s1.workers[h].protocol)
            &&& s1.running[s1.workers[h].protocol].contains_key(h)
        } by {
            assert(h != w);
        }
    }
}

/// A job queued for a worker of a farm protocol starts a worker only while
/// the protocol runs fewer workers than its farm allows.
proof fn lemma_queue_remote_keeps_limits(
    s: ManagerView,
    protocols: ProtocolMap,
    job: JobView,
    command: Seq<char>,
    cache_dir: Option<Seq<char>>,
    p: Seq<char>,
    max_workers: i8,
    script: Seq<char>,
    ts: i64,
    settings: WorkerSettings,
)
    requires
        running_finite(s.running),
        within_farm_limits(s.running, protocols),
        farm_limit(protocols, p) == Some(max_workers),
    ensures
        ({
            let s1 = queue_remote_spec(s, job, command, cache_dir, p, max_workers, script, ts, settings).0;
            &&& running_finite(s1.running)
            &&& within_farm_limits(s1.running, protocols)
            &&& table_runs(s) ==> table_runs(s1)
        }),
{
    let c = category_of(job);
    let s1 = ManagerView { queued_in_scheduler: push_protocol_queue(s.queued_in_scheduler, p, c), ..s };
    let n = if s1.running.contains_key(p) { s1.running[p].len() } else { 0 };
    assert(n == running_count(s.running, p));
    assert(n <= max_workers);
    if !(s1.queued_in_grid.contains_key(c) || (n as i8) >= max_workers) {
        let name = new_worker_name(ts, p, s1.workers.len());
        let h = name_hash(name);
        if settings.cluster_url is Some {
            let first = dummy_view(job, job.lightweight);
            let second = dummy_view(job, !job.lightweight);
            let w = WorkerView {
                name,
                identifier: None,
                job_id: None,
                protocol: p,
                categories: seq![category_of(first), category_of(second)],
            };
            let r = set_running_worker(s1.running, p, h);
            let s2 = ManagerView {
                workers: s1.workers.insert(h, w),
                queued_in_grid: s1.queued_in_grid.insert(c, h),
                running: r,
                ..s1
            };
            assert(s2 == queue_remote_spec(s, job, command, cache_dir, p, max_workers, script, ts, settings).0);
            assert(n < max_workers);
            if s1.running.contains_key(p) {
                assert(r[p].dom() =~= s1.running[p].dom().insert(h));
            } else {
                assert(r[p].dom() =~= set![h]);
            }
            assert(running_count(r, p) <= n + 1);
            assert forall|q: Seq<char>| #[trigger] r.contains_key(q) implies r[q].dom().finite() by {
                if q == p && s1.running.contains_key(p) {
                    assert(r[p].dom() =~= s1.running[p].dom().insert(h));
                }
            }
            if table_runs(s) {
                assert forall|k: u64| #[trigger] s2.workers.contains_key(k) implies {
                    &&& name_hash(s2.workers[k].name) == k
                    &&& s2.running.contains_key(s2.workers[k].protocol)
                    &&& s2.running[s2.workers[k].protocol].contains_key(k)
                } by {
                    if k != h {
                        assert(s.workers.contains_key(k));
                    }
                }
            }
            assert forall|q: Seq<char>| #[trigger] farm_limit(protocols, q) is Some implies
                running_count(r, q) <= farm_limit(protocols, q).unwrap() by {
                if q != p {
                    assert(running_count(r, q) == running_count(s.running, q));
                }
            }
        }
    }
}

/// A job to run keeps the farm limits; a job handed to an idle worker is
/// under its protocol's limit and, when the table agrees with the running
/// workers, names a worker of the table that runs under its protocol.
proof fn lemma_run_job_keeps_limits(
    s: ManagerView,
    protocols: ProtocolMap,
    job: JobView,
    command: Seq<char>,
    cache_dir: Option<Seq<char>>,
    ts: i64,
    default_protocol: Seq<char>,
    settings: WorkerSettings,
)
    requires
        running_finite(s.running),
        within_farm_limits(s.running, protocols),
        farm_ready(protocols, job, default_protocol),
    ensures
        ({
            let (s1, a1, sb) = run_job_spec(s, job, command, cache_dir, ts, default_protocol, protocols, settings);
            &&& running_finite(s1.running) && within_farm_limits(s1.running, protocols)
            &&& (sb matches Some(x) ==> farm_limit(protocols, x.protocol) == Some(x.max_workers))
            &&& table_runs(s) ==> table_runs(s1)
            &&& table_runs(s) ==> (sb matches Some(x) ==> submission_fits(s1, protocols, x)
                && submission_within_limits(s1, protocols, x, true))
        }),
{
    let p = resolve_protocol(job.protocol, default_protocol);
    if p != "local"@ {
        if let Some(pr) = protocols.lookup(p) {
            assert(pr.config is Farm);
            let d = pr.config->Farm_0;
            assert(farm_limit(protocols, p) == Some(d.max_workers));
            let c = category_of(job);
            let picked = s.idle.contains_key(c) && s.idle[c].len() > 0;
            let s1 = if picked { ManagerView { idle: s.idle.insert(c, s.idle[c].drop_first()), ..s } } else { s };
            assert(table_runs(s) ==> table_runs(s1));
            if picked && s1.workers.contains_key(s.idle[c][0]) {
                let k = s.idle[c][0];
                if table_runs(s) {
                    assert(name_hash(s1.workers[k].name) == k);
                }
            } else {
                lemma_queue_remote_keeps_limits(s1, protocols, job, command, cache_dir, p, d.max_workers,
                    d.script@, ts, settings);
            }
        }
    }
}

/// No farm protocol ever runs more workers than its farm allows: with the
/// protocols fixed, every message of the worker manager keeps each farm
/// protocol's running workers within its `max_workers`, since a worker is
/// started only while fewer run. A job given to an idle worker keeps the
/// limits when that worker already runs under its protocol (always so for a
/// worker the manager started itself, see `lemma_table_agrees_with_running`);
/// a worker read back from the table does not change the running workers.
pub proof fn lemma_farm_worker_limits_kept(
    s: ManagerView,
    protocols: ProtocolMap,
    job: JobView,
    command: Seq<char>,
    cache_dir: Option<Seq<char>>,
    ts: i64,
    default_protocol: Seq<char>,
    settings: WorkerSettings,
    sub: SubmissionView,
    accepted: bool,
    h: u64,
    worker: WorkerView,
    status: Status,
    job_hash: u64,
    category: u64,
    message: Option<Seq<char>>,
    job_id: Option<Seq<char>>,
    url: Option<Seq<char>>,
    update_flow_engine: bool,
)
    requires
        running_finite(s.running),
        within_farm_limits(s.running, protocols),
    ensures
        farm_ready(protocols, job, default_protocol) ==> ({
            let (s1, a1, sb) = run_job_spec(s, job, command, cache_dir, ts, default_protocol, protocols, settings);
            &&& running_finite(s1.running) && within_farm_limits(s1.running, protocols)
            &&& (sb matches Some(x) ==> farm_limit(protocols, x.protocol) == Some(x.max_workers))
        }),
        submission_within_limits(s, protocols, sub, accepted) ==> ({
            let s1 = submitted_spec(s, job, command, cache_dir, ts, sub, accepted, settings).0;
            running_finite(s1.running) && within_farm_limits(s1.running, protocols)
        }),
        ({
            let s1 = worker_status_spec(s, h, status, job_hash, category, message).0;
            running_finite(s1.running) && within_farm_limits(s1.running, protocols)
        }),
        ({
            let s1 = update_worker_spec(s, h, job_id, url).0;
            running_finite(s1.running) && within_farm_limits(s1.running, protocols)
        }),
        ({
            let s1 = kill_message_spec(s, h, message, update_flow_engine).0;
            running_finite(s1.running) && within_farm_limits(s1.running, protocols)
        }),
        ({
            let s1 = kill_idle_spec(s, h).0;
            running_finite(s1.running) && within_farm_limits(s1.running, protocols)
        }),
        s.workers.contains_key(h) ==> ({
            let s1 = release_spec(s, h, s.workers[h].categories, s.workers[h].protocol).0;
            running_finite(s1.running) && within_farm_limits(s1.running, protocols)
        }),
        ({
            let r = drop_running_job(s.running, sub.protocol, h, job_hash);
            running_finite(r) && within_farm_limits(r, protocols)
        }),
        ({
            let s1 = ManagerView { workers: s.workers.insert(h, worker), ..s };
            running_finite(s1.running) && within_farm_limits(s1.running, protocols)
        }),
{
    lemma_messages_keep(s, protocols, job, command, cache_dir, ts, default_protocol, settings, sub, accepted, h,
        status, job_hash, category, message, job_id, url, update_flow_engine);
}

/// The messages, one by one: the limits, and the table's agreement with the
/// running workers when it held before.
proof fn lemma_messages_keep(
    s: ManagerView,
    protocols: ProtocolMap,
    job: JobView,
    command: Seq<char>,
    cache_dir: Option<Seq<char>>,
    ts: i64,
    default_protocol: Seq<char>,
    settings: WorkerSettings,
    sub: SubmissionView,
    accepted: bool,
    h: u64,
    status: Status,
    job_hash: u64,
    category: u64,
    message: Option<Seq<char>>,
    job_id: Option<Seq<char>>,
    url: Option<Seq<char>>,
    update_flow_engine: bool,
)
    requires
        running_finite(s.running),
        within_farm_limits(s.running, protocols),
    ensures
        farm_ready(protocols, job, default_protocol) ==> ({
            let (s1, a1, sb) = run_job_spec(s, job, command, cache_dir, ts, default_protocol, protocols, settings);
            &&& running_finite(s1.running) && within_farm_limits(s1.running, protocols)
            &&& (sb matches Some(x) ==> farm_limit(protocols, x.protocol) == Some(x.max_workers))
            &&& table_runs(s) ==> table_runs(s1)
            &&& table_runs(s) ==> (sb matches Some(x) ==> submission_fits(s1, protocols, x)
                && submission_within_limits(s1, protocols, x, true))
        }),
        submission_within_limits(s, protocols, sub, accepted) ==> ({
            let s1 = submitted_spec(s, job, command, cache_dir, ts, sub, accepted, settings).0;
            &&& running_finite(s1.running) && within_farm_limits(s1.running, protocols)
            &&& table_runs(s) ==> table_runs(s1)
        }),
        ({
            let s1 = worker_status_spec(s, h, status, job_hash, category, message).0;
            &&& running_finite(s1.running) && within_farm_limits(s1.running, protocols)
            &&& table_runs(s) ==> table_runs(s1)
        }),
        ({
            let s1 = update_worker_spec(s, h, job_id, url).0;
            &&& running_finite(s1.running) && within_farm_limits(s1.running, protocols)
            &&& table_runs(s) ==> table_runs(s1)
        }),
        ({
            let s1 = kill_message_spec(s, h, message, update_flow_engine).0;
            &&& running_finite(s1.running) && within_farm_limits(s1.running, protocols)
            &&& table_runs(s) ==> table_runs(s1)
        }),
        ({
            let s1 = kill_idle_spec(s, h).0;
            &&& running_finite(s1.running) && within_farm_limits(s1.running, protocols)
            &&& table_runs(s) ==> table_runs(s1)
        }),
        s.workers.contains_key(h) ==> ({
            let s1 = release_spec(s, h, s.workers[h].categories, s.workers[h].protocol).0;
            &&& running_finite(s1.running) && within_farm_limits(s1.running, protocols)
            &&& table_runs(s) ==> table_runs(s1)
        }),
        ({
            let s1 = ManagerView { running: drop_running_job(s.running, sub.protocol, h, job_hash), ..s };
            &&& running_finite(s1.running) && within_farm_limits(s1.running, protocols)
            &&& table_runs(s) ==> table_runs(s1)
        }),
{
    // a job to run
    if farm_ready(protocols, job, default_protocol) {
        lemma_run_job_keeps_limits(s, protocols, job, command, cache_dir, ts, default_protocol, settings);
    }
    // a submission
    if submission_within_limits(s, protocols, sub, accepted) {
        if accepted {
            let wh = name_hash(sub.worker.name);
            let jh = name_hash(job.job_name);
            let q = sub.worker.protocol;
            let r = add_running_job(s.running, q, wh, jh);
            assert(r[q].dom() =~= s.running[q].dom());
            assert forall|x: Seq<char>| #[trigger] running_count(r, x) <= running_count(s.running, x) by {}
            lemma_counts_not_grown(s.running, r, protocols);
        } else {
            lemma_queue_remote_keeps_limits(s, protocols, job, command, cache_dir, sub.protocol, sub.max_workers,
                sub.script, ts, settings);
        }
    }
    // a worker's status
    if s.workers.contains_key(h) {
        let w = s.workers[h];
        lemma_drop_job_keeps(s, w.protocol, h, job_hash);
        let r = drop_running_job(s.running, w.protocol, h, job_hash);
        lemma_counts_not_grown(s.running, r, protocols);
        lemma_release_keeps_tables(s, h, w.categories, w.protocol);
        // the worker's report of its job id and URL
        lemma_register_keeps_tables(s, h, w.categories, w.protocol);
        // a kill
        let s0 = ManagerView { workers: s.workers.remove(h), ..s };
        lemma_drop_worker_keeps(s0, w.protocol, h);
        let r2 = drop_running_worker(s0.running, w.protocol, h);
        lemma_schedule_all_keeps(ManagerView { running: r2, ..s0 }, w.categories, w.protocol);
        lemma_counts_not_grown(s.running, r2, protocols);
        // an idle worker's kill
        let (idle, kill) = unidle_spec(s.idle, h, w.categories);
        let s2 = ManagerView { workers: s.workers.remove(h), idle, ..s };
        lemma_drop_worker_keeps(s2, w.protocol, h);
        let r3 = drop_running_worker(s2.running, w.protocol, h);
        lemma_schedule_all_keeps(ManagerView { running: r3, ..s2 }, w.categories, w.protocol);
        lemma_counts_not_grown(s.running, r3, protocols);
    }
    // a job dropped from a worker
    lemma_drop_job_keeps(s, sub.protocol, h, job_hash);
    lemma_counts_not_grown(s.running, drop_running_job(s.running, sub.protocol, h, job_hash), protocols);
}

/// A manager built from an empty one by its messages keeps its table in
/// agreement with the running workers: every worker it started is keyed by
/// the hash of its name and runs under its protocol, and a job it hands to an
/// idle worker names such a worker, so that accepting the job keeps the farm
/// limits (see `lemma_farm_worker_limits_kept`).
pub proof fn lemma_table_agrees_with_running(
    s: ManagerView,
    protocols: ProtocolMap,
    job: JobView,
    command: Seq<char>,
    cache_dir: Option<Seq<char>>,
    ts: i64,
    default_protocol: Seq<char>,
    settings: WorkerSettings,
    sub: SubmissionView,
    accepted: bool,
    h: u64,
    status: Status,
    job_hash: u64,
    category: u64,
    message: Option<Seq<char>>,
    job_id: Option<Seq<char>>,
    url: Option<Seq<char>>,
    update_flow_engine: bool,
)
    requires
        manager_consistent(s),
        within_farm_limits(s.running, protocols),
    ensures
        farm_ready(protocols, job, default_protocol) ==> ({
            let (s1, a1, sb) = run_job_spec(s, job, command, cache_dir, ts, default_protocol, protocols, settings);
            &&& manager_consistent(s1)
            &&& (sb matches Some(x) ==> submission_fits(s1, protocols, x)
                && submission_within_limits(s1, protocols, x, true))
        }),
        submission_within_limits(s, protocols, sub, accepted) ==>
            manager_consistent(submitted_spec(s, job, command, cache_dir, ts, sub, accepted, settings).0),
        manager_consistent(worker_status_spec(s, h, status, job_hash, category, message).0),
        manager_consistent(update_worker_spec(s, h, job_id, url).0),
        manager_consistent(kill_message_spec(s, h, message, update_flow_engine).0),
        manager_consistent(kill_idle_spec(s, h).0),
        s.workers.contains_key(h) ==> manager_consistent(release_spec(s, h, s.workers[h].categories,
            s.workers[h].protocol).0),
        manager_consistent(ManagerView { running: drop_running_job(s.running, sub.protocol, h, job_hash), ..s }),
{
    lemma_messages_keep(s, protocols, job, command, cache_dir, ts, default_protocol, settings, sub, accepted, h,
        status, job_hash, category, message, job_id, url, update_flow_engine);
}


/// A job a worker reports disqualified or finished leaves the worker's
/// running jobs (the others stay, in their order); a finished one also
/// makes the worker idle for the job's category.
pub proof fn lemma_reported_job_leaves_worker(s: ManagerView, h: u64, status: Status, j: u64, c: u64,
    message: Option<Seq<char>>)
    requires
        s.workers.contains_key(h),
        s.running.contains_key(s.workers[h].protocol),
        s.running[s.workers[h].protocol].contains_key(h),
        status == Status::DisQualified || status == Status::Idle,
    ensures
        ({
            let p = s.workers[h].protocol;
            let s1 = worker_status_spec(s, h, status, j, c, message).0;
            &&& s1.running.contains_key(p) && s1.running[p].contains_key(h)
            &&& s1.running[p][h] == without(s.running[p][h], j)
            &&& !s1.running[p][h].contains(j)
            &&& forall|x: u64| x != j ==> (#[trigger] s1.running[p][h].contains(x) <==> s.running[p][h].contains(x))
            &&& s1.workers == s.workers
            &&& status == Status::Idle ==> s1.idle.contains_key(c) && s1.idle[c].contains(h)
        }),
{
    let p = s.workers[h].protocol;
    crate::queues::lemma_without_contains(s.running[p][h], j, j);
    assert forall|x: u64| x != j implies (#[trigger] without(s.running[p][h], j).contains(x)
        <==> s.running[p][h].contains(x)) by {
        crate::queues::lemma_without_contains(s.running[p][h], j, x);
    }
    if status == Status::Idle {
        let q = if s.idle.contains_key(c) { s.idle[c] } else { Seq::empty() };
        crate::queues::lemma_push_contains(q, h, h);
        if !s.idle.contains_key(c) {
            assert(seq![h][0] == h);
        }
    }
}

/// A worker whose two jobs are reported, one disqualified and the other
/// finished for one of the worker's categories, runs no job any more and is
/// idle, so a request to kill it as idle kills it: it leaves the table.
pub proof fn lemma_worker_freed_by_its_reports_is_killed_as_idle(s: ManagerView, h: u64, j1: u64, j2: u64,
    c: u64, m1: Option<Seq<char>>, m2: Option<Seq<char>>)
    requires
        s.workers.contains_key(h),
        s.running.contains_key(s.workers[h].protocol),
        s.running[s.workers[h].protocol].contains_key(h),
        forall|x: u64| #[trigger] s.running[s.workers[h].protocol][h].contains(x) ==> x == j1 || x == j2,
        s.workers[h].categories.contains(c),
    ensures
        ({
            let s1 = worker_status_spec(s, h, Status::DisQualified, j1, c, m1).0;
            let s2 = worker_status_spec(s1, h, Status::Idle, j2, c, m2).0;
            let (s3, a3) = kill_idle_spec(s2, h);
            &&& s2.running[s.workers[h].protocol][h].len() == 0
            &&& !s3.workers.contains_key(h)
            &&& a3.contains(WorkerActionView::KillWorker { worker: s.workers[h], job_hash: None })
        }),
{
    let p = s.workers[h].protocol;
    let w = s.workers[h];
    lemma_reported_job_leaves_worker(s, h, Status::DisQualified, j1, c, m1);
    let s1 = worker_status_spec(s, h, Status::DisQualified, j1, c, m1).0;
    lemma_reported_job_leaves_worker(s1, h, Status::Idle, j2, c, m2);
    let s2 = worker_status_spec(s1, h, Status::Idle, j2, c, m2).0;
    let q = s2.running[p][h];
    if q.len() > 0 {
        assert(q.contains(q[0]));
        assert(s1.running[p][h].contains(q[0]));
        assert(false);
    }
    lemma_unidle_finds(s2.idle, h, w.categories, c);
    let (idle, kill) = unidle_spec(s2.idle, h, w.categories);
    let s4 = ManagerView { workers: s2.workers.remove(h), running: drop_running_worker(s2.running, p, h), idle, ..s2 };
    lemma_schedule_all_keeps(s4, w.categories, p);
    let (s3, a3) = kill_idle_spec(s2, h);
    let (s5, a5) = schedule_all_spec(s4, w.categories, p);
    assert(a3 == seq![WorkerActionView::DeleteWorker { worker_hash: h },
        WorkerActionView::KillWorker { worker: w, job_hash: None }] + a5);
    assert(a3[1] == WorkerActionView::KillWorker { worker: w, job_hash: None });
}

/// A worker idle for one of the listed categories is found idle.
proof fn lemma_unidle_finds(idle: Map<u64, Seq<u64>>, h: u64, cs: Seq<u64>, c: u64)
    requires
        cs.contains(c),
        idle.contains_key(c) && idle[c].contains(h),
    ensures
        unidle_spec(idle, h, cs).1,
    decreases cs.len(),
{
    let d = cs[0];
    if !(idle.contains_key(d) && idle[d].contains(h)) {
        let i = choose|i: int| 0 <= i < cs.len() && cs[i] == c;
        assert(d != c);
        assert(cs.drop_first()[i - 1] == c);
        lemma_unidle_finds(idle, h, cs.drop_first(), c);
    }
}

} // verus!
