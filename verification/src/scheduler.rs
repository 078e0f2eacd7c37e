//! The job scheduler: the table of jobs, the queues of jobs waiting per
//! category, the jobs running per category, the spark workers and drivers
//! that are running, and how many times each category failed.

use vstd::prelude::*;
use std::collections::HashMap;
use std::collections::HashSet;
use std::collections::VecDeque;
use crate::hashing::name_hash;
use crate::job::{category_of, copy_opt_string, fail_category_of, get_fail_category, spec_of, Identifier, Job,
    JobType, JobView, KillTarget};
use crate::queues::{without, CategoryQueues};
use crate::spec::{fits_within, Spec};
use crate::status::{is_completion_status, status_name, Status};
use crate::spark::{get_spark_worker_job, spark_worker_command};
use crate::text::{contains_str, has_substring, i64_to_string, int_decimal, str_eq};

verus! {

broadcast use vstd::std_specs::hash::group_hash_axioms;

/// The most spark workers that wait in the queue of a category.
pub const MAX_QUEUED_SPARK_JOBS: i64 = 10;

/// A job as stored in the job table: the job, the command that runs it and
/// the directory it runs in.
#[derive(Clone, Debug)]
pub struct JobRecord {
    pub job: Job,
    pub command: String,
    pub cache_dir: Option<String>,
}

/// The abstract value of an optional string.
pub open spec fn opt_view(s: Option<String>) -> Option<Seq<char>> {
    match s {
        Some(x) => Some(x@),
        None => None,
    }
}

/// The abstract value of a job record.
pub struct JobRecordView {
    pub job: JobView,
    pub command: Seq<char>,
    pub cache_dir: Option<Seq<char>>,
}

impl JobRecord {
    /// A copy of the record.
    pub fn copy(&self) -> (r: JobRecord)
        ensures
            r@ == self@,
    {
        JobRecord { job: self.job.copy(), command: self.command.clone(), cache_dir: copy_opt_string(&self.cache_dir) }
    }
}

impl View for JobRecord {
    type V = JobRecordView;

    open spec fn view(&self) -> JobRecordView {
        JobRecordView { job: self.job@, command: self.command@, cache_dir: opt_view(self.cache_dir) }
    }
}

/// The settings the scheduler reads from the controller's configuration when
/// it handles a message.
#[derive(Clone, Debug)]
pub struct SchedulerConfig {
    pub default_protocol: String,
    pub local_limits: Option<Spec>,
    pub flow_engine_url: Option<String>,
}

/// Where spark workers started by the scheduler find their script, their
/// master and their work area.
#[derive(Clone, Debug)]
pub struct SparkSettings {
    pub worker_script: String,
    pub spark_master_url: String,
    pub workarea: String,
}

/// Where a job to run is sent: the local executor or the worker manager.
#[derive(Clone, Copy, Debug, PartialEq, Eq, Structural)]
pub enum RunTarget {
    Local,
    Remote,
}

/// Why a job was not added.
#[derive(Clone, Debug, PartialEq, Eq)]
pub enum AddJobError {
    /// The job asks for more than the local machine has; the job's name.
    ExceedsLocalLimits(String),
    /// Jobs of the category have failed too often; the failure category.
    RetriesExhausted(u64),
    /// A job of the same name is known; the job's name.
    AlreadyExists(String),
}

/// The abstract value of an `AddJobError`.
pub enum AddJobErrorView {
    ExceedsLocalLimits(Seq<char>),
    RetriesExhausted(u64),
    AlreadyExists(Seq<char>),
}

impl View for AddJobError {
    type V = AddJobErrorView;

    open spec fn view(&self) -> AddJobErrorView {
        match self {
            AddJobError::ExceedsLocalLimits(n) => AddJobErrorView::ExceedsLocalLimits(n@),
            AddJobError::RetriesExhausted(c) => AddJobErrorView::RetriesExhausted(*c),
            AddJobError::AlreadyExists(n) => AddJobErrorView::AlreadyExists(n@),
        }
    }
}

/// What the scheduler asks the application to do.
#[derive(Clone, Debug)]
pub enum SchedulerAction {
    /// Write a record to the job table on disk.
    StoreJob { job_hash: u64, record: JobRecord },
    /// Remove a record from the job table on disk.
    DeleteJob { job_hash: u64 },
    /// Send a job to the local executor or to the worker manager to run.
    RunJob { target: RunTarget, job: Job, command: String, cache_dir: Option<String> },
    /// Allow (true) or refuse (false) requests for more spark workers.
    SetSparkMonitor(bool),
    /// Remove the failure log of a category.
    DeleteCategoryLog { category: u64 },
    /// Kill a running job.
    Kill(KillTarget),
    /// Report a job's new status to the flow engine.
    UpdateFlowEngine { url: String, job: Job, message: Option<String> },
    /// Append a message, stamped with the current time, to a log file.
    LogMessage { path: String, text: String },
    /// Tell the worker manager what became of a job on one of its workers.
    UpdateWorkerStatus { worker_hash: u64, status: Status, job_hash: u64, category: u64 },
}

/// The abstract value of a scheduler action.
pub enum SchedulerActionView {
    StoreJob { job_hash: u64, record: JobRecordView },
    DeleteJob { job_hash: u64 },
    RunJob { target: RunTarget, job: JobView, command: Seq<char>, cache_dir: Option<Seq<char>> },
    SetSparkMonitor(bool),
    DeleteCategoryLog { category: u64 },
    Kill(KillTarget),
    UpdateFlowEngine { url: Seq<char>, job: JobView, message: Option<Seq<char>> },
    LogMessage { path: Seq<char>, text: Seq<char> },
    UpdateWorkerStatus { worker_hash: u64, status: Status, job_hash: u64, category: u64 },
}

impl View for SchedulerAction {
    type V = SchedulerActionView;

    open spec fn view(&self) -> SchedulerActionView {
        match self {
            SchedulerAction::StoreJob { job_hash, record } => SchedulerActionView::StoreJob {
                job_hash: *job_hash,
                record: record@,
            },
            SchedulerAction::DeleteJob { job_hash } => SchedulerActionView::DeleteJob {
                job_hash: *job_hash,
            },
            SchedulerAction::RunJob { target, job, command, cache_dir } => SchedulerActionView::RunJob {
                target: *target,
                job: job@,
                command: command@,
                cache_dir: opt_view(*cache_dir),
            },
            SchedulerAction::SetSparkMonitor(b) => SchedulerActionView::SetSparkMonitor(*b),
            SchedulerAction::DeleteCategoryLog { category } => SchedulerActionView::DeleteCategoryLog {
                category: *category,
            },
            SchedulerAction::Kill(t) => SchedulerActionView::Kill(*t),
            SchedulerAction::UpdateFlowEngine { url, job, message } => SchedulerActionView::UpdateFlowEngine {
                url: url@,
                job: job@,
                message: opt_view(*message),
            },
            SchedulerAction::LogMessage { path, text } => SchedulerActionView::LogMessage {
                path: path@,
                text: text@,
            },
            SchedulerAction::UpdateWorkerStatus { worker_hash, status, job_hash, category } =>
                SchedulerActionView::UpdateWorkerStatus {
                worker_hash: *worker_hash,
                status: *status,
                job_hash: *job_hash,
                category: *category,
            },
        }
    }
}

/// The views of a list of actions.
pub open spec fn actions_view(a: Seq<SchedulerAction>) -> Seq<SchedulerActionView> {
    a.map_values(|x: SchedulerAction| x@)
}

/// The state of the job scheduler.
#[derive(Debug)]
pub struct JobScheduler {
    /// Every known job, by job hash (kept on disk too).
    pub jobs: HashMap<u64, JobRecord>,
    /// Jobs waiting to run, per category.
    pub queue: CategoryQueues,
    /// Spark workers waiting to run, per category.
    pub spark_worker_queue: CategoryQueues,
    /// Jobs handed out to run, per category.
    pub running_queue: CategoryQueues,
    /// The spark workers handed out to run.
    pub running_spark_workers: HashSet<u64>,
    /// How many spark drivers are running.
    pub running_spark_apps: i64,
    /// How often the jobs of each failure category have failed.
    pub category_retries: HashMap<u64, i8>,
    /// How often a category may fail before its jobs are failed.
    pub max_retries: i8,
}

/// The abstract state of the job scheduler.
pub struct SchedulerView {
    pub jobs: Map<u64, JobRecordView>,
    pub queue: Map<u64, Seq<u64>>,
    pub spark_worker_queue: Map<u64, Seq<u64>>,
    pub running_queue: Map<u64, Seq<u64>>,
    pub running_spark_workers: Set<u64>,
    pub running_spark_apps: int,
    pub category_retries: Map<u64, i8>,
    pub max_retries: i8,
}

impl View for JobScheduler {
    type V = SchedulerView;

    open spec fn view(&self) -> SchedulerView {
        SchedulerView {
            jobs: self.jobs@.map_values(|r: JobRecord| r@),
            queue: self.queue@,
            spark_worker_queue: self.spark_worker_queue@,
            running_queue: self.running_queue@,
            running_spark_workers: self.running_spark_workers@,
            running_spark_apps: self.running_spark_apps as int,
            category_retries: self.category_retries@,
            max_retries: self.max_retries,
        }
    }
}

/// The retries counted for a category (zero when none were).
pub open spec fn retries_of(s: SchedulerView, category: u64) -> int {
    if s.category_retries.contains_key(category) {
        s.category_retries[category] as int
    } else {
        0
    }
}

/// Appends `h` to the queue of category `c`, creating the queue if needed.
pub open spec fn push_to(q: Map<u64, Seq<u64>>, c: u64, h: u64) -> Map<u64, Seq<u64>> {
    q.insert(c, if q.contains_key(c) { q[c].push(h) } else { seq![h] })
}

/// Drops `h` from the queue of category `c`, when there is one.
pub open spec fn drop_from(q: Map<u64, Seq<u64>>, c: u64, h: u64) -> Map<u64, Seq<u64>> {
    if q.contains_key(c) {
        q.insert(c, without(q[c], h))
    } else {
        q
    }
}

/// A spark driver is recognised by its job type.
pub open spec fn is_spark_driver(job_type: Seq<char>) -> bool {
    has_substring(job_type, "spark-driver"@)
}

/// The job with its protocol read as local when it names the default
/// protocol and the default protocol is local.
pub open spec fn localized(job: JobView, default_protocol: Seq<char>) -> JobView {
    if job.protocol == "default"@ && default_protocol == "local"@ {
        JobView { protocol: "local"@, ..job }
    } else {
        job
    }
}

/// The outcome of handing a job to the scheduler's queues.
pub struct EnqueueOutcome {
    pub state: SchedulerView,
    pub actions: Seq<SchedulerActionView>,
    pub result: Result<(), AddJobErrorView>,
}

/// Counts a job that is handed out as running: a spark worker joins the
/// running spark workers, a spark driver adds to the running drivers.
pub open spec fn count_running(s: SchedulerView, job: JobView, h: u64, can_schedule: bool) -> SchedulerView {
    if can_schedule {
        if job.job_type == "spark_worker"@ {
            SchedulerView { running_spark_workers: s.running_spark_workers.insert(h), ..s }
        } else if is_spark_driver(job.job_type) {
            SchedulerView { running_spark_apps: s.running_spark_apps + 1, ..s }
        } else {
            s
        }
    } else {
        s
    }
}

/// Hands a job to the queues (the job scheduler's `add_job_to_queue`).
///
/// With `can_schedule` the job is new: it is refused when it is local and
/// asks for more than the machine has, when its failure category has
/// failed too often, or when a job of its name is known; otherwise it is
/// stored as queued. Without `can_schedule` the job comes back from the
/// executor or the worker manager and leaves the running jobs.
/// Then a spark worker joins its category's spark queue (which is kept to
/// `MAX_QUEUED_SPARK_JOBS`: beyond it the worker is dropped and further
/// spark-worker requests are refused), another job joins its category's
/// queue when the category has one, and otherwise a new job is sent to the
/// local executor and counted as running, while a returning job starts a
/// new queue for its category (a returning spark worker only while a spark
/// driver runs; otherwise it is dropped).
pub open spec fn enqueue_spec(
    s: SchedulerView,
    job0: JobView,
    can_schedule: bool,
    command: Seq<char>,
    cache_dir: Option<Seq<char>>,
    default_protocol: Seq<char>,
    local_limits: Option<Spec>,
) -> EnqueueOutcome {
    let job1 = localized(job0, default_protocol);
    let h = name_hash(job1.job_name);
    let c = category_of(job1);
    let fc = fail_category_of(job1);
    let is_sw = job1.job_type == "spark_worker"@;
    if can_schedule && job1.protocol == "local"@ && !fits_within(job1.specs[0], local_limits.unwrap()) {
        EnqueueOutcome { state: s, actions: Seq::empty(), result: Err(AddJobErrorView::ExceedsLocalLimits(job1.job_name)) }
    } else if can_schedule && retries_of(s, fc) >= s.max_retries {
        EnqueueOutcome { state: s, actions: Seq::empty(), result: Err(AddJobErrorView::RetriesExhausted(fc)) }
    } else if can_schedule && s.jobs.contains_key(h) {
        EnqueueOutcome { state: s, actions: Seq::empty(), result: Err(AddJobErrorView::AlreadyExists(job1.job_name)) }
    } else {
        let job = if can_schedule { JobView { status: Status::Queued, ..job1 } } else { job1 };
        let rec = JobRecordView { job, command, cache_dir };
        let s1 = if can_schedule {
            SchedulerView { jobs: s.jobs.insert(h, rec), ..s }
        } else {
            SchedulerView { running_queue: drop_from(s.running_queue, c, h), ..s }
        };
        let a1: Seq<SchedulerActionView> = if can_schedule {
            seq![SchedulerActionView::StoreJob { job_hash: h, record: rec }]
        } else {
            Seq::empty()
        };
        if is_sw && s1.spark_worker_queue.contains_key(c) {
            if s1.spark_worker_queue[c].contains(h) {
                EnqueueOutcome { state: s1, actions: a1, result: Ok(()) }
            } else if s1.spark_worker_queue[c].len() >= MAX_QUEUED_SPARK_JOBS {
                EnqueueOutcome {
                    state: SchedulerView {
                        jobs: s1.jobs.remove(h),
                        running_spark_workers: s1.running_spark_workers.remove(h),
                        ..s1
                    },
                    actions: a1 + seq![
                        SchedulerActionView::DeleteJob { job_hash: h },
                        SchedulerActionView::SetSparkMonitor(false),
                    ],
                    result: Ok(()),
                }
            } else {
                EnqueueOutcome {
                    state: count_running(SchedulerView {
                        spark_worker_queue: push_to(s1.spark_worker_queue, c, h),
                        ..s1
                    }, job, h, can_schedule),
                    actions: a1,
                    result: Ok(()),
                }
            }
        } else if !is_sw && s1.queue.contains_key(c) {
            EnqueueOutcome {
                state: count_running(SchedulerView { queue: push_to(s1.queue, c, h), ..s1 }, job, h, can_schedule),
                actions: a1,
                result: Ok(()),
            }
        } else if can_schedule {
            EnqueueOutcome {
                state: count_running(SchedulerView { running_queue: push_to(s1.running_queue, c, h), ..s1 }, job, h, can_schedule),
                actions: a1 + seq![SchedulerActionView::RunJob { target: RunTarget::Local, job, command, cache_dir }],
                result: Ok(()),
            }
        } else if is_sw {
            if s1.running_spark_apps != 0 {
                EnqueueOutcome {
                    state: SchedulerView { spark_worker_queue: s1.spark_worker_queue.insert(c, seq![h]), ..s1 },
                    actions: a1,
                    result: Ok(()),
                }
            } else {
                EnqueueOutcome {
                    state: SchedulerView {
                        jobs: s1.jobs.remove(h),
                        running_spark_workers: s1.running_spark_workers.remove(h),
                        ..s1
                    },
                    actions: a1 + seq![SchedulerActionView::DeleteJob { job_hash: h }],
                    result: Ok(()),
                }
            }
        } else {
            EnqueueOutcome {
                state: SchedulerView { queue: s1.queue.insert(c, seq![h]), ..s1 },
                actions: a1,
                result: Ok(()),
            }
        }
    }
}

fn single(h: u64) -> (q: VecDeque<u64>)
    ensures
        q@ == seq![h],
{
    let mut q = VecDeque::new();
    q.push_back(h);
    assert(q@ =~= seq![h]);
    q
}

impl JobScheduler {
    /// A scheduler with no jobs, whose categories may fail `max_retries`
    /// times.
    pub fn new(max_retries: i8) -> (s: JobScheduler)
        ensures
            s@.jobs.is_empty(),
            s@.queue.is_empty(),
            s@.spark_worker_queue.is_empty(),
            s@.running_queue.is_empty(),
            s@.running_spark_workers.is_empty(),
            s@.running_spark_apps == 0,
            s@.category_retries.is_empty(),
            s@.max_retries == max_retries,
    {
        let s = JobScheduler {
            jobs: HashMap::new(),
            queue: CategoryQueues::new(),
            spark_worker_queue: CategoryQueues::new(),
            running_queue: CategoryQueues::new(),
            running_spark_workers: HashSet::new(),
            running_spark_apps: 0,
            category_retries: HashMap::new(),
            max_retries,
        };
        assert(s@.jobs =~= Map::empty());
        s
    }

    /// The retries counted for a category.
    pub fn retries(&self, category: u64) -> (r: i8)
        ensures
            r == retries_of(self@, category),
    {
        match self.category_retries.get(&category) {
            Some(r) => *r,
            None => 0,
        }
    }

    /// The failure category whose log takes a status update's message before
    /// the update is applied: that of a known, unfinished job that is
    /// disqualified now.
    pub fn disqualified_category(&self, job_hash: u64, status: Status) -> (r: Option<u64>)
        ensures
            match r {
                Some(c) => self@.jobs.contains_key(job_hash) && status == Status::DisQualified
                    && self@.jobs[job_hash].job.status != status
                    && !is_completion_status(self@.jobs[job_hash].job.status)
                    && c == fail_category_of(JobView { identifier: None, ..self@.jobs[job_hash].job }),
                None => !(self@.jobs.contains_key(job_hash) && status == Status::DisQualified
                    && self@.jobs[job_hash].job.status != status
                    && !is_completion_status(self@.jobs[job_hash].job.status)),
            },
    {
        match self.jobs.get(&job_hash) {
            Some(rec) => {
                if status == Status::DisQualified && rec.job.status != status && !rec.job.status.is_completion() {
                    Some(get_fail_category(&rec.job))
                } else {
                    None
                }
            },
            None => None,
        }
    }

    /// Puts a record read back from the job table into the job table.
    pub fn load_job(&mut self, h: u64, record: JobRecord)
        requires
            record@.job.specs.len() > 0,
        ensures
            final(self)@ == (SchedulerView { jobs: old(self)@.jobs.insert(h, record@), ..old(self)@ }),
            jobs_have_specs(old(self)@) ==> jobs_have_specs(final(self)@),
    {
        self.store_job(h, record);
    }

    fn store_job(&mut self, h: u64, record: JobRecord)
        ensures
            final(self)@ == (SchedulerView { jobs: old(self)@.jobs.insert(h, record@), ..old(self)@ }),
    {
        self.jobs.insert(h, record);
        assert(self@.jobs =~= old(self)@.jobs.insert(h, record@));
    }

    fn delete_job(&mut self, h: u64)
        ensures
            final(self)@ == (SchedulerView { jobs: old(self)@.jobs.remove(h), ..old(self)@ }),
    {
        self.jobs.remove(&h);
        assert(self@.jobs =~= old(self)@.jobs.remove(h));
    }

    /// Hands a job to the queues (see `enqueue_spec`).
    pub fn add_job_to_queue(
        &mut self,
        job: Job,
        can_schedule: bool,
        command: String,
        cache_dir: Option<String>,
        default_protocol: &str,
        local_limits: Option<Spec>,
        actions: &mut Vec<SchedulerAction>,
    ) -> (r: Result<(), AddJobError>)
        requires
            can_schedule ==> job@.specs.len() > 0,
            can_schedule && localized(job@, default_protocol@).protocol == "local"@ ==> local_limits is Some,
            old(self)@.running_spark_apps < i64::MAX,
        ensures
            jobs_have_specs(old(self)@) ==> jobs_have_specs(final(self)@),
            ({
                let o = enqueue_spec(old(self)@, job@, can_schedule, command@, opt_view(cache_dir),
                    default_protocol@, local_limits);
                &&& final(self)@ == o.state
                &&& actions_view(final(actions)@) == actions_view(old(actions)@) + o.actions
                &&& match r {
                    Ok(()) => o.result is Ok,
                    Err(e) => o.result == Err::<(), AddJobErrorView>(e@),
                }
            }),
    {
        let ghost j0 = job@;
        let mut job = job;
        if str_eq(job.protocol.as_str(), "default") && str_eq(default_protocol, "local") {
            job.protocol = String::from_str("local");
        }
        assert(job@ == localized(j0, default_protocol@));
        let ghost job1 = job@;
        let is_sw = str_eq(job.job_type.as_str(), "spark_worker");
        let is_driver = contains_str(job.job_type.as_str(), "spark-driver");
        let job_hash = job.get_hash();
        let category = job.get_category();
        if can_schedule {
            if str_eq(job.protocol.as_str(), "local") {
                let limits = local_limits.unwrap();
                if !job.specs[0].fits(&limits) {
                    return Err(AddJobError::ExceedsLocalLimits(job.job_name));
                }
            }
            let fc = get_fail_category(&job);
            if self.retries(fc) >= self.max_retries {
                return Err(AddJobError::RetriesExhausted(fc));
            }
            if self.jobs.contains_key(&job_hash) {
                return Err(AddJobError::AlreadyExists(job.job_name));
            }
            job.status = Status::Queued;
            let record = JobRecord { job: job.copy(), command: command.clone(), cache_dir: copy_opt_string(&cache_dir) };
            self.store_job(job_hash, record.copy());
            push_action(actions, SchedulerAction::StoreJob { job_hash, record });
        } else {
            self.running_queue.retain_other(category, job_hash);
        }
        if is_sw && self.spark_worker_queue.contains_key(category) {
            if self.spark_worker_queue.contains_job(category, job_hash) {
                return Ok(());
            }
            if self.spark_worker_queue.len_at(category) >= 10 {
                self.delete_job(job_hash);
                push_action(actions, SchedulerAction::DeleteJob { job_hash });
                push_action(actions, SchedulerAction::SetSparkMonitor(false));
                self.running_spark_workers.remove(&job_hash);
                return Ok(());
            }
            self.spark_worker_queue.push_back(category, job_hash);
        } else if !is_sw && self.queue.contains_key(category) {
            self.queue.push_back(category, job_hash);
        } else if can_schedule {
            push_action(actions, SchedulerAction::RunJob {
                target: RunTarget::Local,
                job: job.copy(),
                command: command.clone(),
                cache_dir: copy_opt_string(&cache_dir),
            });
            self.running_queue.push_back(category, job_hash);
        } else if is_sw {
            if self.running_spark_apps != 0 {
                self.spark_worker_queue.insert(category, single(job_hash));
            } else {
                self.delete_job(job_hash);
                push_action(actions, SchedulerAction::DeleteJob { job_hash });
                self.running_spark_workers.remove(&job_hash);
                return Ok(());
            }
        } else {
            self.queue.insert(category, single(job_hash));
        }
        if can_schedule {
            if is_sw {
                self.running_spark_workers.insert(job_hash);
            } else if is_driver {
                self.running_spark_apps = self.running_spark_apps + 1;
            }
        }
        Ok(())
    }
}

/// Takes the next job of a category: the first of its queue, or, while a
/// spark driver runs, the first of its spark queue. A category whose queue is
/// found empty loses it. Returns the hash taken, if any.
pub open spec fn pick_spec(s: SchedulerView, c: u64) -> (SchedulerView, Option<u64>) {
    if s.queue.contains_key(c) && s.queue[c].len() > 0 {
        (SchedulerView { queue: s.queue.insert(c, s.queue[c].drop_first()), ..s }, Some(s.queue[c][0]))
    } else {
        let s1 = if s.queue.contains_key(c) {
            SchedulerView { queue: s.queue.remove(c), ..s }
        } else {
            s
        };
        if s1.running_spark_apps != 0 && s1.spark_worker_queue.contains_key(c) {
            if s1.spark_worker_queue[c].len() > 0 {
                (SchedulerView {
                    spark_worker_queue: s1.spark_worker_queue.insert(c, s1.spark_worker_queue[c].drop_first()),
                    ..s1
                }, Some(s1.spark_worker_queue[c][0]))
            } else {
                (SchedulerView { spark_worker_queue: s1.spark_worker_queue.remove(c), ..s1 }, None)
            }
        } else {
            (s1, None)
        }
    }
}

/// The job that the scheduler starts beside a spark driver.
pub open spec fn scheduler_spark_worker(
    spec: Spec,
    job_name: Seq<char>,
    now: i64,
) -> JobView {
    JobView {
        job_name: "spark_worker_from_scheduler_"@ + int_decimal(now as int) + "_"@ + job_name,
        job_type: "spark_worker"@,
        status: Status::Queued,
        protocol: "default"@,
        specs: seq![Spec { memory: spec.memory, cores: spec.cores }],
        lightweight: false,
        lightweight_spec: None,
        identifier: None,
    }
}

/// While more spark drivers run than spark workers, another spark worker of
/// the driver's spec is handed to the queues.
pub open spec fn spark_worker_spec(
    s: SchedulerView,
    can_schedule: bool,
    spec: Spec,
    job_name: Seq<char>,
    now: i64,
    default_protocol: Seq<char>,
    local_limits: Option<Spec>,
    settings: (Seq<char>, Seq<char>, Seq<char>),
) -> (SchedulerView, Seq<SchedulerActionView>) {
    if s.running_spark_apps > s.running_spark_workers.len() {
        let o = enqueue_spec(
            s,
            scheduler_spark_worker(spec, job_name, now),
            can_schedule,
            spark_worker_command(settings.0, settings.1, settings.2, spec.cores, spec.memory),
            None,
            default_protocol,
            local_limits,
        );
        (o.state, o.actions)
    } else {
        (s, Seq::empty())
    }
}

/// Runs the next job of a category: the job joins the running jobs of its
/// category and is sent to `target`; when it is a spark worker and no other
/// waits, spark-worker requests are allowed again; when it is a spark driver,
/// a spark worker may be added for it.
pub open spec fn schedule_spec(
    s: SchedulerView,
    c: u64,
    target: RunTarget,
    now: i64,
    default_protocol: Seq<char>,
    local_limits: Option<Spec>,
    settings: (Seq<char>, Seq<char>, Seq<char>),
) -> (SchedulerView, Seq<SchedulerActionView>) {
    let (s1, picked) = pick_spec(s, c);
    match picked {
        Some(h) if s1.jobs.contains_key(h) => {
            let rec = s1.jobs[h];
            let job = rec.job;
            let cat = category_of(job);
            let jh = name_hash(job.job_name);
            let s2 = SchedulerView { running_queue: push_to(s1.running_queue, cat, jh), ..s1 };
            let a2 = seq![SchedulerActionView::RunJob { target, job, command: rec.command, cache_dir: rec.cache_dir }];
            if job.job_type == "spark_worker"@ && (!s2.spark_worker_queue.contains_key(cat)
                || s2.spark_worker_queue[cat].len() == 0) {
                (s2, a2.push(SchedulerActionView::SetSparkMonitor(true)))
            } else if job.job_type != "spark_worker"@ && is_spark_driver(job.job_type) {
                let (s3, a3) = spark_worker_spec(s2, true, job.specs[0], job.job_name, now,
                    default_protocol, local_limits, settings);
                (s3, a2 + a3)
            } else {
                (s2, a2)
            }
        },
        _ => (s1, Seq::empty()),
    }
}

/// Every stored job asks for at least one spec.
pub open spec fn jobs_have_specs(s: SchedulerView) -> bool {
    forall|h: u64| #[trigger] s.jobs.contains_key(h) ==> s.jobs[h].job.specs.len() > 0
}

impl JobScheduler {
    /// Takes the next job of a category (see `pick_spec`) and returns its
    /// record when the job table has it.
    pub fn get_job_to_schedule(&mut self, category: u64) -> (r: Option<JobRecord>)
        ensures
            jobs_have_specs(old(self)@) ==> jobs_have_specs(final(self)@),
            final(self)@ == pick_spec(old(self)@, category).0,
            match pick_spec(old(self)@, category).1 {
                Some(h) => match r {
                    Some(rec) => old(self)@.jobs.contains_key(h) && rec@ == old(self)@.jobs[h],
                    None => !old(self)@.jobs.contains_key(h),
                },
                None => r is None,
            },
    {
        match self.queue.pop_front(category) {
            Some(h) => {
                return self.lookup(h);
            },
            None => {},
        }
        if self.running_spark_apps != 0 {
            match self.spark_worker_queue.pop_front(category) {
                Some(h) => {
                    return self.lookup(h);
                },
                None => {},
            }
        }
        None
    }

    /// The record of a job, when the job table has it.
    pub fn lookup(&self, job_hash: u64) -> (r: Option<JobRecord>)
        ensures
            match r {
                Some(rec) => self@.jobs.contains_key(job_hash) && rec@ == self@.jobs[job_hash],
                None => !self@.jobs.contains_key(job_hash),
            },
    {
        match self.jobs.get(&job_hash) {
            Some(rec) => Some(rec.copy()),
            None => None,
        }
    }

    /// While more spark drivers run than spark workers, hands another spark
    /// worker of the driver's spec to the queues (see `spark_worker_spec`).
    pub fn add_spark_worker(
        &mut self,
        can_schedule: bool,
        spec: &Spec,
        job_name: &str,
        now: i64,
        cfg: &SchedulerConfig,
        settings: &SparkSettings,
        actions: &mut Vec<SchedulerAction>,
    )
        requires
            old(self)@.running_spark_apps < i64::MAX,
            can_schedule && cfg.default_protocol@ == "local"@ ==> cfg.local_limits is Some,
        ensures
            jobs_have_specs(old(self)@) ==> jobs_have_specs(final(self)@),
            ({
                let (s1, a1) = spark_worker_spec(old(self)@, can_schedule, *spec, job_name@, now,
                    cfg.default_protocol@, cfg.local_limits,
                    (settings.worker_script@, settings.spark_master_url@, settings.workarea@));
                &&& final(self)@ == s1
                &&& actions_view(final(actions)@) == actions_view(old(actions)@) + a1
            }),
    {
        let workers = self.running_spark_workers.len();
        if (self.running_spark_apps as i128) > (workers as i128) {
            let mut name = String::from_str("spark_worker_from_scheduler_");
            name.append(i64_to_string(now).as_str());
            name.append("_");
            name.append(job_name);
            let (worker, command) = get_spark_worker_job(
                name,
                settings.worker_script.as_str(),
                settings.spark_master_url.as_str(),
                settings.workarea.as_str(),
                spec.cores,
                spec.memory,
                "default",
                Status::Queued,
            );
            assert(worker@ == scheduler_spark_worker(*spec, job_name@, now));
            proof {
                reveal_strlit("default");
                reveal_strlit("local");
                assert("default"@[0] != "local"@[0]);
                assert("default"@ != "local"@);
                assert("default"@ != "local"@ ==> localized(worker@, cfg.default_protocol@).protocol == "local"@
                    ==> cfg.default_protocol@ == "local"@);
            }
            let _ = self.add_job_to_queue(
                worker,
                can_schedule,
                command,
                None,
                cfg.default_protocol.as_str(),
                cfg.local_limits,
                actions,
            );
        } else {
            assert(actions_view(actions@) =~= actions_view(old(actions)@) + Seq::empty());
        }
    }

    /// Runs the next job of a category (see `schedule_spec`).
    pub fn schedule_job(
        &mut self,
        category: u64,
        target: RunTarget,
        now: i64,
        cfg: &SchedulerConfig,
        settings: &SparkSettings,
        actions: &mut Vec<SchedulerAction>,
    )
        requires
            jobs_have_specs(old(self)@),
            old(self)@.running_spark_apps < i64::MAX,
            cfg.default_protocol@ == "local"@ ==> cfg.local_limits is Some,
        ensures
            jobs_have_specs(old(self)@) ==> jobs_have_specs(final(self)@),
            ({
                let (s1, a1) = schedule_spec(old(self)@, category, target, now, cfg.default_protocol@,
                    cfg.local_limits,
                    (settings.worker_script@, settings.spark_master_url@, settings.workarea@));
                &&& final(self)@ == s1
                &&& actions_view(final(actions)@) == actions_view(old(actions)@) + a1
            }),
    {
        let ghost s0 = self@;
        match self.get_job_to_schedule(category) {
            Some(rec) => {
                let ghost s1 = self@;
                let is_sw = str_eq(rec.job.job_type.as_str(), "spark_worker");
                let is_driver = contains_str(rec.job.job_type.as_str(), "spark-driver");
                let cat = rec.job.get_category();
                let job_hash = rec.job.get_hash();
                let spec = rec.job.specs[0];
                let job_name = rec.job.job_name.clone();
                self.running_queue.push_back(cat, job_hash);
                push_action(actions, SchedulerAction::RunJob {
                    target,
                    job: rec.job,
                    command: rec.command,
                    cache_dir: rec.cache_dir,
                });
                if is_sw && self.spark_worker_queue.is_empty_at(cat) {
                    push_action(actions, SchedulerAction::SetSparkMonitor(true));
                } else if !is_sw && is_driver {
                    let ghost a_mid = actions@;
                    self.add_spark_worker(true, &spec, job_name.as_str(), now, cfg, settings, actions);
                    assert(actions_view(actions@) =~= actions_view(old(actions)@) + (actions_view(a_mid)
                        .subrange(actions_view(old(actions)@).len() as int, actions_view(a_mid).len() as int)
                        + actions_view(actions@).subrange(actions_view(a_mid).len() as int, actions_view(actions@).len() as int)));
                }
            },
            None => {
                assert(actions_view(actions@) =~= actions_view(old(actions)@) + Seq::empty());
            },
        }
    }
}

/// Whether a job reports to the flow engine.
pub open spec fn is_flow_agent(job_type: Seq<char>) -> bool {
    has_substring(job_type, "flow-agent"@)
}

/// How a job's new status is reported: to the flow engine when there is one
/// and the job is a flow agent; otherwise, when the job has a cache
/// directory and there is a message, in the cluster manager log of that
/// directory.
pub open spec fn report_spec(
    flow_engine_url: Option<Seq<char>>,
    job: JobView,
    message: Option<Seq<char>>,
    cache_dir: Option<Seq<char>>,
) -> Seq<SchedulerActionView> {
    if flow_engine_url is Some && is_flow_agent(job.job_type) {
        seq![SchedulerActionView::UpdateFlowEngine { url: flow_engine_url.unwrap(), job, message }]
    } else if cache_dir is Some && message is Some {
        seq![SchedulerActionView::LogMessage {
            path: cache_dir.unwrap() + "/cluster_manager.log"@,
            text: "\n"@ + message.unwrap() + "\n. Job "@ + job.job_name + " completed with status "@
                + status_name(job.status) + "."@,
        }]
    } else {
        Seq::empty()
    }
}

/// Reports a job's new status (see `report_spec`).
pub fn log_job_status(
    flow_engine_url: &Option<String>,
    job: &Job,
    message: &Option<String>,
    cache_dir: &Option<String>,
    actions: &mut Vec<SchedulerAction>,
)
    ensures
        actions_view(final(actions)@) == actions_view(old(actions)@) + report_spec(
            opt_view(*flow_engine_url), job@, opt_view(*message), opt_view(*cache_dir)),
{
    let is_agent = contains_str(job.job_type.as_str(), "flow-agent");
    if flow_engine_url.is_some() && is_agent {
        let url = flow_engine_url.as_ref().unwrap().clone();
        push_action(actions, SchedulerAction::UpdateFlowEngine {
            url,
            job: job.copy(),
            message: copy_opt_string(message),
        });
    } else if cache_dir.is_some() && message.is_some() {
        let mut path = cache_dir.as_ref().unwrap().clone();
        path.append("/cluster_manager.log");
        let mut text = String::from_str("\n");
        text.append(message.as_ref().unwrap().as_str());
        text.append("\n. Job ");
        text.append(job.job_name.as_str());
        text.append(" completed with status ");
        text.append(job.status.to_string().as_str());
        text.append(".");
        push_action(actions, SchedulerAction::LogMessage { path, text });
    } else {
        assert(actions_view(actions@) =~= actions_view(old(actions)@) + Seq::empty());
    }
}

/// The actions that kill a job: one through its process or its worker, none
/// when it has not started.
pub open spec fn kill_spec(job: JobView) -> Seq<SchedulerActionView> {
    match job.identifier {
        None => Seq::empty(),
        Some(Identifier::Pid(pid)) => seq![SchedulerActionView::Kill(KillTarget::Pid(pid))],
        Some(Identifier::Worker(w)) => seq![SchedulerActionView::Kill(KillTarget::Worker {
            job_hash: name_hash(job.job_name),
            worker_hash: w,
        })],
    }
}

/// Fails the listed jobs in turn: each one found in the table is killed
/// first when `kill` is set, marked failed, reported and stored again.
pub open spec fn fail_list_spec(
    jobs: Map<u64, JobRecordView>,
    hs: Seq<u64>,
    message: Option<Seq<char>>,
    kill: bool,
    flow_engine_url: Option<Seq<char>>,
) -> (Map<u64, JobRecordView>, Seq<SchedulerActionView>)
    decreases hs.len(),
{
    if hs.len() == 0 {
        (jobs, Seq::empty())
    } else {
        let h = hs[0];
        let (j1, a1) = if jobs.contains_key(h) {
            let rec = jobs[h];
            let job2 = JobView { status: Status::Failed, ..rec.job };
            let rec2 = JobRecordView { job: job2, ..rec };
            (jobs.insert(h, rec2), (if kill { kill_spec(rec.job) } else { Seq::empty() })
                + report_spec(flow_engine_url, job2, message, rec.cache_dir)
                + seq![SchedulerActionView::StoreJob { job_hash: h, record: rec2 }])
        } else {
            (jobs, Seq::empty())
        };
        let (j2, a2) = fail_list_spec(j1, hs.drop_first(), message, kill, flow_engine_url);
        (j2, a1 + a2)
    }
}

/// Fails every job of a category's queue (see `fail_list_spec`); the queue
/// is left empty.
pub open spec fn fail_queue_spec(
    jobs: Map<u64, JobRecordView>,
    q: Map<u64, Seq<u64>>,
    c: u64,
    message: Option<Seq<char>>,
    kill: bool,
    flow_engine_url: Option<Seq<char>>,
) -> (Map<u64, JobRecordView>, Map<u64, Seq<u64>>, Seq<SchedulerActionView>) {
    if q.contains_key(c) {
        let (j, a) = fail_list_spec(jobs, q[c], message, kill, flow_engine_url);
        (j, q.insert(c, Seq::empty()), a)
    } else {
        (jobs, q, Seq::empty())
    }
}

/// The message given to the jobs failed because their category ran out of
/// retries, with the category's failure log when it could be read.
pub open spec fn farm_retries_message(log_content: Option<Seq<char>>) -> Seq<char> {
    match log_content {
        Some(c) => "Maximum number of retries have been reached for jobs with this spec and farm. Please check the following errors:"@
            + "\n"@ + c,
        None => "Maximum number of retries have been reached for jobs with this spec and farm. Please check with R&D."@,
    }
}

/// The message of a job refused because its category ran out of retries,
/// with the category's failure log when it could be read.
pub open spec fn protocol_retries_message(log_content: Option<Seq<char>>) -> Seq<char> {
    match log_content {
        Some(c) => "Maximum number of retries have been reached for jobs with this spec and protocol. Please check the following errors:"@
            + "\n"@ + c,
        None => "Maximum number of retries have been reached for jobs with this spec and protocol. Please check with R&D."@,
    }
}

/// The message given to the jobs failed because their category ran out of
/// retries (see `farm_retries_message`).
pub fn farm_retries_text(log_content: &Option<String>) -> (m: String)
    ensures
        m@ == farm_retries_message(opt_view(*log_content)),
{
    match log_content {
        Some(c) => {
            let mut m = String::from_str("Maximum number of retries have been reached for jobs with this spec and farm. Please check the following errors:");
            m.append("\n");
            m.append(c.as_str());
            m
        },
        None => String::from_str("Maximum number of retries have been reached for jobs with this spec and farm. Please check with R&D."),
    }
}

impl AddJobError {
    /// The message that answers the refused request; `log_content` is the
    /// failure log of the category, used when the category ran out of
    /// retries.
    pub fn message(&self, log_content: &Option<String>) -> (m: String)
        ensures
            match *self {
                AddJobError::ExceedsLocalLimits(n) => m@ == "Job "@ + n@
                    + " has requested for more resources than the max local spec"@,
                AddJobError::RetriesExhausted(_) => m@ == protocol_retries_message(opt_view(*log_content)),
                AddJobError::AlreadyExists(n) => m@ == "Job "@ + n@ + " already exists."@,
            },
    {
        match self {
            AddJobError::ExceedsLocalLimits(n) => {
                let mut m = String::from_str("Job ");
                m.append(n.as_str());
                m.append(" has requested for more resources than the max local spec");
                m
            },
            AddJobError::RetriesExhausted(_) => match log_content {
                Some(c) => {
                    let mut m = String::from_str("Maximum number of retries have been reached for jobs with this spec and protocol. Please check the following errors:");
                    m.append("\n");
                    m.append(c.as_str());
                    m
                },
                None => String::from_str("Maximum number of retries have been reached for jobs with this spec and protocol. Please check with R&D."),
            },
            AddJobError::AlreadyExists(n) => {
                let mut m = String::from_str("Job ");
                m.append(n.as_str());
                m.append(" already exists.");
                m
            },
        }
    }
}

impl JobScheduler {
    fn kill_job_actions(job: &Job, actions: &mut Vec<SchedulerAction>)
        ensures
            actions_view(final(actions)@) == actions_view(old(actions)@) + kill_spec(job@),
    {
        match job.kill_target() {
            Ok(t) => push_action(actions, SchedulerAction::Kill(t)),
            Err(()) => {
                assert(actions_view(actions@) =~= actions_view(old(actions)@) + Seq::empty());
            },
        }
    }

    /// Fails every job of a category's queue in `which` (0: the waiting
    /// queue, otherwise the running one); see `fail_queue_spec`.
    fn fail_jobs_from_queue(
        &mut self,
        running: bool,
        category: u64,
        message: &Option<String>,
        kill: bool,
        flow_engine_url: &Option<String>,
        actions: &mut Vec<SchedulerAction>,
    )
        ensures
            ({
                let q = if running { old(self)@.running_queue } else { old(self)@.queue };
                let (j, q2, a) = fail_queue_spec(old(self)@.jobs, q, category, opt_view(*message), kill,
                    opt_view(*flow_engine_url));
                &&& final(self)@ == (if running {
                    SchedulerView { jobs: j, running_queue: q2, ..old(self)@ }
                } else {
                    SchedulerView { jobs: j, queue: q2, ..old(self)@ }
                })
                &&& actions_view(final(actions)@) == actions_view(old(actions)@) + a
            }),
    {
        let q = if running { self.running_queue.get(category) } else { self.queue.get(category) };
        let hs: VecDeque<u64> = match q {
            Some(q) => q.clone(),
            None => {
                assert(actions_view(actions@) =~= actions_view(old(actions)@) + Seq::empty());
                return;
            },
        };
        assert(hs@ =~= (if running { old(self)@.running_queue } else { old(self)@.queue })[category]);
        if running {
            self.running_queue.insert(category, VecDeque::new());
        } else {
            self.queue.insert(category, VecDeque::new());
        }
        let ghost total = fail_list_spec(old(self)@.jobs, hs@, opt_view(*message), kill, opt_view(*flow_engine_url));
        let ghost a0 = actions_view(old(actions)@);
        let n = hs.len();
        let mut i: usize = 0;
        assert(hs@.subrange(0, n as int) =~= hs@);
        assert(self@.jobs == old(self)@.jobs);
        assert(actions_view(actions@) + total.1 == a0 + total.1);
        while i < n
            invariant
                n == hs@.len(),
                i <= n,
                total == fail_list_spec(old(self)@.jobs, hs@, opt_view(*message), kill, opt_view(*flow_engine_url)),
                ({
                    let rest = fail_list_spec(self@.jobs, hs@.subrange(i as int, n as int), opt_view(*message), kill,
                        opt_view(*flow_engine_url));
                    &&& rest.0 == total.0
                    &&& actions_view(actions@) + rest.1 == a0 + total.1
                }),
                self@.queue == (if running { old(self)@.queue } else { old(self)@.queue.insert(category, Seq::empty()) }),
                self@.running_queue == (if running { old(self)@.running_queue.insert(category, Seq::empty()) } else { old(self)@.running_queue }),
                self@.spark_worker_queue == old(self)@.spark_worker_queue,
                self@.running_spark_workers == old(self)@.running_spark_workers,
                self@.running_spark_apps == old(self)@.running_spark_apps,
                self@.category_retries == old(self)@.category_retries,
                self@.max_retries == old(self)@.max_retries,
            decreases n - i,
        {
            let h = hs[i];
            let ghost rest = hs@.subrange(i as int, n as int);
            assert(rest.drop_first() =~= hs@.subrange(i + 1, n as int));
            let ghost jobs_before = self@.jobs;
            let ghost acts_before = actions_view(actions@);
            match self.lookup(h) {
                Some(rec) => {
                    let mut job = rec.job;
                    if kill {
                        Self::kill_job_actions(&job, actions);
                    }
                    job.status = Status::Failed;
                    log_job_status(flow_engine_url, &job, message, &rec.cache_dir, actions);
                    let rec2 = JobRecord { job, command: rec.command, cache_dir: rec.cache_dir };
                    let ghost v2 = rec2@;
                    self.store_job(h, rec2.copy());
                    push_action(actions, SchedulerAction::StoreJob { job_hash: h, record: rec2 });
                    proof {
                        let t = fail_list_spec(jobs_before.insert(h, v2), rest.drop_first(), opt_view(*message), kill,
                            opt_view(*flow_engine_url));
                        let a1 = (if kill { kill_spec(jobs_before[h].job) } else { Seq::empty() })
                            + report_spec(opt_view(*flow_engine_url), v2.job, opt_view(*message), v2.cache_dir)
                            + seq![SchedulerActionView::StoreJob { job_hash: h, record: v2 }];
                        assert(actions_view(actions@) =~= acts_before + a1);
                        assert(acts_before + a1 + t.1 =~= acts_before + (a1 + t.1));
                    }
                },
                None => {},
            }
            i = i + 1;
        }
        assert(hs@.subrange(n as int, n as int) =~= Seq::<u64>::empty());
        assert(actions_view(actions@) =~= actions_view(actions@) + Seq::empty());
    }
}

/// Fails every job of a category, waiting or running (running ones are
/// killed first), with the message for categories out of retries.
pub open spec fn fail_category_spec(
    s: SchedulerView,
    c: u64,
    log_content: Option<Seq<char>>,
    flow_engine_url: Option<Seq<char>>,
) -> (SchedulerView, Seq<SchedulerActionView>) {
    let m = Some(farm_retries_message(log_content));
    let (j1, q1, a1) = fail_queue_spec(s.jobs, s.queue, c, m, false, flow_engine_url);
    let (j2, r2, a2) = fail_queue_spec(j1, s.running_queue, c, m, true, flow_engine_url);
    (SchedulerView { jobs: j2, queue: q1, running_queue: r2, ..s }, a1 + a2)
}

/// Counts one more failure of a category; at the limit, fails all its jobs.
pub open spec fn increment_spec(
    s: SchedulerView,
    c: u64,
    log_content: Option<Seq<char>>,
    flow_engine_url: Option<Seq<char>>,
) -> (SchedulerView, Seq<SchedulerActionView>, bool) {
    let n = retries_of(s, c) + 1;
    let s1 = SchedulerView { category_retries: s.category_retries.insert(c, n as i8), ..s };
    if n >= s.max_retries {
        let (s2, a2) = fail_category_spec(s1, c, log_content, flow_engine_url);
        (s2, a2, false)
    } else {
        (s1, Seq::empty(), true)
    }
}

/// A kill request: refused for an unknown or finished job; otherwise the job
/// is marked killing and killed where it runs, or, when it has not started,
/// dropped from its category's queue (and, with a flow engine, marked killed
/// and reported as killed when it is a flow agent); the job is stored.
pub open spec fn kill_spec_state(
    s: SchedulerView,
    h: u64,
    flow_engine_url: Option<Seq<char>>,
) -> (SchedulerView, Seq<SchedulerActionView>, bool) {
    if !s.jobs.contains_key(h) {
        (s, Seq::empty(), false)
    } else {
        let rec = s.jobs[h];
        let st = rec.job.status;
        if st == Status::Success || st == Status::Failed || st == Status::Killed {
            (s, Seq::empty(), false)
        } else {
            let job1 = JobView { status: Status::Killing, ..rec.job };
            let c = category_of(job1);
            let (s1, job_f, a1) = if rec.job.identifier is Some {
                (s, job1, kill_spec(job1))
            } else if s.queue.contains_key(c) {
                let s1 = SchedulerView { queue: drop_from(s.queue, c, h), ..s };
                if flow_engine_url is Some {
                    let job2 = JobView { status: Status::Killed, ..job1 };
                    (s1, job2, if is_flow_agent(job2.job_type) {
                        seq![SchedulerActionView::UpdateFlowEngine {
                            url: flow_engine_url.unwrap(),
                            job: job2,
                            message: Some("Job killed Successfully"@),
                        }]
                    } else {
                        Seq::empty()
                    })
                } else {
                    (s1, job1, Seq::empty())
                }
            } else {
                (s, job1, Seq::empty())
            };
            let rec2 = JobRecordView { job: job_f, ..rec };
            (SchedulerView { jobs: s1.jobs.insert(h, rec2), ..s1 },
                a1.push(SchedulerActionView::StoreJob { job_hash: h, record: rec2 }), true)
        }
    }
}

/// Whether a kill of a job was asked for before it started.
pub open spec fn kill_pending(status: Status) -> bool {
    status == Status::Killing || status == Status::Killed
}

/// A job started: with a process identifier (a local start) the next job of
/// its category is run locally; the job is stored with where it runs, as
/// running. A job whose kill was asked for before it started is stored as
/// killing instead, and killed where it runs, so that its kill is reported
/// once it ends.
pub open spec fn identifier_spec(
    s: SchedulerView,
    h: u64,
    id: Identifier,
    now: i64,
    default_protocol: Seq<char>,
    local_limits: Option<Spec>,
    settings: (Seq<char>, Seq<char>, Seq<char>),
) -> (SchedulerView, Seq<SchedulerActionView>) {
    if !s.jobs.contains_key(h) {
        (s, Seq::empty())
    } else {
        let rec = s.jobs[h];
        let (s1, a1) = if id is Pid {
            schedule_spec(s, category_of(rec.job), RunTarget::Local, now, default_protocol, local_limits, settings)
        } else {
            (s, Seq::empty())
        };
        let pending = kill_pending(rec.job.status);
        let job2 = JobView {
            identifier: Some(id),
            status: if pending { Status::Killing } else { Status::Running },
            ..rec.job
        };
        let rec2 = JobRecordView { job: job2, ..rec };
        (SchedulerView { jobs: s1.jobs.insert(h, rec2), ..s1 },
            a1.push(SchedulerActionView::StoreJob { job_hash: h, record: rec2 }) + if pending {
                kill_spec(job2)
            } else {
                Seq::empty()
            })
    }
}

impl JobScheduler {
    /// Fails every job of a category (see `fail_category_spec`); `log_content`
    /// is the category's failure log.
    pub fn fail_jobs_of_category(
        &mut self,
        category: u64,
        log_content: &Option<String>,
        flow_engine_url: &Option<String>,
        actions: &mut Vec<SchedulerAction>,
    )
        ensures
            jobs_have_specs(old(self)@) ==> jobs_have_specs(final(self)@),
            ({
                let (s1, a1) = fail_category_spec(old(self)@, category, opt_view(*log_content), opt_view(*flow_engine_url));
                &&& final(self)@ == s1
                &&& actions_view(final(actions)@) == actions_view(old(actions)@) + a1
            }),
    {
        let message = Some(farm_retries_text(log_content));
        self.fail_jobs_from_queue(false, category, &message, false, flow_engine_url, actions);
        let ghost mid = actions_view(actions@);
        self.fail_jobs_from_queue(true, category, &message, true, flow_engine_url, actions);
        proof {
            if jobs_have_specs(old(self)@) {
                lemma_fail_category_keeps_specs(old(self)@, category, opt_view(*log_content), opt_view(*flow_engine_url));
            }
            let m = Some(farm_retries_message(opt_view(*log_content)));
            let (j1, q1, a1) = fail_queue_spec(old(self)@.jobs, old(self)@.queue, category, m, false, opt_view(*flow_engine_url));
            let (j2, r2, a2) = fail_queue_spec(j1, old(self)@.running_queue, category, m, true, opt_view(*flow_engine_url));
            assert(actions_view(actions@) =~= actions_view(old(actions)@) + (a1 + a2));
        }
    }

    /// Counts one more failure of a category (see `increment_spec`); `Err`
    /// when the category reached its limit and its jobs were failed.
    pub fn increment_retries(
        &mut self,
        category: u64,
        log_content: &Option<String>,
        flow_engine_url: &Option<String>,
        actions: &mut Vec<SchedulerAction>,
    ) -> (r: Result<(), ()>)
        requires
            retries_of(old(self)@, category) < i8::MAX,
        ensures
            jobs_have_specs(old(self)@) ==> jobs_have_specs(final(self)@),
            ({
                let (s1, a1, ok) = increment_spec(old(self)@, category, opt_view(*log_content), opt_view(*flow_engine_url));
                &&& final(self)@ == s1
                &&& actions_view(final(actions)@) == actions_view(old(actions)@) + a1
                &&& (r is Ok <==> ok)
            }),
    {
        let n = self.retries(category) + 1;
        self.category_retries.insert(category, n);
        if n >= self.max_retries {
            self.fail_jobs_of_category(category, log_content, flow_engine_url, actions);
            Err(())
        } else {
            assert(actions_view(actions@) =~= actions_view(old(actions)@) + Seq::empty());
            Ok(())
        }
    }

    /// Jobs of a category failed for good elsewhere: the category is marked
    /// out of retries and all its jobs are failed.
    pub fn fail_jobs(
        &mut self,
        category: u64,
        log_content: &Option<String>,
        flow_engine_url: &Option<String>,
        actions: &mut Vec<SchedulerAction>,
    )
        ensures
            jobs_have_specs(old(self)@) ==> jobs_have_specs(final(self)@),
            ({
                let s0 = SchedulerView {
                    category_retries: old(self)@.category_retries.insert(category, old(self)@.max_retries),
                    ..old(self)@
                };
                let (s1, a1) = fail_category_spec(s0, category, opt_view(*log_content), opt_view(*flow_engine_url));
                &&& final(self)@ == s1
                &&& actions_view(final(actions)@) == actions_view(old(actions)@) + a1
            }),
    {
        self.category_retries.insert(category, self.max_retries);
        self.fail_jobs_of_category(category, log_content, flow_engine_url, actions);
    }

    /// A request to kill a job (see `kill_spec_state`); `Err` when the job is
    /// unknown or finished.
    pub fn kill_job(
        &mut self,
        job_hash: u64,
        flow_engine_url: &Option<String>,
        actions: &mut Vec<SchedulerAction>,
    ) -> (r: Result<(), ()>)
        ensures
            jobs_have_specs(old(self)@) ==> jobs_have_specs(final(self)@),
            ({
                let (s1, a1, ok) = kill_spec_state(old(self)@, job_hash, opt_view(*flow_engine_url));
                &&& final(self)@ == s1
                &&& actions_view(final(actions)@) == actions_view(old(actions)@) + a1
                &&& (r is Ok <==> ok)
            }),
    {
        let rec = match self.lookup(job_hash) {
            Some(rec) => rec,
            None => {
                assert(actions_view(actions@) =~= actions_view(old(actions)@) + Seq::empty());
                return Err(());
            },
        };
        let st = rec.job.status;
        if st == Status::Success || st == Status::Failed || st == Status::Killed {
            assert(actions_view(actions@) =~= actions_view(old(actions)@) + Seq::empty());
            return Err(());
        }
        let mut job = rec.job;
        job.status = Status::Killing;
        let category = job.get_category();
        if job.identifier.is_some() {
            Self::kill_job_actions(&job, actions);
        } else if self.queue.contains_key(category) {
            self.queue.retain_other(category, job_hash);
            if flow_engine_url.is_some() {
                job.status = Status::Killed;
                if contains_str(job.job_type.as_str(), "flow-agent") {
                    push_action(actions, SchedulerAction::UpdateFlowEngine {
                        url: flow_engine_url.as_ref().unwrap().clone(),
                        job: job.copy(),
                        message: Some(String::from_str("Job killed Successfully")),
                    });
                } else {
                    assert(actions_view(actions@) =~= actions_view(old(actions)@) + Seq::empty());
                }
            } else {
                assert(actions_view(actions@) =~= actions_view(old(actions)@) + Seq::empty());
            }
        } else {
            assert(actions_view(actions@) =~= actions_view(old(actions)@) + Seq::empty());
        }
        let rec2 = JobRecord { job, command: rec.command, cache_dir: rec.cache_dir };
        self.store_job(job_hash, rec2.copy());
        push_action(actions, SchedulerAction::StoreJob { job_hash, record: rec2 });
        Ok(())
    }

    /// A job started where `identifier` says (see `identifier_spec`).
    pub fn update_job_identifier(
        &mut self,
        job_hash: u64,
        identifier: Identifier,
        now: i64,
        cfg: &SchedulerConfig,
        settings: &SparkSettings,
        actions: &mut Vec<SchedulerAction>,
    )
        requires
            jobs_have_specs(old(self)@),
            old(self)@.running_spark_apps < i64::MAX,
            cfg.default_protocol@ == "local"@ ==> cfg.local_limits is Some,
        ensures
            jobs_have_specs(old(self)@) ==> jobs_have_specs(final(self)@),
            ({
                let (s1, a1) = identifier_spec(old(self)@, job_hash, identifier, now, cfg.default_protocol@,
                    cfg.local_limits, (settings.worker_script@, settings.spark_master_url@, settings.workarea@));
                &&& final(self)@ == s1
                &&& actions_view(final(actions)@) == actions_view(old(actions)@) + a1
            }),
    {
        let rec = match self.lookup(job_hash) {
            Some(rec) => rec,
            None => {
                assert(actions_view(actions@) =~= actions_view(old(actions)@) + Seq::empty());
                return;
            },
        };
        match identifier {
            Identifier::Pid(_) => {
                let category = rec.job.get_category();
                self.schedule_job(category, RunTarget::Local, now, cfg, settings, actions);
            },
            Identifier::Worker(_) => {
                assert(actions_view(actions@) =~= actions_view(old(actions)@) + Seq::empty());
            },
        }
        let ghost mid = actions_view(actions@);
        let mut job = rec.job;
        let pending = job.status == Status::Killing || job.status == Status::Killed;
        job.identifier = Some(identifier);
        job.status = if pending { Status::Killing } else { Status::Running };
        let rec2 = JobRecord { job, command: rec.command, cache_dir: rec.cache_dir };
        self.store_job(job_hash, rec2.copy());
        if pending {
            let kill_job = rec2.job.copy();
            push_action(actions, SchedulerAction::StoreJob { job_hash, record: rec2 });
            Self::kill_job_actions(&kill_job, actions);
        } else {
            push_action(actions, SchedulerAction::StoreJob { job_hash, record: rec2 });
        }
    }

    /// The value of one field of a known job.
    pub fn get_job_field(&self, job_hash: u64, field: &crate::job::JobField) -> (r: Option<crate::job::JobFieldValue>)
        ensures
            r is Some <==> self@.jobs.contains_key(job_hash),
            r matches Some(v) ==> crate::job::is_field_value(self@.jobs[job_hash].job, *field, v),
    {
        match self.jobs.get(&job_hash) {
            Some(rec) => Some(rec.job.return_field(field)),
            None => None,
        }
    }

    /// An add request (the scheduler's `AddJob` message): the job is handed
    /// to the queues, and for a new spark driver a spark worker may follow.
    pub fn add_job(
        &mut self,
        job: Job,
        command: String,
        can_schedule: bool,
        cache_dir: Option<String>,
        now: i64,
        cfg: &SchedulerConfig,
        settings: &SparkSettings,
        actions: &mut Vec<SchedulerAction>,
    ) -> (r: Result<(), AddJobError>)
        requires
            job@.specs.len() > 0,
            old(self)@.running_spark_apps < i64::MAX - 1,
            cfg.default_protocol@ == "local"@ ==> cfg.local_limits is Some,
            can_schedule && localized(job@, cfg.default_protocol@).protocol == "local"@ ==> cfg.local_limits is Some,
        ensures
            jobs_have_specs(old(self)@) ==> jobs_have_specs(final(self)@),
            ({
                let o = enqueue_spec(old(self)@, job@, can_schedule, command@, opt_view(cache_dir),
                    cfg.default_protocol@, cfg.local_limits);
                let (s2, a2) = if is_spark_driver(job@.job_type) && can_schedule {
                    spark_worker_spec(o.state, true, job@.specs[0], job@.job_name, now, cfg.default_protocol@,
                        cfg.local_limits, (settings.worker_script@, settings.spark_master_url@, settings.workarea@))
                } else {
                    (o.state, Seq::empty())
                };
                &&& final(self)@ == s2
                &&& actions_view(final(actions)@) == actions_view(old(actions)@) + o.actions + a2
                &&& match r {
                    Ok(()) => o.result is Ok,
                    Err(e) => o.result == Err::<(), AddJobErrorView>(e@),
                }
            }),
    {
        let spec = job.specs[0];
        let app_name = job.job_name.clone();
        let is_driver = contains_str(job.job_type.as_str(), "spark-driver");
        let r = self.add_job_to_queue(job, can_schedule, command, cache_dir, cfg.default_protocol.as_str(),
            cfg.local_limits, actions);
        let ghost mid = actions_view(actions@);
        if is_driver && can_schedule {
            self.add_spark_worker(true, &spec, app_name.as_str(), now, cfg, settings, actions);
            assert(actions_view(actions@) =~= actions_view(old(actions)@) + (mid.subrange(actions_view(old(actions)@).len() as int, mid.len() as int)) + actions_view(actions@).subrange(mid.len() as int, actions_view(actions@).len() as int));
        } else {
            assert(actions_view(actions@) =~= mid + Seq::empty());
        }
        r
    }
}

/// Whether some category's queue holds a job hash.
pub open spec fn queued_anywhere(q: Map<u64, Seq<u64>>, h: u64) -> bool {
    exists|c: u64| #[trigger] q.contains_key(c) && q[c].contains(h)
}

/// What is left to do once a job has finished: run the next jobs (of the
/// categories the local executor names, or of the job's own category) and
/// store the job.
#[derive(Clone, Debug)]
pub struct PendingCompletion {
    pub job_hash: u64,
    pub record: JobRecord,
    pub category: u64,
    pub target: RunTarget,
    /// For a job that ran locally: the spec it freed, for the local executor
    /// to say which queued categories now fit.
    pub local_spec: Option<Spec>,
}

/// The abstract value of a pending completion.
pub struct PendingView {
    pub job_hash: u64,
    pub record: JobRecordView,
    pub category: u64,
    pub target: RunTarget,
    pub local_spec: Option<Spec>,
}

impl View for PendingCompletion {
    type V = PendingView;

    open spec fn view(&self) -> PendingView {
        PendingView {
            job_hash: self.job_hash,
            record: self.record@,
            category: self.category,
            target: self.target,
            local_spec: self.local_spec,
        }
    }
}

/// The bookkeeping of a finished job: it leaves the running jobs of its
/// category; a finished spark worker leaves the running spark workers (spark
/// requests are allowed again once none runs); a finished spark driver
/// lowers the count of running drivers, and when none is left the spark
/// queues are emptied and spark requests are allowed again.
pub open spec fn finish_spec(s: SchedulerView, job: JobView, c: u64, h: u64) -> (SchedulerView, Seq<SchedulerActionView>) {
    let s1 = SchedulerView { running_queue: drop_from(s.running_queue, c, h), ..s };
    if job.job_type == "spark_worker"@ {
        let w = s1.running_spark_workers.remove(h);
        (SchedulerView { running_spark_workers: w, ..s1 },
            if w.is_empty() { seq![SchedulerActionView::SetSparkMonitor(true)] } else { Seq::empty() })
    } else if is_spark_driver(job.job_type) {
        let apps = s1.running_spark_apps - 1;
        if apps == 0 {
            (SchedulerView {
                running_spark_apps: apps,
                running_spark_workers: Set::new(|x: u64| s1.running_spark_workers.contains(x)
                    && !queued_anywhere(s1.spark_worker_queue, x)),
                spark_worker_queue: Map::empty(),
                ..s1
            }, seq![SchedulerActionView::SetSparkMonitor(true)])
        } else {
            (SchedulerView { running_spark_apps: apps, ..s1 }, Seq::empty())
        }
    } else {
        (s1, Seq::empty())
    }
}

/// The first step of a status update for a known job whose status changes:
/// a disqualified job loses its identifier, its failure category counts one
/// more failure (see `increment_spec`) and, when retries are left, it goes
/// back to the queues. Otherwise, when the flow engine is to hear of it or
/// the job was being killed, the new status (killed, for a job being killed)
/// is reported. Gives the new state, the actions and the updated job.
pub open spec fn apply_spec(
    s: SchedulerView,
    rec: JobRecordView,
    status: Status,
    update_flow_engine: bool,
    message: Option<Seq<char>>,
    retry_log: Option<Seq<char>>,
    flow_engine_url: Option<Seq<char>>,
    default_protocol: Seq<char>,
    local_limits: Option<Spec>,
) -> (SchedulerView, Seq<SchedulerActionView>, JobView) {
    let job = rec.job;
    if status == Status::DisQualified {
        let job1 = JobView { identifier: None, ..job };
        let (s1, a1, ok) = increment_spec(s, fail_category_of(job1), retry_log, flow_engine_url);
        if ok {
            let o = enqueue_spec(s1, job1, false, rec.command, rec.cache_dir, default_protocol, local_limits);
            (o.state, a1 + o.actions, JobView { status, ..job1 })
        } else {
            (s1, a1, JobView { status, ..job1 })
        }
    } else if update_flow_engine || job.status == Status::Killing {
        let (st, msg) = if job.status == Status::Killing {
            (Status::Killed, Some("Job killed successfully"@))
        } else {
            (status, message)
        };
        let job1 = JobView { status: st, ..job };
        (s, report_spec(flow_engine_url, job1, msg, rec.cache_dir), job1)
    } else {
        (s, Seq::empty(), JobView { status, ..job })
    }
}

/// What a finished remote job tells the worker manager: its worker becomes
/// idle (and a success resets the retries of the job's failure category,
/// whose log is then removed), or disqualified.
pub open spec fn remote_spec(s: SchedulerView, job: JobView, w: u64, h: u64, category: u64)
    -> (SchedulerView, Seq<SchedulerActionView>) {
    let fc = fail_category_of(job);
    if job.status != Status::DisQualified {
        if s.category_retries.contains_key(fc) {
            (SchedulerView { category_retries: s.category_retries.insert(fc, 0), ..s },
                seq![SchedulerActionView::DeleteCategoryLog { category },
                    SchedulerActionView::UpdateWorkerStatus { worker_hash: w, status: Status::Idle, job_hash: h, category }])
        } else {
            (s, seq![SchedulerActionView::UpdateWorkerStatus { worker_hash: w, status: Status::Idle, job_hash: h, category }])
        }
    } else {
        (s, seq![SchedulerActionView::UpdateWorkerStatus { worker_hash: w, status: Status::DisQualified, job_hash: h, category }])
    }
}

/// A status update for a job (phase one, before the next jobs run).
///
/// Ignored for an unknown job, for a status the job has already, and for a
/// finished job. Otherwise the update is applied (see `apply_spec`). A job
/// that reaches a final status is finished (see `finish_spec`); a remote one
/// also tells the worker manager (see `remote_spec`). The job is left to
/// store with the pending work only when it finished.
pub open spec fn status_spec(
    s: SchedulerView,
    h: u64,
    status: Status,
    update_flow_engine: bool,
    message: Option<Seq<char>>,
    job_type: JobType,
    retry_log: Option<Seq<char>>,
    flow_engine_url: Option<Seq<char>>,
    default_protocol: Seq<char>,
    local_limits: Option<Spec>,
) -> (SchedulerView, Seq<SchedulerActionView>, Option<PendingView>) {
    if !s.jobs.contains_key(h) {
        (s, Seq::empty(), None)
    } else {
        let rec = s.jobs[h];
        let job = rec.job;
        let category = category_of(job);
        if job.status == status || is_completion_status(job.status) {
            (s, Seq::empty(), None)
        } else {
            let (s2, a2, job2) = apply_spec(s, rec, status, update_flow_engine, message, retry_log,
                flow_engine_url, default_protocol, local_limits);
            if is_completion_status(job2.status) {
                let (s3, a3) = finish_spec(s2, job2, category, h);
                let rec2 = JobRecordView { job: job2, ..rec };
                match job_type {
                    JobType::Local => (s3, a2 + a3, Some(PendingView {
                        job_hash: h,
                        record: rec2,
                        category,
                        target: RunTarget::Local,
                        local_spec: Some(spec_of(job2)),
                    })),
                    JobType::Remote(w) => {
                        let (s4, a4) = remote_spec(s3, job2, w, h, category);
                        (s4, a2 + a3 + a4, Some(PendingView {
                            job_hash: h,
                            record: rec2,
                            category,
                            target: RunTarget::Remote,
                            local_spec: None,
                        }))
                    },
                }
            } else {
                (s2, a2, None)
            }
        }
    }
}

impl JobScheduler {
    fn finish(&mut self, job: &Job, category: u64, job_hash: u64, actions: &mut Vec<SchedulerAction>)
        requires
            old(self)@.running_spark_apps > i64::MIN,
        ensures
            ({
                let (s1, a1) = finish_spec(old(self)@, job@, category, job_hash);
                &&& final(self)@ == s1
                &&& actions_view(final(actions)@) == actions_view(old(actions)@) + a1
            }),
    {
        self.running_queue.retain_other(category, job_hash);
        if str_eq(job.job_type.as_str(), "spark_worker") {
            self.running_spark_workers.remove(&job_hash);
            if self.running_spark_workers.is_empty() {
                push_action(actions, SchedulerAction::SetSparkMonitor(true));
            } else {
                assert(actions_view(actions@) =~= actions_view(old(actions)@) + Seq::empty());
            }
        } else if contains_str(job.job_type.as_str(), "spark-driver") {
            self.running_spark_apps = self.running_spark_apps - 1;
            if self.running_spark_apps == 0 {
                let ghost s1 = self@;
                let queued = self.spark_worker_queue.all_jobs();
                proof {
                    assert forall|x: u64| queued@.contains(x) <==> queued_anywhere(s1.spark_worker_queue, x) by {
                        if queued_anywhere(s1.spark_worker_queue, x) {
                            let c = choose|c: u64| #[trigger] s1.spark_worker_queue.contains_key(c)
                                && s1.spark_worker_queue[c].contains(x);
                            assert(self.spark_worker_queue@.contains_key(c) && self.spark_worker_queue@[c].contains(x));
                            assert(self.spark_worker_queue.holds(x));
                        }
                        if queued@.contains(x) {
                            assert(self.spark_worker_queue.holds(x));
                            let c = choose|c: u64| #[trigger] self.spark_worker_queue@.contains_key(c)
                                && self.spark_worker_queue@[c].contains(x);
                            assert(s1.spark_worker_queue.contains_key(c) && s1.spark_worker_queue[c].contains(x));
                        }
                    }
                }
                let n = queued.len();
                let mut i: usize = 0;
                assert(self.running_spark_workers@ =~= Set::new(|x: u64| s1.running_spark_workers.contains(x)
                    && !queued@.subrange(0, 0).contains(x)));
                while i < n
                    invariant
                        n == queued@.len(),
                        i <= n,
                        self@ == (SchedulerView { running_spark_workers: self@.running_spark_workers, ..s1 }),
                        self.running_spark_workers@ == Set::new(|x: u64| s1.running_spark_workers.contains(x)
                            && !queued@.subrange(0, i as int).contains(x)),
                    decreases n - i,
                {
                    let x = queued[i];
                    let ghost before = self.running_spark_workers@;
                    self.running_spark_workers.remove(&x);
                    proof {
                        assert(self.running_spark_workers@ == before.remove(x));
                        assert(queued@.subrange(0, i + 1) =~= queued@.subrange(0, i as int).push(x));
                        assert forall|y: u64| self.running_spark_workers@.contains(y) <==> (s1.running_spark_workers.contains(y)
                            && !queued@.subrange(0, i + 1).contains(y)) by {
                            crate::queues::lemma_push_contains(queued@.subrange(0, i as int), x, y);
                        }
                        assert(self.running_spark_workers@ =~= Set::new(|y: u64| s1.running_spark_workers.contains(y)
                            && !queued@.subrange(0, i + 1).contains(y)));
                    }
                    i = i + 1;
                }
                assert(queued@.subrange(0, n as int) =~= queued@);
                self.spark_worker_queue.clear();
                push_action(actions, SchedulerAction::SetSparkMonitor(true));
                proof {
                    assert(self.running_spark_workers@ =~= Set::new(|x: u64| s1.running_spark_workers.contains(x)
                        && !queued_anywhere(s1.spark_worker_queue, x)));
                }
            } else {
                assert(actions_view(actions@) =~= actions_view(old(actions)@) + Seq::empty());
            }
        } else {
            assert(actions_view(actions@) =~= actions_view(old(actions)@) + Seq::empty());
        }
    }

    /// A status update for a job, phase one (see `status_spec`). Returns the
    /// work left for a finished job; `retry_log` is the failure log of the
    /// job's failure category, read after the update's message was appended
    /// to it.
    #[verifier::rlimit(60)]
    pub fn update_job_status(
        &mut self,
        job_hash: u64,
        status: Status,
        update_flow_engine: bool,
        message: Option<String>,
        job_type: JobType,
        retry_log: &Option<String>,
        cfg: &SchedulerConfig,
        actions: &mut Vec<SchedulerAction>,
    ) -> (r: Option<PendingCompletion>)
        requires
            jobs_have_specs(old(self)@),
            i64::MIN < old(self)@.running_spark_apps < i64::MAX,
            forall|c: u64| retries_of(old(self)@, c) < i8::MAX,
        ensures
            jobs_have_specs(old(self)@) ==> jobs_have_specs(final(self)@),
            ({
                let (s1, a1, p) = status_spec(old(self)@, job_hash, status, update_flow_engine, opt_view(message),
                    job_type, opt_view(*retry_log), opt_view(cfg.flow_engine_url), cfg.default_protocol@,
                    cfg.local_limits);
                &&& final(self)@ == s1
                &&& actions_view(final(actions)@) == actions_view(old(actions)@) + a1
                &&& match r {
                    Some(x) => p == Some(x@),
                    None => p is None,
                }
            }),
    {
        proof {
            lemma_status_keeps_specs(old(self)@, job_hash, status, update_flow_engine, opt_view(message), job_type,
                opt_view(*retry_log), opt_view(cfg.flow_engine_url), cfg.default_protocol@, cfg.local_limits);
        }
        let rec = match self.lookup(job_hash) {
            Some(rec) => rec,
            None => {
                assert(actions_view(actions@) =~= actions_view(old(actions)@) + Seq::empty());
                return None;
            },
        };
        let job = rec.job.copy();
        let category = job.get_category();
        if job.status == status || job.status.is_completion() {
            assert(actions_view(actions@) =~= actions_view(old(actions)@) + Seq::empty());
            return None;
        }
        let job = self.apply_status(job, &rec, status, update_flow_engine, message, retry_log, cfg, actions);
        if !job.status.is_completion() {
            return None;
        }
        self.finish(&job, category, job_hash, actions);
        let rec2 = JobRecord { job, command: rec.command, cache_dir: rec.cache_dir };
        match job_type {
            JobType::Local => {
                let spec = rec2.job.get_spec();
                Some(PendingCompletion { job_hash, record: rec2, category, target: RunTarget::Local, local_spec: Some(spec) })
            },
            JobType::Remote(w) => {
                self.remote_done(&rec2.job, w, job_hash, category, actions);
                Some(PendingCompletion { job_hash, record: rec2, category, target: RunTarget::Remote, local_spec: None })
            },
        }
    }

    fn remote_done(&mut self, job: &Job, w: u64, job_hash: u64, category: u64, actions: &mut Vec<SchedulerAction>)
        ensures
            ({
                let (s4, a4) = remote_spec(old(self)@, job@, w, job_hash, category);
                &&& final(self)@ == s4
                &&& actions_view(final(actions)@) == actions_view(old(actions)@) + a4
            }),
    {
        let fc = get_fail_category(job);
        let ghost a0 = actions_view(actions@);
        if job.status != Status::DisQualified {
            if self.category_retries.contains_key(&fc) {
                self.category_retries.insert(fc, 0);
                push_action(actions, SchedulerAction::DeleteCategoryLog { category });
            }
            push_action(actions, SchedulerAction::UpdateWorkerStatus { worker_hash: w, status: Status::Idle, job_hash, category });
        } else {
            push_action(actions, SchedulerAction::UpdateWorkerStatus { worker_hash: w, status: Status::DisQualified, job_hash, category });
        }
    }

    fn apply_status(
        &mut self,
        job: Job,
        rec: &JobRecord,
        status: Status,
        update_flow_engine: bool,
        message: Option<String>,
        retry_log: &Option<String>,
        cfg: &SchedulerConfig,
        actions: &mut Vec<SchedulerAction>,
    ) -> (job2: Job)
        requires
            job@ == rec.job@,
            old(self)@.running_spark_apps < i64::MAX,
            forall|c: u64| retries_of(old(self)@, c) < i8::MAX,
        ensures
            ({
                let (s2, a2, j2) = apply_spec(old(self)@, rec@, status, update_flow_engine, opt_view(message),
                    opt_view(*retry_log), opt_view(cfg.flow_engine_url), cfg.default_protocol@, cfg.local_limits);
                &&& final(self)@ == s2
                &&& actions_view(final(actions)@) == actions_view(old(actions)@) + a2
                &&& job2@ == j2
            }),
    {
        let mut job = job;
        if status == Status::DisQualified {
            job.identifier = None;
            let fc = get_fail_category(&job);
            let res = self.increment_retries(fc, retry_log, &cfg.flow_engine_url, actions);
            let ghost a1 = actions_view(actions@);
            if res.is_ok() {
                let _ = self.add_job_to_queue(job.copy(), false, rec.command.clone(), copy_opt_string(&rec.cache_dir),
                    cfg.default_protocol.as_str(), cfg.local_limits, actions);
            } else {
                assert(actions_view(actions@) =~= a1 + Seq::empty());
            }
            job.status = status;
            job
        } else if update_flow_engine || job.status == Status::Killing {
            let mut msg = message;
            let mut st = status;
            if job.status == Status::Killing {
                st = Status::Killed;
                msg = Some(String::from_str("Job killed successfully"));
            }
            job.status = st;
            log_job_status(&cfg.flow_engine_url, &job, &msg, &rec.cache_dir, actions);
            job
        } else {
            job.status = status;
            assert(actions_view(actions@) =~= actions_view(old(actions)@) + Seq::empty());
            job
        }
    }
}

/// Runs the next job of each listed category in turn (see `schedule_spec`).
pub open spec fn schedule_many_spec(
    s: SchedulerView,
    cs: Seq<u64>,
    target: RunTarget,
    now: i64,
    default_protocol: Seq<char>,
    local_limits: Option<Spec>,
    settings: (Seq<char>, Seq<char>, Seq<char>),
) -> (SchedulerView, Seq<SchedulerActionView>)
    decreases cs.len(),
{
    if cs.len() == 0 {
        (s, Seq::empty())
    } else {
        let (s1, a1) = schedule_spec(s, cs[0], target, now, default_protocol, local_limits, settings);
        let (s2, a2) = schedule_many_spec(s1, cs.drop_first(), target, now, default_protocol, local_limits, settings);
        (s2, a1 + a2)
    }
}

/// Phase two of a status update for a finished job: runs the next job of
/// each category the local executor named (of the job's own category when it
/// named none), then stores the job.
pub open spec fn complete_spec(
    s: SchedulerView,
    p: PendingView,
    categories: Seq<u64>,
    now: i64,
    default_protocol: Seq<char>,
    local_limits: Option<Spec>,
    settings: (Seq<char>, Seq<char>, Seq<char>),
) -> (SchedulerView, Seq<SchedulerActionView>) {
    let cs = if categories.len() == 0 { seq![p.category] } else { categories };
    let (s1, a1) = schedule_many_spec(s, cs, p.target, now, default_protocol, local_limits, settings);
    (SchedulerView { jobs: s1.jobs.insert(p.job_hash, p.record), ..s1 },
        a1.push(SchedulerActionView::StoreJob { job_hash: p.job_hash, record: p.record }))
}

/// Handing a job to the queues keeps a spec for every stored job, and
/// changes the count of running spark drivers only for a new spark driver.
pub proof fn lemma_enqueue_keeps(
    s: SchedulerView,
    job: JobView,
    can_schedule: bool,
    command: Seq<char>,
    cache_dir: Option<Seq<char>>,
    default_protocol: Seq<char>,
    local_limits: Option<Spec>,
)
    requires
        jobs_have_specs(s),
        can_schedule ==> job.specs.len() > 0,
    ensures
        ({
            let o = enqueue_spec(s, job, can_schedule, command, cache_dir, default_protocol, local_limits);
            &&& jobs_have_specs(o.state)
            &&& s.running_spark_apps <= o.state.running_spark_apps <= s.running_spark_apps + 1
            &&& job.job_type == "spark_worker"@ ==> o.state.running_spark_apps == s.running_spark_apps
            &&& o.state.max_retries == s.max_retries
            &&& o.state.category_retries == s.category_retries
        }),
{
    let o = enqueue_spec(s, job, can_schedule, command, cache_dir, default_protocol, local_limits);
    assert forall|h: u64| #[trigger] o.state.jobs.contains_key(h) implies o.state.jobs[h].job.specs.len() > 0 by {
        if s.jobs.contains_key(h) {
        }
    }
}

/// Running the next job of a category keeps a spec for every stored job and
/// leaves the count of running spark drivers and the retries as they were.
pub proof fn lemma_schedule_keeps(
    s: SchedulerView,
    c: u64,
    target: RunTarget,
    now: i64,
    default_protocol: Seq<char>,
    local_limits: Option<Spec>,
    settings: (Seq<char>, Seq<char>, Seq<char>),
)
    requires
        jobs_have_specs(s),
    ensures
        ({
            let (s1, a1) = schedule_spec(s, c, target, now, default_protocol, local_limits, settings);
            &&& jobs_have_specs(s1)
            &&& s1.running_spark_apps == s.running_spark_apps
            &&& s1.max_retries == s.max_retries
            &&& s1.category_retries == s.category_retries
        }),
{
    let (s1, picked) = pick_spec(s, c);
    assert(jobs_have_specs(s1));
    match picked {
        Some(h) => {
            if s1.jobs.contains_key(h) {
                let job = s1.jobs[h].job;
                let cat = category_of(job);
                let jh = name_hash(job.job_name);
                let s2 = SchedulerView { running_queue: push_to(s1.running_queue, cat, jh), ..s1 };
                assert(jobs_have_specs(s2));
                if job.job_type != "spark_worker"@ && is_spark_driver(job.job_type) {
                    if s2.running_spark_apps > s2.running_spark_workers.len() {
                        let w = scheduler_spark_worker(job.specs[0], job.job_name, now);
                        reveal_strlit("spark_worker");
                        lemma_enqueue_keeps(s2, w, true, spark_worker_command(settings.0, settings.1, settings.2,
                            job.specs[0].cores, job.specs[0].memory), None, default_protocol, local_limits);
                    }
                }
            }
        },
        None => {},
    }
}

/// Running the next job of several categories keeps a spec for every stored
/// job and leaves the count of running spark drivers as it was.
pub proof fn lemma_schedule_many_keeps(
    s: SchedulerView,
    cs: Seq<u64>,
    target: RunTarget,
    now: i64,
    default_protocol: Seq<char>,
    local_limits: Option<Spec>,
    settings: (Seq<char>, Seq<char>, Seq<char>),
)
    requires
        jobs_have_specs(s),
    ensures
        ({
            let (s1, a1) = schedule_many_spec(s, cs, target, now, default_protocol, local_limits, settings);
            &&& jobs_have_specs(s1)
            &&& s1.running_spark_apps == s.running_spark_apps
            &&& s1.max_retries == s.max_retries
            &&& s1.category_retries == s.category_retries
        }),
    decreases cs.len(),
{
    if cs.len() > 0 {
        lemma_schedule_keeps(s, cs[0], target, now, default_protocol, local_limits, settings);
        let (s1, a1) = schedule_spec(s, cs[0], target, now, default_protocol, local_limits, settings);
        lemma_schedule_many_keeps(s1, cs.drop_first(), target, now, default_protocol, local_limits, settings);
    }
}

impl JobScheduler {
    /// Phase two of a status update for a finished job (see `complete_spec`).
    pub fn complete(
        &mut self,
        pending: PendingCompletion,
        categories: Vec<u64>,
        now: i64,
        cfg: &SchedulerConfig,
        settings: &SparkSettings,
        actions: &mut Vec<SchedulerAction>,
    )
        requires
            jobs_have_specs(old(self)@),
            pending@.record.job.specs.len() > 0,
            old(self)@.running_spark_apps < i64::MAX,
            cfg.default_protocol@ == "local"@ ==> cfg.local_limits is Some,
        ensures
            ({
                let (s1, a1) = complete_spec(old(self)@, pending@, categories@, now, cfg.default_protocol@,
                    cfg.local_limits, (settings.worker_script@, settings.spark_master_url@, settings.workarea@));
                &&& final(self)@ == s1
                &&& actions_view(final(actions)@) == actions_view(old(actions)@) + a1
                &&& jobs_have_specs(final(self)@)
            }),
    {
        let ghost st = (settings.worker_script@, settings.spark_master_url@, settings.workarea@);
        let cs: Vec<u64> = if categories.len() == 0 {
            let mut v = Vec::new();
            v.push(pending.category);
            v
        } else {
            categories
        };
        let ghost cs_v = if categories@.len() == 0 { seq![pending.category] } else { categories@ };
        assert(cs@ =~= cs_v);
        let ghost total = schedule_many_spec(old(self)@, cs@, pending.target, now, cfg.default_protocol@,
            cfg.local_limits, st);
        let ghost a0 = actions_view(old(actions)@);
        let n = cs.len();
        let mut i: usize = 0;
        assert(cs@.subrange(0, n as int) =~= cs@);
        assert(a0 + total.1 =~= actions_view(actions@) + total.1);
        while i < n
            invariant
                n == cs@.len(),
                i <= n,
                jobs_have_specs(self@),
                self@.running_spark_apps == old(self)@.running_spark_apps,
                old(self)@.running_spark_apps < i64::MAX,
                cfg.default_protocol@ == "local"@ ==> cfg.local_limits is Some,
                st == (settings.worker_script@, settings.spark_master_url@, settings.workarea@),
                total == schedule_many_spec(old(self)@, cs@, pending.target, now, cfg.default_protocol@,
                    cfg.local_limits, st),
                ({
                    let rest = schedule_many_spec(self@, cs@.subrange(i as int, n as int), pending.target, now,
                        cfg.default_protocol@, cfg.local_limits, st);
                    &&& rest.0 == total.0
                    &&& actions_view(actions@) + rest.1 == a0 + total.1
                }),
            decreases n - i,
        {
            let ghost rest = cs@.subrange(i as int, n as int);
            assert(rest.drop_first() =~= cs@.subrange(i + 1, n as int));
            let ghost acts = actions_view(actions@);
            let ghost s_before = self@;
            proof {
                lemma_schedule_keeps(self@, cs@[i as int], pending.target, now, cfg.default_protocol@, cfg.local_limits, st);
            }
            self.schedule_job(cs[i], pending.target, now, cfg, settings, actions);
            proof {
                let (s1, a1) = schedule_spec(s_before, rest[0], pending.target, now, cfg.default_protocol@, cfg.local_limits, st);
                let (s2, a2) = schedule_many_spec(s1, rest.drop_first(), pending.target, now, cfg.default_protocol@, cfg.local_limits, st);
                assert(actions_view(actions@) + a2 =~= acts + (a1 + a2));
            }
            i = i + 1;
        }
        assert(cs@.subrange(n as int, n as int) =~= Seq::<u64>::empty());
        assert(actions_view(actions@) =~= actions_view(actions@) + Seq::empty());
        let h = pending.job_hash;
        let rec = pending.record;
        self.store_job(h, rec.copy());
        push_action(actions, SchedulerAction::StoreJob { job_hash: h, record: rec });
        proof {
            assert forall|k: u64| #[trigger] self@.jobs.contains_key(k) implies self@.jobs[k].job.specs.len() > 0 by {
                if k != h {
                    assert(total.0.jobs.contains_key(k));
                }
            }
        }
    }

    /// Forgets every category's failures (the scheduler's `ResetRetries`
    /// message): the failure log of each counted category is removed.
    pub fn reset_retries(&mut self, actions: &mut Vec<SchedulerAction>)
        ensures
            jobs_have_specs(old(self)@) ==> jobs_have_specs(final(self)@),
            final(self)@ == (SchedulerView { category_retries: Map::empty(), ..old(self)@ }),
            exists|ks: Seq<u64>| {
                &&& ks.no_duplicates()
                &&& ks.to_set() == old(self)@.category_retries.dom()
                &&& actions_view(final(actions)@) == actions_view(old(actions)@) + ks.map_values(
                    |k: u64| SchedulerActionView::DeleteCategoryLog { category: k })
            },
    {
        let ghost a0 = actions_view(actions@);
        let ghost ks = Seq::<u64>::empty();
        for k in it: self.category_retries.keys()
            invariant
                actions_view(actions@) == a0 + it.seq().subrange(0, it.index() as int).map_values(
                    |r: &u64| SchedulerActionView::DeleteCategoryLog { category: *r }),
        {
            let ghost before = actions_view(actions@);
            push_action(actions, SchedulerAction::DeleteCategoryLog { category: *k });
            proof {
                let seen = it.seq().subrange(0, it.index() as int);
                assert(it.seq().subrange(0, it.index() + 1) =~= seen.push(it.seq()[it.index() as int]));
                assert(actions_view(actions@) =~= a0 + it.seq().subrange(0, it.index() + 1).map_values(
                    |r: &u64| SchedulerActionView::DeleteCategoryLog { category: *r }));
            }
        }
        self.category_retries.clear();
        assert(self@.category_retries =~= Map::empty());
    }
}

/// Appends an action to a list of actions.
fn push_action(actions: &mut Vec<SchedulerAction>, a: SchedulerAction)
    ensures
        actions_view(final(actions)@) == actions_view(old(actions)@).push(a@),
{
    let ghost v = a@;
    actions.push(a);
    assert(actions_view(actions@) =~= actions_view(old(actions)@).push(v));
}

/// The retries a category may fail by default.
pub const MAX_CCM_RETRIES: i8 = 5;

/// The retries a category may fail, from the value of `MAX_CCM_RETRIES`
/// when it is set: the value when it parses as an `i8`, five otherwise.
pub fn get_max_retry_count(value: &Option<String>) -> (r: i8)
    ensures
        r == match opt_view(*value) {
            Some(v) => match crate::text::parse_i8_spec(v) {
                Some(n) => n,
                None => MAX_CCM_RETRIES,
            },
            None => MAX_CCM_RETRIES,
        },
{
    match value {
        Some(v) => match crate::text::parse_i8(v.as_str()) {
            Some(n) => n,
            None => MAX_CCM_RETRIES,
        },
        None => MAX_CCM_RETRIES,
    }
}

/// The file the failures of a category are logged to.
pub fn category_log_path(workarea: &str, category: u64) -> (r: String)
    ensures
        r@ == workarea@ + "/"@ + crate::text::decimal(category as nat) + ".log"@,
{
    let mut r = String::from_str(workarea);
    r.append("/");
    crate::text::push_decimal(&mut r, category);
    r.append(".log");
    r
}

/// The directory the controller's tables are kept in.
pub fn get_db_dir(workarea: &str) -> (r: String)
    ensures
        r@ == workarea@ + "/db"@,
{
    let mut r = String::from_str(workarea);
    r.append("/db");
    r
}

/// The file of a table in the tables' directory.
pub fn table_path(db_dir: &str, table: &str) -> (r: String)
    ensures
        r@ == db_dir@ + "/"@ + table@ + ".redb"@,
{
    let mut r = String::from_str(db_dir);
    r.append("/");
    r.append(table);
    r.append(".redb");
    r
}

/// A task instance update for the flow engine.
#[derive(Debug)]
pub struct FlowUpdate {
    pub flow_inst: String,
    pub task_inst: String,
    pub state: crate::status::FlowEngineState,
    pub message: Option<String>,
}

/// What the flow engine hears of a job: nothing unless the job is a flow
/// agent; for a flow agent, its flow and task instances (an error when its
/// name names none, see `flow_and_task`), its state and the message.
pub fn flow_engine_update(job: &Job, message: Option<String>) -> (r: Result<Option<FlowUpdate>, String>)
    ensures
        !crate::text::has_substring(job@.job_type, "flow-agent"@) ==> r matches Ok(None),
        crate::text::has_substring(job@.job_type, "flow-agent"@) ==> match crate::text::flow_and_task(job@.job_name) {
            Some((f, t)) => r matches Ok(Some(u)) && u.flow_inst@ == f && u.task_inst@ == t
                && u.state == crate::status::flow_engine_state_of(job@.status) && u.message == message,
            None => r matches Err(m) && m@ == crate::text::flow_format_message(job@.job_name),
        },
{
    if !crate::text::contains_str(job.job_type.as_str(), "flow-agent") {
        return Ok(None);
    }
    match crate::text::get_flow_and_task_inst(job.job_name.as_str()) {
        Ok((flow_inst, task_inst)) => Ok(Some(FlowUpdate {
            flow_inst,
            task_inst,
            state: job.status.to_flow_engine_state(),
            message,
        })),
        Err(m) => Err(m),
    }
}

/// Failing the jobs of a list keeps a spec for every stored job.
proof fn lemma_fail_list_keeps_specs(
    jobs: Map<u64, JobRecordView>,
    hs: Seq<u64>,
    message: Option<Seq<char>>,
    kill: bool,
    flow_engine_url: Option<Seq<char>>,
)
    requires
        forall|h: u64| #[trigger] jobs.contains_key(h) ==> jobs[h].job.specs.len() > 0,
    ensures
        ({
            let j2 = fail_list_spec(jobs, hs, message, kill, flow_engine_url).0;
            forall|h: u64| #[trigger] j2.contains_key(h) ==> j2[h].job.specs.len() > 0
        }),
    decreases hs.len(),
{
    if hs.len() > 0 {
        let h = hs[0];
        let j1 = if jobs.contains_key(h) {
            let rec = jobs[h];
            let job2 = JobView { status: Status::Failed, ..rec.job };
            jobs.insert(h, JobRecordView { job: job2, ..rec })
        } else {
            jobs
        };
        assert forall|k: u64| #[trigger] j1.contains_key(k) implies j1[k].job.specs.len() > 0 by {
            if k != h {
                assert(jobs.contains_key(k));
            }
        }
        lemma_fail_list_keeps_specs(j1, hs.drop_first(), message, kill, flow_engine_url);
    }
}

/// Failing the jobs of a category keeps a spec for every stored job.
pub proof fn lemma_fail_category_keeps_specs(
    s: SchedulerView,
    c: u64,
    log_content: Option<Seq<char>>,
    flow_engine_url: Option<Seq<char>>,
)
    requires
        jobs_have_specs(s),
    ensures
        jobs_have_specs(fail_category_spec(s, c, log_content, flow_engine_url).0),
{
    let m = Some(farm_retries_message(log_content));
    if s.queue.contains_key(c) {
        lemma_fail_list_keeps_specs(s.jobs, s.queue[c], m, false, flow_engine_url);
    }
    let (j1, q1, a1) = fail_queue_spec(s.jobs, s.queue, c, m, false, flow_engine_url);
    if s.running_queue.contains_key(c) {
        lemma_fail_list_keeps_specs(j1, s.running_queue[c], m, true, flow_engine_url);
    }
}

/// A status update keeps a spec for every stored job.
pub proof fn lemma_status_keeps_specs(
    s: SchedulerView,
    h: u64,
    status: Status,
    update_flow_engine: bool,
    message: Option<Seq<char>>,
    job_type: JobType,
    retry_log: Option<Seq<char>>,
    flow_engine_url: Option<Seq<char>>,
    default_protocol: Seq<char>,
    local_limits: Option<Spec>,
)
    requires
        jobs_have_specs(s),
    ensures
        jobs_have_specs(status_spec(s, h, status, update_flow_engine, message, job_type, retry_log,
            flow_engine_url, default_protocol, local_limits).0),
{
    if s.jobs.contains_key(h) {
        let rec = s.jobs[h];
        let job = rec.job;
        if status == Status::DisQualified {
            let job1 = JobView { identifier: None, ..job };
            let n = retries_of(s, fail_category_of(job1)) + 1;
            let s0 = SchedulerView { category_retries: s.category_retries.insert(fail_category_of(job1), n as i8), ..s };
            if n >= s.max_retries {
                lemma_fail_category_keeps_specs(s0, fail_category_of(job1), retry_log, flow_engine_url);
            }
            let (s1, a1, ok) = increment_spec(s, fail_category_of(job1), retry_log, flow_engine_url);
            if ok {
                lemma_enqueue_keeps(s1, job1, false, rec.command, rec.cache_dir, default_protocol, local_limits);
            }
        }
    }
}


/// No category's spark queue holds more than `MAX_QUEUED_SPARK_JOBS` workers.
pub open spec fn spark_queues_bounded(q: Map<u64, Seq<u64>>) -> bool {
    forall|c: u64| #[trigger] q.contains_key(c) ==> q[c].len() <= MAX_QUEUED_SPARK_JOBS
}

/// Handing a job to the queues keeps every spark queue within
/// `MAX_QUEUED_SPARK_JOBS`: a spark worker that finds its category's spark
/// queue full (and not holding it already) is dropped, leaves the job table
/// and the running spark workers, and further spark-worker requests are
/// refused.
pub proof fn lemma_enqueue_keeps_spark_queues_bounded(
    s: SchedulerView,
    job: JobView,
    can_schedule: bool,
    command: Seq<char>,
    cache_dir: Option<Seq<char>>,
    default_protocol: Seq<char>,
    local_limits: Option<Spec>,
)
    requires
        spark_queues_bounded(s.spark_worker_queue),
    ensures
        ({
            let o = enqueue_spec(s, job, can_schedule, command, cache_dir, default_protocol, local_limits);
            let j = localized(job, default_protocol);
            let h = name_hash(j.job_name);
            let c = category_of(j);
            &&& spark_queues_bounded(o.state.spark_worker_queue)
            &&& (o.result is Ok && j.job_type == "spark_worker"@ && s.spark_worker_queue.contains_key(c)
                && s.spark_worker_queue[c].len() >= MAX_QUEUED_SPARK_JOBS && !s.spark_worker_queue[c].contains(h)
                ==> {
                    &&& o.state.spark_worker_queue == s.spark_worker_queue
                    &&& !o.state.jobs.contains_key(h)
                    &&& !o.state.running_spark_workers.contains(h)
                    &&& o.actions.contains(SchedulerActionView::SetSparkMonitor(false))
                })
        }),
{
    let o = enqueue_spec(s, job, can_schedule, command, cache_dir, default_protocol, local_limits);
    let j = localized(job, default_protocol);
    let h = name_hash(j.job_name);
    let c = category_of(j);
    assert forall|k: u64| #[trigger] o.state.spark_worker_queue.contains_key(k) implies
        o.state.spark_worker_queue[k].len() <= MAX_QUEUED_SPARK_JOBS by {
        if k != c {
            assert(s.spark_worker_queue.contains_key(k));
        }
    }
    if o.result is Ok && j.job_type == "spark_worker"@ && s.spark_worker_queue.contains_key(c)
        && s.spark_worker_queue[c].len() >= MAX_QUEUED_SPARK_JOBS && !s.spark_worker_queue[c].contains(h) {
        let a = o.actions;
        assert(a[a.len() - 1] == SchedulerActionView::SetSparkMonitor(false));
    }
}

/// Taking the next job of a category keeps the spark queues within bounds.
proof fn lemma_pick_keeps_spark_queues_bounded(s: SchedulerView, c: u64)
    requires
        spark_queues_bounded(s.spark_worker_queue),
    ensures
        spark_queues_bounded(pick_spec(s, c).0.spark_worker_queue),
{
    let s1 = pick_spec(s, c).0;
    assert forall|k: u64| #[trigger] s1.spark_worker_queue.contains_key(k) implies
        s1.spark_worker_queue[k].len() <= MAX_QUEUED_SPARK_JOBS by {
        assert(s.spark_worker_queue.contains_key(k));
    }
}

/// Running the next job of a category keeps every spark queue within
/// `MAX_QUEUED_SPARK_JOBS`.
pub proof fn lemma_schedule_keeps_spark_queues_bounded(
    s: SchedulerView,
    c: u64,
    target: RunTarget,
    now: i64,
    default_protocol: Seq<char>,
    local_limits: Option<Spec>,
    settings: (Seq<char>, Seq<char>, Seq<char>),
)
    requires
        spark_queues_bounded(s.spark_worker_queue),
    ensures
        spark_queues_bounded(schedule_spec(s, c, target, now, default_protocol, local_limits, settings).0.spark_worker_queue),
{
    lemma_pick_keeps_spark_queues_bounded(s, c);
    let (s1, picked) = pick_spec(s, c);
    match picked {
        Some(h) => {
            if s1.jobs.contains_key(h) {
                let job = s1.jobs[h].job;
                let cat = category_of(job);
                let jh = name_hash(job.job_name);
                let s2 = SchedulerView { running_queue: push_to(s1.running_queue, cat, jh), ..s1 };
                if job.job_type != "spark_worker"@ && is_spark_driver(job.job_type) {
                    if s2.running_spark_apps > s2.running_spark_workers.len() {
                        lemma_enqueue_keeps_spark_queues_bounded(s2, scheduler_spark_worker(job.specs[0],
                            job.job_name, now), true, spark_worker_command(settings.0, settings.1, settings.2,
                            job.specs[0].cores, job.specs[0].memory), None, default_protocol, local_limits);
                    }
                }
            }
        },
        None => {},
    }
}

/// Running the next job of several categories keeps every spark queue
/// within `MAX_QUEUED_SPARK_JOBS`.
pub proof fn lemma_schedule_many_keeps_spark_queues_bounded(
    s: SchedulerView,
    cs: Seq<u64>,
    target: RunTarget,
    now: i64,
    default_protocol: Seq<char>,
    local_limits: Option<Spec>,
    settings: (Seq<char>, Seq<char>, Seq<char>),
)
    requires
        spark_queues_bounded(s.spark_worker_queue),
    ensures
        spark_queues_bounded(schedule_many_spec(s, cs, target, now, default_protocol, local_limits, settings).0.spark_worker_queue),
    decreases cs.len(),
{
    if cs.len() > 0 {
        lemma_schedule_keeps_spark_queues_bounded(s, cs[0], target, now, default_protocol, local_limits, settings);
        let (s1, a1) = schedule_spec(s, cs[0], target, now, default_protocol, local_limits, settings);
        lemma_schedule_many_keeps_spark_queues_bounded(s1, cs.drop_first(), target, now, default_protocol,
            local_limits, settings);
    }
}

/// The other messages keep every spark queue within `MAX_QUEUED_SPARK_JOBS`
/// too: a status update (which may hand a job back to the queues and, when
/// the last spark driver ends, empties the spark queues), the completion of
/// a finished job, a job's start, a kill request, a failure count and the
/// failure of a whole category.
pub proof fn lemma_messages_keep_spark_queues_bounded(
    s: SchedulerView,
    h: u64,
    status: Status,
    update_flow_engine: bool,
    message: Option<Seq<char>>,
    job_type: JobType,
    retry_log: Option<Seq<char>>,
    flow_engine_url: Option<Seq<char>>,
    p: PendingView,
    categories: Seq<u64>,
    id: Identifier,
    c: u64,
    now: i64,
    default_protocol: Seq<char>,
    local_limits: Option<Spec>,
    settings: (Seq<char>, Seq<char>, Seq<char>),
)
    requires
        spark_queues_bounded(s.spark_worker_queue),
    ensures
        spark_queues_bounded(status_spec(s, h, status, update_flow_engine, message, job_type, retry_log,
            flow_engine_url, default_protocol, local_limits).0.spark_worker_queue),
        spark_queues_bounded(complete_spec(s, p, categories, now, default_protocol, local_limits,
            settings).0.spark_worker_queue),
        spark_queues_bounded(identifier_spec(s, h, id, now, default_protocol, local_limits,
            settings).0.spark_worker_queue),
        spark_queues_bounded(kill_spec_state(s, h, flow_engine_url).0.spark_worker_queue),
        spark_queues_bounded(increment_spec(s, c, retry_log, flow_engine_url).0.spark_worker_queue),
        spark_queues_bounded(fail_category_spec(s, c, retry_log, flow_engine_url).0.spark_worker_queue),
{
    // a status update
    if s.jobs.contains_key(h) {
        let rec = s.jobs[h];
        let job = rec.job;
        if status == Status::DisQualified {
            let job1 = JobView { identifier: None, ..job };
            let (s1, a1, ok) = increment_spec(s, fail_category_of(job1), retry_log, flow_engine_url);
            if ok {
                lemma_enqueue_keeps_spark_queues_bounded(s1, job1, false, rec.command, rec.cache_dir,
                    default_protocol, local_limits);
            }
        }
    }
    // completion
    let cs = if categories.len() == 0 { seq![p.category] } else { categories };
    lemma_schedule_many_keeps_spark_queues_bounded(s, cs, p.target, now, default_protocol, local_limits, settings);
    // a start
    if s.jobs.contains_key(h) && id is Pid {
        lemma_schedule_keeps_spark_queues_bounded(s, category_of(s.jobs[h].job), RunTarget::Local, now,
            default_protocol, local_limits, settings);
    }
}

/// Every job listed is failed: the table keeps its keys, and a listed job in
/// it, or one already failed, is failed afterwards.
proof fn lemma_fail_list_fails(
    jobs: Map<u64, JobRecordView>,
    hs: Seq<u64>,
    message: Option<Seq<char>>,
    kill: bool,
    flow_engine_url: Option<Seq<char>>,
)
    ensures
        ({
            let r = fail_list_spec(jobs, hs, message, kill, flow_engine_url).0;
            &&& r.dom() == jobs.dom()
            &&& forall|k: u64| #[trigger] jobs.contains_key(k) && (hs.contains(k) || jobs[k].job.status
                == Status::Failed) ==> r[k].job.status == Status::Failed
        }),
    decreases hs.len(),
{
    if hs.len() > 0 {
        let h = hs[0];
        let j1 = if jobs.contains_key(h) {
            let rec = jobs[h];
            jobs.insert(h, JobRecordView { job: JobView { status: Status::Failed, ..rec.job }, ..rec })
        } else {
            jobs
        };
        lemma_fail_list_fails(j1, hs.drop_first(), message, kill, flow_engine_url);
        let r = fail_list_spec(jobs, hs, message, kill, flow_engine_url).0;
        assert(r == fail_list_spec(j1, hs.drop_first(), message, kill, flow_engine_url).0);
        assert(j1.dom() =~= jobs.dom());
        assert forall|k: u64| #[trigger] jobs.contains_key(k) && (hs.contains(k) || jobs[k].job.status
            == Status::Failed) implies r[k].job.status == Status::Failed by {
            if k != h && hs.contains(k) {
                let i = choose|i: int| 0 <= i < hs.len() && hs[i] == k;
                assert(hs.drop_first()[i - 1] == k);
            }
        }
    }
}

/// A category failed for good (the `FailJobs` message) ends with every job
/// of its waiting and running queues failed and both queues empty; its
/// failure count is at the limit, so a later request for a new job of the
/// category (one the local machine can hold, when it is local) is refused
/// because the category ran out of retries (answered with
/// `protocol_retries_message`, see `AddJobError::message`).
pub proof fn lemma_failed_category_refuses_new_jobs(
    s: SchedulerView,
    c: u64,
    log_content: Option<Seq<char>>,
    flow_engine_url: Option<Seq<char>>,
    job: JobView,
    command: Seq<char>,
    cache_dir: Option<Seq<char>>,
    default_protocol: Seq<char>,
    local_limits: Option<Spec>,
)
    ensures
        ({
            let s0 = SchedulerView { category_retries: s.category_retries.insert(c, s.max_retries), ..s };
            let s1 = fail_category_spec(s0, c, log_content, flow_engine_url).0;
            let j = localized(job, default_protocol);
            &&& forall|h: u64| #[trigger] s.jobs.contains_key(h) && ((s.queue.contains_key(c)
                && s.queue[c].contains(h)) || (s.running_queue.contains_key(c) && s.running_queue[c].contains(h)))
                ==> s1.jobs.contains_key(h) && s1.jobs[h].job.status == Status::Failed
            &&& s1.queue.contains_key(c) ==> s1.queue[c].len() == 0
            &&& s1.running_queue.contains_key(c) ==> s1.running_queue[c].len() == 0
            &&& retries_of(s1, c) == s.max_retries
            &&& (fail_category_of(j) == c && !(j.protocol == "local"@ && !fits_within(j.specs[0],
                local_limits.unwrap())) ==> enqueue_spec(s1, job, true, command, cache_dir, default_protocol,
                local_limits).result == Err::<(), AddJobErrorView>(AddJobErrorView::RetriesExhausted(c)))
        }),
{
    let s0 = SchedulerView { category_retries: s.category_retries.insert(c, s.max_retries), ..s };
    let m = Some(farm_retries_message(log_content));
    let empty = Seq::<u64>::empty();
    let hq = if s0.queue.contains_key(c) { s0.queue[c] } else { empty };
    let hr = if s0.running_queue.contains_key(c) { s0.running_queue[c] } else { empty };
    lemma_fail_list_fails(s0.jobs, hq, m, false, flow_engine_url);
    let (j1, q1, a1) = fail_queue_spec(s0.jobs, s0.queue, c, m, false, flow_engine_url);
    assert(j1 == fail_list_spec(s0.jobs, hq, m, false, flow_engine_url).0);
    lemma_fail_list_fails(j1, hr, m, true, flow_engine_url);
    let (j2, r2, a2) = fail_queue_spec(j1, s0.running_queue, c, m, true, flow_engine_url);
    assert(j2 == fail_list_spec(j1, hr, m, true, flow_engine_url).0);
    let s1 = fail_category_spec(s0, c, log_content, flow_engine_url).0;
    assert(s1.jobs == j2);
    assert forall|h: u64| #[trigger] s.jobs.contains_key(h) && ((s.queue.contains_key(c)
        && s.queue[c].contains(h)) || (s.running_queue.contains_key(c) && s.running_queue[c].contains(h)))
        implies s1.jobs.contains_key(h) && s1.jobs[h].job.status == Status::Failed by {
        assert(j1.contains_key(h));
    }
}

/// A finished job, or one that already has the reported status, ignores a
/// status update: nothing changes and nothing is done.
pub proof fn lemma_finished_job_ignores_updates(
    s: SchedulerView,
    h: u64,
    status: Status,
    update_flow_engine: bool,
    message: Option<Seq<char>>,
    job_type: JobType,
    retry_log: Option<Seq<char>>,
    flow_engine_url: Option<Seq<char>>,
    default_protocol: Seq<char>,
    local_limits: Option<Spec>,
)
    requires
        s.jobs.contains_key(h),
        is_completion_status(s.jobs[h].job.status) || s.jobs[h].job.status == status,
    ensures
        status_spec(s, h, status, update_flow_engine, message, job_type, retry_log, flow_engine_url,
            default_protocol, local_limits) == (s, Seq::<SchedulerActionView>::empty(), None::<PendingView>),
{
}


/// A category's queue is served first in, first out: while it holds jobs,
/// the job taken is its oldest, and the queue keeps the others in their
/// order; a job queued after others is not taken before them. Running the
/// next job of the category hands out the oldest job when the job table
/// holds it.
pub proof fn lemma_queue_is_first_in_first_out(
    s: SchedulerView,
    c: u64,
    h: u64,
    target: RunTarget,
    now: i64,
    default_protocol: Seq<char>,
    local_limits: Option<Spec>,
    settings: (Seq<char>, Seq<char>, Seq<char>),
)
    requires
        s.queue.contains_key(c),
        s.queue[c].len() > 0,
    ensures
        pick_spec(s, c).1 == Some(s.queue[c][0]),
        pick_spec(s, c).0.queue.contains_key(c),
        pick_spec(s, c).0.queue[c] == s.queue[c].subrange(1, s.queue[c].len() as int),
        pick_spec(SchedulerView { queue: push_to(s.queue, c, h), ..s }, c).1 == Some(s.queue[c][0]),
        s.jobs.contains_key(s.queue[c][0]) ==> ({
            let (s1, a1) = schedule_spec(s, c, target, now, default_protocol, local_limits, settings);
            let rec = s.jobs[s.queue[c][0]];
            a1.len() > 0 && a1[0] == SchedulerActionView::RunJob {
                target,
                job: rec.job,
                command: rec.command,
                cache_dir: rec.cache_dir,
            }
        }),
{
    let q = s.queue[c];
    assert(q.drop_first() =~= q.subrange(1, q.len() as int));
    assert(push_to(s.queue, c, h)[c] == q.push(h));
    assert(q.push(h)[0] == q[0]);
}

/// A kill of a job that has not started, whose category has a waiting
/// queue, takes the job out of that queue (the other jobs keep their order)
/// and leaves the other queues alone; the job is marked killing (or killed,
/// when a flow engine hears of it). The next job run for the category is
/// therefore never the killed one.
pub proof fn lemma_killed_queued_job_leaves_queue(s: SchedulerView, h: u64, flow_engine_url: Option<Seq<char>>)
    requires
        s.jobs.contains_key(h),
        s.jobs[h].job.identifier is None,
        !(s.jobs[h].job.status == Status::Success || s.jobs[h].job.status == Status::Failed
            || s.jobs[h].job.status == Status::Killed),
        s.queue.contains_key(category_of(s.jobs[h].job)),
    ensures
        ({
            let c = category_of(s.jobs[h].job);
            let (s1, a1, ok) = kill_spec_state(s, h, flow_engine_url);
            &&& ok
            &&& s1.queue.contains_key(c)
            &&& s1.queue[c] == without(s.queue[c], h)
            &&& !s1.queue[c].contains(h)
            &&& forall|x: u64| x != h ==> (#[trigger] s1.queue[c].contains(x) <==> s.queue[c].contains(x))
            &&& forall|d: u64| d != c ==> (#[trigger] s1.queue.contains_key(d) <==> s.queue.contains_key(d))
                && (s1.queue.contains_key(d) ==> s1.queue[d] == s.queue[d])
            &&& s1.jobs[h].job.status == Status::Killing || s1.jobs[h].job.status == Status::Killed
            &&& s1.queue[c].len() > 0 ==> pick_spec(s1, c).1 != Some(h)
        }),
{
    let c = category_of(s.jobs[h].job);
    let job1 = JobView { status: Status::Killing, ..s.jobs[h].job };
    assert(category_of(job1) == c);
    crate::queues::lemma_without_contains(s.queue[c], h, h);
    assert forall|x: u64| x != h implies (#[trigger] without(s.queue[c], h).contains(x) <==> s.queue[c].contains(x)) by {
        crate::queues::lemma_without_contains(s.queue[c], h, x);
    }
    let (s1, a1, ok) = kill_spec_state(s, h, flow_engine_url);
    if s1.queue[c].len() > 0 {
        assert(s1.queue[c].contains(s1.queue[c][0]));
    }
}

} // verus!
