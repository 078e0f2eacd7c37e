//! Jobs, workers and the requests that create them.

use vstd::prelude::*;
use crate::hashing::{get_hash, name_hash, protocol_specs_get_hash, protocol_specs_hash};
use crate::spec::Spec;
use crate::status::Status;
use crate::text::str_eq;

verus! {

/// Where a running job can be found: a local process or a remote worker.
#[derive(Clone, Copy, Debug, PartialEq, Eq, Hash, Structural)]
pub enum Identifier {
    Pid(u32),
    Worker(u64),
}

/// A job as the controller keeps it.
#[derive(Clone, Debug, PartialEq, Eq)]
pub struct Job {
    pub job_name: String,
    pub job_type: String,
    pub status: Status,
    pub protocol: String,
    pub specs: Vec<Spec>,
    pub lightweight: bool,
    pub lightweight_spec: Option<Spec>,
    pub identifier: Option<Identifier>,
}

/// The abstract value of a job: its strings as character sequences.
pub struct JobView {
    pub job_name: Seq<char>,
    pub job_type: Seq<char>,
    pub status: Status,
    pub protocol: Seq<char>,
    pub specs: Seq<Spec>,
    pub lightweight: bool,
    pub lightweight_spec: Option<Spec>,
    pub identifier: Option<Identifier>,
}

impl View for Job {
    type V = JobView;

    open spec fn view(&self) -> JobView {
        JobView {
            job_name: self.job_name@,
            job_type: self.job_type@,
            status: self.status,
            protocol: self.protocol@,
            specs: self.specs@,
            lightweight: self.lightweight,
            lightweight_spec: self.lightweight_spec,
            identifier: self.identifier,
        }
    }
}

/// The category of a job (see `job_category`).
pub open spec fn category_of(job: JobView) -> u64 {
    if job.lightweight {
        name_hash(job.protocol)
    } else {
        protocol_specs_hash(job.protocol, job.specs)
    }
}

/// The category under which failures of a job are counted (see
/// `fail_category`).
pub open spec fn fail_category_of(job: JobView) -> u64 {
    if job.job_type == "spark_worker"@ {
        name_hash(job.protocol)
    } else {
        category_of(job)
    }
}

/// The spec a job runs with (see `job_spec`).
pub open spec fn spec_of(job: JobView) -> Spec {
    match job.lightweight_spec {
        Some(s) => s,
        None => job.specs[0],
    }
}

/// The fields of a job that can be asked for.
#[derive(Clone, Copy, Debug, PartialEq, Eq, Structural)]
pub enum JobField {
    JobName,
    JobType,
    Status,
    Protocol,
    Specs,
    Lightweight,
    LightweightSpec,
    Identifier,
}

/// The value of one field of a job.
#[derive(Clone, Debug, PartialEq, Eq)]
pub enum JobFieldValue {
    JobName(String),
    JobType(String),
    Status(Status),
    Protocol(String),
    Specs(Vec<Spec>),
    Lightweight(bool),
    LightweightSpec(Option<Spec>),
    Identifier(Option<Identifier>),
}

/// Where a job ran: locally, or on the remote worker with the given hash.
#[derive(Clone, Copy, Debug, PartialEq, Eq, Structural)]
pub enum JobType {
    Local,
    Remote(u64),
}

/// Where a queued category is to be run: locally or on remote workers.
#[derive(Clone, Copy, Debug, PartialEq, Eq, Structural)]
pub enum RunType {
    Local(u64),
    Remote(u64),
}

/// How a running job is killed: its process, or a request to its worker.
#[derive(Clone, Copy, Debug, PartialEq, Eq, Structural)]
pub enum KillTarget {
    Pid(u32),
    Worker { job_hash: u64, worker_hash: u64 },
}

/// The name given to the companion jobs that keep a worker's second slot.
pub open spec fn dummy_job_name() -> Seq<char> {
    "dummy_ccm_job"@
}

/// The category of a job: its protocol alone for lightweight jobs, its
/// protocol and its specs otherwise.
pub open spec fn job_category(job: Job) -> u64 {
    category_of(job@)
}

/// The category under which failures of a job are counted: spark workers
/// count by protocol alone.
pub open spec fn fail_category(job: Job) -> u64 {
    fail_category_of(job@)
}

/// The spec a job runs with: its lightweight spec when it has one, else its
/// first spec.
pub open spec fn job_spec(job: Job) -> Spec {
    spec_of(job@)
}

/// `v` is the value of the given field of the job.
pub open spec fn is_field_value(job: JobView, field: JobField, v: JobFieldValue) -> bool {
    match field {
        JobField::JobName => v matches JobFieldValue::JobName(x) && x@ == job.job_name,
        JobField::JobType => v matches JobFieldValue::JobType(x) && x@ == job.job_type,
        JobField::Status => v == JobFieldValue::Status(job.status),
        JobField::Protocol => v matches JobFieldValue::Protocol(x) && x@ == job.protocol,
        JobField::Specs => v matches JobFieldValue::Specs(x) && x@ == job.specs,
        JobField::Lightweight => v == JobFieldValue::Lightweight(job.lightweight),
        JobField::LightweightSpec => v == JobFieldValue::LightweightSpec(job.lightweight_spec),
        JobField::Identifier => v == JobFieldValue::Identifier(job.identifier),
    }
}

/// A fresh job with the given fields: status new, no identifier.
pub open spec fn is_new_job(
    job: Job,
    job_name: Seq<char>,
    job_type: Seq<char>,
    protocol: Seq<char>,
    specs: Seq<Spec>,
    lightweight: bool,
    lightweight_spec: Option<Spec>,
) -> bool {
    &&& job.job_name@ == job_name
    &&& job.job_type@ == job_type
    &&& job.status == Status::New
    &&& job.protocol@ == protocol
    &&& job.specs@ == specs
    &&& job.lightweight == lightweight
    &&& job.lightweight_spec == lightweight_spec
    &&& job.identifier is None
}

/// A copy of an optional string.
pub fn copy_opt_string(o: &Option<String>) -> (r: Option<String>)
    ensures
        match (*o, r) {
            (Some(a), Some(b)) => a@ == b@,
            (None, None) => true,
            _ => false,
        },
{
    match o {
        Some(s) => Some(s.clone()),
        None => None,
    }
}

/// A copy of a list of specs.
pub fn copy_specs(v: &Vec<Spec>) -> (r: Vec<Spec>)
    ensures
        r@ == v@,
{
    let mut r: Vec<Spec> = Vec::new();
    let mut i: usize = 0;
    while i < v.len()
        invariant
            i <= v@.len(),
            r@ == v@.subrange(0, i as int),
        decreases v@.len() - i,
    {
        r.push(v[i]);
        i = i + 1;
    }
    assert(r@ =~= v@);
    r
}

impl Job {
    /// A copy of the job.
    pub fn copy(&self) -> (r: Job)
        ensures
            r@ == self@,
    {
        Job {
            job_name: self.job_name.clone(),
            job_type: self.job_type.clone(),
            status: self.status,
            protocol: self.protocol.clone(),
            specs: copy_specs(&self.specs),
            lightweight: self.lightweight,
            lightweight_spec: self.lightweight_spec,
            identifier: self.identifier,
        }
    }

    /// A new job: status new, no identifier.
    pub fn new(
        job_name: String,
        job_type: String,
        protocol: String,
        specs: Vec<Spec>,
        lightweight: bool,
        lightweight_spec: Option<Spec>,
    ) -> (job: Job)
        ensures
            is_new_job(job, job_name@, job_type@, protocol@, specs@, lightweight, lightweight_spec),
    {
        Job {
            job_name,
            job_type,
            status: Status::New,
            protocol,
            specs,
            lightweight,
            lightweight_spec,
            identifier: None,
        }
    }

    /// The category of lightweight jobs of this job's protocol.
    pub fn get_lighweight_category(&self) -> (c: u64)
        ensures
            c == name_hash(self.protocol@),
    {
        get_hash(self.protocol.as_str())
    }

    /// The category of this job (see `job_category`).
    pub fn get_category(&self) -> (c: u64)
        ensures
            c == job_category(*self),
    {
        if self.lightweight {
            self.get_lighweight_category()
        } else {
            protocol_specs_get_hash(self.protocol.as_str(), &self.specs)
        }
    }

    /// The hash of the job's name, its identifier.
    pub fn get_hash(&self) -> (h: u64)
        ensures
            h == name_hash(self.job_name@),
    {
        get_hash(self.job_name.as_str())
    }

    /// The spec the job runs with (see `job_spec`).
    pub fn get_spec(&self) -> (s: Spec)
        requires
            self.specs@.len() > 0,
        ensures
            s == job_spec(*self),
    {
        let first = self.specs[0];
        match self.lightweight_spec {
            Some(s) => s,
            None => first,
        }
    }

    /// The companion of this job on a new worker: a dummy job of the same
    /// protocol and specs, of the other weight.
    pub fn get_second_job(&self) -> (job: Job)
        ensures
            is_new_job(job, dummy_job_name(), Seq::empty(), self.protocol@, self.specs@,
                !self.lightweight, None),
    {
        Job::new(
            String::from_str("dummy_ccm_job"),
            String::new(),
            self.protocol.clone(),
            self.specs.clone(),
            !self.lightweight,
            None,
        )
    }

    /// The two jobs a new worker is started with: a dummy job of this job's
    /// weight, then its companion.
    pub fn get_dummy_jobs(&self) -> (jobs: Vec<Job>)
        ensures
            jobs@.len() == 2,
            is_new_job(jobs@[0], dummy_job_name(), Seq::empty(), self.protocol@, self.specs@,
                self.lightweight, None),
            is_new_job(jobs@[1], dummy_job_name(), Seq::empty(), self.protocol@, self.specs@,
                !self.lightweight, None),
    {
        let dummy_job = Job::new(
            String::from_str("dummy_ccm_job"),
            String::new(),
            self.protocol.clone(),
            self.specs.clone(),
            self.lightweight,
            None,
        );
        let second = self.get_second_job();
        let mut jobs = Vec::new();
        jobs.push(dummy_job);
        jobs.push(second);
        jobs
    }

    /// The value of one field of the job.
    pub fn return_field(&self, field: &JobField) -> (v: JobFieldValue)
        ensures
            is_field_value(self@, *field, v),
    {
        match field {
            JobField::JobName => JobFieldValue::JobName(self.job_name.clone()),
            JobField::JobType => JobFieldValue::JobType(self.job_type.clone()),
            JobField::Status => JobFieldValue::Status(self.status),
            JobField::Protocol => JobFieldValue::Protocol(self.protocol.clone()),
            JobField::Specs => JobFieldValue::Specs(self.specs.clone()),
            JobField::Lightweight => JobFieldValue::Lightweight(self.lightweight),
            JobField::LightweightSpec => JobFieldValue::LightweightSpec(self.lightweight_spec),
            JobField::Identifier => JobFieldValue::Identifier(self.identifier),
        }
    }

    /// How the job is killed: through its process or through its worker;
    /// `Err` when the job has not started anywhere.
    pub fn kill_target(&self) -> (r: Result<KillTarget, ()>)
        ensures
            match self.identifier {
                None => r is Err,
                Some(Identifier::Pid(pid)) => r == Ok::<KillTarget, ()>(KillTarget::Pid(pid)),
                Some(Identifier::Worker(w)) => r == Ok::<KillTarget, ()>(KillTarget::Worker {
                    job_hash: name_hash(self.job_name@),
                    worker_hash: w,
                }),
            },
    {
        match self.identifier {
            None => Err(()),
            Some(Identifier::Pid(pid)) => Ok(KillTarget::Pid(pid)),
            Some(Identifier::Worker(w)) => Ok(KillTarget::Worker {
                job_hash: self.get_hash(),
                worker_hash: w,
            }),
        }
    }
}

/// The category under which the failures of a job are counted.
pub fn get_fail_category(job: &Job) -> (c: u64)
    ensures
        c == fail_category(*job),
{
    if str_eq(job.job_type.as_str(), "spark_worker") {
        job.get_lighweight_category()
    } else {
        job.get_category()
    }
}

/// A lightweight job's category depends on its protocol alone: it is the
/// hash of the protocol name, the identifier a job of that name would have.
pub proof fn lemma_lightweight_category_is_protocol_hash(job: Job)
    requires
        job.lightweight,
    ensures
        job_category(job) == name_hash(job.protocol@),
{
}

/// A worker started by the controller on a farm.
#[derive(Clone, Debug, PartialEq, Eq)]
pub struct Worker {
    pub name: String,
    pub identifier: Option<String>,
    pub job_id: Option<String>,
    pub protocol: String,
    pub categories: Vec<u64>,
}

/// The abstract value of a worker: its strings as character sequences.
pub struct WorkerView {
    pub name: Seq<char>,
    pub identifier: Option<Seq<char>>,
    pub job_id: Option<Seq<char>>,
    pub protocol: Seq<char>,
    pub categories: Seq<u64>,
}

/// An optional string as an optional character sequence.
pub open spec fn opt_chars(s: Option<String>) -> Option<Seq<char>> {
    match s {
        Some(x) => Some(x@),
        None => None,
    }
}

impl View for Worker {
    type V = WorkerView;

    open spec fn view(&self) -> WorkerView {
        WorkerView {
            name: self.name@,
            identifier: opt_chars(self.identifier),
            job_id: opt_chars(self.job_id),
            protocol: self.protocol@,
            categories: self.categories@,
        }
    }
}

/// A copy of a list of categories.
pub fn copy_categories(v: &Vec<u64>) -> (r: Vec<u64>)
    ensures
        r@ == v@,
{
    let mut r: Vec<u64> = Vec::new();
    let mut i: usize = 0;
    while i < v.len()
        invariant
            i <= v@.len(),
            r@ == v@.subrange(0, i as int),
        decreases v@.len() - i,
    {
        r.push(v[i]);
        assert(v@.subrange(0, i + 1) =~= v@.subrange(0, i as int).push(v@[i as int]));
        i = i + 1;
    }
    assert(v@.subrange(0, v@.len() as int) =~= v@);
    r
}

impl Worker {
    /// A copy of this worker.
    pub fn copy(&self) -> (r: Worker)
        ensures
            r@ == self@,
    {
        let identifier = copy_opt_string(&self.identifier);
        let job_id = copy_opt_string(&self.job_id);
        let r = Worker {
            name: self.name.clone(),
            identifier,
            job_id,
            protocol: self.protocol.clone(),
            categories: copy_categories(&self.categories),
        };
        assert(opt_chars(r.identifier) == opt_chars(self.identifier));
        assert(opt_chars(r.job_id) == opt_chars(self.job_id));
        r
    }

    /// A new worker, not yet reachable and not yet known to its farm.
    pub fn new(name: &str, protocol: String, categories: Vec<u64>) -> (w: Worker)
        ensures
            w.name@ == name@,
            w.identifier is None,
            w.job_id is None,
            w.protocol == protocol,
            w.categories == categories,
    {
        Worker {
            name: String::from_str(name),
            identifier: None,
            job_id: None,
            protocol,
            categories,
        }
    }

    /// The hash of the worker's name, its identifier.
    pub fn get_hash(&self) -> (h: u64)
        ensures
            h == name_hash(self.name@),
    {
        get_hash(self.name.as_str())
    }
}

/// A request to run a job.
#[derive(Clone, Debug)]
pub struct RunJob {
    pub job_name: String,
    pub command: String,
    pub specs: Vec<Spec>,
    pub protocol: Option<String>,
    pub job_type: String,
    pub lightweight: Option<bool>,
    pub lightweight_spec: Option<Spec>,
    pub cache_dir: Option<String>,
}

/// A request for the jobs in a status.
#[derive(Clone, Debug)]
pub struct GetJobsWithStatus {
    pub status: String,
}

/// A request for the queued jobs of a spec.
#[derive(Clone, Debug)]
pub struct GetQueuedJob {
    pub spec: Spec,
}

/// A request to kill a job.
#[derive(Clone, Debug)]
pub struct KillJob {
    pub job_name: String,
}

/// A request for the workers that run a job.
#[derive(Clone, Debug)]
pub struct GetWorkersOfJob {
    pub job_name: String,
}

/// The job a run request describes, with its command and cache directory:
/// protocol "default" and not lightweight unless the request says otherwise.
pub fn job_from_request(run_job: RunJob) -> (r: (Job, String, Option<String>))
    ensures
        is_new_job(
            r.0,
            run_job.job_name@,
            run_job.job_type@,
            match run_job.protocol {
                Some(p) => p@,
                None => "default"@,
            },
            run_job.specs@,
            match run_job.lightweight {
                Some(b) => b,
                None => false,
            },
            run_job.lightweight_spec,
        ),
        r.1 == run_job.command,
        r.2 == run_job.cache_dir,
{
    let protocol = match run_job.protocol {
        Some(p) => p,
        None => String::from_str("default"),
    };
    let lightweight = match run_job.lightweight {
        Some(b) => b,
        None => false,
    };
    let job = Job::new(
        run_job.job_name,
        run_job.job_type,
        protocol,
        run_job.specs,
        lightweight,
        run_job.lightweight_spec,
    );
    (job, run_job.command, run_job.cache_dir)
}

} // verus!
