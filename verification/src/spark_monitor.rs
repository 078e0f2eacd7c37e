//! Watching a registered spark application: when it counts as active, when
//! it has run or idled too long and is killed, how long its driver waited
//! for executors, the totals of its executors, and the spark workers it asks
//! for. The application makes the requests to the spark driver and sleeps
//! between the rounds; the decisions are taken here.

use vstd::prelude::*;
use crate::job::{opt_chars, Job, RunJob};
use crate::spark::{get_spark_worker_job, spark_worker_command};
use crate::spec::Spec;
use crate::status::Status;
use crate::text::{contains_str, decimal, has_substring, i64_to_string, int_decimal, parse_u64, parse_u64_spec, push_decimal,
    replace_slashes, slashes_to_underscores, str_eq};

verus! {

/// How long, in seconds, an application may stay inactive by default.
pub const SPARK_APP_INACTIVE_TIMEOUT: u64 = 7200;

/// How long, in seconds, an application may run by default.
pub const SPARK_APP_TIMEOUT: u64 = 36000;

/// A timeout read from the environment: the value when it parses as a
/// number of seconds, the default otherwise.
pub open spec fn timeout_from(value: Option<Seq<char>>, default: u64) -> u64 {
    match value {
        Some(v) => match parse_u64_spec(v) {
            Some(t) => t,
            None => default,
        },
        None => default,
    }
}

/// The inactivity timeout, from the value of `SPARK_APP_INACTIVE_TIMEOUT`
/// when it is set.
pub fn get_spark_inactive_timeout(value: &Option<String>) -> (t: u64)
    ensures
        t == timeout_from(opt_chars(*value), SPARK_APP_INACTIVE_TIMEOUT),
{
    match value {
        Some(v) => match parse_u64(v.as_str()) {
            Some(t) => t,
            None => SPARK_APP_INACTIVE_TIMEOUT,
        },
        None => SPARK_APP_INACTIVE_TIMEOUT,
    }
}

/// The running timeout, from the value of `SPARK_APP_TIMEOUT` when it is
/// set.
pub fn get_spark_app_timeout(value: &Option<String>) -> (t: u64)
    ensures
        t == timeout_from(opt_chars(*value), SPARK_APP_TIMEOUT),
{
    match value {
        Some(v) => match parse_u64(v.as_str()) {
            Some(t) => t,
            None => SPARK_APP_TIMEOUT,
        },
        None => SPARK_APP_TIMEOUT,
    }
}

/// Whether an application that runs too long is failed, from the value of
/// `SPARK_APP_FAIL_ON_TIMEOUT`: yes unless it is "false".
pub fn fail_spark_app_on_timeout(value: &Option<String>) -> (r: bool)
    ensures
        r == match opt_chars(*value) {
            Some(v) => v != "false"@,
            None => true,
        },
{
    match value {
        Some(v) => !str_eq(v.as_str(), "false"),
        None => true,
    }
}

/// The executors a driver still asks for: its target count less the
/// executors it has, and never below zero.
pub fn get_reqd_executors(target_executors: i64, total_executors: i64) -> (r: i64)
    requires
        i64::MIN <= target_executors - total_executors <= i64::MAX,
    ensures
        r == (if target_executors - total_executors > 0 {
            target_executors - total_executors
        } else {
            0
        }),
{
    let n = target_executors - total_executors;
    if n > 0 {
        n
    } else {
        0
    }
}

/// An application is active while it runs jobs or asks for executors.
pub fn app_is_active(active_jobs: i64, target_executors: i64, total_executors: i64) -> (r: bool)
    requires
        i64::MIN <= target_executors - total_executors <= i64::MAX,
    ensures
        r == (active_jobs > 0 || target_executors - total_executors > 0),
{
    active_jobs > 0 || get_reqd_executors(target_executors, total_executors) > 0
}

/// The most spark workers asked for in one round.
pub fn workers_to_request(required_executors: i64) -> (r: i64)
    ensures
        r == (if required_executors < 10 {
            required_executors
        } else {
            10
        }),
{
    if required_executors < 10 {
        required_executors
    } else {
        10
    }
}

/// What the driver reports of one executor; a value it does not give as a
/// number counts as zero.
#[derive(Clone, Copy, Debug)]
pub struct ExecutorUsage {
    pub memory_used: Option<i64>,
    pub total_cores: Option<i64>,
    pub total_tasks: Option<i64>,
    pub total_shuffle_read: Option<i64>,
    pub total_shuffle_write: Option<i64>,
}

/// The totals over a driver's executors.
#[derive(Clone, Copy, Debug, PartialEq, Eq, Structural)]
pub struct DriverMetrics {
    pub total_cores_used: i64,
    pub total_memory_used: i64,
    pub total_tasks: i64,
    pub total_shuffle_read: i64,
    pub total_shuffle_write: i64,
    /// The executors, the driver's own entry not counted.
    pub total_executors: usize,
}

/// A reported value, zero when missing.
pub open spec fn or_zero(v: Option<i64>) -> int {
    match v {
        Some(x) => x as int,
        None => 0,
    }
}

/// The sum of a list of numbers.
pub open spec fn seq_sum(s: Seq<int>) -> int
    decreases s.len(),
{
    if s.len() == 0 {
        0
    } else {
        seq_sum(s.drop_last()) + s.last()
    }
}

/// Every running total of the list fits in an `i64`.
pub open spec fn sums_fit(s: Seq<int>) -> bool {
    forall|k: int| 0 <= k <= s.len() ==> i64::MIN <= #[trigger] seq_sum(s.take(k)) <= i64::MAX
}

/// The memory used by each executor.
pub open spec fn memory_column(e: Seq<ExecutorUsage>) -> Seq<int> {
    e.map_values(|x: ExecutorUsage| or_zero(x.memory_used))
}

/// The cores of each executor.
pub open spec fn cores_column(e: Seq<ExecutorUsage>) -> Seq<int> {
    e.map_values(|x: ExecutorUsage| or_zero(x.total_cores))
}

/// The tasks of each executor.
pub open spec fn tasks_column(e: Seq<ExecutorUsage>) -> Seq<int> {
    e.map_values(|x: ExecutorUsage| or_zero(x.total_tasks))
}

/// The shuffle reads of each executor.
pub open spec fn read_column(e: Seq<ExecutorUsage>) -> Seq<int> {
    e.map_values(|x: ExecutorUsage| or_zero(x.total_shuffle_read))
}

/// The shuffle writes of each executor.
pub open spec fn write_column(e: Seq<ExecutorUsage>) -> Seq<int> {
    e.map_values(|x: ExecutorUsage| or_zero(x.total_shuffle_write))
}

/// Adds one more value to a running total.
fn add_value(total: i64, v: Option<i64>, col: Ghost<Seq<int>>, i: usize) -> (r: i64)
    requires
        0 <= i < col@.len(),
        col@[i as int] == or_zero(v),
        total as int == seq_sum(col@.take(i as int)),
        sums_fit(col@),
    ensures
        r as int == seq_sum(col@.take(i + 1)),
{
    let x: i64 = match v {
        Some(x) => x,
        None => 0,
    };
    assert(col@.take(i + 1).drop_last() =~= col@.take(i as int));
    assert(i64::MIN <= seq_sum(col@.take(i + 1)) <= i64::MAX);
    total + x
}

/// The totals over a driver's executors (the driver itself is among them).
pub fn get_driver_metrics(executors: &Vec<ExecutorUsage>) -> (m: DriverMetrics)
    requires
        executors@.len() >= 1,
        sums_fit(memory_column(executors@)),
        sums_fit(cores_column(executors@)),
        sums_fit(tasks_column(executors@)),
        sums_fit(read_column(executors@)),
        sums_fit(write_column(executors@)),
    ensures
        m.total_memory_used == seq_sum(memory_column(executors@)),
        m.total_cores_used == seq_sum(cores_column(executors@)),
        m.total_tasks == seq_sum(tasks_column(executors@)),
        m.total_shuffle_read == seq_sum(read_column(executors@)),
        m.total_shuffle_write == seq_sum(write_column(executors@)),
        m.total_executors == executors@.len() - 1,
{
    let ghost e = executors@;
    let mut memory: i64 = 0;
    let mut cores: i64 = 0;
    let mut tasks: i64 = 0;
    let mut read: i64 = 0;
    let mut write: i64 = 0;
    let n = executors.len();
    let mut i: usize = 0;
    assert(memory_column(e).take(0) =~= Seq::<int>::empty());
    assert(cores_column(e).take(0) =~= Seq::<int>::empty());
    assert(tasks_column(e).take(0) =~= Seq::<int>::empty());
    assert(read_column(e).take(0) =~= Seq::<int>::empty());
    assert(write_column(e).take(0) =~= Seq::<int>::empty());
    while i < n
        invariant
            n == e.len(),
            e == executors@,
            i <= n,
            sums_fit(memory_column(e)),
            sums_fit(cores_column(e)),
            sums_fit(tasks_column(e)),
            sums_fit(read_column(e)),
            sums_fit(write_column(e)),
            memory as int == seq_sum(memory_column(e).take(i as int)),
            cores as int == seq_sum(cores_column(e).take(i as int)),
            tasks as int == seq_sum(tasks_column(e).take(i as int)),
            read as int == seq_sum(read_column(e).take(i as int)),
            write as int == seq_sum(write_column(e).take(i as int)),
        decreases n - i,
    {
        let x = executors[i];
        memory = add_value(memory, x.memory_used, Ghost(memory_column(e)), i);
        cores = add_value(cores, x.total_cores, Ghost(cores_column(e)), i);
        tasks = add_value(tasks, x.total_tasks, Ghost(tasks_column(e)), i);
        read = add_value(read, x.total_shuffle_read, Ghost(read_column(e)), i);
        write = add_value(write, x.total_shuffle_write, Ghost(write_column(e)), i);
        i = i + 1;
    }
    assert(memory_column(e).take(n as int) =~= memory_column(e));
    assert(cores_column(e).take(n as int) =~= cores_column(e));
    assert(tasks_column(e).take(n as int) =~= tasks_column(e));
    assert(read_column(e).take(n as int) =~= read_column(e));
    assert(write_column(e).take(n as int) =~= write_column(e));
    DriverMetrics {
        total_cores_used: cores,
        total_memory_used: memory,
        total_tasks: tasks,
        total_shuffle_read: read,
        total_shuffle_write: write,
        total_executors: n - 1,
    }
}

/// How long a driver waited for its executors: the seconds since the
/// monitoring started, once the driver has an executor besides itself.
pub fn get_driver_wait_time(executors: Option<usize>, now_nanos: u64) -> (r: Option<u64>)
    ensures
        r == (if executors matches Some(n) && n > 1 {
            Some((now_nanos / 1_000_000_000) as u64)
        } else {
            None
        }),
{
    match executors {
        Some(n) => if n > 1 {
            Some(now_nanos / 1_000_000_000)
        } else {
            None
        },
        None => None,
    }
}

/// The verdict on an application after its activity is checked.
#[derive(Debug)]
pub enum Verdict {
    /// Keep watching.
    Continue,
    /// Kill the application and fail its job with this message.
    Kill(String),
    /// Stop watching.
    Stop,
}

/// What to do about the driver's wait time in a round.
#[derive(Clone, Copy, Debug, PartialEq, Eq, Structural)]
pub enum WaitStep {
    /// Measure how long the driver has waited so far.
    MeasureWait,
    /// Write the driver's totals, with the wait time, to the cache directory.
    WriteMetrics(u64),
    /// Nothing.
    Nothing,
}

/// The state of the watch over one application.
#[derive(Clone, Copy, Debug)]
pub struct SparkAppMonitor {
    /// Whether the application may be killed for running or idling too long.
    pub monitor_app: bool,
    /// Whether an application that runs too long is failed.
    pub fail_on_timeout: bool,
    /// How long, in seconds, the application may run.
    pub app_timeout: u64,
    /// How long, in seconds, the application may stay inactive.
    pub inactive_timeout: u64,
    /// When (in nanoseconds since the watch started) the application was
    /// first seen inactive, while it stays inactive.
    pub first_inactive: Option<u64>,
    /// How long, in seconds, the driver waited for its executors, once known.
    pub wait_time: Option<u64>,
    /// How long, in seconds, to sleep between rounds.
    pub sleep_time: u64,
}

/// The message for an application that ran too long.
pub open spec fn running_too_long_message(t: u64) -> Seq<char> {
    "Spark App is running for more than "@ + decimal(t as nat) + "s."@
}

/// The message for an application that stayed inactive too long.
pub open spec fn inactive_too_long_message(t: u64) -> Seq<char> {
    "Spark App is inactive for more than "@ + decimal(t as nat) + "s."@
}

/// Whole seconds in a number of nanoseconds.
pub open spec fn whole_seconds(nanos: int) -> int {
    nanos / 1_000_000_000
}

/// Whole seconds from one instant to a later one (zero when it is not later).
pub open spec fn seconds_since(now: u64, then: u64) -> int {
    if now >= then {
        whole_seconds(now - then)
    } else {
        0
    }
}

fn seconds_message(prefix: &str, t: u64) -> (r: String)
    ensures
        r@ == prefix@ + decimal(t as nat) + "s."@,
{
    let mut r = String::from_str(prefix);
    push_decimal(&mut r, t);
    r.append("s.");
    r
}

impl SparkAppMonitor {
    /// A new watch: nothing seen inactive, no wait time, thirty seconds
    /// between rounds.
    pub fn new(monitor_app: bool, fail_on_timeout: bool, app_timeout: u64, inactive_timeout: u64) -> (m: SparkAppMonitor)
        ensures
            m == (SparkAppMonitor {
                monitor_app,
                fail_on_timeout,
                app_timeout,
                inactive_timeout,
                first_inactive: None,
                wait_time: None,
                sleep_time: 30,
            }),
    {
        SparkAppMonitor {
            monitor_app,
            fail_on_timeout,
            app_timeout,
            inactive_timeout,
            first_inactive: None,
            wait_time: None,
            sleep_time: 30,
        }
    }

    /// Takes the outcome of an activity check (`None` when the check failed)
    /// at `now_nanos` nanoseconds since the watch started. A failed check
    /// stops the watch. An active application is no longer seen inactive.
    /// An inactive one, when the watch may kill it, is killed when it has
    /// run longer than its running timeout (and that is to fail it), is
    /// first seen inactive now when it was not yet, and is killed when it has
    /// stayed inactive longer than its inactivity timeout.
    pub fn on_activity(&mut self, active: Option<bool>, now_nanos: u64) -> (r: Verdict)
        ensures
            match active {
                None => r is Stop && *final(self) == *old(self),
                Some(true) => r is Continue && *final(self) == (SparkAppMonitor { first_inactive: None, ..*old(self) }),
                Some(false) => {
                    let m = *old(self);
                    if m.monitor_app && m.fail_on_timeout && whole_seconds(now_nanos as int) > m.app_timeout {
                        r matches Verdict::Kill(msg) && msg@ == running_too_long_message(m.app_timeout)
                            && *final(self) == m
                    } else if m.monitor_app && m.first_inactive is None {
                        r is Continue && *final(self) == (SparkAppMonitor { first_inactive: Some(now_nanos), ..m })
                    } else if m.monitor_app && seconds_since(now_nanos, m.first_inactive.unwrap()) > m.inactive_timeout {
                        r matches Verdict::Kill(msg) && msg@ == inactive_too_long_message(m.inactive_timeout)
                            && *final(self) == m
                    } else {
                        r is Continue && *final(self) == m
                    }
                },
            },
    {
        match active {
            None => Verdict::Stop,
            Some(true) => {
                self.first_inactive = None;
                Verdict::Continue
            },
            Some(false) => {
                if self.monitor_app && self.fail_on_timeout && now_nanos / 1_000_000_000 > self.app_timeout {
                    Verdict::Kill(seconds_message("Spark App is running for more than ", self.app_timeout))
                } else if self.monitor_app && self.first_inactive.is_none() {
                    self.first_inactive = Some(now_nanos);
                    Verdict::Continue
                } else if self.monitor_app {
                    let first = match self.first_inactive {
                        Some(f) => f,
                        None => now_nanos,
                    };
                    let idle = if now_nanos >= first {
                        (now_nanos - first) / 1_000_000_000
                    } else {
                        0
                    };
                    if idle > self.inactive_timeout {
                        Verdict::Kill(seconds_message("Spark App is inactive for more than ", self.inactive_timeout))
                    } else {
                        Verdict::Continue
                    }
                } else {
                    Verdict::Continue
                }
            },
        }
    }

    /// The round's step for the driver's wait time: once it is known, the
    /// rounds are a minute apart and the totals are written when there is a
    /// cache directory; until then it is measured.
    pub fn wait_step(&mut self, has_cache_dir: bool) -> (r: WaitStep)
        ensures
            match old(self).wait_time {
                Some(w) => *final(self) == (SparkAppMonitor { sleep_time: 60, ..*old(self) })
                    && r == (if has_cache_dir {
                    WaitStep::WriteMetrics(w)
                } else {
                    WaitStep::Nothing
                }),
                None => *final(self) == *old(self) && r == WaitStep::MeasureWait,
            },
    {
        match self.wait_time {
            Some(w) => {
                self.sleep_time = 60;
                if has_cache_dir {
                    WaitStep::WriteMetrics(w)
                } else {
                    WaitStep::Nothing
                }
            },
            None => WaitStep::MeasureWait,
        }
    }

    /// Takes the measured wait time (see `get_driver_wait_time`).
    pub fn wait_measured(&mut self, executors: Option<usize>, now_nanos: u64)
        ensures
            *final(self) == (SparkAppMonitor {
                wait_time: if executors matches Some(n) && n > 1 {
                    Some((now_nanos / 1_000_000_000) as u64)
                } else {
                    None
                },
                ..*old(self)
            }),
    {
        self.wait_time = get_driver_wait_time(executors, now_nanos);
    }
}

/// The name of the `i`-th spark worker the controller asks for, at time `ts`,
/// for the driver of job `job_name`.
pub open spec fn controller_worker_name(job_name: Seq<char>, ts: i64, i: i64) -> Seq<char> {
    "spark_worker_local_"@ + job_name + "_"@ + int_decimal(ts as int) + "_"@ + int_decimal(i as int)
}

/// The name of the `i`-th spark worker an agent asks for, at time `ts`.
pub open spec fn agent_worker_name(logger_name: Seq<char>, i: i64, ts: i64) -> Seq<char> {
    "spark_worker_"@ + logger_name + "_"@ + int_decimal(i as int) + "_"@ + int_decimal(ts as int)
}

/// The protocol a driver's spark workers run under: its own, or "default".
pub open spec fn worker_protocol(protocol: Option<Seq<char>>) -> Seq<char> {
    match protocol {
        Some(p) => p,
        None => "default"@,
    }
}

/// The `i`-th spark worker job the controller asks for at time `ts`, for
/// the driver of job `job_name` whose executors have the given spec, and the
/// command that starts it.
pub fn controller_spark_worker(
    job_name: &str,
    ts: i64,
    i: i64,
    spec: Spec,
    protocol: &Option<String>,
    worker_script: &str,
    spark_master_url: &str,
    workarea: &str,
) -> (r: (Job, String))
    ensures
        r.0.job_name@ == controller_worker_name(job_name@, ts, i),
        r.0.job_type@ == "spark_worker"@,
        r.0.status == Status::New,
        r.0.protocol@ == worker_protocol(opt_chars(*protocol)),
        r.0.specs@ == seq![Spec { memory: spec.memory, cores: spec.cores }],
        !r.0.lightweight,
        r.0.lightweight_spec is None,
        r.0.identifier is None,
        r.1@ == spark_worker_command(worker_script@, spark_master_url@, workarea@, spec.cores, spec.memory),
{
    let mut name = String::from_str("spark_worker_local_");
    name.append(job_name);
    name.append("_");
    name.append(i64_to_string(ts).as_str());
    name.append("_");
    name.append(i64_to_string(i).as_str());
    let p = match protocol {
        Some(p) => p.clone(),
        None => String::from_str("default"),
    };
    get_spark_worker_job(name, worker_script, spark_master_url, workarea, spec.cores, spec.memory, p.as_str(),
        Status::New)
}

/// The request an agent sends to the controller for its `i`-th spark worker
/// at time `ts`, for a driver whose executors have the given spec.
pub fn agent_spark_worker_request(
    logger_name: &str,
    i: i64,
    ts: i64,
    spec: Spec,
    protocol: &Option<String>,
    worker_script: &str,
    spark_master_url: &str,
    workarea: &str,
) -> (r: RunJob)
    ensures
        r.job_name@ == agent_worker_name(logger_name@, i, ts),
        r.job_type@ == "spark_worker"@,
        r.command@ == spark_worker_command(worker_script@, spark_master_url@, workarea@, spec.cores, spec.memory),
        r.specs@ == seq![Spec { memory: spec.memory, cores: spec.cores }],
        opt_chars(r.protocol) == Some(worker_protocol(opt_chars(*protocol))),
        r.lightweight == Some(false),
        r.lightweight_spec is None,
        r.cache_dir is None,
{
    let mut name = String::from_str("spark_worker_");
    name.append(logger_name);
    name.append("_");
    name.append(i64_to_string(i).as_str());
    name.append("_");
    name.append(i64_to_string(ts).as_str());
    let p = match protocol {
        Some(p) => p.clone(),
        None => String::from_str("default"),
    };
    let (job, command) = get_spark_worker_job(name, worker_script, spark_master_url, workarea, spec.cores,
        spec.memory, p.as_str(), Status::New);
    RunJob {
        job_name: job.job_name,
        command,
        specs: job.specs,
        protocol: Some(job.protocol),
        job_type: job.job_type,
        lightweight: Some(false),
        lightweight_spec: None,
        cache_dir: None,
    }
}

/// `i` is the first argument that contains "app-id".
pub open spec fn is_first_app_id_flag(cmd: Seq<String>, i: int) -> bool {
    &&& 0 <= i < cmd.len()
    &&& has_substring(cmd[i]@, "app-id"@)
    &&& forall|j: int| 0 <= j < i ==> !has_substring(#[trigger] cmd[j]@, "app-id"@)
}

/// The application id in an executor's command line: the argument after
/// the first one that contains "app-id", if any contains it.
pub fn app_id_from_cmdline(cmd: &Vec<String>) -> (r: Option<String>)
    requires
        forall|i: int| is_first_app_id_flag(cmd@, i) ==> i + 1 < cmd@.len(),
    ensures
        match r {
            Some(a) => exists|i: int| is_first_app_id_flag(cmd@, i) && a@ == cmd@[i + 1]@,
            None => forall|j: int| 0 <= j < cmd@.len() ==> !has_substring(#[trigger] cmd@[j]@, "app-id"@),
        },
{
    let mut i: usize = 0;
    while i < cmd.len()
        invariant
            i <= cmd@.len(),
            forall|k: int| is_first_app_id_flag(cmd@, k) ==> k + 1 < cmd@.len(),
            forall|j: int| 0 <= j < i ==> !has_substring(#[trigger] cmd@[j]@, "app-id"@),
        decreases cmd@.len() - i,
    {
        if contains_str(cmd[i].as_str(), "app-id") {
            assert(is_first_app_id_flag(cmd@, i as int));
            return Some(cmd[i + 1].clone());
        }
        i = i + 1;
    }
    None
}

/// The file an executor's resource usage is written to.
pub fn executor_usage_path(area: &str, app_id: &str, worker_name: &str, pid: u32) -> (r: String)
    ensures
        r@ == area@ + "/"@ + app_id@ + "/"@ + worker_name@ + "_"@ + decimal(pid as nat) + ".csv"@,
{
    let mut r = String::from_str(area);
    r.append("/");
    r.append(app_id);
    r.append("/");
    r.append(worker_name);
    r.append("_");
    push_decimal(&mut r, pid as u64);
    r.append(".csv");
    r
}

/// The directory an application's executor usage is gathered in.
pub fn app_work_area(area: &str, app_id: &str) -> (r: String)
    ensures
        r@ == area@ + "/"@ + app_id@,
{
    let mut r = String::from_str(area);
    r.append("/");
    r.append(app_id);
    r
}

/// The file a driver's totals are written to, in its cache directory.
pub fn metrics_file_path(cache_dir: &str, task_inst: &str) -> (r: String)
    ensures
        r@ == cache_dir@ + "/.monitor/spark_"@ + slashes_to_underscores(task_inst@) + ".json"@,
{
    let mut r = String::from_str(cache_dir);
    r.append("/.monitor/spark_");
    r.append(replace_slashes(task_inst).as_str());
    r.append(".json");
    r
}

/// The error for a work area that could not be removed.
pub fn remove_failure_message(path: &str, reason: &Option<String>) -> (r: String)
    ensures
        r@ == match opt_chars(*reason) {
            Some(e) => "Failed to remove workarea "@ + path@ + ". Reason - "@ + e,
            None => "Failed to remove workarea "@ + path@,
        },
{
    let mut r = String::from_str("Failed to remove workarea ");
    r.append(path);
    match reason {
        Some(e) => {
            r.append(". Reason - ");
            r.append(e.as_str());
        },
        None => {},
    }
    r
}

} // verus!
