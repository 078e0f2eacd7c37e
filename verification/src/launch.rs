//! Running a job's command on this machine: the environment it runs with,
//! the directory it runs in, the checks made before it starts, and what its
//! exit reports. The application spawns the process and waits for it.

use vstd::prelude::*;
use crate::job::opt_chars;
use crate::status::Status;
use crate::text::{decimal, has_substring, contains_str, i64_to_string, int_decimal, push_decimal,
    slashes_to_underscores, replace_slashes};

verus! {

/// A path with a relative component appended, as `PathBuf::push` does with
/// a relative component: a separator goes between them unless the path is
/// empty or already ends with one.
pub open spec fn path_push(base: Seq<char>, component: Seq<char>) -> Seq<char> {
    if base.len() == 0 || base.last() == '/' {
        base + component
    } else {
        base + "/"@ + component
    }
}

/// Appends a relative component to a path (see `path_push`).
pub fn push_path(base: &str, component: &str) -> (r: String)
    ensures
        r@ == path_push(base@, component@),
{
    let n = base.unicode_len();
    let mut r = String::from_str(base);
    if n == 0 || base.get_char(n - 1) == '/' {
        r.append(component);
    } else {
        r.append("/");
        r.append(component);
    }
    r
}

/// The directory spark workers log to.
pub fn get_spark_log_dir(workarea: &str) -> (r: String)
    ensures
        r@ == path_push(path_push(workarea@, "logs"@), "worker_logs"@),
{
    let logs = push_path(workarea, "logs");
    push_path(logs.as_str(), "worker_logs")
}

/// The directory spark workers keep their pid files in.
pub fn get_spark_pid_dir(workarea: &str) -> (r: String)
    ensures
        r@ == path_push(workarea@, "worker_pids"@),
{
    push_path(workarea, "worker_pids")
}

/// The python interpreter of the installation whose dependencies are in
/// `deps_dir`.
pub fn get_python_binary(deps_dir: &str) -> (r: String)
    ensures
        r@ == deps_dir@ + "/python/bin/python"@,
{
    let mut r = String::from_str(deps_dir);
    r.append("/python/bin/python");
    r
}

/// The java installation among the dependencies in `deps_dir`.
pub fn get_java_home(deps_dir: &str) -> (r: String)
    ensures
        r@ == deps_dir@ + "/java"@,
{
    let mut r = String::from_str(deps_dir);
    r.append("/java");
    r
}

/// The script that starts a spark worker, among the dependencies in
/// `deps_dir`.
pub fn get_spark_worker_script(deps_dir: &str) -> (r: String)
    ensures
        r@ == deps_dir@ + "/python/lib/python3.11/site-packages/pyspark/sbin/start-slave-original.sh"@,
{
    let mut r = String::from_str(deps_dir);
    r.append("/python/lib/python3.11/site-packages/pyspark/sbin/start-slave-original.sh");
    r
}

/// Environment entries, applied in order (a later entry wins).
pub open spec fn entries_view(v: Seq<(String, String)>) -> Seq<(Seq<char>, Seq<char>)> {
    v.map_values(|e: (String, String)| (e.0@, e.1@))
}

fn push_entry(v: &mut Vec<(String, String)>, k: &str, val: String)
    ensures
        entries_view(final(v)@) == entries_view(old(v)@).push((k@, val@)),
{
    let ghost e = (k@, val@);
    v.push((String::from_str(k), val));
    assert(entries_view(v@) =~= entries_view(old(v)@).push(e));
}

/// The environment of a spark worker started by the controller.
pub open spec fn controller_spark_env(
    job_name: Seq<char>,
    port: u16,
    python: Seq<char>,
    workarea: Seq<char>,
) -> Seq<(Seq<char>, Seq<char>)> {
    seq![
        ("SPARK_LOG_DIR"@, path_push(path_push(workarea, "logs"@), "worker_logs"@)),
        ("SPARK_IDENT_STRING"@, job_name),
        ("SPARK_PID_DIR"@, path_push(workarea, "worker_pids"@)),
        ("SPARK_WORKER_WEBUI_PORT"@, decimal(port as nat)),
        ("PYSPARK_PYTHON"@, python),
        ("PYSPARK_DRIVER_PYTHON"@, python),
        ("SPARK_NO_DAEMONIZE"@, "true"@),
    ]
}

/// The environment of a spark worker started by the controller
/// (`set_spark_env`), given the python interpreter of the installation.
pub fn set_spark_env(job_name: &str, port: u16, python: &str, workarea: &str) -> (r: Vec<(String, String)>)
    ensures
        entries_view(r@) == controller_spark_env(job_name@, port, python@, workarea@),
{
    let mut r: Vec<(String, String)> = Vec::new();
    push_entry(&mut r, "SPARK_LOG_DIR", get_spark_log_dir(workarea));
    push_entry(&mut r, "SPARK_IDENT_STRING", String::from_str(job_name));
    push_entry(&mut r, "SPARK_PID_DIR", get_spark_pid_dir(workarea));
    let mut p = String::new();
    push_decimal(&mut p, port as u64);
    push_entry(&mut r, "SPARK_WORKER_WEBUI_PORT", p);
    push_entry(&mut r, "PYSPARK_PYTHON", String::from_str(python));
    push_entry(&mut r, "PYSPARK_DRIVER_PYTHON", String::from_str(python));
    push_entry(&mut r, "SPARK_NO_DAEMONIZE", String::from_str("true"));
    assert(entries_view(r@) =~= controller_spark_env(job_name@, port, python@, workarea@));
    r
}

/// The environment of a spark worker started by an agent.
pub open spec fn agent_spark_env(
    job_hash: u64,
    port: u16,
    python: Seq<char>,
    java_home: Seq<char>,
    workarea: Seq<char>,
) -> Seq<(Seq<char>, Seq<char>)> {
    seq![
        ("SPARK_LOG_DIR"@, path_push(path_push(workarea, "logs"@), "worker_logs"@)),
        ("SPARK_PID_DIR"@, path_push(workarea, "worker_pids"@)),
        ("SPARK_IDENT_STRING"@, decimal(job_hash as nat)),
        ("SPARK_WORKER_WEBUI_PORT"@, decimal(port as nat)),
        ("PYSPARK_PYTHON"@, python),
        ("PYSPARK_DRIVER_PYTHON"@, python),
        ("SPARK_NO_DAEMONIZE"@, "true"@),
        ("JAVA_HOME"@, java_home),
        ("JAVA_ROOT"@, java_home),
        ("JAVA_BINDIR"@, java_home + "/bin"@),
        ("JRE_HOME"@, java_home),
    ]
}

/// The environment of a spark worker started by an agent, given the python
/// interpreter and the java installation.
pub fn agent_set_spark_env(job_hash: u64, port: u16, python: &str, java_home: &str, workarea: &str) -> (r: Vec<(
    String,
    String,
)>)
    ensures
        entries_view(r@) == agent_spark_env(job_hash, port, python@, java_home@, workarea@),
{
    let mut r: Vec<(String, String)> = Vec::new();
    push_entry(&mut r, "SPARK_LOG_DIR", get_spark_log_dir(workarea));
    push_entry(&mut r, "SPARK_PID_DIR", get_spark_pid_dir(workarea));
    let mut h = String::new();
    push_decimal(&mut h, job_hash);
    push_entry(&mut r, "SPARK_IDENT_STRING", h);
    let mut p = String::new();
    push_decimal(&mut p, port as u64);
    push_entry(&mut r, "SPARK_WORKER_WEBUI_PORT", p);
    push_entry(&mut r, "PYSPARK_PYTHON", String::from_str(python));
    push_entry(&mut r, "PYSPARK_DRIVER_PYTHON", String::from_str(python));
    push_entry(&mut r, "SPARK_NO_DAEMONIZE", String::from_str("true"));
    push_entry(&mut r, "JAVA_HOME", String::from_str(java_home));
    push_entry(&mut r, "JAVA_ROOT", String::from_str(java_home));
    let mut bin = String::from_str(java_home);
    bin.append("/bin");
    push_entry(&mut r, "JAVA_BINDIR", bin);
    push_entry(&mut r, "JRE_HOME", String::from_str(java_home));
    assert(entries_view(r@) =~= agent_spark_env(job_hash, port, python@, java_home@, workarea@));
    r
}

/// The URL of a spark web interface on this host.
pub fn spark_web_url(ip: &str, port: u16) -> (r: String)
    ensures
        r@ == "http://"@ + ip@ + ":"@ + decimal(port as nat),
{
    let mut r = String::from_str("http://");
    r.append(ip);
    r.append(":");
    push_decimal(&mut r, port as u64);
    r
}

/// The spark properties file of a cache directory.
pub fn spark_props_path(dir: &str) -> (r: String)
    ensures
        r@ == dir@ + "/.conf/spark_props.conf"@,
{
    let mut r = String::from_str(dir);
    r.append("/.conf/spark_props.conf");
    r
}

/// The line that sets a spark driver's web port.
pub fn ui_port_line(port: u16) -> (r: String)
    ensures
        r@ == "spark.ui.port="@ + decimal(port as nat) + "\n"@,
{
    let mut r = String::from_str("spark.ui.port=");
    push_decimal(&mut r, port as u64);
    r.append("\n");
    r
}

/// The line that binds a spark driver to an address.
pub fn bind_address_line(ip: &str) -> (r: String)
    ensures
        r@ == "spark.driver.bindAddress="@ + ip@,
{
    let mut r = String::from_str("spark.driver.bindAddress=");
    r.append(ip);
    r
}

/// The directory a job runs in: its cache directory, else the work area.
pub fn run_directory(cache_dir: &Option<String>, workarea: &str) -> (r: String)
    ensures
        r@ == match opt_chars(*cache_dir) {
            Some(c) => c,
            None => workarea@,
        },
{
    match cache_dir {
        Some(c) => c.clone(),
        None => String::from_str(workarea),
    }
}

/// Whether a job's output is dropped rather than collected: for the flow
/// engine.
pub fn output_dropped(job_type: &str) -> (r: bool)
    ensures
        r == has_substring(job_type@, "flow-engine"@),
{
    contains_str(job_type, "flow-engine")
}

/// The directory a job's resource usage and output are kept in.
pub fn monitor_dir(cache_dir: &Option<String>) -> (r: String)
    ensures
        r@ == match opt_chars(*cache_dir) {
            Some(c) => c + "/.monitor"@,
            None => "/.monitor"@,
        },
{
    match cache_dir {
        Some(c) => {
            let mut r = c.clone();
            r.append("/.monitor");
            r
        },
        None => String::from_str("/.monitor"),
    }
}

/// The file a job's resource usage is written to.
pub fn usage_csv_path(monitor_dir: &str, csv_name: &str) -> (r: String)
    ensures
        r@ == monitor_dir@ + "/"@ + slashes_to_underscores(csv_name@) + ".csv"@,
{
    let mut r = String::from_str(monitor_dir);
    r.append("/");
    r.append(replace_slashes(csv_name).as_str());
    r.append(".csv");
    r
}

/// The first line of a resource usage file.
pub open spec fn usage_csv_header() -> Seq<char> {
    "time,pid,ip_address,memory_usage(bytes),disk_read(bytes),disk_write(bytes),max_allowed_memory(bytes)\n"@
}

/// The first line of a resource usage file.
pub fn create_usage_header() -> (r: String)
    ensures
        r@ == usage_csv_header(),
{
    String::from_str("time,pid,ip_address,memory_usage(bytes),disk_read(bytes),disk_write(bytes),max_allowed_memory(bytes)\n")
}

/// What a job's exit says: nothing when its process could not be waited
/// for or exited with code zero; an error naming the code, or the signal
/// ending, otherwise.
pub open spec fn exit_verdict_spec(pid: u32, exit: Option<Option<i32>>) -> Result<(), Seq<char>> {
    match exit {
        Some(Some(c)) => if c == 0 {
            Ok(())
        } else {
            Err("Job with pid: "@ + decimal(pid as nat) + " returned status code "@ + int_decimal(c as int))
        },
        Some(None) => Err("Job with pid: "@ + decimal(pid as nat) + " was terminated by signal"@),
        None => Ok(()),
    }
}

/// What a job's exit says (see `exit_verdict_spec`); `exit` is the exit
/// code when the process was waited for.
pub fn exit_verdict(pid: u32, exit: Option<Option<i32>>) -> (r: Result<(), String>)
    ensures
        match (r, exit_verdict_spec(pid, exit)) {
            (Ok(()), Ok(())) => true,
            (Err(m), Err(n)) => m@ == n,
            _ => false,
        },
{
    match exit {
        Some(Some(c)) => {
            if c == 0 {
                Ok(())
            } else {
                let mut m = String::from_str("Job with pid: ");
                push_decimal(&mut m, pid as u64);
                m.append(" returned status code ");
                m.append(i64_to_string(c as i64).as_str());
                Err(m)
            }
        },
        Some(None) => {
            let mut m = String::from_str("Job with pid: ");
            push_decimal(&mut m, pid as u64);
            m.append(" was terminated by signal");
            Err(m)
        },
        None => Ok(()),
    }
}

/// The status update for a finished local job: success, or failure with the
/// message (and then the flow engine hears of it).
pub fn completion_update(r: Result<(), String>) -> (u: (Status, bool, Option<String>))
    ensures
        match r {
            Ok(()) => u.0 == Status::Success && !u.1 && u.2 is None,
            Err(m) => u.0 == Status::Failed && u.1 && u.2 == Some(m),
        },
{
    match r {
        Ok(()) => (Status::Success, false, None),
        Err(m) => (Status::Failed, true, Some(m)),
    }
}

/// Whether the flow engine hears of a status an agent reports: for a
/// killed or failed job.
pub fn reports_to_flow_engine(status: Status) -> (r: bool)
    ensures
        r == (status == Status::Killed || status == Status::Failed),
{
    match status {
        Status::Killed | Status::Failed => true,
        _ => false,
    }
}

/// Whether a job needs its local disk checked before it starts: spark jobs.
pub fn needs_disk_check(job_type: &str) -> (r: bool)
    ensures
        r == has_substring(job_type@, "spark"@),
{
    contains_str(job_type, "spark")
}

/// The bytes in a number of GiB.
pub open spec fn gib(n: int) -> int {
    n * 1024 * 1024 * 1024
}

/// The message for a local disk with too little space.
pub open spec fn low_disk_message(disk: Seq<char>, host: Seq<char>, threshold: u64) -> Seq<char> {
    "Available space in disk "@ + disk + " in host "@ + host + " is less than "@ + decimal(threshold as nat)
        + "GB.\n            Please clean up the local disk space inside "@ + disk
        + " or set a new local disk using the 'update_farm -farm <FARM> -config local_disk -value <NEW LOCAL DISK>' command"@
}

/// The verdict on a local disk: its mount point could not be found (the
/// error given), it is not among the disks, or it has less free space than
/// the threshold.
pub open spec fn disk_verdict_spec(
    disk: Seq<char>,
    host: Seq<char>,
    threshold: u64,
    mount_error: Option<Seq<char>>,
    available: Option<u64>,
) -> Result<(), Seq<char>> {
    match mount_error {
        Some(e) => Err("Error finding mount point for disk "@ + disk + " on host "@ + host + ": "@ + e),
        None => match available {
            None => Err("Disk "@ + disk + " not found in "@ + host),
            Some(a) => if (a as int) < gib(threshold as int) {
                Err(low_disk_message(disk, host, threshold))
            } else {
                Ok(())
            },
        },
    }
}

/// The verdict on a local disk (see `disk_verdict_spec`): `mount_error` is
/// the mount point lookup's error, `available` the free space of the disk
/// mounted there, if one is.
pub fn disk_space_verdict(
    disk: &str,
    host: &str,
    threshold: u64,
    mount_error: Option<String>,
    available: Option<u64>,
) -> (r: Result<(), String>)
    requires
        gib(threshold as int) <= u64::MAX,
    ensures
        match (r, disk_verdict_spec(disk@, host@, threshold, opt_chars(mount_error), available)) {
            (Ok(()), Ok(())) => true,
            (Err(m), Err(n)) => m@ == n,
            _ => false,
        },
{
    match mount_error {
        Some(e) => {
            let mut m = String::from_str("Error finding mount point for disk ");
            m.append(disk);
            m.append(" on host ");
            m.append(host);
            m.append(": ");
            m.append(e.as_str());
            Err(m)
        },
        None => match available {
            None => {
                let mut m = String::from_str("Disk ");
                m.append(disk);
                m.append(" not found in ");
                m.append(host);
                Err(m)
            },
            Some(a) => {
                if a < threshold * 1024 * 1024 * 1024 {
                    let mut m = String::from_str("Available space in disk ");
                    m.append(disk);
                    m.append(" in host ");
                    m.append(host);
                    m.append(" is less than ");
                    push_decimal(&mut m, threshold);
                    m.append("GB.\n            Please clean up the local disk space inside ");
                    m.append(disk);
                    m.append(
                        " or set a new local disk using the 'update_farm -farm <FARM> -config local_disk -value <NEW LOCAL DISK>' command",
                    );
                    Err(m)
                } else {
                    Ok(())
                }
            },
        },
    }
}

/// The disk an agent checks for a job: the job's `SPARK_LOCAL_DISK`, else
/// `/tmp`; and the free space it needs in GiB: the job's `DISK_THRESHOLD`
/// when it parses as a number, else the default.
pub fn agent_disk_settings(local_disk: &Option<String>, threshold: &Option<String>) -> (r: (String, u64))
    ensures
        r.0@ == match opt_chars(*local_disk) {
            Some(d) => d,
            None => "/tmp"@,
        },
        r.1 == crate::spark_monitor::timeout_from(opt_chars(*threshold), crate::farm::LOCAL_DISK_THRESHOLD),
{
    let d = match local_disk {
        Some(d) => d.clone(),
        None => String::from_str("/tmp"),
    };
    let t = match threshold {
        Some(t) => match crate::text::parse_u64(t.as_str()) {
            Some(v) => v,
            None => crate::farm::LOCAL_DISK_THRESHOLD,
        },
        None => crate::farm::LOCAL_DISK_THRESHOLD,
    };
    (d, t)
}

/// The reasons a host does not qualify as a worker, each on a line of its
/// own: the master cannot be reached (the error given), the work area is
/// not a directory, the available memory is under the memory asked for
/// (the bytes taken as an `i64`), or the physical cores (none when unknown)
/// are fewer than the cores asked for.
pub open spec fn qualification_spec(
    cores: i64,
    memory: i64,
    host: Seq<char>,
    workarea: Seq<char>,
    master_error: Option<Seq<char>>,
    workarea_is_dir: bool,
    available_memory: u64,
    physical_cores: Option<usize>,
) -> Seq<char> {
    let m1 = match master_error {
        Some(e) => e,
        None => Seq::empty(),
    };
    let m2 = if !workarea_is_dir {
        m1 + "\nRestricted network access detected on host "@ + workarea + ". Unable to connect to master at "@
            + host + ". Please contact IT for assistance."@
    } else {
        m1
    };
    let m3 = if ((available_memory as i64) as int) < gib(memory as int) {
        m2 + "\nAvailable memory in "@ + host + " is less than "@ + int_decimal(memory as int) + "GB"@
    } else {
        m2
    };
    let pc: usize = match physical_cores {
        Some(c) => c,
        None => 0,
    };
    if ((pc as i64) as int) < cores {
        m3 + "\nAvailable cores in "@ + host + " is less than "@ + int_decimal(cores as int)
    } else {
        m3
    }
}

/// Whether a host qualifies as a worker (see `qualification_spec`): an
/// error with the reasons when there are any.
pub fn is_worker_qualified(
    cores: i64,
    memory: i64,
    host: &str,
    workarea: &str,
    master_error: Option<String>,
    workarea_is_dir: bool,
    available_memory: u64,
    physical_cores: Option<usize>,
) -> (r: Result<(), String>)
    requires
        i64::MIN <= gib(memory as int) <= i64::MAX,
    ensures
        ({
            let m = qualification_spec(cores, memory, host@, workarea@, opt_chars(master_error), workarea_is_dir,
                available_memory, physical_cores);
            match r {
                Ok(()) => m.len() == 0,
                Err(e) => m.len() > 0 && e@ == m,
            }
        }),
{
    let mut message = match master_error {
        Some(e) => e,
        None => String::new(),
    };
    if !workarea_is_dir {
        message.append("\nRestricted network access detected on host ");
        message.append(workarea);
        message.append(". Unable to connect to master at ");
        message.append(host);
        message.append(". Please contact IT for assistance.");
    }
    if (available_memory as i64) < memory * 1024 * 1024 * 1024 {
        message.append("\nAvailable memory in ");
        message.append(host);
        message.append(" is less than ");
        message.append(i64_to_string(memory).as_str());
        message.append("GB");
    }
    let pc: usize = match physical_cores {
        Some(c) => c,
        None => 0,
    };
    if (pc as i64) < cores {
        message.append("\nAvailable cores in ");
        message.append(host);
        message.append(" is less than ");
        message.append(i64_to_string(cores).as_str());
    }
    if message.unicode_len() > 0 {
        Err(message)
    } else {
        Ok(())
    }
}

/// The error for a master that cannot be reached from a host.
pub fn master_connection_error(host: &str, error: &str) -> (r: String)
    ensures
        r@ == "Error in sending request to master from host "@ + host@ + ": "@ + error@,
{
    let mut r = String::from_str("Error in sending request to master from host ");
    r.append(host);
    r.append(": ");
    r.append(error);
    r
}

} // verus!
