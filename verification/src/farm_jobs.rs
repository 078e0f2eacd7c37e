//! Farm jobs through a protocol's launch script: the commands that ask for
//! a farm job's status or terminate it, what is read back from the script's
//! output, and what a failed start of a worker reports.

use vstd::prelude::*;
use crate::status::{status_from_name, Status};
use crate::text::{i64_to_string, int_decimal};

verus! {

/// Whether `regex::Regex::new` accepts a pattern.
pub uninterp spec fn regex_compiles(pattern: Seq<char>) -> bool;

/// What `regex::Regex::captures` finds of a pattern's first capture group in
/// a text: `None` without a match, `Some(None)` when the group takes no part
/// in the match, `Some(Some(g))` with the group's text otherwise.
pub uninterp spec fn regex_first_group(pattern: Seq<char>, text: Seq<char>) -> Option<Option<Seq<char>>>;

/// The first capture group of a pattern's first match in a text.
#[derive(Debug)]
pub enum Capture {
    /// The pattern does not compile.
    BadPattern,
    /// The pattern does not match.
    NoMatch,
    /// The pattern matches, without its first group.
    NoGroup,
    /// The text of the first group.
    Group(String),
}

/// What a capture says of the match, for a pattern that compiles.
pub open spec fn capture_view(c: Capture) -> Option<Option<Seq<char>>> {
    match c {
        Capture::Group(s) => Some(Some(s@)),
        Capture::NoGroup => Some(None),
        _ => None,
    }
}

/// Runs `regex::Regex::new` on the pattern, then `captures` on the text,
/// and takes the first group (`get(1)`). The contract says which of the
/// outcomes came, through the two names above; it does not say what the
/// regex crate matches.
#[verifier::external_body]
fn first_capture_group(pattern: &str, text: &str) -> (r: Capture)
    ensures
        r is BadPattern <==> !regex_compiles(pattern@),
        !(r is BadPattern) ==> capture_view(r) == regex_first_group(pattern@, text@),
{
    match regex::Regex::new(pattern) {
        Ok(re) => match re.captures(text) {
            Some(caps) => match caps.get(1) {
                Some(m) => Capture::Group(m.as_str().to_string()),
                None => Capture::NoGroup,
            },
            None => Capture::NoMatch,
        },
        Err(_) => Capture::BadPattern,
    }
}

/// The pattern of the farm job id in a launch script's output: the last
/// line, before the final newline.
pub open spec fn job_id_pattern() -> Seq<char> {
    "\n(\\S+)\n$"@
}

/// The pattern of the farm job status in a launch script's output: the
/// letters that end the last line.
pub open spec fn job_status_pattern() -> Seq<char> {
    "([a-zA-Z]+)\n$"@
}

/// The job id a capture gives: the group's text, "-1" for a match without
/// the group, nothing without a match.
pub open spec fn job_id_of(c: Option<Option<Seq<char>>>) -> Option<Seq<char>> {
    match c {
        Some(Some(g)) => Some(g),
        Some(None) => Some("-1"@),
        None => None,
    }
}

/// The job id a capture gives (see `job_id_of`).
pub fn job_id_from_capture(c: Capture) -> (r: Option<String>)
    ensures
        match r {
            Some(s) => !(c is BadPattern) && job_id_of(capture_view(c)) == Some(s@),
            None => c is BadPattern || job_id_of(capture_view(c)) is None,
        },
{
    match c {
        Capture::Group(s) => Some(s),
        Capture::NoGroup => {
            let s = String::from_str("-1");
            Some(s)
        },
        _ => None,
    }
}

/// The farm job id in the output of the command that submitted a worker.
pub fn get_job_id(output: &str) -> (r: Option<String>)
    ensures
        regex_compiles(job_id_pattern()) ==> crate::job::opt_chars(r) == job_id_of(
            regex_first_group(job_id_pattern(), output@),
        ),
        !regex_compiles(job_id_pattern()) ==> r is None,
{
    let c = first_capture_group("\n(\\S+)\n$", output);
    let r = job_id_from_capture(c);
    r
}

/// The status a capture gives: the status named by the group (failed for a
/// match without the group), failed without a match.
pub open spec fn job_status_of(c: Option<Option<Seq<char>>>) -> Status {
    match c {
        Some(Some(g)) => status_from_name(g),
        _ => Status::Failed,
    }
}

/// The status a capture gives (see `job_status_of`).
pub fn job_status_from_capture(c: Capture) -> (r: Status)
    ensures
        r == (if c is BadPattern {
            Status::Failed
        } else {
            job_status_of(capture_view(c))
        }),
{
    match c {
        Capture::Group(s) => Status::from_str(s.as_str()),
        _ => Status::Failed,
    }
}

/// The status of a farm job in the output of the launch script's status
/// command.
pub fn job_status_from_output(output: &str) -> (r: Status)
    ensures
        regex_compiles(job_status_pattern()) ==> r == job_status_of(
            regex_first_group(job_status_pattern(), output@),
        ),
        !regex_compiles(job_status_pattern()) ==> r == Status::Failed,
{
    let c = first_capture_group("([a-zA-Z]+)\n$", output);
    job_status_from_capture(c)
}

/// The command that asks the launch script for a farm job's status.
pub fn job_status_command(launcher: &str, job_id: &str) -> (r: String)
    ensures
        r@ == launcher@ + " status --job_id "@ + job_id@,
{
    let mut r = String::from_str(launcher);
    r.append(" status --job_id ");
    r.append(job_id);
    r
}

/// The command that asks the launch script to terminate a farm job.
pub fn terminate_command(launcher: &str, job_id: &str) -> (r: String)
    ensures
        r@ == launcher@ + " terminate --job_id "@ + job_id@,
{
    let mut r = String::from_str(launcher);
    r.append(" terminate --job_id ");
    r.append(job_id);
    r
}

/// The file in which a worker that does not qualify leaves its reasons.
pub fn get_worker_error_file_path(workarea: &str, worker_name: &str) -> (r: String)
    ensures
        r@ == workarea@ + "/."@ + worker_name@,
{
    let mut r = String::from_str(workarea);
    r.append("/.");
    r.append(worker_name);
    r
}

/// What a failed start of a worker reports: the message its worker is
/// killed with, and the message the jobs of its category fail with.
#[derive(Debug)]
pub struct SpawnFailure {
    pub kill_message: String,
    pub fail_message: String,
}

/// The message a worker is killed with when its start command exits with
/// the given code (`None`: ended by a signal).
pub open spec fn exit_kill_message(command: Seq<char>, code: Option<i32>) -> Seq<char> {
    match code {
        Some(c) => "Got non zero exit status "@ + int_decimal(c as int) + " while executing "@ + command,
        None => "Failed to execute "@ + command,
    }
}

/// What the start of a worker reports from its command's exit: nothing for
/// exit code zero; otherwise the worker is killed with a message naming
/// the code (or the failure) and the command, and the jobs fail with the
/// command's output, its errors and that message, one per line.
pub fn spawn_exit_failure(command: &str, stdout: &str, stderr: &str, code: Option<i32>) -> (r: Option<SpawnFailure>)
    ensures
        match r {
            None => code == Some(0i32),
            Some(f) => code != Some(0i32) && f.kill_message@ == exit_kill_message(command@, code)
                && f.fail_message@ == stdout@ + "\n"@ + stderr@ + "\n"@ + exit_kill_message(command@, code),
        },
{
    let kill = match code {
        Some(c) => {
            if c == 0 {
                return None;
            }
            let mut k = String::from_str("Got non zero exit status ");
            k.append(i64_to_string(c as i64).as_str());
            k.append(" while executing ");
            k.append(command);
            k
        },
        None => {
            let mut k = String::from_str("Failed to execute ");
            k.append(command);
            k
        },
    };
    let mut fail = String::from_str(stdout);
    fail.append("\n");
    fail.append(stderr);
    fail.append("\n");
    fail.append(kill.as_str());
    Some(SpawnFailure { kill_message: kill, fail_message: fail })
}

/// What the start of a worker reports when its command cannot be run.
pub fn spawn_error_failure(command: &str, error: &str) -> (r: SpawnFailure)
    ensures
        r.kill_message@ == "Failed to execute "@ + command@ + ". Reason - "@ + error@,
        r.fail_message@ == "Failed to execute command. Reason - "@ + error@,
{
    let mut kill = String::from_str("Failed to execute ");
    kill.append(command);
    kill.append(". Reason - ");
    kill.append(error);
    let mut fail = String::from_str("Failed to execute command. Reason - ");
    fail.append(error);
    SpawnFailure { kill_message: kill, fail_message: fail }
}

/// How a worker is killed.
#[derive(Clone, Copy, Debug, PartialEq, Eq, Structural)]
pub enum KillMethod {
    /// Terminate its farm job through the launch script.
    FarmJob,
    /// Ask the worker to kill one job, terminating the farm job if that fails.
    KillJob(u64),
    /// Ask the worker to terminate, terminating the farm job if that fails.
    Terminate,
}

/// How a worker is killed: through its farm job when forced or when it
/// cannot be reached, else by asking it (to kill the given job, or to
/// terminate).
pub fn kill_method(reachable: bool, job_hash: Option<u64>, force: bool) -> (r: KillMethod)
    ensures
        r == (if force || !reachable {
            KillMethod::FarmJob
        } else {
            match job_hash {
                Some(h) => KillMethod::KillJob(h),
                None => KillMethod::Terminate,
            }
        }),
{
    if force || !reachable {
        KillMethod::FarmJob
    } else {
        match job_hash {
            Some(h) => KillMethod::KillJob(h),
            None => KillMethod::Terminate,
        }
    }
}

/// Whether a farm job in this status is terminated once its worker stops
/// answering: while queued, running or unknown.
pub fn terminate_unresponsive(status: Status) -> (r: bool)
    ensures
        r == (status == Status::Queued || status == Status::Running || status == Status::Unknown),
{
    match status {
        Status::Queued | Status::Running | Status::Unknown => true,
        _ => false,
    }
}

/// The watch over a worker's heartbeat: it ends after two failed checks in a
/// row; a successful check starts the count again.
#[derive(Clone, Copy, Debug, PartialEq, Eq, Structural)]
pub struct HeartbeatWatch {
    pub retry: u8,
}

impl HeartbeatWatch {
    /// A watch with no failed check.
    pub fn new() -> (w: HeartbeatWatch)
        ensures
            w.retry == 0,
    {
        HeartbeatWatch { retry: 0 }
    }

    /// Whether the watch goes on.
    pub fn watching(&self) -> (r: bool)
        ensures
            r == (self.retry < 2),
    {
        self.retry < 2
    }

    /// Takes the outcome of one check.
    pub fn checked(&mut self, ok: bool)
        requires
            old(self).retry < 2,
        ensures
            final(self).retry == (if ok {
                0
            } else {
                old(self).retry + 1
            }),
    {
        if ok {
            self.retry = 0;
        } else {
            self.retry = self.retry + 1;
        }
    }
}

} // verus!
