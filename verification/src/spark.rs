//! Spark helpers: the jobs that start spark workers, the executor counts a
//! driver asks for, the totals of a driver's executors, and the timeouts of
//! a spark application.

use vstd::prelude::*;
use crate::job::{is_new_job, Job};
use crate::spec::Spec;
use crate::status::Status;
use crate::text::{i64_to_string, int_decimal};

verus! {

/// The command that starts a spark worker with the given resources.
pub open spec fn spark_worker_command(
    worker_script: Seq<char>,
    spark_master_url: Seq<char>,
    workarea: Seq<char>,
    cores: i64,
    memory: i64,
) -> Seq<char> {
    worker_script + " "@ + spark_master_url + " -c "@ + int_decimal(cores as int) + " -m "@
        + int_decimal(memory as int) + "G --work-dir "@ + workarea
}

/// A job that starts a spark worker with the given resources, in the given
/// status, and the command that starts it.
pub fn get_spark_worker_job(
    job_name: String,
    worker_script: &str,
    spark_master_url: &str,
    workarea: &str,
    cores: i64,
    memory: i64,
    protocol: &str,
    status: Status,
) -> (r: (Job, String))
    ensures
        r.0.job_name@ == job_name@,
        r.0.job_type@ == "spark_worker"@,
        r.0.status == status,
        r.0.protocol@ == protocol@,
        r.0.specs@ == seq![Spec { memory, cores }],
        !r.0.lightweight,
        r.0.lightweight_spec is None,
        r.0.identifier is None,
        r.1@ == spark_worker_command(worker_script@, spark_master_url@, workarea@, cores, memory),
{
    let mut command = String::from_str(worker_script);
    command.append(" ");
    command.append(spark_master_url);
    command.append(" -c ");
    command.append(i64_to_string(cores).as_str());
    command.append(" -m ");
    command.append(i64_to_string(memory).as_str());
    command.append("G --work-dir ");
    command.append(workarea);
    let mut specs = Vec::new();
    specs.push(Spec { memory, cores });
    let mut job = Job::new(
        job_name,
        String::from_str("spark_worker"),
        String::from_str(protocol),
        specs,
        false,
        None,
    );
    job.status = status;
    assert(specs@ =~= seq![Spec { memory, cores }]);
    (job, command)
}

} // verus!
