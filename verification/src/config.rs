//! The controller's settings and the spark jobs submitted to it: what an
//! update of the settings keeps, when it is refused, and how a spark job
//! becomes the job of its driver.

use vstd::prelude::*;
use crate::farm::ProtocolMap;
use crate::job::{is_new_job, opt_chars, Job};
use crate::spec::Spec;
use crate::text::{i64_to_string, int_decimal, str_eq};

verus! {

/// The controller's settings; a missing value is not set.
#[derive(Debug)]
pub struct Config {
    pub parent_pids: Option<Vec<u32>>,
    pub flow_engine_url: Option<String>,
    pub default_protocol: Option<String>,
}

/// The message for a default protocol that is not among the protocols.
pub open spec fn missing_default_message(p: Seq<char>) -> Seq<char> {
    "Default protocol "@ + p + " not found in the farm protocols."@
}

impl Config {
    /// Settings with nothing set.
    pub fn new() -> (c: Config)
        ensures
            c.parent_pids is None,
            c.flow_engine_url is None,
            c.default_protocol is None,
    {
        Config { parent_pids: None, flow_engine_url: None, default_protocol: None }
    }

    /// An update is refused when the default protocol it sets is not among
    /// the protocols.
    pub fn validate(&self, protocols: &ProtocolMap) -> (r: Result<(), String>)
        ensures
            match opt_chars(self.default_protocol) {
                Some(p) => if protocols.lookup(p) is Some {
                    r is Ok
                } else {
                    r matches Err(m) && m@ == missing_default_message(p)
                },
                None => r is Ok,
            },
    {
        match &self.default_protocol {
            Some(p) => match protocols.get(p.as_str()) {
                Some(_) => Ok(()),
                None => {
                    let mut m = String::from_str("Default protocol ");
                    m.append(p.as_str());
                    m.append(" not found in the farm protocols.");
                    Err(m)
                },
            },
            None => Ok(()),
        }
    }

    /// Applies an update to the current settings: each value the update sets
    /// replaces the current one; the others stay.
    pub fn update_config(self, config: &mut Config)
        ensures
            final(config).default_protocol == (if self.default_protocol is Some {
                self.default_protocol
            } else {
                old(config).default_protocol
            }),
            final(config).parent_pids == (if self.parent_pids is Some {
                self.parent_pids
            } else {
                old(config).parent_pids
            }),
            final(config).flow_engine_url == (if self.flow_engine_url is Some {
                self.flow_engine_url
            } else {
                old(config).flow_engine_url
            }),
    {
        let Config { parent_pids, flow_engine_url, default_protocol } = self;
        if default_protocol.is_some() {
            config.default_protocol = default_protocol;
        }
        if parent_pids.is_some() {
            config.parent_pids = parent_pids;
        }
        if flow_engine_url.is_some() {
            config.flow_engine_url = flow_engine_url;
        }
    }

    /// The settings the controller starts with: its parent processes and
    /// its default protocol.
    pub fn setup_config(&mut self, parent_pids: Vec<u32>, default_protocol: String)
        ensures
            final(self).parent_pids == Some(parent_pids),
            final(self).default_protocol == Some(default_protocol),
            final(self).flow_engine_url == old(self).flow_engine_url,
    {
        self.parent_pids = Some(parent_pids);
        self.default_protocol = Some(default_protocol);
    }
}

/// A spark application submitted to the controller: its driver runs the
/// application command with spark-submit.
#[derive(Debug)]
pub struct SparkJob {
    pub name: String,
    pub workarea: String,
    pub app_cmd: String,
    pub spec: Spec,
    pub executor_spec: Spec,
    pub protocol: String,
}

/// A spec's refusal message behind a prefix.
fn prefixed(prefix: &str, r: Result<(), String>) -> (out: Result<(), String>)
    ensures
        match r {
            Ok(()) => out is Ok,
            Err(m) => out matches Err(n) && n@ == prefix@ + m@,
        },
{
    match r {
        Ok(()) => Ok(()),
        Err(m) => {
            let mut n = String::from_str(prefix);
            n.append(m.as_str());
            Err(n)
        },
    }
}

/// The spark properties set for a job whose executors have the given spec.
pub open spec fn conf_updates_spec(executor_spec: Spec) -> Seq<(Seq<char>, Seq<char>)> {
    seq![
        ("spark.dynamicAllocation.shuffleTracking.enabled"@, "true"@),
        ("spark.dynamicAllocation.enabled"@, "true"@),
        ("spark.executor.memory"@, int_decimal(executor_spec.memory as int) + "g"@),
        ("spark.executor.cores"@, int_decimal(executor_spec.cores as int)),
    ]
}

/// The command that submits a spark application.
pub open spec fn spark_submit_command(
    spark_master_url: Seq<char>,
    conf_path: Seq<char>,
    name: Seq<char>,
    spec: Spec,
    app_cmd: Seq<char>,
) -> Seq<char> {
    "spark-submit --master "@ + spark_master_url + " "@ + "--deploy-mode client "@ + "--properties-file "@
        + conf_path + " "@ + "--name "@ + name + " "@ + "--driver-memory "@ + int_decimal(spec.memory as int)
        + "g "@ + "--driver-cores "@ + int_decimal(spec.cores as int) + " "@ + app_cmd
}

impl SparkJob {
    /// The checks made before the work area is made: a name and an
    /// application command are needed.
    pub fn check_fields(&self) -> (r: Result<(), String>)
        ensures
            self.name@.len() == 0 ==> (r matches Err(m) && m@ == "Job name cannot be empty"@),
            self.name@.len() > 0 && self.app_cmd@.len() == 0 ==> (r matches Err(m) && m@
                == "App command cannot be empty"@),
            self.name@.len() > 0 && self.app_cmd@.len() > 0 ==> r is Ok,
    {
        if self.name.unicode_len() == 0 {
            return Err(String::from_str("Job name cannot be empty"));
        }
        if self.app_cmd.unicode_len() == 0 {
            return Err(String::from_str("App command cannot be empty"));
        }
        Ok(())
    }

    /// The checks made after the work area is made: both specs must have
    /// positive cores and memory (see `Spec::validate`).
    pub fn check_specs(&self) -> (r: Result<(), String>)
        ensures
            r is Ok <==> (self.spec.cores > 0 && self.spec.memory > 0 && self.executor_spec.cores > 0
                && self.executor_spec.memory > 0),
            self.spec.cores <= 0 ==> (r matches Err(m) && m@ == "Spec validation failed: "@
                + "Cores cannot be less than or equal to 0"@),
            self.spec.cores > 0 && self.spec.memory <= 0 ==> (r matches Err(m) && m@ == "Spec validation failed: "@
                + "Memory cannot be less than or equal to 0"@),
            self.spec.cores > 0 && self.spec.memory > 0 && self.executor_spec.cores <= 0 ==> (r matches Err(m)
                && m@ == "Executor spec validation failed: "@ + "Cores cannot be less than or equal to 0"@),
            self.spec.cores > 0 && self.spec.memory > 0 && self.executor_spec.cores > 0
                && self.executor_spec.memory <= 0 ==> (r matches Err(m) && m@
                == "Executor spec validation failed: "@ + "Memory cannot be less than or equal to 0"@),
    {
        let r = prefixed("Spec validation failed: ", self.spec.validate());
        if r.is_err() {
            return r;
        }
        prefixed("Executor spec validation failed: ", self.executor_spec.validate())
    }

    /// The spark properties the job sets (see `conf_updates_spec`), in order.
    pub fn conf_updates(&self) -> (r: Vec<(String, String)>)
        ensures
            r@.map_values(|e: (String, String)| (e.0@, e.1@)) == conf_updates_spec(self.executor_spec),
    {
        let mut r: Vec<(String, String)> = Vec::new();
        r.push((String::from_str("spark.dynamicAllocation.shuffleTracking.enabled"), String::from_str("true")));
        r.push((String::from_str("spark.dynamicAllocation.enabled"), String::from_str("true")));
        let mut m = i64_to_string(self.executor_spec.memory);
        m.append("g");
        r.push((String::from_str("spark.executor.memory"), m));
        r.push((String::from_str("spark.executor.cores"), i64_to_string(self.executor_spec.cores)));
        assert(r@.map_values(|e: (String, String)| (e.0@, e.1@)) =~= conf_updates_spec(self.executor_spec));
        r
    }

    /// The spark properties file of the job.
    pub fn conf_path(&self) -> (r: String)
        ensures
            r@ == self.workarea@ + "/.conf/spark_props.conf"@,
    {
        let mut r = self.workarea.clone();
        r.append("/.conf/spark_props.conf");
        r
    }

    /// The file a refused job's reason is appended to.
    pub fn error_log_path(&self) -> (r: String)
        ensures
            r@ == self.workarea@ + "/cluster_manager.log"@,
    {
        let mut r = self.workarea.clone();
        r.append("/cluster_manager.log");
        r
    }

    /// The command the job's driver runs (see `spark_submit_command`).
    pub fn get_cmd(&self, spark_master_url: &str, conf_path: &str) -> (r: String)
        ensures
            r@ == spark_submit_command(spark_master_url@, conf_path@, self.name@, self.spec, self.app_cmd@),
    {
        let mut cmd = String::from_str("spark-submit --master ");
        cmd.append(spark_master_url);
        cmd.append(" ");
        cmd.append("--deploy-mode client ");
        cmd.append("--properties-file ");
        cmd.append(conf_path);
        cmd.append(" ");
        cmd.append("--name ");
        cmd.append(self.name.as_str());
        cmd.append(" ");
        cmd.append("--driver-memory ");
        cmd.append(i64_to_string(self.spec.memory).as_str());
        cmd.append("g ");
        cmd.append("--driver-cores ");
        cmd.append(i64_to_string(self.spec.cores).as_str());
        cmd.append(" ");
        cmd.append(self.app_cmd.as_str());
        cmd
    }

    /// The job of the application's driver, run in the job's work area: a
    /// lightweight spark driver of the job's protocol, with the driver's
    /// spec and one executor spec.
    pub fn driver_job(self) -> (r: (Job, String))
        ensures
            is_new_job(r.0, self.name@, "ccm-spark-driver"@, self.protocol@, seq![self.executor_spec], true,
                Some(self.spec)),
            r.1@ == self.workarea@,
    {
        let mut specs = Vec::new();
        specs.push(self.executor_spec);
        let job = Job::new(self.name, String::from_str("ccm-spark-driver"), self.protocol, specs, true, Some(self.spec));
        assert(job.specs@ =~= seq![self.executor_spec]);
        (job, self.workarea)
    }
}

/// A line of a spark properties file; a value that is not a string is left
/// empty.
pub fn conf_line(key: &str, value: Option<&str>) -> (r: String)
    ensures
        r@ == key@ + "="@ + match value {
            Some(v) => v@,
            None => Seq::empty(),
        } + "\n"@,
{
    let mut r = String::from_str(key);
    r.append("=");
    match value {
        Some(v) => r.append(v),
        None => {},
    }
    r.append("\n");
    r
}

/// Whether a request to run a spark worker is turned away: while spark
/// workers may not be added.
pub fn spark_worker_rejected(job_type: &str, add_spark_worker: bool) -> (r: bool)
    ensures
        r == (job_type@ == "spark_worker"@ && !add_spark_worker),
{
    str_eq(job_type, "spark_worker") && !add_spark_worker
}

/// The protocol whose running workers are counted: none for "all" (every
/// worker) or when none is given.
pub fn farm_filter(farm: Option<&str>) -> (r: Option<String>)
    ensures
        match farm {
            Some(f) => if f@ == "all"@ {
                r is None
            } else {
                opt_chars(r) == Some(f@)
            },
            None => r is None,
        },
{
    match farm {
        Some(f) => if str_eq(f, "all") {
            None
        } else {
            Some(String::from_str(f))
        },
        None => None,
    }
}

} // verus!
