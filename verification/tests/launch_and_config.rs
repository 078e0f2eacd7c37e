use orchestrator::agent::{job_name_or_spark, IdleStep, IdleWatch, RunningJobs};
use orchestrator::config::{conf_line, farm_filter, spark_worker_rejected, Config, SparkJob};
use orchestrator::farm::{Protocol, ProtocolMap};
use orchestrator::launch::{
    agent_disk_settings, agent_set_spark_env, completion_update, disk_space_verdict, exit_verdict,
    get_java_home, get_python_binary, get_spark_log_dir, get_spark_pid_dir, get_spark_worker_script,
    is_worker_qualified, master_connection_error, monitor_dir, needs_disk_check, output_dropped,
    push_path, reports_to_flow_engine, run_directory, set_spark_env, spark_web_url, ui_port_line,
    usage_csv_path,
};
use orchestrator::spec::Spec;
use orchestrator::status::Status;

#[test]
fn paths_like_pathbuf_push() {
    for (base, comp) in [("/w", "logs"), ("/w/", "logs"), ("", "logs"), ("rel", "x")] {
        let mut p = std::path::PathBuf::from(base);
        p.push(comp);
        assert_eq!(push_path(base, comp), p.to_str().unwrap());
    }
    assert_eq!(get_spark_log_dir("/w"), "/w/logs/worker_logs");
    assert_eq!(get_spark_pid_dir("/w/"), "/w/worker_pids");
}

#[test]
fn installation_layout() {
    assert_eq!(get_python_binary("/opt/deps"), "/opt/deps/python/bin/python");
    assert_eq!(get_java_home("/opt/deps"), "/opt/deps/java");
    assert_eq!(
        get_spark_worker_script("/opt/deps"),
        "/opt/deps/python/lib/python3.11/site-packages/pyspark/sbin/start-slave-original.sh"
    );
}

#[test]
fn spark_environments() {
    let env = set_spark_env("sw_1", 8081, "/py", "/w");
    assert_eq!(env.len(), 7);
    assert!(env.contains(&("SPARK_WORKER_WEBUI_PORT".to_string(), "8081".to_string())));
    assert!(env.contains(&("SPARK_IDENT_STRING".to_string(), "sw_1".to_string())));
    assert!(env.contains(&("SPARK_LOG_DIR".to_string(), "/w/logs/worker_logs".to_string())));
    let env = agent_set_spark_env(99, 8081, "/py", "/java", "/w");
    assert_eq!(env.len(), 11);
    assert!(env.contains(&("SPARK_IDENT_STRING".to_string(), "99".to_string())));
    assert!(env.contains(&("JAVA_BINDIR".to_string(), "/java/bin".to_string())));
    assert_eq!(spark_web_url("10.0.0.2", 4040), "http://10.0.0.2:4040");
    assert_eq!(ui_port_line(4041), "spark.ui.port=4041\n");
}

#[test]
fn run_directories_and_monitoring() {
    assert_eq!(run_directory(&Some("/c".to_string()), "/w"), "/c");
    assert_eq!(run_directory(&None, "/w"), "/w");
    assert!(output_dropped("my-flow-engine"));
    assert!(!output_dropped("sh"));
    assert_eq!(monitor_dir(&Some("/c".to_string())), "/c/.monitor");
    assert_eq!(monitor_dir(&None), "/.monitor");
    assert_eq!(usage_csv_path("/c/.monitor", "a/b"), "/c/.monitor/a_b.csv");
}

#[test]
fn exits_and_completion() {
    assert_eq!(exit_verdict(12, Some(Some(0))), Ok(()));
    assert_eq!(exit_verdict(12, None), Ok(()));
    assert_eq!(exit_verdict(12, Some(Some(2))), Err("Job with pid: 12 returned status code 2".to_string()));
    assert_eq!(exit_verdict(12, Some(None)), Err("Job with pid: 12 was terminated by signal".to_string()));
    assert_eq!(completion_update(Ok(())), (Status::Success, false, None));
    assert_eq!(
        completion_update(Err("bad".to_string())),
        (Status::Failed, true, Some("bad".to_string()))
    );
    assert!(reports_to_flow_engine(Status::Killed));
    assert!(!reports_to_flow_engine(Status::DisQualified));
}

#[test]
fn disk_space_verdicts() {
    assert!(needs_disk_check("ccm-spark-driver"));
    assert!(!needs_disk_check("sh"));
    assert_eq!(
        disk_space_verdict("/d", "1.2.3.4", 50, Some("NotFound".to_string()), None),
        Err("Error finding mount point for disk /d on host 1.2.3.4: NotFound".to_string())
    );
    assert_eq!(disk_space_verdict("/d", "h", 50, None, None), Err("Disk /d not found in h".to_string()));
    assert_eq!(disk_space_verdict("/d", "h", 1, None, Some(1 << 30)), Ok(()));
    let e = disk_space_verdict("/d", "h", 1, None, Some((1 << 30) - 1)).unwrap_err();
    assert!(e.starts_with("Available space in disk /d in host h is less than 1GB.\n            Please clean up"));
    assert_eq!(
        agent_disk_settings(&None, &Some("x".to_string())),
        ("/tmp".to_string(), 50)
    );
    assert_eq!(
        agent_disk_settings(&Some("/d".to_string()), &Some("7".to_string())),
        ("/d".to_string(), 7)
    );
}

#[test]
fn worker_qualification() {
    let gib = 1u64 << 30;
    assert_eq!(is_worker_qualified(2, 4, "h", "/w", None, true, 4 * gib, Some(2)), Ok(()));
    let e = is_worker_qualified(4, 8, "h", "/w", Some("down".to_string()), false, 4 * gib, None).unwrap_err();
    assert_eq!(
        e,
        "down\nRestricted network access detected on host /w. Unable to connect to master at h. Please contact IT for assistance.\nAvailable memory in h is less than 8GB\nAvailable cores in h is less than 4"
    );
    assert_eq!(
        master_connection_error("h", "refused"),
        "Error in sending request to master from host h: refused"
    );
}

#[test]
fn config_updates_and_validation() {
    let mut protocols = ProtocolMap::new();
    protocols.insert(Protocol::new("local", ""));
    let mut current = Config::new();
    current.setup_config(vec![1, 2], "local".to_string());
    let update = Config {
        parent_pids: None,
        flow_engine_url: Some("http://flow".to_string()),
        default_protocol: Some("farmx".to_string()),
    };
    assert_eq!(
        update.validate(&protocols),
        Err("Default protocol farmx not found in the farm protocols.".to_string())
    );
    let update = Config { parent_pids: None, flow_engine_url: Some("http://flow".to_string()), default_protocol: None };
    assert_eq!(update.validate(&protocols), Ok(()));
    update.update_config(&mut current);
    assert_eq!(current.parent_pids, Some(vec![1, 2]));
    assert_eq!(current.default_protocol, Some("local".to_string()));
    assert_eq!(current.flow_engine_url, Some("http://flow".to_string()));
}

fn spark_job() -> SparkJob {
    SparkJob {
        name: "app".to_string(),
        workarea: "/w".to_string(),
        app_cmd: "main.py".to_string(),
        spec: Spec { memory: 4, cores: 2 },
        executor_spec: Spec { memory: 8, cores: 3 },
        protocol: "farm1".to_string(),
    }
}

#[test]
fn spark_jobs() {
    let j = spark_job();
    assert_eq!(j.check_fields(), Ok(()));
    assert_eq!(j.check_specs(), Ok(()));
    assert_eq!(
        j.get_cmd("spark://m", "/w/.conf/spark_props.conf"),
        "spark-submit --master spark://m --deploy-mode client --properties-file /w/.conf/spark_props.conf --name app --driver-memory 4g --driver-cores 2 main.py"
    );
    assert_eq!(j.conf_path(), "/w/.conf/spark_props.conf");
    assert_eq!(j.error_log_path(), "/w/cluster_manager.log");
    let updates = j.conf_updates();
    assert_eq!(updates[2], ("spark.executor.memory".to_string(), "8g".to_string()));
    assert_eq!(updates[3], ("spark.executor.cores".to_string(), "3".to_string()));
    let (job, dir) = spark_job().driver_job();
    assert_eq!(job.job_type, "ccm-spark-driver");
    assert!(job.lightweight);
    assert_eq!(job.lightweight_spec, Some(Spec { memory: 4, cores: 2 }));
    assert_eq!(job.specs, vec![Spec { memory: 8, cores: 3 }]);
    assert_eq!(dir, "/w");
    let mut bad = spark_job();
    bad.name = String::new();
    assert_eq!(bad.check_fields(), Err("Job name cannot be empty".to_string()));
    let mut bad = spark_job();
    bad.app_cmd = String::new();
    assert_eq!(bad.check_fields(), Err("App command cannot be empty".to_string()));
    let mut bad = spark_job();
    bad.executor_spec.memory = 0;
    assert_eq!(
        bad.check_specs(),
        Err("Executor spec validation failed: Memory cannot be less than or equal to 0".to_string())
    );
    assert_eq!(conf_line("k", Some("v")), "k=v\n");
    assert_eq!(conf_line("k", None), "k=\n");
}

#[test]
fn api_decisions() {
    assert!(spark_worker_rejected("spark_worker", false));
    assert!(!spark_worker_rejected("spark_worker", true));
    assert!(!spark_worker_rejected("sh", false));
    assert_eq!(farm_filter(Some("all")), None);
    assert_eq!(farm_filter(Some("farm1")), Some("farm1".to_string()));
    assert_eq!(farm_filter(None), None);
}

#[test]
fn agent_jobs_and_idle_watch() {
    let mut jobs = RunningJobs::new();
    assert!(jobs.is_idle());
    jobs.started(1, 100);
    jobs.started(2, 200);
    assert_eq!(jobs.pid_of(2), Some(200));
    let mut pids = jobs.pids();
    pids.sort();
    assert_eq!(pids, vec![100, 200]);
    assert!(!jobs.finished(1));
    assert_eq!(jobs.take(2), Some(200));
    assert_eq!(jobs.take(2), None);
    assert!(jobs.is_idle());
    let mut w = IdleWatch::new();
    assert_eq!(w.after_wait(true), IdleStep::AskToBeKilled);
    assert!(w.watching());
    assert_eq!(w.after_wait(true), IdleStep::AskToBeKilled);
    assert!(w.exhausted());
    let mut w = IdleWatch::new();
    assert_eq!(w.after_wait(false), IdleStep::Stop);
    assert!(!w.exhausted());
    assert_eq!(job_name_or_spark(&None), "spark");
}
