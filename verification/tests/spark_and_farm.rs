use orchestrator::farm_jobs::{
    get_job_id, get_worker_error_file_path, job_status_command, job_status_from_output, kill_method,
    spawn_error_failure, spawn_exit_failure, terminate_command, terminate_unresponsive, HeartbeatWatch,
    KillMethod,
};
use orchestrator::spark_monitor::{
    agent_spark_worker_request, app_id_from_cmdline, app_is_active, controller_spark_worker,
    fail_spark_app_on_timeout, get_driver_metrics, get_driver_wait_time, get_reqd_executors,
    get_spark_app_timeout, get_spark_inactive_timeout, metrics_file_path, remove_failure_message,
    workers_to_request, ExecutorUsage, SparkAppMonitor, Verdict, WaitStep,
};
use orchestrator::spec::Spec;
use orchestrator::status::Status;

const SEC: u64 = 1_000_000_000;

#[test]
fn job_id_is_the_last_line() {
    assert_eq!(get_job_id("Submitted\n12345\n"), Some("12345".to_string()));
    assert_eq!(get_job_id("12345\n"), None);
    assert_eq!(get_job_id("a\nb c\n"), None);
}

#[test]
fn farm_status_from_output() {
    assert_eq!(job_status_from_output("job 1 is\nrunning\n"), Status::Running);
    assert_eq!(job_status_from_output("state: terminated\n"), Status::Killed);
    assert_eq!(job_status_from_output("state: weird\n"), Status::Unknown);
    assert_eq!(job_status_from_output("no newline"), Status::Failed);
    assert_eq!(job_status_from_output("42\n"), Status::Failed);
}

#[test]
fn farm_commands() {
    assert_eq!(job_status_command("/bin/l", "7"), "/bin/l status --job_id 7");
    assert_eq!(terminate_command("/bin/l", "7"), "/bin/l terminate --job_id 7");
    assert_eq!(get_worker_error_file_path("/w", "worker1"), "/w/.worker1");
}

#[test]
fn spawn_failures() {
    assert!(spawn_exit_failure("cmd", "out", "err", Some(0)).is_none());
    let f = spawn_exit_failure("cmd", "out", "err", Some(3)).unwrap();
    assert_eq!(f.kill_message, "Got non zero exit status 3 while executing cmd");
    assert_eq!(f.fail_message, "out\nerr\nGot non zero exit status 3 while executing cmd");
    let f = spawn_exit_failure("cmd", "", "", None).unwrap();
    assert_eq!(f.kill_message, "Failed to execute cmd");
    assert_eq!(f.fail_message, "\n\nFailed to execute cmd");
    let f = spawn_error_failure("cmd", "no such file");
    assert_eq!(f.kill_message, "Failed to execute cmd. Reason - no such file");
    assert_eq!(f.fail_message, "Failed to execute command. Reason - no such file");
}

#[test]
fn killing_workers() {
    assert_eq!(kill_method(true, None, true), KillMethod::FarmJob);
    assert_eq!(kill_method(false, Some(3), false), KillMethod::FarmJob);
    assert_eq!(kill_method(true, Some(3), false), KillMethod::KillJob(3));
    assert_eq!(kill_method(true, None, false), KillMethod::Terminate);
    assert!(terminate_unresponsive(Status::Queued));
    assert!(terminate_unresponsive(Status::Unknown));
    assert!(!terminate_unresponsive(Status::Success));
}

#[test]
fn heartbeat_watch_needs_two_failures_in_a_row() {
    let mut w = HeartbeatWatch::new();
    w.checked(false);
    assert!(w.watching());
    w.checked(true);
    w.checked(false);
    assert!(w.watching());
    w.checked(false);
    assert!(!w.watching());
}

#[test]
fn timeouts_from_environment() {
    assert_eq!(get_spark_inactive_timeout(&None), 7200);
    assert_eq!(get_spark_app_timeout(&None), 36000);
    assert_eq!(get_spark_app_timeout(&Some("90".to_string())), 90);
    assert_eq!(get_spark_app_timeout(&Some("x".to_string())), 36000);
    assert!(fail_spark_app_on_timeout(&None));
    assert!(!fail_spark_app_on_timeout(&Some("false".to_string())));
    assert!(fail_spark_app_on_timeout(&Some("no".to_string())));
}

#[test]
fn executors_asked_for() {
    assert_eq!(get_reqd_executors(5, 2), 3);
    assert_eq!(get_reqd_executors(2, 5), 0);
    assert!(app_is_active(1, 0, 0));
    assert!(app_is_active(0, 3, 1));
    assert!(!app_is_active(0, 1, 3));
    assert_eq!(workers_to_request(25), 10);
    assert_eq!(workers_to_request(4), 4);
}

#[test]
fn driver_totals() {
    let e = |m: Option<i64>, c: Option<i64>| ExecutorUsage {
        memory_used: m,
        total_cores: c,
        total_tasks: Some(1),
        total_shuffle_read: None,
        total_shuffle_write: Some(7),
    };
    let m = get_driver_metrics(&vec![e(Some(10), Some(0)), e(None, Some(4)), e(Some(5), None)]);
    assert_eq!(m.total_memory_used, 15);
    assert_eq!(m.total_cores_used, 4);
    assert_eq!(m.total_tasks, 3);
    assert_eq!(m.total_shuffle_read, 0);
    assert_eq!(m.total_shuffle_write, 21);
    assert_eq!(m.total_executors, 2);
}

#[test]
fn wait_time_once_an_executor_joins() {
    assert_eq!(get_driver_wait_time(Some(1), 30 * SEC), None);
    assert_eq!(get_driver_wait_time(None, 30 * SEC), None);
    assert_eq!(get_driver_wait_time(Some(2), 30 * SEC + 5), Some(30));
}

#[test]
fn monitor_kills_an_inactive_app() {
    let mut m = SparkAppMonitor::new(true, true, 36000, 100);
    assert!(matches!(m.on_activity(Some(false), 10 * SEC), Verdict::Continue));
    assert_eq!(m.first_inactive, Some(10 * SEC));
    assert!(matches!(m.on_activity(Some(false), 110 * SEC), Verdict::Continue));
    match m.on_activity(Some(false), 111 * SEC) {
        Verdict::Kill(msg) => assert_eq!(msg, "Spark App is inactive for more than 100s."),
        other => panic!("unexpected {:?}", other),
    }
    // activity clears the inactivity
    assert!(matches!(m.on_activity(Some(true), 112 * SEC), Verdict::Continue));
    assert_eq!(m.first_inactive, None);
    assert!(matches!(m.on_activity(None, 113 * SEC), Verdict::Stop));
}

#[test]
fn monitor_kills_an_app_running_too_long() {
    let mut m = SparkAppMonitor::new(true, true, 50, 1000);
    match m.on_activity(Some(false), 51 * SEC) {
        Verdict::Kill(msg) => assert_eq!(msg, "Spark App is running for more than 50s."),
        other => panic!("unexpected {:?}", other),
    }
    let mut lenient = SparkAppMonitor::new(true, false, 50, 1000);
    assert!(matches!(lenient.on_activity(Some(false), 51 * SEC), Verdict::Continue));
    let mut watch_only = SparkAppMonitor::new(false, true, 50, 10);
    assert!(matches!(watch_only.on_activity(Some(false), 51 * SEC), Verdict::Continue));
    assert_eq!(watch_only.first_inactive, None);
}

#[test]
fn monitor_wait_steps() {
    let mut m = SparkAppMonitor::new(true, true, 50, 10);
    assert_eq!(m.wait_step(true), WaitStep::MeasureWait);
    m.wait_measured(Some(3), 42 * SEC);
    assert_eq!(m.wait_step(true), WaitStep::WriteMetrics(42));
    assert_eq!(m.sleep_time, 60);
    assert_eq!(m.wait_step(false), WaitStep::Nothing);
}

#[test]
fn spark_worker_requests() {
    let spec = Spec { memory: 4, cores: 2 };
    let (job, cmd) = controller_spark_worker("app", 1700, 3, spec, &None, "/s/start.sh", "spark://m:7077", "/w");
    assert_eq!(job.job_name, "spark_worker_local_app_1700_3");
    assert_eq!(job.job_type, "spark_worker");
    assert_eq!(job.protocol, "default");
    assert_eq!(job.specs, vec![spec]);
    assert_eq!(cmd, "/s/start.sh spark://m:7077 -c 2 -m 4G --work-dir /w");
    let r = agent_spark_worker_request("agent1", 0, 1700, spec, &Some("farm1".to_string()), "/s/start.sh", "spark://m", "/w");
    assert_eq!(r.job_name, "spark_worker_agent1_0_1700");
    assert_eq!(r.protocol, Some("farm1".to_string()));
    assert_eq!(r.lightweight, Some(false));
    assert_eq!(r.command, "/s/start.sh spark://m -c 2 -m 4G --work-dir /w");
}

#[test]
fn spark_paths_and_app_ids() {
    let cmd: Vec<String> = ["java", "--app-id", "app-20240101", "--x"].iter().map(|s| s.to_string()).collect();
    assert_eq!(app_id_from_cmdline(&cmd), Some("app-20240101".to_string()));
    let none: Vec<String> = vec!["java".to_string()];
    assert_eq!(app_id_from_cmdline(&none), None);
    assert_eq!(metrics_file_path("/c", "flow/task"), "/c/.monitor/spark_flow_task.json");
    assert_eq!(remove_failure_message("/w/app", &None), "Failed to remove workarea /w/app");
    assert_eq!(
        remove_failure_message("/w/app", &Some("busy".to_string())),
        "Failed to remove workarea /w/app. Reason - busy"
    );
}
