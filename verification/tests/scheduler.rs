use std::collections::hash_map::DefaultHasher;
use std::collections::HashMap;
use std::hash::{Hash, Hasher};

use orchestrator::farm::{Protocol, ProtocolMap};
use orchestrator::job::{Identifier, Job, JobType};
use orchestrator::local_executor::{
    get_queued_job, get_queued_jobs, get_required_spec_index, update_specs, LocalAction, LocalExecutor,
};
use orchestrator::scheduler::{
    category_log_path, flow_engine_update, get_db_dir, get_max_retry_count, table_path, AddJobError,
    JobScheduler, RunTarget, SchedulerAction, SchedulerConfig, SparkSettings,
};
use orchestrator::spec::Spec;
use orchestrator::status::{FlowEngineState, Status};

fn std_hash<T: Hash + ?Sized>(v: &T) -> u64 {
    let mut h = DefaultHasher::new();
    v.hash(&mut h);
    h.finish()
}

fn local_job(name: &str, memory: i64, cores: i64) -> Job {
    Job::new(
        name.to_string(),
        "sh".to_string(),
        "local".to_string(),
        vec![Spec { memory, cores }],
        false,
        None,
    )
}

fn cfg() -> SchedulerConfig {
    SchedulerConfig {
        default_protocol: "local".to_string(),
        local_limits: Some(Spec { memory: 60, cores: 6 }),
        flow_engine_url: None,
    }
}

fn settings() -> SparkSettings {
    SparkSettings {
        worker_script: "/s/start.sh".to_string(),
        spark_master_url: "spark://m".to_string(),
        workarea: "/w".to_string(),
    }
}

#[test]
fn new_jobs_are_stored_and_run() {
    let mut s = JobScheduler::new(5);
    let mut actions = Vec::new();
    let r = s.add_job(local_job("a", 8, 2), "cmd".to_string(), true, None, 1, &cfg(), &settings(), &mut actions);
    assert_eq!(r, Ok(()));
    assert_eq!(actions.len(), 2);
    match &actions[0] {
        SchedulerAction::StoreJob { job_hash, record } => {
            assert_eq!(*job_hash, std_hash("a"));
            assert_eq!(record.job.status, Status::Queued);
            assert_eq!(record.command, "cmd");
        }
        other => panic!("unexpected {:?}", other),
    }
    assert!(matches!(&actions[1], SchedulerAction::RunJob { target: RunTarget::Local, job, .. } if job.job_name == "a"));
    let mut more = Vec::new();
    assert_eq!(
        s.add_job(local_job("a", 8, 2), "cmd".to_string(), true, None, 1, &cfg(), &settings(), &mut more),
        Err(AddJobError::AlreadyExists("a".to_string()))
    );
    assert_eq!(
        s.add_job(local_job("big", 100, 2), "cmd".to_string(), true, None, 1, &cfg(), &settings(), &mut more),
        Err(AddJobError::ExceedsLocalLimits("big".to_string()))
    );
    assert!(more.is_empty());
}

#[test]
fn queued_job_runs_when_scheduled() {
    let mut s = JobScheduler::new(5);
    let mut actions = Vec::new();
    let j = local_job("a", 8, 2);
    let c = j.get_category();
    s.add_job(j.clone(), "cmd".to_string(), true, None, 1, &cfg(), &settings(), &mut actions).unwrap();
    // the local executor hands it back: it waits in its category's queue
    let mut back = Vec::new();
    s.add_job(j.clone(), "cmd".to_string(), false, None, 2, &cfg(), &settings(), &mut back).unwrap();
    assert!(back.is_empty());
    let mut run = Vec::new();
    s.schedule_job(c, RunTarget::Local, 3, &cfg(), &settings(), &mut run);
    assert_eq!(run.len(), 1);
    assert!(matches!(&run[0], SchedulerAction::RunJob { target: RunTarget::Local, job, command, .. }
        if job.job_name == "a" && command == "cmd"));
    // nothing more to run
    let mut none = Vec::new();
    s.schedule_job(c, RunTarget::Local, 4, &cfg(), &settings(), &mut none);
    assert!(none.is_empty());
}

#[test]
fn job_killed_before_it_starts_is_killed_on_start() {
    let mut s = JobScheduler::new(5);
    let mut actions = Vec::new();
    let h = std_hash("a");
    s.add_job(local_job("a", 8, 2), "cmd".to_string(), true, None, 1, &cfg(), &settings(), &mut actions).unwrap();
    let mut kill = Vec::new();
    assert_eq!(s.kill_job(h, &None, &mut kill), Ok(()));
    assert_eq!(s.lookup(h).unwrap().job.status, Status::Killing);
    let mut id = Vec::new();
    s.update_job_identifier(h, Identifier::Pid(77), 2, &cfg(), &settings(), &mut id);
    let rec = s.lookup(h).unwrap();
    assert_eq!(rec.job.status, Status::Killing);
    assert_eq!(rec.job.identifier, Some(Identifier::Pid(77)));
    assert!(matches!(&id[id.len() - 2], SchedulerAction::StoreJob { job_hash, record }
        if *job_hash == h && record.job.status == Status::Killing));
    assert!(matches!(id.last().unwrap(),
        SchedulerAction::Kill(orchestrator::job::KillTarget::Pid(77))));
    // once the killed process ends, the job is reported killed
    let mut upd = Vec::new();
    let pending = s
        .update_job_status(h, Status::Failed, false, None, JobType::Local, &None, &cfg(), &mut upd)
        .expect("the job ended");
    assert_eq!(pending.record.job.status, Status::Killed);
}

#[test]
fn finished_job_is_stored_with_its_status() {
    let mut s = JobScheduler::new(5);
    let mut actions = Vec::new();
    let h = std_hash("a");
    s.add_job(local_job("a", 8, 2), "cmd".to_string(), true, None, 1, &cfg(), &settings(), &mut actions).unwrap();
    let mut id = Vec::new();
    s.update_job_identifier(h, Identifier::Pid(77), 2, &cfg(), &settings(), &mut id);
    let rec = s.lookup(h).unwrap();
    assert_eq!(rec.job.status, Status::Running);
    assert_eq!(rec.job.identifier, Some(Identifier::Pid(77)));
    let mut upd = Vec::new();
    let pending = s
        .update_job_status(h, Status::Success, false, None, JobType::Local, &None, &cfg(), &mut upd)
        .expect("the job finished");
    assert_eq!(pending.job_hash, h);
    assert_eq!(pending.target, RunTarget::Local);
    assert_eq!(pending.local_spec, Some(Spec { memory: 8, cores: 2 }));
    let mut fin = Vec::new();
    s.complete(pending, vec![], 3, &cfg(), &settings(), &mut fin);
    assert!(matches!(fin.last().unwrap(), SchedulerAction::StoreJob { job_hash, record }
        if *job_hash == h && record.job.status == Status::Success));
    // a finished job ignores further updates
    let mut again = Vec::new();
    assert!(s.update_job_status(h, Status::Failed, true, None, JobType::Local, &None, &cfg(), &mut again).is_none());
    assert!(again.is_empty());
    let mut kill = Vec::new();
    assert_eq!(s.kill_job(h, &None, &mut kill), Err(()));
}

#[test]
fn unknown_jobs() {
    let mut s = JobScheduler::new(5);
    let mut actions = Vec::new();
    assert_eq!(s.kill_job(1, &None, &mut actions), Err(()));
    assert!(s.update_job_status(1, Status::Failed, true, None, JobType::Local, &None, &cfg(), &mut actions).is_none());
    assert!(actions.is_empty());
    assert!(s.lookup(1).is_none());
}

#[test]
fn retries_run_out() {
    let mut s = JobScheduler::new(2);
    let mut actions = Vec::new();
    assert_eq!(s.increment_retries(9, &None, &None, &mut actions), Ok(()));
    assert_eq!(s.retries(9), 1);
    assert_eq!(s.increment_retries(9, &None, &None, &mut actions), Err(()));
    assert_eq!(s.retries(9), 2);
    let mut reset = Vec::new();
    s.reset_retries(&mut reset);
    assert_eq!(s.retries(9), 0);
    assert!(matches!(&reset[0], SchedulerAction::DeleteCategoryLog { category: 9 }));
}

#[test]
fn retry_count_from_environment() {
    assert_eq!(get_max_retry_count(&None), 5);
    assert_eq!(get_max_retry_count(&Some("3".to_string())), 3);
    assert_eq!(get_max_retry_count(&Some("-2".to_string())), -2);
    assert_eq!(get_max_retry_count(&Some("300".to_string())), 5);
}

#[test]
fn storage_paths() {
    assert_eq!(category_log_path("/w", 42), "/w/42.log");
    assert_eq!(get_db_dir("/w"), "/w/db");
    assert_eq!(table_path("/w/db", "worker"), "/w/db/worker.redb");
}

#[test]
fn flow_engine_updates() {
    let mut j = local_job("flow/task/run", 1, 1);
    assert!(matches!(flow_engine_update(&j, None), Ok(None)));
    j.job_type = "flow-agent".to_string();
    j.status = Status::DisQualified;
    let u = flow_engine_update(&j, Some("m".to_string())).unwrap().unwrap();
    assert_eq!(u.flow_inst, "flow");
    assert_eq!(u.task_inst, "task");
    assert_eq!(u.state, FlowEngineState::Failed);
    assert_eq!(u.message, Some("m".to_string()));
    j.job_name = "plain".to_string();
    assert!(flow_engine_update(&j, None).is_err());
}

fn local_protocols() -> ProtocolMap {
    let mut m = ProtocolMap::new();
    m.insert(Protocol::new("local", ""));
    m
}

#[test]
fn local_executor_runs_then_queues() {
    let protocols = local_protocols();
    let mut ex = LocalExecutor::new(&protocols);
    assert_eq!(ex.local_spec, Spec { memory: 60, cores: 6 });
    match ex.run_job(local_job("a", 30, 4), "c".to_string(), None, &protocols, "local") {
        LocalAction::RunLocally { job, envs, .. } => {
            assert_eq!(job.job_name, "a");
            assert_eq!(envs.len(), 3);
        }
        other => panic!("unexpected {:?}", other),
    }
    assert_eq!(ex.current_spec, Spec { memory: 30, cores: 4 });
    // does not fit any more: queued by its spec
    let j = local_job("b", 40, 4);
    let cat = j.get_category();
    assert!(matches!(ex.run_job(j, "c".to_string(), None, &protocols, "local"), LocalAction::QueueInScheduler { .. }));
    assert_eq!(ex.specs, vec![Spec { memory: 40, cores: 4 }]);
    // a farm job goes to the worker manager
    let mut f = local_job("f", 1, 1);
    f.protocol = "farm1".to_string();
    assert!(matches!(ex.run_job(f, "c".to_string(), None, &protocols, "local"), LocalAction::SubmitToWorkerManager { .. }));
    // the first job ends: the queued category now fits
    assert_eq!(ex.update_local_usage(&Spec { memory: 30, cores: 4 }), vec![cat]);
    assert_eq!(ex.update_local_usage(&Spec { memory: 0, cores: 0 }), Vec::<u64>::new());
}

#[test]
fn spec_queue_helpers() {
    let mut specs = Vec::new();
    update_specs(&mut specs, &Spec { memory: 4, cores: 1 });
    update_specs(&mut specs, &Spec { memory: 8, cores: 2 });
    update_specs(&mut specs, &Spec { memory: 4, cores: 1 });
    assert_eq!(specs, vec![Spec { memory: 8, cores: 2 }, Spec { memory: 4, cores: 1 }]);
    assert_eq!(get_required_spec_index(&specs, &Spec { memory: 5, cores: 1 }), Some(1));
    assert_eq!(get_required_spec_index(&specs, &Spec { memory: 1, cores: 1 }), None);
    let mut mapper = HashMap::new();
    mapper.insert(Spec { memory: 4, cores: 1 }.get_hash(), 77u64);
    assert_eq!(get_queued_job(&specs, &mut mapper, Spec { memory: 10, cores: 3 }), vec![77]);
    assert!(mapper.is_empty());
    let mut high = HashMap::new();
    let mut low = HashMap::new();
    low.insert(Spec { memory: 8, cores: 2 }.get_hash(), 5u64);
    assert_eq!(get_queued_jobs(&specs, &mut high, &mut low, &Spec { memory: 10, cores: 3 }), vec![5]);
}

#[test]
fn failed_category_fails_its_jobs_and_refuses_new_ones() {
    let mut s = JobScheduler::new(5);
    let mut a = Vec::new();
    // "a" runs, "b" comes back from the executor and waits in the queue
    s.add_job(local_job("a", 8, 2), "cmd".to_string(), true, None, 1, &cfg(), &settings(), &mut a).unwrap();
    let b = local_job("b", 8, 2);
    let c = b.get_category();
    s.add_job(b.clone(), "cmd".to_string(), true, None, 1, &cfg(), &settings(), &mut a).unwrap();
    s.add_job(b.clone(), "cmd".to_string(), false, None, 1, &cfg(), &settings(), &mut a).unwrap();
    let mut f = Vec::new();
    s.fail_jobs(c, &Some("disk full".to_string()), &None, &mut f);
    assert_eq!(s.lookup(std_hash("a")).unwrap().job.status, Status::Failed);
    assert_eq!(s.lookup(std_hash("b")).unwrap().job.status, Status::Failed);
    assert!(s.queue.is_empty_at(c));
    assert!(s.running_queue.is_empty_at(c));
    assert_eq!(s.retries(c), 5);
    let mut more = Vec::new();
    let r = s.add_job(local_job("z", 8, 2), "cmd".to_string(), true, None, 2, &cfg(), &settings(), &mut more);
    assert_eq!(r, Err(AddJobError::RetriesExhausted(c)));
    assert!(r.unwrap_err().message(&None).starts_with("Maximum number of retries have been reached"));
}

fn spark_worker(name: &str) -> Job {
    Job::new(name.to_string(), "spark_worker".to_string(), "local".to_string(), vec![Spec { memory: 4, cores: 1 }],
        false, None)
}

#[test]
fn spark_queue_holds_at_most_ten_workers() {
    let mut s = JobScheduler::new(5);
    let mut a = Vec::new();
    let driver = Job::new("d".to_string(), "ccm-spark-driver".to_string(), "local".to_string(),
        vec![Spec { memory: 4, cores: 1 }], true, Some(Spec { memory: 2, cores: 1 }));
    s.add_job(driver, "cmd".to_string(), true, None, 1, &cfg(), &settings(), &mut a).unwrap();
    assert_eq!(s.running_spark_apps, 1);
    // a spark worker handed back while the driver runs opens its spark queue
    let w0 = spark_worker("w0");
    let c = w0.get_category();
    s.add_job(w0.clone(), "cmd".to_string(), true, None, 1, &cfg(), &settings(), &mut a).unwrap();
    s.add_job(w0, "cmd".to_string(), false, None, 1, &cfg(), &settings(), &mut a).unwrap();
    assert_eq!(s.spark_worker_queue.len_at(c), 1);
    for i in 1..20 {
        let mut acts = Vec::new();
        let w = spark_worker(&format!("w{}", i));
        s.add_job(w, "cmd".to_string(), true, None, 1, &cfg(), &settings(), &mut acts).unwrap();
        assert!(s.spark_worker_queue.len_at(c) <= 10);
        if i >= 10 {
            assert!(acts.iter().any(|x| matches!(x, SchedulerAction::SetSparkMonitor(false))));
            assert!(s.lookup(std_hash(format!("w{}", i).as_str())).is_none());
        }
    }
    assert_eq!(s.spark_worker_queue.len_at(c), 10);
}

#[test]
fn queued_local_specs_stay_sorted_and_unique() {
    let protocols = local_protocols();
    let mut ex = LocalExecutor::new(&protocols);
    // fill the machine, then queue jobs of mixed specs, some twice
    ex.run_job(local_job("big", 60, 6), "c".to_string(), None, &protocols, "local");
    for (i, (m, c)) in [(8, 2), (16, 4), (8, 2), (4, 1), (16, 4)].iter().enumerate() {
        let a = ex.run_job(local_job(&format!("q{}", i), *m, *c), "c".to_string(), None, &protocols, "local");
        assert!(matches!(a, LocalAction::QueueInScheduler { .. }));
    }
    assert_eq!(
        ex.specs,
        vec![Spec { memory: 16, cores: 4 }, Spec { memory: 8, cores: 2 }, Spec { memory: 4, cores: 1 }]
    );
}
