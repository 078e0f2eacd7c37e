use std::collections::hash_map::DefaultHasher;
use std::hash::{Hash, Hasher};

use orchestrator::farm::{Protocol, ProtocolMap};
use orchestrator::job::{Job, JobType, Worker};
use orchestrator::protocol_maps::{ProtocolQueues, RunningWorkers};
use orchestrator::spec::Spec;
use orchestrator::status::Status;
use orchestrator::worker_manager::{
    update_queued_workers_and_schedule_job, update_running_worker_job_mapper, WorkerAction,
    WorkerManager, WorkerSettings,
};

fn std_hash<T: Hash + ?Sized>(v: &T) -> u64 {
    let mut h = DefaultHasher::new();
    v.hash(&mut h);
    h.finish()
}

fn farm_job(name: &str) -> Job {
    Job::new(
        name.to_string(),
        "sh".to_string(),
        "farm1".to_string(),
        vec![Spec { memory: 8, cores: 2 }],
        false,
        None,
    )
}

fn protocols() -> ProtocolMap {
    let mut m = ProtocolMap::new();
    m.insert(Protocol::new("farm1", "/bin/launch"));
    m.insert(Protocol::new("local", ""));
    m
}

fn settings() -> WorkerSettings {
    WorkerSettings {
        worker_script: "/opt/agent".to_string(),
        workarea: "/w".to_string(),
        cluster_home: "/home".to_string(),
        spark_master_url: "spark://m".to_string(),
        cluster_url: Some("http://ctl:5000".to_string()),
    }
}

fn categories(protocol: &str, specs: &Vec<Spec>) -> (u64, u64) {
    let mut h = DefaultHasher::new();
    protocol.hash(&mut h);
    specs.hash(&mut h);
    (h.finish(), std_hash(protocol))
}

fn run_queued(a: &WorkerAction) -> Option<u64> {
    match a {
        WorkerAction::RunQueuedCategory { category } => Some(*category),
        _ => None,
    }
}

#[test]
fn first_farm_job_starts_a_worker() {
    let mut wm = WorkerManager::new();
    let mut actions = Vec::new();
    let j = farm_job("job1");
    let specs = j.specs.clone();
    let sub = wm.run_job(j, "run.sh".to_string(), None, 100, "local", &protocols(), &settings(), &mut actions);
    assert!(sub.is_none());
    assert_eq!(actions.len(), 3);
    assert!(matches!(&actions[0], WorkerAction::QueueJob { job, command, cache_dir: None }
        if job.job_name == "job1" && command == "run.sh"));
    let name = "100_farm1_0".to_string();
    let h = std_hash(name.as_str());
    let (c, c2) = categories("farm1", &specs);
    match &actions[1] {
        WorkerAction::StoreWorker { worker_hash, worker } => {
            assert_eq!(*worker_hash, h);
            assert_eq!(worker, &Worker {
                name: name.clone(),
                identifier: None,
                job_id: None,
                protocol: "farm1".to_string(),
                categories: vec![c, c2],
            });
        }
        other => panic!("unexpected {:?}", other),
    }
    let expected = format!("{} submit --cores {} --memory {} --command '{} --job-names {} --master-url {} --master-workarea {} --categories {} --protocol {} --job-types {} --lightweight {} {} --name {} --cluster-home {} --worker-hash {} --spark-master-url {} --max-cores {} --max-memory {}'",
        "/bin/launch", 2, 8, "/opt/agent",
        format!("{} {}", "dummy_ccm_job", "dummy_ccm_job"),
        "http://ctl:5000", "/w",
        format!("{} {}", c, c2),
        "farm1",
        format!("{} {}", "", ""),
        false, true, name, "/home", h, "spark://m", 2, 8);
    match &actions[2] {
        WorkerAction::SpawnWorker { worker_hash, name: n, command, protocol, category } => {
            assert_eq!(*worker_hash, h);
            assert_eq!(n, &name);
            assert_eq!(command, &expected);
            assert_eq!(protocol, "farm1");
            assert_eq!(*category, c);
        }
        other => panic!("unexpected {:?}", other),
    }
    assert_eq!(wm.get_workers_count(&Some("farm1".to_string())), Some(1));
    assert_eq!(wm.get_workers_count(&None), Some(1));
    assert_eq!(wm.get_workers_count(&Some("other".to_string())), None);

    // A second job of the category waits for the worker being started.
    let mut more = Vec::new();
    let sub = wm.run_job(farm_job("job2"), "run.sh".to_string(), None, 101, "local", &protocols(), &settings(), &mut more);
    assert!(sub.is_none());
    assert_eq!(more.len(), 1);
    assert!(matches!(&more[0], WorkerAction::QueueJob { .. }));
}

#[test]
fn worker_lifecycle() {
    let mut wm = WorkerManager::new();
    let mut actions = Vec::new();
    let specs = vec![Spec { memory: 8, cores: 2 }];
    let (c, c2) = categories("farm1", &specs);
    wm.run_job(farm_job("job1"), "run.sh".to_string(), None, 100, "local", &protocols(), &settings(), &mut actions);
    wm.run_job(farm_job("job2"), "run.sh".to_string(), None, 101, "local", &protocols(), &settings(), &mut actions);
    let h = std_hash("100_farm1_0");

    // The worker becomes reachable: idle for both its categories.
    let mut reg = Vec::new();
    wm.update_worker(h, Some("1234".to_string()), Some("http://w:1".to_string()), &mut reg);
    let runs: Vec<Option<u64>> = reg.iter().map(run_queued).collect();
    assert_eq!(runs, vec![Some(c), Some(c), Some(c2), None, None]);
    match &reg[3] {
        WorkerAction::StoreWorker { worker_hash, worker } => {
            assert_eq!(*worker_hash, h);
            assert_eq!(worker.identifier, Some("http://w:1".to_string()));
            assert_eq!(worker.job_id, Some("1234".to_string()));
        }
        other => panic!("unexpected {:?}", other),
    }
    assert!(matches!(&reg[4], WorkerAction::MonitorWorker { .. }));

    // The next job of the category goes to the idle worker.
    let mut sub_actions = Vec::new();
    let j = farm_job("job3");
    let sub = wm
        .run_job(j.clone(), "run.sh".to_string(), None, 102, "local", &protocols(), &settings(), &mut sub_actions)
        .expect("an idle worker takes the job");
    assert!(sub_actions.is_empty());
    assert_eq!(sub.worker.name, "100_farm1_0");
    assert_eq!(sub.protocol, "farm1");
    assert_eq!(sub.max_workers, 100);
    assert_eq!(sub.envs, vec![
        ("SPARK_LOCAL_DIRS".to_string(), "/tmp".to_string()),
        ("SPARK_LOCAL_DISK".to_string(), "/tmp".to_string()),
        ("DISK_THRESHOLD".to_string(), "50".to_string()),
    ]);
    let mut done = Vec::new();
    wm.job_submitted(j, "run.sh".to_string(), None, 102, sub, true, &settings(), &mut done);
    assert_eq!(done.len(), 1);
    assert!(matches!(&done[0], WorkerAction::UpdateJobIdentifier { job_hash, worker_hash }
        if *job_hash == std_hash("job3") && *worker_hash == h));

    // A busy worker is not killed as idle.
    let mut none = Vec::new();
    wm.kill_idle_worker(h, &mut none);
    assert!(none.is_empty());

    // The job finishes: the worker is idle again, and then killed as idle.
    let mut idle = Vec::new();
    wm.update_worker_status(h, Status::Idle, std_hash("job3"), c, None, &mut idle);
    assert!(idle.is_empty());
    let mut kill = Vec::new();
    wm.kill_idle_worker(h, &mut kill);
    assert_eq!(kill.len(), 4);
    assert!(matches!(&kill[0], WorkerAction::DeleteWorker { worker_hash } if *worker_hash == h));
    assert!(matches!(&kill[1], WorkerAction::KillWorker { worker, job_hash: None } if worker.name == "100_farm1_0"));
    assert_eq!(run_queued(&kill[2]), Some(c));
    assert_eq!(run_queued(&kill[3]), Some(c2));
    assert_eq!(wm.get_workers_count(&None), Some(0));
}

#[test]
fn local_and_unknown_protocols() {
    let mut wm = WorkerManager::new();
    let mut actions = Vec::new();
    let mut j = farm_job("job1");
    j.protocol = "default".to_string();
    assert!(wm.run_job(j, "c".to_string(), None, 1, "local", &protocols(), &settings(), &mut actions).is_none());
    assert!(matches!(&actions[0], WorkerAction::QueueJob { .. }));
    let mut j = farm_job("job2");
    j.protocol = "nowhere".to_string();
    let mut failed = Vec::new();
    assert!(wm.run_job(j, "c".to_string(), None, 1, "local", &protocols(), &settings(), &mut failed).is_none());
    match &failed[0] {
        WorkerAction::UpdateJobStatus { job_hash, status, update_flow_engine, message, job_type } => {
            assert_eq!(*job_hash, std_hash("job2"));
            assert_eq!(*status, Status::Failed);
            assert!(*update_flow_engine);
            assert_eq!(message.as_deref(), Some("Launcher not found for protocol: nowhere used by job: job2. Skipping launching of this job"));
            assert_eq!(*job_type, JobType::Remote(0));
        }
        other => panic!("unexpected {:?}", other),
    }
}

#[test]
fn no_worker_without_controller_url() {
    let mut wm = WorkerManager::new();
    let mut actions = Vec::new();
    let mut s = settings();
    s.cluster_url = None;
    wm.run_job(farm_job("job1"), "c".to_string(), None, 1, "local", &protocols(), &s, &mut actions);
    assert_eq!(actions.len(), 1);
    assert_eq!(wm.get_workers_count(&None), Some(0));
}

#[test]
fn killing_a_worker_fails_its_jobs() {
    let mut wm = WorkerManager::new();
    let mut actions = Vec::new();
    wm.run_job(farm_job("job1"), "c".to_string(), None, 1, "local", &protocols(), &settings(), &mut actions);
    let h = std_hash("1_farm1_0");
    let worker = wm.workers.get(&h).unwrap().clone();
    update_running_worker_job_mapper(&mut wm.running_worker_job_mapper, &worker, 11, h);
    update_running_worker_job_mapper(&mut wm.running_worker_job_mapper, &worker, 12, h);
    let mut kill = Vec::new();
    wm.kill_worker_by_hash(h, Some("gone".to_string()), true, &mut kill);
    assert!(matches!(&kill[0], WorkerAction::DeleteWorker { worker_hash } if *worker_hash == h));
    let failed: Vec<u64> = kill
        .iter()
        .filter_map(|a| match a {
            WorkerAction::UpdateJobStatus { job_hash, status: Status::Failed, update_flow_engine: true, message: Some(m), job_type: JobType::Remote(w) }
                if m == "gone" && *w == h => Some(*job_hash),
            _ => None,
        })
        .collect();
    assert_eq!(failed, vec![11, 12]);
    assert!(matches!(kill.last().unwrap(), WorkerAction::KillWorker { job_hash: None, .. }));
    let mut again = Vec::new();
    wm.kill_worker_by_hash(h, None, true, &mut again);
    assert!(again.is_empty());
}

#[test]
fn failed_worker_counts_a_retry() {
    let mut wm = WorkerManager::new();
    let mut actions = Vec::new();
    let specs = vec![Spec { memory: 8, cores: 2 }];
    let (c, _) = categories("farm1", &specs);
    wm.run_job(farm_job("job1"), "c".to_string(), None, 1, "local", &protocols(), &settings(), &mut actions);
    let h = std_hash("1_farm1_0");
    let mut failed = Vec::new();
    wm.update_worker_status(h, Status::Failed, 0, c, Some("boom".to_string()), &mut failed);
    assert!(matches!(&failed[0], WorkerAction::IncrementRetry { category, message: Some(m) } if *category == c && m == "boom"));
    // the worker was being started for its first category: that category runs
    assert_eq!(failed.iter().filter_map(run_queued).collect::<Vec<u64>>(), vec![c]);
}

#[test]
fn kill_job_only_for_its_worker() {
    let mut wm = WorkerManager::new();
    let mut actions = Vec::new();
    wm.run_job(farm_job("job1"), "c".to_string(), None, 1, "local", &protocols(), &settings(), &mut actions);
    let h = std_hash("1_farm1_0");
    let worker = wm.workers.get(&h).unwrap().clone();
    update_running_worker_job_mapper(&mut wm.running_worker_job_mapper, &worker, 11, h);
    let mut none = Vec::new();
    wm.kill_job(99, Some(h), &mut none);
    wm.kill_job(11, None, &mut none);
    assert!(none.is_empty());
    let mut kill = Vec::new();
    wm.kill_job(11, Some(h), &mut kill);
    assert!(matches!(&kill[0], WorkerAction::KillWorker { job_hash: Some(11), .. }));
    let mut twice = Vec::new();
    wm.kill_job(11, Some(h), &mut twice);
    assert!(twice.is_empty());
}

#[test]
fn shutdown_gives_workers_last_hash_first() {
    let mut wm = WorkerManager::new();
    for h in [5u64, 9, 7] {
        wm.load_worker(h, Worker::new(&format!("w{}", h), "farm1".to_string(), vec![1]));
    }
    let out = wm.shutdown();
    let hashes: Vec<u64> = out.iter().map(|(h, _)| *h).collect();
    assert_eq!(hashes, vec![9, 7, 5]);
    assert_eq!(out[0].1.name, "w9");
    assert_eq!(wm.get_workers_count(&None), Some(0));
}

#[test]
fn queued_category_and_the_protocols_next() {
    let mut q = ProtocolQueues::new();
    q.push_back("farm1", 4);
    q.push_back("farm1", 5);
    let mut actions = Vec::new();
    update_queued_workers_and_schedule_job(3, &mut q, "farm1", &mut actions);
    assert_eq!(actions.iter().map(run_queued).collect::<Vec<_>>(), vec![Some(3), Some(4)]);
    let mut actions = Vec::new();
    update_queued_workers_and_schedule_job(5, &mut q, "farm1", &mut actions);
    assert_eq!(actions.iter().map(run_queued).collect::<Vec<_>>(), vec![Some(5)]);
    let mut actions = Vec::new();
    update_queued_workers_and_schedule_job(6, &mut q, "farm1", &mut actions);
    assert_eq!(actions.iter().map(run_queued).collect::<Vec<_>>(), vec![Some(6)]);
}

#[test]
fn running_mapper_groups_by_protocol() {
    let mut r = RunningWorkers::new();
    let w = Worker::new("w", "farm1".to_string(), vec![1]);
    update_running_worker_job_mapper(&mut r, &w, 1, 10);
    update_running_worker_job_mapper(&mut r, &w, 2, 10);
    update_running_worker_job_mapper(&mut r, &w, 3, 11);
    let jobs = r.get("farm1").unwrap();
    assert_eq!(jobs.len(), 2);
    assert_eq!(jobs.get(10), Some(&vec![1, 2]));
    assert_eq!(jobs.get(11), Some(&vec![3]));
    assert!(r.get("farm2").is_none());
}

#[test]
fn farm_never_runs_more_workers_than_it_allows() {
    let mut protocols = ProtocolMap::new();
    let mut farm = Protocol::new("farm1", "/bin/launch");
    if let orchestrator::farm::FarmConfig::Farm(d) = &mut farm.config {
        d.max_workers = 1;
    }
    protocols.insert(farm);
    let mut wm = WorkerManager::new();
    for (i, (name, memory)) in [("a", 8), ("b", 16), ("c", 32)].iter().enumerate() {
        let mut job = farm_job(name);
        job.specs = vec![Spec { memory: *memory, cores: 2 }];
        let mut actions = Vec::new();
        let sub = wm.run_job(job, "run.sh".to_string(), None, 100 + i as i64, "local", &protocols, &settings(),
            &mut actions);
        assert!(sub.is_none());
        let spawned = actions.iter().filter(|a| matches!(a, WorkerAction::SpawnWorker { .. })).count();
        assert_eq!(spawned, if i == 0 { 1 } else { 0 });
        assert_eq!(wm.get_workers_count(&Some("farm1".to_string())), Some(1));
    }
}
