use std::cmp::Ordering;
use std::collections::hash_map::DefaultHasher;
use std::hash::{Hash, Hasher};

use orchestrator::hashing::get_hash;
use orchestrator::job::{get_fail_category, Identifier, Job, JobField, JobFieldValue, KillTarget};
use orchestrator::spec::Spec;
use orchestrator::status::{FlowEngineState, Status};
use orchestrator::text::{
    get_flow_and_task_inst, i64_to_string, parse_i8, parse_u64, replace_slashes, u64_to_string,
};

fn std_hash<T: Hash + ?Sized>(v: &T) -> u64 {
    let mut h = DefaultHasher::new();
    v.hash(&mut h);
    h.finish()
}

fn job(name: &str, job_type: &str, protocol: &str, specs: Vec<Spec>, lightweight: bool) -> Job {
    Job::new(
        name.to_string(),
        job_type.to_string(),
        protocol.to_string(),
        specs,
        lightweight,
        None,
    )
}

const ALL: [Status; 10] = [
    Status::New,
    Status::Running,
    Status::Success,
    Status::Failed,
    Status::Killing,
    Status::Killed,
    Status::Queued,
    Status::Unknown,
    Status::Idle,
    Status::DisQualified,
];

#[test]
fn status_names_round_trip() {
    for s in ALL {
        assert_eq!(Status::from_str(&s.to_string()), s);
    }
    assert_eq!(Status::DisQualified.to_string(), "disqualified");
    assert_eq!(Status::Idle.to_string(), "idle");
}

#[test]
fn status_from_unknown_and_terminated() {
    assert_eq!(Status::from_str("terminated"), Status::Killed);
    assert_eq!(Status::from_str("RUNNING"), Status::Unknown);
    assert_eq!(Status::from_str(""), Status::Unknown);
}

#[test]
fn status_flow_engine_states() {
    assert_eq!(Status::Queued.to_flow_engine_state(), FlowEngineState::Queued);
    assert_eq!(Status::DisQualified.to_flow_engine_state(), FlowEngineState::Failed);
    assert_eq!(Status::Success.to_flow_engine_state(), FlowEngineState::Running);
    assert_eq!(Status::Killed.to_flow_engine_state(), FlowEngineState::Killed);
}

#[test]
fn status_completion() {
    let done: Vec<Status> = ALL.iter().copied().filter(|s| s.is_completion()).collect();
    assert_eq!(done, vec![Status::Success, Status::Failed, Status::Killed, Status::DisQualified]);
}

#[test]
fn spec_compare_and_fit() {
    let a = Spec { memory: 4, cores: 2 };
    let b = Spec { memory: 8, cores: 2 };
    assert_eq!(a.cmp(&b), Ordering::Less);
    assert_eq!(b.cmp(&a), Ordering::Greater);
    assert_eq!(a.cmp(&a), Ordering::Equal);
    // more cores, less memory: greater both ways
    let c = Spec { memory: 2, cores: 4 };
    assert_eq!(c.cmp(&b), Ordering::Greater);
    assert_eq!(b.cmp(&c), Ordering::Greater);
    assert!(a.fits(&b));
    assert!(!c.fits(&b));
    assert!(a.is_less_than(&b));
    assert!(!a.is_less_than(&a));
}

#[test]
fn spec_arithmetic() {
    let mut s = Spec::new();
    assert_eq!(s, Spec { memory: 0, cores: 0 });
    s.add(&Spec { memory: 5, cores: 3 });
    s.add(&Spec { memory: 1, cores: 1 });
    assert_eq!(s, Spec { memory: 6, cores: 4 });
    s.remove(&Spec { memory: 5, cores: 3 });
    assert_eq!(s, Spec { memory: 1, cores: 1 });
}

#[test]
fn spec_validate_errors() {
    assert_eq!(Spec { memory: 1, cores: 1 }.validate(), Ok(()));
    assert_eq!(
        Spec { memory: 1, cores: 0 }.validate(),
        Err("Cores cannot be less than or equal to 0".to_string())
    );
    assert_eq!(
        Spec { memory: -1, cores: 2 }.validate(),
        Err("Memory cannot be less than or equal to 0".to_string())
    );
}

#[test]
fn hashes_match_default_hasher() {
    assert_eq!(get_hash("job_a"), std_hash("job_a"));
    assert_ne!(get_hash("job_a"), get_hash("job_b"));
    let s = Spec { memory: 16, cores: 4 };
    let mut h = DefaultHasher::new();
    s.cores.hash(&mut h);
    s.memory.hash(&mut h);
    assert_eq!(s.get_hash(), h.finish());
}

#[test]
fn job_categories() {
    let specs = vec![Spec { memory: 8, cores: 2 }];
    let heavy = job("a", "sh", "farm1", specs.clone(), false);
    let light = job("b", "sh", "farm1", specs.clone(), true);
    assert_eq!(light.get_category(), std_hash("farm1"));
    assert_eq!(light.get_lighweight_category(), std_hash("farm1"));
    let mut h = DefaultHasher::new();
    "farm1".hash(&mut h);
    specs.hash(&mut h);
    assert_eq!(heavy.get_category(), h.finish());
    assert_ne!(heavy.get_category(), light.get_category());
    let worker = job("w", "spark_worker", "farm1", specs.clone(), false);
    assert_eq!(get_fail_category(&worker), std_hash("farm1"));
    assert_eq!(get_fail_category(&heavy), heavy.get_category());
    assert_eq!(heavy.get_hash(), std_hash("a"));
}

#[test]
fn job_spec_and_dummies() {
    let mut j = job("a", "sh", "p", vec![Spec { memory: 8, cores: 2 }], false);
    assert_eq!(j.get_spec(), Spec { memory: 8, cores: 2 });
    j.lightweight_spec = Some(Spec { memory: 1, cores: 1 });
    assert_eq!(j.get_spec(), Spec { memory: 1, cores: 1 });
    let d = j.get_dummy_jobs();
    assert_eq!(d.len(), 2);
    assert_eq!(d[0].job_name, "dummy_ccm_job");
    assert_eq!(d[0].job_type, "");
    assert!(!d[0].lightweight);
    assert!(d[1].lightweight);
    assert_eq!(d[1].protocol, "p");
    assert_eq!(d[0].status, Status::New);
}

#[test]
fn job_fields_and_kill_target() {
    let mut j = job("a", "sh", "p", vec![Spec { memory: 8, cores: 2 }], false);
    assert_eq!(j.return_field(&JobField::JobName), JobFieldValue::JobName("a".to_string()));
    assert_eq!(j.return_field(&JobField::Status), JobFieldValue::Status(Status::New));
    assert_eq!(j.kill_target(), Err(()));
    j.identifier = Some(Identifier::Pid(42));
    assert_eq!(j.kill_target(), Ok(KillTarget::Pid(42)));
    j.identifier = Some(Identifier::Worker(7));
    assert_eq!(
        j.kill_target(),
        Ok(KillTarget::Worker { job_hash: std_hash("a"), worker_hash: 7 })
    );
}

#[test]
fn decimal_renderings() {
    assert_eq!(u64_to_string(0), "0");
    assert_eq!(u64_to_string(u64::MAX), u64::MAX.to_string());
    assert_eq!(i64_to_string(-45), "-45");
    assert_eq!(i64_to_string(i64::MIN), i64::MIN.to_string());
}

#[test]
fn parse_u64_like_std() {
    for s in ["0", "+7", "18446744073709551615", "18446744073709551616", "", "+", "-1", "12a", " 1", "007"] {
        assert_eq!(parse_u64(s), s.parse::<u64>().ok(), "{}", s);
    }
}

#[test]
fn parse_i8_like_std() {
    for s in ["0", "-128", "127", "128", "-129", "+5", "-", "+", "", "-0", "5x", "1000"] {
        assert_eq!(parse_i8(s), s.parse::<i8>().ok(), "{}", s);
    }
}

#[test]
fn flow_and_task_split() {
    assert_eq!(
        get_flow_and_task_inst("flow/sub/task/attempt"),
        Ok(("flow/sub".to_string(), "task".to_string()))
    );
    assert_eq!(get_flow_and_task_inst("task/x"), Ok((String::new(), "task".to_string())));
    assert_eq!(
        get_flow_and_task_inst("plain"),
        Err("Job plain not in required format. Skipping updation of state in flow engine".to_string())
    );
}

#[test]
fn slashes_replaced() {
    assert_eq!(replace_slashes("a/b//c"), "a_b__c");
    assert_eq!(replace_slashes("none"), "none");
}
