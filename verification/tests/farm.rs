use orchestrator::farm::{
    check_default_protocol, farm_config_path, farm_script_path, get_envs, get_farm_config,
    get_local_cores_and_memory, local_limits, DistributedConfigFile, FarmConfig, LocalConfig, LocalConfigFile,
    Protocol, ProtocolMap, LOCAL_DISK_THRESHOLD,
};
use orchestrator::spec::Spec;

fn envs(disk: &str, threshold: &str) -> Vec<(String, String)> {
    vec![
        ("SPARK_LOCAL_DIRS".to_string(), disk.to_string()),
        ("SPARK_LOCAL_DISK".to_string(), disk.to_string()),
        ("DISK_THRESHOLD".to_string(), threshold.to_string()),
    ]
}

#[test]
fn new_protocols_have_their_defaults() {
    let local = Protocol::new("local", "ignored");
    assert_eq!(
        local.config,
        FarmConfig::Local(LocalConfig {
            local_disk: "/tmp".to_string(),
            disk_threshold: LOCAL_DISK_THRESHOLD,
            max_local_memory: 60,
            max_local_cores: 6,
        })
    );
    let farm = Protocol::new("lsf", "/farms/lsf/farm_script");
    match &farm.config {
        FarmConfig::Farm(d) => {
            assert_eq!(d.max_workers, 100);
            assert_eq!(d.queued_time, 600);
            assert_eq!(d.local_disk, "/tmp");
            assert_eq!(d.disk_threshold, 50);
            assert_eq!(d.script, "/farms/lsf/farm_script");
        }
        FarmConfig::Local(_) => panic!("a farm protocol"),
    }
    assert!(get_farm_config(&farm.config).is_some());
    assert!(get_farm_config(&local.config).is_none());
    assert_eq!(farm.get_envs(), envs("/tmp", "50"));
    assert_eq!(farm.get_local_dir(), "/tmp");
    assert_eq!(farm.get_disk_threshold(), 50);
}

#[test]
fn config_files_replace_only_what_they_give() {
    let mut farm = Protocol::new("lsf", "s");
    if let FarmConfig::Farm(d) = &mut farm.config {
        d.apply_config(DistributedConfigFile {
            max_workers: Some(300),
            submit_timeout: None,
            local_disk: Some("/scratch".to_string()),
            local_disk_threshold: None,
        });
        // 300 keeps its low eight bits: 44.
        assert_eq!(d.max_workers, 44);
        assert_eq!(d.queued_time, 600);
        assert_eq!(d.local_disk, "/scratch");
        assert_eq!(d.disk_threshold, 50);
    }
    let mut local = Protocol::new("local", "");
    if let FarmConfig::Local(l) = &mut local.config {
        l.apply_config(LocalConfigFile {
            max_local_cores: Some(12),
            max_local_memory: None,
            local_disk: None,
            local_disk_threshold: Some(5),
        });
        assert_eq!(l.max_local_cores, 12);
        assert_eq!(l.max_local_memory, 60);
        assert_eq!(l.local_disk, "/tmp");
        assert_eq!(l.disk_threshold, 5);
        assert_eq!(l.get_envs(), envs("/tmp", "5"));
    }
}

fn local_config(cores: i64, memory: i64, threshold: u64) -> LocalConfig {
    LocalConfig { local_disk: "/tmp".to_string(), disk_threshold: threshold, max_local_memory: memory, max_local_cores: cores }
}

#[test]
fn local_limits_are_checked_against_the_host() {
    assert_eq!(local_config(4, 16, 10).validate("lsf", Ok(()), Some(8), 64, "64.5"), Ok(()));
    assert_eq!(
        local_config(4, 16, 0).validate("lsf", Ok(()), Some(8), 64, "64.5"),
        Err("Disk threshold cannot be less than 1".to_string())
    );
    assert_eq!(
        local_config(4, 16, 10).validate("lsf", Err("no room".to_string()), Some(8), 64, "64.5"),
        Err("no room".to_string())
    );
    assert_eq!(
        local_config(9, 16, 10).validate("lsf", Ok(()), Some(8), 64, "64.5"),
        Err("Max cores cannot be greater than system cores: 8".to_string())
    );
    assert_eq!(
        local_config(0, 16, 10).validate("local", Ok(()), Some(8), 64, "64.5"),
        Err("Max cores cannot be 0 when default protocol is local".to_string())
    );
    // Without a core count only memory is checked.
    assert_eq!(local_config(99, 16, 10).validate("lsf", Ok(()), None, 64, "64.5"), Ok(()));
    assert_eq!(
        local_config(4, 65, 10).validate("lsf", Ok(()), Some(8), 64, "64.5"),
        Err("Max memory cannot be greater than system memory: 64.5".to_string())
    );
    assert_eq!(
        local_config(4, 0, 10).validate("local", Ok(()), Some(8), 64, "64.5"),
        Err("Max memory cannot be 0 when default protocol is local".to_string())
    );
    assert_eq!(local_config(0, 0, 10).validate("lsf", Ok(()), Some(8), 64, "64.5"), Ok(()));
}

#[test]
fn protocol_map_insert_replaces_by_name() {
    let mut map = ProtocolMap::new();
    assert!(map.is_empty());
    assert!(map.get("lsf").is_none());
    map.insert(Protocol::new("lsf", "a"));
    map.insert(Protocol::new("local", ""));
    map.insert(Protocol::new("lsf", "b"));
    assert!(!map.is_empty());
    match &map.get("lsf").unwrap().config {
        FarmConfig::Farm(d) => assert_eq!(d.script, "b"),
        FarmConfig::Local(_) => panic!("a farm protocol"),
    }
    assert_eq!(local_limits(&map), Some(Spec { memory: 60, cores: 6 }));
    assert_eq!(get_local_cores_and_memory(&map), Some((6, 60)));
    assert_eq!(get_envs(&map, "default", "lsf"), envs("/tmp", "50"));
    assert_eq!(get_envs(&map, "sge", "lsf"), Vec::new());
    assert_eq!(local_limits(&ProtocolMap::new()), None);
}

#[test]
fn default_protocol_must_be_found() {
    assert_eq!(check_default_protocol(false, true, "lsf"), Ok(()));
    assert_eq!(check_default_protocol(true, false, "lsf"), Ok(()));
    assert_eq!(check_default_protocol(false, false, "local"), Ok(()));
    assert_eq!(
        check_default_protocol(false, false, "lsf"),
        Err("Failed to set lsf as default protocol. Please provide a valid default protocol to be set.".to_string())
    );
    assert_eq!(farm_script_path("/w/farm_protocols/lsf"), "/w/farm_protocols/lsf/farm_script");
    assert_eq!(farm_config_path("/w/farm_protocols/lsf"), "/w/farm_protocols/lsf/config.json");
}
