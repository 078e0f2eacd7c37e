//! Farm protocols: how jobs of a protocol are run (locally or by a launch
//! script on a farm), and the settings each protocol carries.

use vstd::prelude::*;
use crate::spec::Spec;
use crate::text::{decimal, str_eq, u64_to_string};

verus! {

/// The disk space, in GiB, that a local disk must keep free by default.
pub const LOCAL_DISK_THRESHOLD: u64 = 50;

/// Settings of a farm whose workers are started by a launch script.
#[derive(Clone, Debug, PartialEq, Eq)]
pub struct DistributedConfig {
    pub max_workers: i8,
    pub queued_time: i64,
    pub local_disk: String,
    pub disk_threshold: u64,
    pub script: String,
}

/// Settings of the local machine.
#[derive(Clone, Debug, PartialEq, Eq)]
pub struct LocalConfig {
    pub local_disk: String,
    pub disk_threshold: u64,
    pub max_local_memory: i64,
    pub max_local_cores: i64,
}

/// The settings of a protocol: local, or a farm.
#[derive(Clone, Debug, PartialEq, Eq)]
pub enum FarmConfig {
    Local(LocalConfig),
    Farm(DistributedConfig),
}

/// A named protocol and its settings.
#[derive(Clone, Debug, PartialEq, Eq)]
pub struct Protocol {
    pub name: String,
    pub config: FarmConfig,
}

/// The values a protocol's `config.json` may give for a farm; a missing value
/// keeps the current setting.
#[derive(Clone, Debug)]
pub struct DistributedConfigFile {
    pub max_workers: Option<i64>,
    pub submit_timeout: Option<i64>,
    pub local_disk: Option<String>,
    pub local_disk_threshold: Option<u64>,
}

/// The values a protocol's `config.json` may give for the local machine; a
/// missing value keeps the current setting.
#[derive(Clone, Debug)]
pub struct LocalConfigFile {
    pub max_local_cores: Option<i64>,
    pub max_local_memory: Option<i64>,
    pub local_disk: Option<String>,
    pub local_disk_threshold: Option<u64>,
}

/// The environment a job of a protocol with these disk settings runs with.
pub open spec fn disk_envs(local_disk: Seq<char>, threshold: u64) -> Seq<(Seq<char>, Seq<char>)> {
    seq![
        ("SPARK_LOCAL_DIRS"@, local_disk),
        ("SPARK_LOCAL_DISK"@, local_disk),
        ("DISK_THRESHOLD"@, decimal(threshold as nat)),
    ]
}

/// The view of a list of environment variables.
pub open spec fn envs_view(envs: Seq<(String, String)>) -> Seq<(Seq<char>, Seq<char>)> {
    envs.map_values(|e: (String, String)| (e.0@, e.1@))
}

/// The local disk of a protocol's settings.
pub open spec fn config_local_disk(c: FarmConfig) -> Seq<char> {
    match c {
        FarmConfig::Local(l) => l.local_disk@,
        FarmConfig::Farm(d) => d.local_disk@,
    }
}

/// The disk threshold of a protocol's settings.
pub open spec fn config_disk_threshold(c: FarmConfig) -> u64 {
    match c {
        FarmConfig::Local(l) => l.disk_threshold,
        FarmConfig::Farm(d) => d.disk_threshold,
    }
}

fn make_disk_envs(local_disk: &String, threshold: u64) -> (envs: Vec<(String, String)>)
    ensures
        envs_view(envs@) == disk_envs(local_disk@, threshold),
{
    let mut envs = Vec::new();
    envs.push((String::from_str("SPARK_LOCAL_DIRS"), local_disk.clone()));
    envs.push((String::from_str("SPARK_LOCAL_DISK"), local_disk.clone()));
    envs.push((String::from_str("DISK_THRESHOLD"), u64_to_string(threshold)));
    assert(envs_view(envs@) =~= disk_envs(local_disk@, threshold));
    envs
}

impl DistributedConfig {
    /// The local disk of the farm.
    pub fn get_local_dir(&self) -> (d: &String)
        ensures
            d == &self.local_disk,
    {
        &self.local_disk
    }

    /// The disk threshold of the farm.
    pub fn get_disk_threshold(&self) -> (t: u64)
        ensures
            t == self.disk_threshold,
    {
        self.disk_threshold
    }

    /// The environment jobs on the farm run with.
    pub fn get_envs(&self) -> (envs: Vec<(String, String)>)
        ensures
            envs_view(envs@) == disk_envs(self.local_disk@, self.disk_threshold),
    {
        make_disk_envs(&self.local_disk, self.disk_threshold)
    }

    /// Takes the values a `config.json` gives; the maximum number of workers
    /// keeps the low eight bits of the value given, as a cast to `i8` does.
    pub fn apply_config(&mut self, file: DistributedConfigFile)
        ensures
            final(self).max_workers == (match file.max_workers {
                Some(v) => v as i8,
                None => old(self).max_workers,
            }),
            final(self).queued_time == (match file.submit_timeout {
                Some(v) => v,
                None => old(self).queued_time,
            }),
            final(self).local_disk@ == (match file.local_disk {
                Some(v) => v@,
                None => old(self).local_disk@,
            }),
            final(self).disk_threshold == (match file.local_disk_threshold {
                Some(v) => v,
                None => old(self).disk_threshold,
            }),
            final(self).script == old(self).script,
    {
        if let Some(v) = file.max_workers {
            self.max_workers = #[verifier::truncate] (v as i8);
        }
        if let Some(v) = file.submit_timeout {
            self.queued_time = v;
        }
        if let Some(v) = file.local_disk {
            self.local_disk = v;
        }
        if let Some(v) = file.local_disk_threshold {
            self.disk_threshold = v;
        }
    }
}

impl LocalConfig {
    /// The local disk of the machine.
    pub fn get_local_dir(&self) -> (d: &String)
        ensures
            d == &self.local_disk,
    {
        &self.local_disk
    }

    /// The disk threshold of the machine.
    pub fn get_disk_threshold(&self) -> (t: u64)
        ensures
            t == self.disk_threshold,
    {
        self.disk_threshold
    }

    /// The environment local jobs run with.
    pub fn get_envs(&self) -> (envs: Vec<(String, String)>)
        ensures
            envs_view(envs@) == disk_envs(self.local_disk@, self.disk_threshold),
    {
        make_disk_envs(&self.local_disk, self.disk_threshold)
    }

    /// Takes the values a `config.json` gives.
    pub fn apply_config(&mut self, file: LocalConfigFile)
        ensures
            final(self).max_local_cores == (match file.max_local_cores {
                Some(v) => v,
                None => old(self).max_local_cores,
            }),
            final(self).max_local_memory == (match file.max_local_memory {
                Some(v) => v,
                None => old(self).max_local_memory,
            }),
            final(self).local_disk@ == (match file.local_disk {
                Some(v) => v@,
                None => old(self).local_disk@,
            }),
            final(self).disk_threshold == (match file.local_disk_threshold {
                Some(v) => v,
                None => old(self).disk_threshold,
            }),
    {
        if let Some(v) = file.max_local_cores {
            self.max_local_cores = v;
        }
        if let Some(v) = file.max_local_memory {
            self.max_local_memory = v;
        }
        if let Some(v) = file.local_disk {
            self.local_disk = v;
        }
        if let Some(v) = file.local_disk_threshold {
            self.disk_threshold = v;
        }
    }

    /// Checks the machine limits against the machine: the disk threshold is at
    /// least one, the disk check passed, the cores and the memory do not exceed
    /// the machine's, and neither is zero when the default protocol is local.
    /// `system_cores` is the machine's physical core count when known,
    /// `system_memory` the machine's memory in whole GiB and
    /// `system_memory_text` the same amount as it is to be printed.
    pub fn validate(
        &self,
        default_protocol: &str,
        disk_check: Result<(), String>,
        system_cores: Option<u64>,
        system_memory: i64,
        system_memory_text: &str,
    ) -> (r: Result<(), String>)
        ensures
            r is Ok <==> local_limits_ok(*self, default_protocol@, disk_check is Ok,
                system_cores, system_memory),
            self.disk_threshold < 1 ==> (r matches Err(m)
                && m@ == "Disk threshold cannot be less than 1"@),
            self.disk_threshold >= 1 && disk_check is Err ==> r == disk_check,
    {
        if self.disk_threshold < 1 {
            return Err(String::from_str("Disk threshold cannot be less than 1"));
        }
        if let Err(message) = disk_check {
            return Err(message);
        }
        if let Some(cores) = system_cores {
            if (self.max_local_cores as i128) > (cores as i128) {
                let mut m = String::from_str("Max cores cannot be greater than system cores: ");
                m.append(u64_to_string(cores).as_str());
                return Err(m);
            } else if self.max_local_cores == 0 && str_eq(default_protocol, "local") {
                return Err(String::from_str("Max cores cannot be 0 when default protocol is local"));
            }
        }
        if self.max_local_memory > system_memory {
            let mut m = String::from_str("Max memory cannot be greater than system memory: ");
            m.append(system_memory_text);
            return Err(m);
        } else if self.max_local_memory == 0 && str_eq(default_protocol, "local") {
            return Err(String::from_str("Max memory cannot be 0 when default protocol is local"));
        }
        Ok(())
    }
}

/// Whether the machine limits pass `LocalConfig::validate`.
pub open spec fn local_limits_ok(
    c: LocalConfig,
    default_protocol: Seq<char>,
    disk_ok: bool,
    system_cores: Option<u64>,
    system_memory: i64,
) -> bool {
    &&& c.disk_threshold >= 1
    &&& disk_ok
    &&& match system_cores {
        Some(cores) => c.max_local_cores <= cores && !(c.max_local_cores == 0
            && default_protocol == "local"@),
        None => true,
    }
    &&& c.max_local_memory <= system_memory
    &&& !(c.max_local_memory == 0 && default_protocol == "local"@)
}

impl FarmConfig {
    /// The local disk of the settings.
    pub fn get_local_dir(&self) -> (d: &String)
        ensures
            d@ == config_local_disk(*self),
    {
        match self {
            FarmConfig::Local(config) => config.get_local_dir(),
            FarmConfig::Farm(config) => config.get_local_dir(),
        }
    }

    /// The disk threshold of the settings.
    pub fn get_disk_threshold(&self) -> (t: u64)
        ensures
            t == config_disk_threshold(*self),
    {
        match self {
            FarmConfig::Local(config) => config.get_disk_threshold(),
            FarmConfig::Farm(config) => config.get_disk_threshold(),
        }
    }

    /// The environment jobs run with under these settings.
    pub fn get_envs(&self) -> (envs: Vec<(String, String)>)
        ensures
            envs_view(envs@) == disk_envs(config_local_disk(*self), config_disk_threshold(*self)),
    {
        match self {
            FarmConfig::Local(config) => config.get_envs(),
            FarmConfig::Farm(config) => config.get_envs(),
        }
    }
}

/// The farm settings of a protocol, if it is a farm.
pub fn get_farm_config(config: &FarmConfig) -> (r: Option<&DistributedConfig>)
    ensures
        match *config {
            FarmConfig::Farm(d) => r == Some(&d),
            FarmConfig::Local(_) => r is None,
        },
{
    match config {
        FarmConfig::Farm(config) => Some(config),
        FarmConfig::Local(_) => None,
    }
}

impl Protocol {
    /// A protocol with default settings: the local protocol gets the machine
    /// defaults, any other protocol the farm defaults and the given launch
    /// script; the local disk is `/tmp` either way.
    pub fn new(name: &str, script: &str) -> (p: Protocol)
        ensures
            p.name@ == name@,
            config_local_disk(p.config) == "/tmp"@,
            config_disk_threshold(p.config) == LOCAL_DISK_THRESHOLD,
            name@ == "local"@ ==> (p.config matches FarmConfig::Local(l)
                && l.max_local_memory == 60 && l.max_local_cores == 6),
            name@ != "local"@ ==> (p.config matches FarmConfig::Farm(d)
                && d.max_workers == 100 && d.queued_time == 600 && d.script@ == script@),
    {
        if str_eq(name, "local") {
            Protocol {
                name: String::from_str(name),
                config: FarmConfig::Local(LocalConfig {
                    local_disk: String::from_str("/tmp"),
                    disk_threshold: LOCAL_DISK_THRESHOLD,
                    max_local_memory: 60,
                    max_local_cores: 6,
                }),
            }
        } else {
            Protocol {
                name: String::from_str(name),
                config: FarmConfig::Farm(DistributedConfig {
                    max_workers: 100,
                    queued_time: 600,
                    local_disk: String::from_str("/tmp"),
                    disk_threshold: LOCAL_DISK_THRESHOLD,
                    script: String::from_str(script),
                }),
            }
        }
    }

    /// The environment jobs of this protocol run with.
    pub fn get_envs(&self) -> (envs: Vec<(String, String)>)
        ensures
            envs_view(envs@) == disk_envs(config_local_disk(self.config),
                config_disk_threshold(self.config)),
    {
        self.config.get_envs()
    }

    /// The local disk of this protocol.
    pub fn get_local_dir(&self) -> (d: &String)
        ensures
            d@ == config_local_disk(self.config),
    {
        self.config.get_local_dir()
    }

    /// The disk threshold of this protocol.
    pub fn get_disk_threshold(&self) -> (t: u64)
        ensures
            t == config_disk_threshold(self.config),
    {
        self.config.get_disk_threshold()
    }
}

/// The first protocol of the given name in a list.
pub open spec fn find_protocol(protocols: Seq<Protocol>, name: Seq<char>) -> Option<Protocol>
    decreases protocols.len(),
{
    if protocols.len() == 0 {
        None
    } else if protocols[0].name@ == name {
        Some(protocols[0])
    } else {
        find_protocol(protocols.drop_first(), name)
    }
}

/// The protocols known to the controller, by name.
#[derive(Clone, Debug)]
pub struct ProtocolMap {
    pub protocols: Vec<Protocol>,
}

impl ProtocolMap {
    /// The protocol of the given name.
    pub open spec fn lookup(&self, name: Seq<char>) -> Option<Protocol> {
        find_protocol(self.protocols@, name)
    }

    /// An empty map.
    pub fn new() -> (m: ProtocolMap)
        ensures
            m.protocols@.len() == 0,
    {
        ProtocolMap { protocols: Vec::new() }
    }

    /// Whether no protocol is known.
    pub fn is_empty(&self) -> (r: bool)
        ensures
            r == (self.protocols@.len() == 0),
    {
        self.protocols.len() == 0
    }

    /// The protocol of the given name.
    pub fn get(&self, name: &str) -> (r: Option<&Protocol>)
        ensures
            match r {
                Some(p) => self.lookup(name@) == Some(*p),
                None => self.lookup(name@) is None,
            },
    {
        let mut i: usize = 0;
        assert(self.protocols@.subrange(0, self.protocols@.len() as int) =~= self.protocols@);
        while i < self.protocols.len()
            invariant
                i <= self.protocols@.len(),
                find_protocol(self.protocols@, name@) == find_protocol(
                    self.protocols@.subrange(i as int, self.protocols@.len() as int), name@),
            decreases self.protocols@.len() - i,
        {
            let ghost rest = self.protocols@.subrange(i as int, self.protocols@.len() as int);
            assert(rest.drop_first() =~= self.protocols@.subrange(i + 1, self.protocols@.len() as int));
            if str_eq(self.protocols[i].name.as_str(), name) {
                return Some(&self.protocols[i]);
            }
            i = i + 1;
        }
        assert(self.protocols@.subrange(i as int, self.protocols@.len() as int).len() == 0);
        None
    }

    /// Sets the protocol stored under its name, replacing an earlier one.
    pub fn insert(&mut self, protocol: Protocol)
        ensures
            final(self).lookup(protocol.name@) == Some(protocol),
            forall|n: Seq<char>| n != protocol.name@ ==> final(self).lookup(n) == old(self).lookup(n),
    {
        let ghost name = protocol.name@;
        let mut i: usize = 0;
        while i < self.protocols.len()
            invariant
                i <= self.protocols@.len(),
                self.protocols@ == old(self).protocols@,
                name == protocol.name@,
                forall|k: int| 0 <= k < i ==> self.protocols@[k].name@ != name,
            decreases self.protocols@.len() - i,
        {
            if str_eq(self.protocols[i].name.as_str(), protocol.name.as_str()) {
                proof { lemma_find_replace(self.protocols@, i as int, protocol); }
                self.protocols.set(i, protocol);
                return;
            }
            i = i + 1;
        }
        proof { lemma_find_push(self.protocols@, protocol); }
        self.protocols.push(protocol);
    }
}

proof fn lemma_find_replace(ps: Seq<Protocol>, i: int, p: Protocol)
    requires
        0 <= i < ps.len(),
        ps[i].name@ == p.name@,
        forall|k: int| 0 <= k < i ==> ps[k].name@ != p.name@,
    ensures
        find_protocol(ps.update(i, p), p.name@) == Some(p),
        forall|n: Seq<char>| n != p.name@ ==> find_protocol(ps.update(i, p), n) == find_protocol(ps, n),
    decreases ps.len(),
{
    let q = ps.update(i, p);
    if i == 0 {
        assert(q.drop_first() =~= ps.drop_first());
        assert forall|n: Seq<char>| n != p.name@ implies find_protocol(q, n) == find_protocol(ps, n) by {
            assert(q[0] == p);
        }
    } else {
        assert(q.drop_first() =~= ps.drop_first().update(i - 1, p));
        lemma_find_replace(ps.drop_first(), i - 1, p);
        assert forall|n: Seq<char>| n != p.name@ implies find_protocol(q, n) == find_protocol(ps, n) by {
            assert(q[0] == ps[0]);
            if ps[0].name@ != n {
                assert(find_protocol(q, n) == find_protocol(q.drop_first(), n));
                assert(find_protocol(ps, n) == find_protocol(ps.drop_first(), n));
                assert(find_protocol(ps.drop_first().update(i - 1, p), n) == find_protocol(ps.drop_first(), n));
            }
        }
    }
}

proof fn lemma_find_push(ps: Seq<Protocol>, p: Protocol)
    requires
        forall|k: int| 0 <= k < ps.len() ==> ps[k].name@ != p.name@,
    ensures
        find_protocol(ps.push(p), p.name@) == Some(p),
        forall|n: Seq<char>| n != p.name@ ==> find_protocol(ps.push(p), n) == find_protocol(ps, n),
    decreases ps.len(),
{
    let q = ps.push(p);
    if ps.len() == 0 {
        assert(q.drop_first() =~= ps);
        assert forall|n: Seq<char>| n != p.name@ implies find_protocol(q, n) == find_protocol(ps, n) by {
            assert(q[0] == p);
            assert(find_protocol(q.drop_first(), n) is None);
        }
    } else {
        assert(q.drop_first() =~= ps.drop_first().push(p));
        lemma_find_push(ps.drop_first(), p);
        assert forall|n: Seq<char>| n != p.name@ implies find_protocol(q, n) == find_protocol(ps, n) by {
            assert(q[0] == ps[0]);
            if ps[0].name@ != n {
                assert(find_protocol(q, n) == find_protocol(q.drop_first(), n));
                assert(find_protocol(ps, n) == find_protocol(ps.drop_first(), n));
                assert(find_protocol(ps.drop_first().push(p), n) == find_protocol(ps.drop_first(), n));
            }
        }
    }
}

/// The protocol a job's protocol stands for: "default" means the default
/// protocol.
pub open spec fn resolve_protocol(protocol: Seq<char>, default_protocol: Seq<char>) -> Seq<char> {
    if protocol == "default"@ {
        default_protocol
    } else {
        protocol
    }
}

/// The environment for jobs of a protocol ("default" meaning the default
/// protocol); empty when the protocol is unknown.
pub fn get_envs(protocols: &ProtocolMap, protocol: &str, default_protocol: &str) -> (envs: Vec<(
    String,
    String,
)>)
    ensures
        match protocols.lookup(resolve_protocol(protocol@, default_protocol@)) {
            Some(p) => envs_view(envs@) == disk_envs(config_local_disk(p.config),
                config_disk_threshold(p.config)),
            None => envs@.len() == 0,
        },
{
    let name = if str_eq(protocol, "default") {
        default_protocol
    } else {
        protocol
    };
    match protocols.get(name) {
        Some(p) => p.get_envs(),
        None => Vec::new(),
    }
}

/// The machine limits of the local protocol, as (cores, memory); `None` when
/// the local protocol is not set up as the local machine.
pub fn get_local_cores_and_memory(protocols: &ProtocolMap) -> (r: Option<(i64, i64)>)
    requires
        protocols.lookup("local"@) is Some,
    ensures
        match protocols.lookup("local"@).unwrap().config {
            FarmConfig::Local(l) => r == Some((l.max_local_cores, l.max_local_memory)),
            FarmConfig::Farm(_) => r is None,
        },
{
    let p = protocols.get("local").unwrap();
    match &p.config {
        FarmConfig::Local(config) => Some((config.max_local_cores, config.max_local_memory)),
        FarmConfig::Farm(_) => None,
    }
}

/// The machine limits of the local protocol as a spec, when the local
/// protocol is set up as the local machine.
pub fn local_limits(protocols: &ProtocolMap) -> (r: Option<Spec>)
    ensures
        match protocols.lookup("local"@) {
            Some(p) => match p.config {
                FarmConfig::Local(l) => r == Some(Spec { memory: l.max_local_memory, cores: l.max_local_cores }),
                FarmConfig::Farm(_) => r is None,
            },
            None => r is None,
        },
{
    match protocols.get("local") {
        Some(p) => match &p.config {
            FarmConfig::Local(config) => Some(Spec { memory: config.max_local_memory, cores: config.max_local_cores }),
            FarmConfig::Farm(_) => None,
        },
        None => None,
    }
}

/// The path of a farm's launch script inside its protocol directory.
pub fn farm_script_path(farm_dir: &str) -> (p: String)
    ensures
        p@ == farm_dir@ + "/farm_script"@,
{
    let mut p = String::from_str(farm_dir);
    p.append("/farm_script");
    p
}

/// The path of a protocol's settings file inside its protocol directory.
pub fn farm_config_path(farm_dir: &str) -> (p: String)
    ensures
        p@ == farm_dir@ + "/config.json"@,
{
    let mut p = String::from_str(farm_dir);
    p.append("/config.json");
    p
}

/// After the protocols have been read from the protocol directory: the
/// default protocol must be among them, unless it is local or the map held
/// protocols already before the directory was read.
pub fn check_default_protocol(had_protocols: bool, found_default: bool, default_protocol: &str) -> (r:
    Result<(), String>)
    ensures
        r is Ok <==> (had_protocols || found_default || default_protocol@ == "local"@),
        r matches Err(m) ==> m@ == "Failed to set "@ + default_protocol@
            + " as default protocol. Please provide a valid default protocol to be set."@,
{
    if !(had_protocols || found_default) && !str_eq(default_protocol, "local") {
        let mut m = String::from_str("Failed to set ");
        m.append(default_protocol);
        m.append(" as default protocol. Please provide a valid default protocol to be set.");
        return Err(m);
    }
    Ok(())
}

} // verus!
