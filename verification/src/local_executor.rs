//! The local job executor: which queued local jobs fit into the machine's
//! free resources, and what to do with a job that is handed to it.

use vstd::prelude::*;
use std::collections::HashMap;
use crate::farm::{envs_view, disk_envs, config_local_disk, config_disk_threshold,
    get_envs, local_limits, resolve_protocol, FarmConfig, ProtocolMap};
use crate::hashing::spec_hash;
use crate::job::{job_category, job_spec, Job};
use crate::spec::{can_add, can_remove, fits_within, less_than, Spec};
use crate::text::str_eq;

verus! {

broadcast use vstd::std_specs::hash::group_hash_axioms;

/// The index of the first spec that fits into `current`.
pub open spec fn is_first_fit(specs: Seq<Spec>, current: Spec, i: int) -> bool {
    &&& 0 <= i < specs.len()
    &&& fits_within(specs[i], current)
    &&& forall|k: int| 0 <= k < i ==> !fits_within(#[trigger] specs[k], current)
}

/// Whether no spec fits into `current`.
pub open spec fn none_fits(specs: Seq<Spec>, current: Spec) -> bool {
    forall|k: int| 0 <= k < specs.len() ==> !fits_within(#[trigger] specs[k], current)
}

/// The index of the first spec that fits into `current_spec`.
pub fn get_required_spec_index(specs: &Vec<Spec>, current_spec: &Spec) -> (r: Option<usize>)
    ensures
        match r {
            Some(i) => is_first_fit(specs@, *current_spec, i as int),
            None => none_fits(specs@, *current_spec),
        },
{
    let mut i: usize = 0;
    while i < specs.len()
        invariant
            i <= specs@.len(),
            forall|k: int| 0 <= k < i ==> !fits_within(#[trigger] specs@[k], *current_spec),
        decreases specs@.len() - i,
    {
        if specs[i].fits(current_spec) {
            return Some(i);
        }
        i = i + 1;
    }
    None
}

/// Walks the specs in order and takes, for each one whose hash has an entry
/// in the map, that entry's category, removing the entry. Returns the
/// categories taken and the map that remains.
pub open spec fn take_categories(specs: Seq<Spec>, m: Map<u64, u64>) -> (Seq<u64>, Map<u64, u64>)
    decreases specs.len(),
{
    if specs.len() == 0 {
        (Seq::empty(), m)
    } else {
        let h = spec_hash(specs[0]);
        if m.contains_key(h) {
            let rest = take_categories(specs.drop_first(), m.remove(h));
            (seq![m[h]] + rest.0, rest.1)
        } else {
            take_categories(specs.drop_first(), m)
        }
    }
}

/// The categories that can be started with the resources in `current`: from
/// the first spec that fits, every queued spec in turn (see
/// `take_categories`).
pub open spec fn queued_categories(specs: Seq<Spec>, m: Map<u64, u64>, current: Spec) -> (Seq<u64>, Map<u64, u64>) {
    if exists|i: int| is_first_fit(specs, current, i) {
        let i = choose|i: int| is_first_fit(specs, current, i);
        take_categories(specs.subrange(i, specs.len() as int), m)
    } else {
        (Seq::empty(), m)
    }
}

proof fn lemma_first_fit_unique(specs: Seq<Spec>, current: Spec, i: int, j: int)
    requires
        is_first_fit(specs, current, i),
        is_first_fit(specs, current, j),
    ensures
        i == j,
{
    if i < j {
        assert(!fits_within(specs[i], current));
    } else if j < i {
        assert(!fits_within(specs[j], current));
    }
}

/// Walking a list of specs takes, for each spec, the category queued under
/// its hash: every category taken is queued under the hash of one of the
/// specs; an entry whose hash is that of no spec stays as it was; no entry
/// for the hash of a spec is left; and nothing else is added.
proof fn lemma_take_categories(ss: Seq<Spec>, m: Map<u64, u64>)
    ensures
        ({
            let t = take_categories(ss, m);
            &&& forall|x: u64| #[trigger] t.0.contains(x) ==> exists|j: int|
                0 <= j < ss.len() && #[trigger] m.contains_key(spec_hash(ss[j])) && m[spec_hash(ss[j])] == x
            &&& forall|k: u64| #[trigger] m.contains_key(k) && (forall|j: int| 0 <= j < ss.len()
                ==> spec_hash(#[trigger] ss[j]) != k) ==> t.1.contains_key(k) && t.1[k] == m[k]
            &&& forall|j: int| 0 <= j < ss.len() ==> !t.1.contains_key(spec_hash(#[trigger] ss[j]))
            &&& forall|k: u64| #[trigger] t.1.contains_key(k) ==> m.contains_key(k) && t.1[k] == m[k]
        }),
    decreases ss.len(),
{
    if ss.len() > 0 {
        let h = spec_hash(ss[0]);
        let rest = ss.drop_first();
        let m1 = if m.contains_key(h) { m.remove(h) } else { m };
        lemma_take_categories(rest, m1);
        let t = take_categories(ss, m);
        let tr = take_categories(rest, m1);
        assert(t.1 == tr.1);
        assert forall|x: u64| #[trigger] t.0.contains(x) implies exists|j: int|
            0 <= j < ss.len() && #[trigger] m.contains_key(spec_hash(ss[j])) && m[spec_hash(ss[j])] == x by {
            if m.contains_key(h) {
                assert(t.0 == seq![m[h]] + tr.0);
                if x == m[h] {
                    assert(m.contains_key(spec_hash(ss[0])));
                } else {
                    let i = choose|i: int| 0 <= i < t.0.len() && t.0[i] == x;
                    assert(tr.0[i - 1] == x);
                    assert(tr.0.contains(x));
                    let j = choose|j: int| 0 <= j < rest.len() && #[trigger] m1.contains_key(spec_hash(rest[j]))
                        && m1[spec_hash(rest[j])] == x;
                    assert(ss[j + 1] == rest[j]);
                    assert(m.contains_key(spec_hash(ss[j + 1])));
                }
            } else {
                assert(t.0 == tr.0);
                let j = choose|j: int| 0 <= j < rest.len() && #[trigger] m1.contains_key(spec_hash(rest[j]))
                    && m1[spec_hash(rest[j])] == x;
                assert(ss[j + 1] == rest[j]);
                assert(m.contains_key(spec_hash(ss[j + 1])));
            }
        }
        assert forall|k: u64| #[trigger] m.contains_key(k) && (forall|j: int| 0 <= j < ss.len()
            ==> spec_hash(#[trigger] ss[j]) != k) implies t.1.contains_key(k) && t.1[k] == m[k] by {
            assert(spec_hash(ss[0]) != k);
            assert forall|j: int| 0 <= j < rest.len() implies spec_hash(#[trigger] rest[j]) != k by {
                assert(ss[j + 1] == rest[j]);
            }
            assert(m1.contains_key(k));
        }
        assert forall|j: int| 0 <= j < ss.len() implies !t.1.contains_key(spec_hash(#[trigger] ss[j])) by {
            if j > 0 {
                assert(rest[j - 1] == ss[j]);
            }
        }
    }
}

/// The queued categories started with the resources in `current` are only
/// those of the first spec that fits and of the specs after it: each
/// category started is queued under the hash of such a spec; the entries of
/// those specs leave the map; and every other entry (such as that of a
/// larger spec before the first fit, which does not fit) stays queued as it
/// was. When no spec fits, nothing starts and nothing leaves the queue.
pub proof fn lemma_queued_categories_fit(specs: Seq<Spec>, m: Map<u64, u64>, current: Spec)
    ensures
        ({
            let (cats, m1) = queued_categories(specs, m, current);
            &&& forall|i: int| #[trigger] is_first_fit(specs, current, i) ==> {
                &&& forall|x: u64| #[trigger] cats.contains(x) ==> exists|j: int| i <= j < specs.len()
                    && #[trigger] m.contains_key(spec_hash(specs[j])) && m[spec_hash(specs[j])] == x
                &&& forall|k: u64| #[trigger] m.contains_key(k) && (forall|j: int| i <= j < specs.len()
                    ==> spec_hash(#[trigger] specs[j]) != k) ==> m1.contains_key(k) && m1[k] == m[k]
                &&& forall|j: int| i <= j < specs.len() ==> !m1.contains_key(spec_hash(#[trigger] specs[j]))
            }
            &&& forall|k: u64| #[trigger] m1.contains_key(k) ==> m.contains_key(k) && m1[k] == m[k]
            &&& none_fits(specs, current) ==> cats.len() == 0 && m1 == m
        }),
{
    let (cats, m1) = queued_categories(specs, m, current);
    if exists|i: int| is_first_fit(specs, current, i) {
        let i0 = choose|i: int| is_first_fit(specs, current, i);
        let ss = specs.subrange(i0, specs.len() as int);
        lemma_take_categories(ss, m);
        assert forall|i: int| #[trigger] is_first_fit(specs, current, i) implies {
            &&& forall|x: u64| #[trigger] cats.contains(x) ==> exists|j: int| i <= j < specs.len()
                && #[trigger] m.contains_key(spec_hash(specs[j])) && m[spec_hash(specs[j])] == x
            &&& forall|k: u64| #[trigger] m.contains_key(k) && (forall|j: int| i <= j < specs.len()
                ==> spec_hash(#[trigger] specs[j]) != k) ==> m1.contains_key(k) && m1[k] == m[k]
            &&& forall|j: int| i <= j < specs.len() ==> !m1.contains_key(spec_hash(#[trigger] specs[j]))
        } by {
            lemma_first_fit_unique(specs, current, i, i0);
            assert forall|x: u64| #[trigger] cats.contains(x) implies exists|j: int| i <= j < specs.len()
                && #[trigger] m.contains_key(spec_hash(specs[j])) && m[spec_hash(specs[j])] == x by {
                let j = choose|j: int| 0 <= j < ss.len() && #[trigger] m.contains_key(spec_hash(ss[j]))
                    && m[spec_hash(ss[j])] == x;
                assert(ss[j] == specs[i + j]);
                assert(m.contains_key(spec_hash(specs[i + j])));
            }
            assert forall|k: u64| #[trigger] m.contains_key(k) && (forall|j: int| i <= j < specs.len()
                ==> spec_hash(#[trigger] specs[j]) != k) implies m1.contains_key(k) && m1[k] == m[k] by {
                assert forall|j: int| 0 <= j < ss.len() implies spec_hash(#[trigger] ss[j]) != k by {
                    assert(ss[j] == specs[i + j]);
                }
            }
            assert forall|j: int| i <= j < specs.len() implies !m1.contains_key(spec_hash(#[trigger] specs[j])) by {
                assert(ss[j - i] == specs[j]);
            }
        }
    }
}

/// Takes from the queue the categories whose specs can be started with the
/// resources in `current_spec` (see `queued_categories`).
pub fn get_queued_job(specs: &Vec<Spec>, spec_job_mapper: &mut HashMap<u64, u64>, current_spec: Spec) -> (categories: Vec<u64>)
    ensures
        (categories@, final(spec_job_mapper)@) == queued_categories(specs@, old(spec_job_mapper)@, current_spec),
{
    let mut categories: Vec<u64> = Vec::new();
    let reqd_index = match get_required_spec_index(specs, &current_spec) {
        Some(index) => index,
        None => {
            return categories;
        },
    };
    proof {
        assert forall|i: int| is_first_fit(specs@, current_spec, i) implies i == reqd_index by {
            lemma_first_fit_unique(specs@, current_spec, i, reqd_index as int);
        }
    }
    let ghost total = take_categories(specs@.subrange(reqd_index as int, specs@.len() as int), old(spec_job_mapper)@);
    let n = specs.len();
    let mut index = reqd_index;
    while index < n
        invariant
            n == specs@.len(),
            reqd_index <= index <= n,
            total == take_categories(specs@.subrange(reqd_index as int, n as int), old(spec_job_mapper)@),
            total.0 == categories@ + take_categories(specs@.subrange(index as int, n as int), spec_job_mapper@).0,
            total.1 == take_categories(specs@.subrange(index as int, n as int), spec_job_mapper@).1,
        decreases n - index,
    {
        let spec = &specs[index];
        let ghost rest = specs@.subrange(index as int, n as int);
        assert(rest.drop_first() =~= specs@.subrange(index + 1, n as int));
        assert(rest[0] == *spec);
        let h = spec.get_hash();
        let ghost m = spec_job_mapper@;
        let ghost cats = categories@;
        match spec_job_mapper.remove(&h) {
            Some(category) => {
                categories.push(category);
                proof {
                    let t = take_categories(rest.drop_first(), m.remove(h));
                    assert(spec_job_mapper@ == m.remove(h));
                    assert(cats.push(category) + t.0 =~= cats + (seq![category] + t.0));
                }
            },
            None => {
                assert(spec_job_mapper@ =~= m);
            },
        }
        index = index + 1;
    }
    assert(specs@.subrange(n as int, n as int) =~= Seq::<Spec>::empty());
    categories
}

/// The categories to start next: those of the queue that fit into
/// `current_spec`, then, when none was found or both resources remain, those
/// of the low-priority queue.
pub fn get_queued_jobs(
    specs: &Vec<Spec>,
    spec_job_mapper: &mut HashMap<u64, u64>,
    low_priority_mapper: &mut HashMap<u64, u64>,
    current_spec: &Spec,
) -> (categories: Vec<u64>)
    ensures
        ({
            let first = queued_categories(specs@, old(spec_job_mapper)@, *current_spec);
            let take_low = first.0.len() == 0 || (current_spec.cores > 0 && current_spec.memory > 0);
            let second = queued_categories(specs@, old(low_priority_mapper)@, *current_spec);
            &&& final(spec_job_mapper)@ == first.1
            &&& take_low ==> categories@ == first.0 + second.0 && final(low_priority_mapper)@ == second.1
            &&& !take_low ==> categories@ == first.0 && final(low_priority_mapper)@ == old(low_priority_mapper)@
        }),
{
    let tmp_spec = *current_spec;
    let mut categories = get_queued_job(specs, spec_job_mapper, tmp_spec);
    if categories.len() == 0 || (tmp_spec.cores > 0 && tmp_spec.memory > 0) {
        let mut lower_priority_categories = get_queued_job(specs, low_priority_mapper, tmp_spec);
        categories.append(&mut lower_priority_categories);
    }
    categories
}

/// Whether no spec of the list compares less than the one after it: the
/// list runs from larger specs to smaller ones wherever they compare.
pub open spec fn sorted_desc(s: Seq<Spec>) -> bool {
    forall|k: int| 0 <= k < s.len() - 1 ==> !(#[trigger] less_than(s[k], s[k + 1]))
}

proof fn lemma_insert_keeps_sorted(out: Seq<Spec>, p: int, x: Spec)
    requires
        sorted_desc(out),
        0 <= p <= out.len(),
        p > 0 ==> !less_than(out[p - 1], x),
        p < out.len() ==> less_than(out[p], x),
    ensures
        sorted_desc(out.insert(p, x)),
{
    let r = out.insert(p, x);
    assert forall|k: int| 0 <= k < r.len() - 1 implies !(#[trigger] less_than(r[k], r[k + 1])) by {
        if k < p - 1 {
            assert(r[k] == out[k] && r[k + 1] == out[k + 1]);
            assert(!less_than(out[k], out[k + 1]));
        } else if k == p - 1 {
            assert(r[k] == out[p - 1] && r[k + 1] == x);
        } else if k == p {
            assert(r[k] == x && r[k + 1] == out[p]);
            crate::spec::lemma_less_asymmetric(out[p], x);
        } else {
            let j = k - 1;
            assert(r[k] == out[j] && r[k + 1] == out[j + 1]);
            assert(!less_than(out[j], out[j + 1]));
        }
    }
}

/// Sorts specs from larger to smaller, keeping the order of specs that do
/// not compare less than one another (a stable insertion sort).
fn sort_specs_desc(v: &Vec<Spec>) -> (out: Vec<Spec>)
    ensures
        out@.to_multiset() == v@.to_multiset(),
        sorted_desc(out@),
{
    broadcast use vstd::seq_lib::group_to_multiset_ensures;
    let mut out: Vec<Spec> = Vec::new();
    let n = v.len();
    let mut i: usize = 0;
    while i < n
        invariant
            n == v@.len(),
            i <= n,
            out@.to_multiset() == v@.subrange(0, i as int).to_multiset(),
            sorted_desc(out@),
        decreases n - i,
    {
        let x = v[i];
        let mut p = out.len();
        while p > 0 && out[p - 1].is_less_than(&x)
            invariant
                p <= out@.len(),
                p < out@.len() ==> less_than(out@[p as int], x),
            decreases p,
        {
            p = p - 1;
        }
        proof {
            lemma_insert_keeps_sorted(out@, p as int, x);
            vstd::seq_lib::to_multiset_insert(out@, p as int, x);
            assert(v@.subrange(0, i + 1) =~= v@.subrange(0, i as int).push(x));
            vstd::seq_lib::to_multiset_build(v@.subrange(0, i as int), x);
        }
        out.insert(p, x);
        i = i + 1;
    }
    assert(v@.subrange(0, n as int) =~= v@);
    out
}

/// Adds a spec to the list of queued specs, when it is not there already,
/// and sorts the list from larger to smaller specs.
pub fn update_specs(specs: &mut Vec<Spec>, spec: &Spec)
    ensures
        old(specs)@.contains(*spec) ==> final(specs)@ == old(specs)@,
        !old(specs)@.contains(*spec) ==> final(specs)@.to_multiset() == old(specs)@.push(*spec).to_multiset()
            && sorted_desc(final(specs)@),
        old(specs)@.no_duplicates() ==> final(specs)@.no_duplicates(),
{
    let mut found = false;
    let mut i: usize = 0;
    while i < specs.len()
        invariant
            i <= specs@.len(),
            specs@ == old(specs)@,
            found ==> specs@.contains(*spec),
            !found ==> forall|k: int| 0 <= k < i ==> specs@[k] != *spec,
        decreases specs@.len() - i,
    {
        if specs[i] == *spec {
            found = true;
            assert(specs@[i as int] == *spec);
        }
        i = i + 1;
    }
    if !found {
        specs.push(*spec);
        let sorted = sort_specs_desc(specs);
        *specs = sorted;
        proof {
            if old(specs)@.no_duplicates() {
                let pushed = old(specs)@.push(*spec);
                assert(pushed.no_duplicates()) by {
                    assert forall|i: int, j: int| 0 <= i < pushed.len() && 0 <= j < pushed.len() && i != j
                        implies pushed[i] != pushed[j] by {
                        if j == pushed.len() - 1 {
                            assert(old(specs)@[i] != *spec);
                        } else if i == pushed.len() - 1 {
                            assert(old(specs)@[j] != *spec);
                        }
                    }
                }
                pushed.lemma_multiset_has_no_duplicates();
                specs@.lemma_multiset_has_no_duplicates_conv();
            }
        }
    }
}

/// The resources left of `max_memory` and `max_cpus` once `used` is taken.
pub fn remaining_spec(max_memory: i64, max_cpus: i64, used: &Spec) -> (r: Spec)
    requires
        i64::MIN <= max_memory - used.memory <= i64::MAX,
        i64::MIN <= max_cpus - used.cores <= i64::MAX,
    ensures
        r.memory == max_memory - used.memory,
        r.cores == max_cpus - used.cores,
{
    Spec { memory: max_memory - used.memory, cores: max_cpus - used.cores }
}

/// What the local executor does with a job handed to it.
#[derive(Clone, Debug)]
pub enum LocalAction {
    /// Start the job on this machine now, with the given environment.
    RunLocally { job: Job, command: String, cache_dir: Option<String>, envs: Vec<(String, String)> },
    /// Hand the job to the worker manager, to run it on a farm.
    SubmitToWorkerManager { job: Job, command: String, cache_dir: Option<String> },
    /// Hand the job back to the job scheduler, to queue it until resources
    /// free up.
    QueueInScheduler { job: Job, command: String, cache_dir: Option<String> },
}

/// The state of the local job executor.
#[derive(Debug)]
pub struct LocalExecutor {
    /// The resources taken by the jobs running on this machine.
    pub current_spec: Spec,
    /// The limits of this machine.
    pub local_spec: Spec,
    /// Queued local jobs: spec hash to category.
    pub spec_job_mapper: HashMap<u64, u64>,
    /// Queued spark workers: spec hash to category.
    pub low_priority_mapper: HashMap<u64, u64>,
    /// The specs of the queued jobs, from larger to smaller.
    pub specs: Vec<Spec>,
}

/// The machine limits that a protocol map gives: those of the local
/// protocol when it is set up as the local machine, zero otherwise.
pub open spec fn limits_of(protocols: ProtocolMap) -> Spec {
    match protocols.lookup("local"@) {
        Some(p) => match p.config {
            FarmConfig::Local(l) => Spec { memory: l.max_local_memory, cores: l.max_local_cores },
            FarmConfig::Farm(_) => Spec { memory: 0, cores: 0 },
        },
        None => Spec { memory: 0, cores: 0 },
    }
}

/// The resources of a machine with the given limits that running jobs leave.
pub open spec fn free_resources(local: Spec, current: Spec) -> Spec {
    Spec { memory: (local.memory - current.memory) as i64, cores: (local.cores - current.cores) as i64 }
}

impl LocalExecutor {
    /// The specs of the queued jobs are kept from larger to smaller, each
    /// once.
    pub open spec fn specs_wf(&self) -> bool {
        sorted_desc(self.specs@) && self.specs@.no_duplicates()
    }

    /// Whether a job handed over now starts at once: nothing is queued
    /// locally, the job is local (or default, with no spark worker queued),
    /// and its spec fits into the free resources.
    pub open spec fn starts_now(&self, job: Job) -> bool {
        &&& self.spec_job_mapper@.is_empty()
        &&& (job.protocol@ == "local"@ || (self.low_priority_mapper@.is_empty()
            && job.protocol@ == "default"@))
        &&& fits_within(job_spec(job), free_resources(self.local_spec, self.current_spec))
    }

    /// Whether the free resources are computed for a job: nothing is queued
    /// locally and the job is local (or default, with no spark worker queued).
    pub open spec fn checks_resources(&self, job: Job) -> bool {
        &&& self.spec_job_mapper@.is_empty()
        &&& (job.protocol@ == "local"@ || (self.low_priority_mapper@.is_empty()
            && job.protocol@ == "default"@))
    }

    /// An executor with nothing running or queued, and the limits of the
    /// local protocol.
    pub fn new(protocols: &ProtocolMap) -> (r: LocalExecutor)
        ensures
            r.current_spec == (Spec { memory: 0, cores: 0 }),
            r.local_spec == limits_of(*protocols),
            r.spec_job_mapper@.is_empty(),
            r.low_priority_mapper@.is_empty(),
            r.specs@.len() == 0,
            r.specs_wf(),
    {
        let local_spec = match local_limits(protocols) {
            Some(s) => s,
            None => Spec { memory: 0, cores: 0 },
        };
        LocalExecutor {
            current_spec: Spec { memory: 0, cores: 0 },
            local_spec,
            spec_job_mapper: HashMap::new(),
            low_priority_mapper: HashMap::new(),
            specs: Vec::new(),
        }
    }

    /// Takes a job: starts it when it fits now (see `starts_now`), hands a
    /// non-local job to the worker manager, and queues a local one by its
    /// spec (spark workers in the low-priority queue).
    pub fn run_job(
        &mut self,
        job: Job,
        command: String,
        cache_dir: Option<String>,
        protocols: &ProtocolMap,
        default_protocol: &str,
    ) -> (action: LocalAction)
        requires
            job.specs@.len() > 0,
            old(self).checks_resources(job) ==> can_remove(old(self).local_spec, old(self).current_spec),
            old(self).starts_now(job) ==> can_add(old(self).current_spec, job_spec(job)),
        ensures
            old(self).starts_now(job) ==> {
                &&& final(self).current_spec.cores == old(self).current_spec.cores + job_spec(job).cores
                &&& final(self).current_spec.memory == old(self).current_spec.memory + job_spec(job).memory
                &&& final(self).spec_job_mapper@ == old(self).spec_job_mapper@
                &&& final(self).low_priority_mapper@ == old(self).low_priority_mapper@
                &&& final(self).specs@ == old(self).specs@
                &&& action matches LocalAction::RunLocally { job: j, command: c, cache_dir: d, envs }
                    && j == job && c == command && d == cache_dir
                    && match protocols.lookup(resolve_protocol(job.protocol@, default_protocol@)) {
                        Some(p) => envs_view(envs@) == disk_envs(config_local_disk(p.config),
                            config_disk_threshold(p.config)),
                        None => envs@.len() == 0,
                    }
            },
            !old(self).starts_now(job) && job.protocol@ != "local"@ ==> {
                &&& final(self).current_spec == old(self).current_spec
                &&& final(self).spec_job_mapper@ == old(self).spec_job_mapper@
                &&& final(self).low_priority_mapper@ == old(self).low_priority_mapper@
                &&& final(self).specs@ == old(self).specs@
                &&& action == (LocalAction::SubmitToWorkerManager { job, command, cache_dir })
            },
            !old(self).starts_now(job) && job.protocol@ == "local"@ ==> {
                &&& final(self).current_spec == old(self).current_spec
                &&& (old(self).specs@.contains(job_spec(job)) ==> final(self).specs@ == old(self).specs@)
                &&& (!old(self).specs@.contains(job_spec(job)) ==> final(self).specs@.to_multiset()
                    == old(self).specs@.push(job_spec(job)).to_multiset() && sorted_desc(final(self).specs@))
                &&& (job.job_type@ != "spark_worker"@ ==> final(self).spec_job_mapper@
                    == old(self).spec_job_mapper@.insert(spec_hash(job_spec(job)), job_category(job))
                    && final(self).low_priority_mapper@ == old(self).low_priority_mapper@)
                &&& (job.job_type@ == "spark_worker"@ ==> final(self).low_priority_mapper@
                    == old(self).low_priority_mapper@.insert(spec_hash(job_spec(job)), job_category(job))
                    && final(self).spec_job_mapper@ == old(self).spec_job_mapper@)
                &&& action == (LocalAction::QueueInScheduler { job, command, cache_dir })
            },
            final(self).local_spec == old(self).local_spec,
            old(self).specs_wf() ==> final(self).specs_wf(),
    {
        let job_spec = job.get_spec();
        let is_local = str_eq(job.protocol.as_str(), "local");
        if self.spec_job_mapper.is_empty() && (is_local || (self.low_priority_mapper.is_empty()
            && str_eq(job.protocol.as_str(), "default"))) {
            let free = remaining_spec(self.local_spec.memory, self.local_spec.cores, &self.current_spec);
            if job_spec.fits(&free) {
                self.current_spec.add(&job_spec);
                let envs = get_envs(protocols, job.protocol.as_str(), default_protocol);
                return LocalAction::RunLocally { job, command, cache_dir, envs };
            }
        }
        if !is_local {
            LocalAction::SubmitToWorkerManager { job, command, cache_dir }
        } else {
            let spec_hash = job_spec.get_hash();
            update_specs(&mut self.specs, &job_spec);
            let category = job.get_category();
            if !str_eq(job.job_type.as_str(), "spark_worker") {
                self.spec_job_mapper.insert(spec_hash, category);
            } else {
                self.low_priority_mapper.insert(spec_hash, category);
            }
            LocalAction::QueueInScheduler { job, command, cache_dir }
        }
    }

    /// A local job finished with the given spec: frees its resources and
    /// takes from the queues the categories that now fit (see
    /// `get_queued_jobs`); nothing when both queues are empty.
    pub fn update_local_usage(&mut self, spec: &Spec) -> (categories: Vec<u64>)
        requires
            can_remove(old(self).current_spec, *spec),
            !(old(self).spec_job_mapper@.is_empty() && old(self).low_priority_mapper@.is_empty())
                ==> i64::MIN <= old(self).local_spec.memory - (old(self).current_spec.memory - spec.memory) <= i64::MAX
                && i64::MIN <= old(self).local_spec.cores - (old(self).current_spec.cores - spec.cores) <= i64::MAX,
        ensures
            final(self).current_spec.cores == old(self).current_spec.cores - spec.cores,
            final(self).current_spec.memory == old(self).current_spec.memory - spec.memory,
            final(self).local_spec == old(self).local_spec,
            final(self).specs@ == old(self).specs@,
            old(self).specs_wf() ==> final(self).specs_wf(),
            old(self).spec_job_mapper@.is_empty() && old(self).low_priority_mapper@.is_empty() ==> {
                &&& categories@.len() == 0
                &&& final(self).spec_job_mapper@ == old(self).spec_job_mapper@
                &&& final(self).low_priority_mapper@ == old(self).low_priority_mapper@
            },
            !(old(self).spec_job_mapper@.is_empty() && old(self).low_priority_mapper@.is_empty()) ==> ({
                let free = free_resources(final(self).local_spec, final(self).current_spec);
                let first = queued_categories(old(self).specs@, old(self).spec_job_mapper@, free);
                let take_low = first.0.len() == 0 || (free.cores > 0 && free.memory > 0);
                let second = queued_categories(old(self).specs@, old(self).low_priority_mapper@, free);
                &&& final(self).spec_job_mapper@ == first.1
                &&& take_low ==> categories@ == first.0 + second.0 && final(self).low_priority_mapper@ == second.1
                &&& !take_low ==> categories@ == first.0 && final(self).low_priority_mapper@
                    == old(self).low_priority_mapper@
            }),
    {
        self.current_spec.remove(spec);
        if self.spec_job_mapper.is_empty() && self.low_priority_mapper.is_empty() {
            return Vec::new();
        }
        let free = remaining_spec(self.local_spec.memory, self.local_spec.cores, &self.current_spec);
        get_queued_jobs(&self.specs, &mut self.spec_job_mapper, &mut self.low_priority_mapper, &free)
    }

    /// The protocols were read again: takes the limits of the local protocol,
    /// when it is set up as the local machine.
    pub fn update_local_farm(&mut self, protocols: &ProtocolMap)
        ensures
            final(self).local_spec == (match local_limits_spec(*protocols) {
                Some(s) => s,
                None => old(self).local_spec,
            }),
            final(self).current_spec == old(self).current_spec,
            final(self).spec_job_mapper@ == old(self).spec_job_mapper@,
            final(self).low_priority_mapper@ == old(self).low_priority_mapper@,
            final(self).specs@ == old(self).specs@,
            old(self).specs_wf() ==> final(self).specs_wf(),
    {
        if let Some(s) = local_limits(protocols) {
            self.local_spec = s;
        }
    }
}

/// The limits of the local protocol, when it is set up as the local machine.
pub open spec fn local_limits_spec(protocols: ProtocolMap) -> Option<Spec> {
    match protocols.lookup("local"@) {
        Some(p) => match p.config {
            FarmConfig::Local(l) => Some(Spec { memory: l.max_local_memory, cores: l.max_local_cores }),
            FarmConfig::Farm(_) => None,
        },
        None => None,
    }
}

} // verus!
