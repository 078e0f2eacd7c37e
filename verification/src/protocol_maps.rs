//! Maps keyed by protocol name, as the worker manager keeps them: the
//! categories waiting for a worker of each protocol, and the running workers
//! of each protocol with the jobs each one runs.

use vstd::prelude::*;
use std::collections::HashMap;
use std::collections::VecDeque;
use crate::queues::without;
use crate::text::str_eq;

verus! {

broadcast use vstd::std_specs::hash::group_hash_axioms;

/// `i` is the first position of `name` among `names`.
pub open spec fn is_first_index(names: Seq<String>, name: Seq<char>, i: int) -> bool {
    &&& 0 <= i < names.len()
    &&& names[i]@ == name
    &&& forall|j: int| 0 <= j < i ==> names[j]@ != name
}

/// The first position of `name` among `names`, if it occurs.
pub open spec fn first_index(names: Seq<String>, name: Seq<char>) -> Option<int> {
    if exists|i: int| is_first_index(names, name, i) {
        Some(choose|i: int| is_first_index(names, name, i))
    } else {
        None
    }
}

/// A name has one first position.
proof fn lemma_first_unique(names: Seq<String>, name: Seq<char>, i: int, k: int)
    requires
        is_first_index(names, name, i),
        is_first_index(names, name, k),
    ensures
        i == k,
{
    if i < k {
        assert(names[i]@ != name);
    }
    if k < i {
        assert(names[k]@ != name);
    }
}

/// `first_index` is the position that `is_first_index` describes.
proof fn lemma_first_index_at(names: Seq<String>, name: Seq<char>, i: int)
    requires
        is_first_index(names, name, i),
    ensures
        first_index(names, name) == Some(i),
{
    let k = choose|k: int| is_first_index(names, name, k);
    lemma_first_unique(names, name, i, k);
}

/// Appending a name that does not occur yet puts it last and leaves the
/// first positions of the other names as they were.
proof fn lemma_first_index_push(names: Seq<String>, s: String, n: Seq<char>)
    requires
        first_index(names, s@) is None,
    ensures
        n == s@ ==> first_index(names.push(s), n) == Some(names.len() as int),
        n != s@ ==> first_index(names.push(s), n) == first_index(names, n),
{
    let t = names.push(s);
    if n == s@ {
        assert forall|j: int| 0 <= j < names.len() implies t[j]@ != n by {
            if names[j]@ == n {
                lemma_first_exists(names, n, j);
            }
        }
        lemma_first_index_at(t, n, names.len() as int);
    } else {
        match first_index(names, n) {
            Some(i) => {
                assert(is_first_index(t, n, i));
                lemma_first_index_at(t, n, i);
            },
            None => {
                assert forall|j: int| 0 <= j < t.len() implies t[j]@ != n by {
                    if j < names.len() && t[j]@ == n {
                        lemma_first_exists(names, n, j);
                    }
                }
            },
        }
    }
}

/// A name that occurs somewhere has a first position.
proof fn lemma_first_exists(names: Seq<String>, name: Seq<char>, j: int)
    requires
        0 <= j < names.len(),
        names[j]@ == name,
    ensures
        first_index(names, name) is Some,
    decreases j,
{
    if forall|m: int| 0 <= m < j ==> names[m]@ != name {
        assert(is_first_index(names, name, j));
    } else {
        let m = choose|m: int| 0 <= m < j && names[m]@ == name;
        lemma_first_exists(names, name, m);
    }
}

/// The first position of `name` among `names`.
fn position(names: &Vec<String>, name: &str) -> (r: Option<usize>)
    ensures
        match r {
            Some(i) => first_index(names@, name@) == Some(i as int),
            None => first_index(names@, name@) is None,
        },
{
    let mut i: usize = 0;
    while i < names.len()
        invariant
            i <= names@.len(),
            forall|j: int| 0 <= j < i ==> names@[j]@ != name@,
        decreases names@.len() - i,
    {
        if str_eq(names[i].as_str(), name) {
            proof { lemma_first_index_at(names@, name@, i as int); }
            return Some(i);
        }
        i = i + 1;
    }
    None
}

/// Queues of categories, one per protocol name.
#[derive(Debug)]
pub struct ProtocolQueues {
    pub names: Vec<String>,
    pub queues: Vec<VecDeque<u64>>,
}

impl ProtocolQueues {
    /// Each name has its queue.
    pub open spec fn wf(&self) -> bool {
        self.names@.len() == self.queues@.len()
    }

    /// The queue of each protocol name.
    pub open spec fn view(&self) -> Map<Seq<char>, Seq<u64>> {
        Map::new(
            |n: Seq<char>| first_index(self.names@, n) is Some,
            |n: Seq<char>| self.queues@[first_index(self.names@, n).unwrap()]@,
        )
    }

    /// No queue at all.
    pub fn new() -> (r: ProtocolQueues)
        ensures
            r.wf(),
            r.view() == Map::<Seq<char>, Seq<u64>>::empty(),
    {
        let r = ProtocolQueues { names: Vec::new(), queues: Vec::new() };
        assert(r.view() =~= Map::<Seq<char>, Seq<u64>>::empty());
        r
    }

    /// Appends a category to a protocol's queue, creating the queue when the
    /// protocol has none.
    pub fn push_back(&mut self, name: &str, c: u64)
        requires
            old(self).wf(),
        ensures
            final(self).wf(),
            final(self).view() == old(self).view().insert(
                name@,
                if old(self).view().contains_key(name@) {
                    old(self).view()[name@].push(c)
                } else {
                    seq![c]
                },
            ),
    {
        match position(&self.names, name) {
            Some(i) => {
                let mut q = self.queues[i].clone();
                q.push_back(c);
                self.queues.set(i, q);
                assert(self.view() =~= old(self).view().insert(name@, old(self).view()[name@].push(c)));
            },
            None => {
                let mut q: VecDeque<u64> = VecDeque::new();
                q.push_back(c);
                let s = String::from_str(name);
                proof {
                    assert forall|n: Seq<char>| #![auto] true implies (n == s@ ==> first_index(
                        self.names@.push(s), n) == Some(self.names@.len() as int)) && (n != s@ ==> first_index(
                        self.names@.push(s), n) == first_index(self.names@, n)) by {
                        lemma_first_index_push(self.names@, s, n);
                    }
                }
                self.names.push(s);
                self.queues.push(q);
                assert(q@ =~= seq![c]);
                assert(self.view() =~= old(self).view().insert(name@, seq![c]));
            },
        }
    }

    /// Takes the first category of a protocol's queue; the queue stays, even
    /// when it becomes empty.
    pub fn pop_front(&mut self, name: &str) -> (r: Option<u64>)
        requires
            old(self).wf(),
        ensures
            final(self).wf(),
            !old(self).view().contains_key(name@) ==> r is None && final(self).view() == old(self).view(),
            old(self).view().contains_key(name@) && old(self).view()[name@].len() == 0 ==> r is None
                && final(self).view() == old(self).view(),
            old(self).view().contains_key(name@) && old(self).view()[name@].len() > 0 ==> r == Some(
                old(self).view()[name@][0],
            ) && final(self).view() == old(self).view().insert(name@, old(self).view()[name@].drop_first()),
    {
        match position(&self.names, name) {
            Some(i) => {
                let mut q = self.queues[i].clone();
                let r = q.pop_front();
                match r {
                    Some(_) => {
                        self.queues.set(i, q);
                        assert(self.view() =~= old(self).view().insert(name@, old(self).view()[name@].drop_first()));
                    },
                    None => {},
                }
                r
            },
            None => None,
        }
    }
}

/// The jobs of each worker of a protocol, by worker hash.
#[derive(Debug)]
pub struct WorkerJobs {
    pub map: HashMap<u64, Vec<u64>>,
}

impl View for WorkerJobs {
    type V = Map<u64, Seq<u64>>;

    open spec fn view(&self) -> Map<u64, Seq<u64>> {
        self.map@.map_values(|v: Vec<u64>| v@)
    }
}

fn copy_jobs(v: &Vec<u64>) -> (r: Vec<u64>)
    ensures
        r@ == v@,
{
    let mut r: Vec<u64> = Vec::new();
    let mut i: usize = 0;
    while i < v.len()
        invariant
            i <= v@.len(),
            r@ == v@.subrange(0, i as int),
        decreases v@.len() - i,
    {
        r.push(v[i]);
        assert(v@.subrange(0, i + 1) =~= v@.subrange(0, i as int).push(v@[i as int]));
        i = i + 1;
    }
    assert(v@.subrange(0, v@.len() as int) =~= v@);
    r
}

fn remove_all_jobs(v: &Vec<u64>, h: u64) -> (r: Vec<u64>)
    ensures
        r@ == without(v@, h),
{
    let mut out: Vec<u64> = Vec::new();
    let n = v.len();
    let mut i: usize = 0;
    while i < n
        invariant
            n == v@.len(),
            i <= n,
            out@ == without(v@.subrange(0, i as int), h),
        decreases n - i,
    {
        let x = v[i];
        assert(v@.subrange(0, i + 1).drop_last() =~= v@.subrange(0, i as int));
        if x != h {
            out.push(x);
        }
        i = i + 1;
    }
    assert(v@.subrange(0, n as int) =~= v@);
    out
}

impl WorkerJobs {
    /// No worker.
    pub fn new() -> (r: WorkerJobs)
        ensures
            r@ == Map::<u64, Seq<u64>>::empty(),
    {
        let r = WorkerJobs { map: HashMap::new() };
        assert(r@ =~= Map::<u64, Seq<u64>>::empty());
        r
    }

    /// The number of workers.
    pub fn len(&self) -> (r: usize)
        ensures
            r == self@.len(),
    {
        proof {
            assert(self.map@.dom() =~= self@.dom());
        }
        self.map.len()
    }

    /// The jobs of a worker.
    pub fn get(&self, worker: u64) -> (r: Option<&Vec<u64>>)
        ensures
            match r {
                Some(v) => self@.contains_key(worker) && v@ == self@[worker],
                None => !self@.contains_key(worker),
            },
    {
        self.map.get(&worker)
    }

    /// Sets the jobs of a worker.
    pub fn insert(&mut self, worker: u64, jobs: Vec<u64>)
        ensures
            final(self)@ == old(self)@.insert(worker, jobs@),
    {
        self.map.insert(worker, jobs);
        assert(self@ =~= old(self)@.insert(worker, jobs@));
    }

    /// Removes a worker, giving back its jobs.
    pub fn remove(&mut self, worker: u64) -> (r: Option<Vec<u64>>)
        ensures
            final(self)@ == old(self)@.remove(worker),
            match r {
                Some(v) => old(self)@.contains_key(worker) && v@ == old(self)@[worker],
                None => !old(self)@.contains_key(worker),
            },
    {
        let r = self.map.remove(&worker);
        assert(self@ =~= old(self)@.remove(worker));
        r
    }

    /// Adds a job to a worker's jobs, creating the worker's entry when it has
    /// none.
    pub fn add_job(&mut self, worker: u64, job: u64)
        ensures
            final(self)@ == old(self)@.insert(
                worker,
                if old(self)@.contains_key(worker) {
                    old(self)@[worker].push(job)
                } else {
                    seq![job]
                },
            ),
    {
        let mut v = match self.map.get(&worker) {
            Some(v) => copy_jobs(v),
            None => Vec::new(),
        };
        v.push(job);
        self.insert(worker, v);
        assert(if old(self)@.contains_key(worker) {
            old(self)@[worker].push(job)
        } else {
            seq![job]
        } =~= v@);
    }

    /// Drops every occurrence of a job from a worker's jobs, when the worker
    /// has an entry.
    pub fn drop_job(&mut self, worker: u64, job: u64)
        ensures
            old(self)@.contains_key(worker) ==> final(self)@ == old(self)@.insert(worker, without(old(self)@[worker], job)),
            !old(self)@.contains_key(worker) ==> final(self)@ == old(self)@,
    {
        match self.map.get(&worker) {
            Some(v) => {
                let r = remove_all_jobs(v, job);
                self.insert(worker, r);
            },
            None => {},
        }
    }
}

/// Whether a list of jobs holds a job.
pub fn has_job(v: &Vec<u64>, job: u64) -> (r: bool)
    ensures
        r == v@.contains(job),
{
    let mut i: usize = 0;
    while i < v.len()
        invariant
            i <= v@.len(),
            forall|k: int| 0 <= k < i ==> v@[k] != job,
        decreases v@.len() - i,
    {
        if v[i] == job {
            assert(v@[i as int] == job);
            return true;
        }
        i = i + 1;
    }
    false
}

/// The running workers of each protocol name, with their jobs.
#[derive(Debug)]
pub struct RunningWorkers {
    pub names: Vec<String>,
    pub workers: Vec<WorkerJobs>,
}

impl RunningWorkers {
    /// Each name has its workers.
    pub open spec fn wf(&self) -> bool {
        self.names@.len() == self.workers@.len()
    }

    /// The workers of each protocol name.
    pub open spec fn view(&self) -> Map<Seq<char>, Map<u64, Seq<u64>>> {
        Map::new(
            |n: Seq<char>| first_index(self.names@, n) is Some,
            |n: Seq<char>| self.workers@[first_index(self.names@, n).unwrap()]@,
        )
    }

    /// No protocol at all.
    pub fn new() -> (r: RunningWorkers)
        ensures
            r.wf(),
            r.view() == Map::<Seq<char>, Map<u64, Seq<u64>>>::empty(),
    {
        let r = RunningWorkers { names: Vec::new(), workers: Vec::new() };
        assert(r.view() =~= Map::<Seq<char>, Map<u64, Seq<u64>>>::empty());
        r
    }

    /// The workers of a protocol.
    pub fn get(&self, name: &str) -> (r: Option<&WorkerJobs>)
        requires
            self.wf(),
        ensures
            match r {
                Some(w) => self.view().contains_key(name@) && w@ == self.view()[name@],
                None => !self.view().contains_key(name@),
            },
    {
        match position(&self.names, name) {
            Some(i) => Some(&self.workers[i]),
            None => None,
        }
    }

    /// Replaces the workers of a protocol.
    pub fn put(&mut self, name: &str, w: WorkerJobs)
        requires
            old(self).wf(),
        ensures
            final(self).wf(),
            final(self).view() == old(self).view().insert(name@, w@),
    {
        let ghost wv = w@;
        match position(&self.names, name) {
            Some(i) => {
                self.workers.set(i, w);
                assert(self.view() =~= old(self).view().insert(name@, wv));
            },
            None => {
                let s = String::from_str(name);
                proof {
                    assert forall|n: Seq<char>| #![auto] true implies (n == s@ ==> first_index(
                        self.names@.push(s), n) == Some(self.names@.len() as int)) && (n != s@ ==> first_index(
                        self.names@.push(s), n) == first_index(self.names@, n)) by {
                        lemma_first_index_push(self.names@, s, n);
                    }
                }
                self.names.push(s);
                self.workers.push(w);
                assert(self.view() =~= old(self).view().insert(name@, wv));
            },
        }
    }

    /// Takes the workers of a protocol out, leaving an empty entry in their
    /// place; nothing changes for an unknown protocol.
    pub fn take(&mut self, name: &str) -> (r: Option<WorkerJobs>)
        requires
            old(self).wf(),
        ensures
            final(self).wf(),
            match r {
                Some(w) => old(self).view().contains_key(name@) && w@ == old(self).view()[name@]
                    && final(self).view() == old(self).view().insert(name@, Map::empty()),
                None => !old(self).view().contains_key(name@) && final(self).view() == old(self).view(),
            },
    {
        match position(&self.names, name) {
            Some(i) => {
                let mut w = WorkerJobs::new();
                std::mem::swap(&mut w, &mut self.workers[i]);
                assert(self.view() =~= old(self).view().insert(name@, Map::empty()));
                Some(w)
            },
            None => None,
        }
    }
}

} // verus!
