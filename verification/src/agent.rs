//! The agent that runs on a farm worker: the records it exchanges with the
//! controller, the jobs it runs (by job hash, with their process ids), and
//! its watch for an idle worker, which asks the controller twice to kill
//! it before it ends itself.

use vstd::prelude::*;
use std::collections::HashMap;
use crate::status::Status;

verus! {

broadcast use vstd::std_specs::hash::group_hash_axioms;

/// Where a job of an agent runs: a process, or a URL.
#[derive(Clone, Debug, PartialEq, Eq)]
pub enum Identifier {
    Pid(u32),
    Url(String),
}

/// A job as an agent reports it.
#[derive(Clone, Debug)]
pub struct Job {
    pub job_hash: u64,
    pub job_name: String,
    pub job_type: String,
    pub category: u64,
}

/// A worker as an agent reports it.
#[derive(Clone, Debug, PartialEq, Eq)]
pub struct Worker {
    pub name: String,
    pub status: Status,
    pub identifier: Option<String>,
    pub job_id: Option<String>,
    pub protocol: String,
}

/// The resources an agent offers.
#[derive(Clone, Debug)]
pub struct Config {
    pub max_memory: i64,
    pub max_cores: i64,
    pub parent_pids: Vec<u32>,
}

/// The name a job's metrics are kept under when the job has no name.
pub fn job_name_or_spark(job_name: &Option<String>) -> (r: String)
    ensures
        r@ == match job_name {
            Some(n) => n@,
            None => "spark"@,
        },
{
    match job_name {
        Some(n) => n.clone(),
        None => String::from_str("spark"),
    }
}

/// The jobs an agent runs, by job hash, with their process ids.
#[derive(Debug)]
pub struct RunningJobs {
    pub map: HashMap<u64, u32>,
}

impl View for RunningJobs {
    type V = Map<u64, u32>;

    open spec fn view(&self) -> Map<u64, u32> {
        self.map@
    }
}

impl RunningJobs {
    /// No job.
    pub fn new() -> (r: RunningJobs)
        ensures
            r@ == Map::<u64, u32>::empty(),
    {
        RunningJobs { map: HashMap::new() }
    }

    /// Whether the agent runs no job (an idle watch then waits to hear of a
    /// new one).
    pub fn is_idle(&self) -> (r: bool)
        ensures
            r == self@.is_empty(),
    {
        proof {
            if self@.dom().len() == 0 {
                self@.dom().lemma_len0_is_empty();
                assert(self@ =~= Map::<u64, u32>::empty());
            }
            if self@ == Map::<u64, u32>::empty() {
                assert(self@.dom() =~= Set::<u64>::empty());
            }
        }
        self.map.len() == 0
    }

    /// A job started with a process id.
    pub fn started(&mut self, job_hash: u64, pid: u32)
        ensures
            final(self)@ == old(self)@.insert(job_hash, pid),
    {
        self.map.insert(job_hash, pid);
    }

    /// A job ended; says whether the agent now runs no job.
    pub fn finished(&mut self, job_hash: u64) -> (idle: bool)
        ensures
            final(self)@ == old(self)@.remove(job_hash),
            idle == final(self)@.is_empty(),
    {
        self.map.remove(&job_hash);
        self.is_idle()
    }

    /// The process id of a job.
    pub fn pid_of(&self, job_hash: u64) -> (r: Option<u32>)
        ensures
            match r {
                Some(p) => self@.contains_key(job_hash) && self@[job_hash] == p,
                None => !self@.contains_key(job_hash),
            },
    {
        match self.map.get(&job_hash) {
            Some(p) => Some(*p),
            None => None,
        }
    }

    /// Takes a job out, giving its process id.
    pub fn take(&mut self, job_hash: u64) -> (r: Option<u32>)
        ensures
            final(self)@ == old(self)@.remove(job_hash),
            match r {
                Some(p) => old(self)@.contains_key(job_hash) && old(self)@[job_hash] == p,
                None => !old(self)@.contains_key(job_hash),
            },
    {
        self.map.remove(&job_hash)
    }

    /// The process ids of all jobs, each job's once.
    pub fn pids(&self) -> (r: Vec<u32>)
        ensures
            forall|p: u32| r@.contains(p) <==> exists|h: u64| #[trigger] self@.contains_key(h) && self@[h] == p,
    {
        let mut r: Vec<u32> = Vec::new();
        for k in it: self.map.keys()
            invariant
                forall|p: u32| r@.contains(p) ==> exists|h: u64| #[trigger] self@.contains_key(h) && self@[h] == p,
                forall|j: int| 0 <= j < it.index() ==> r@.contains(self@[*it.seq()[j]]),
        {
            let h = *k;
            match self.map.get(&h) {
                Some(p) => {
                    let ghost before = r@;
                    r.push(*p);
                    proof {
                        assert forall|q: u32| r@.contains(q) implies exists|g: u64| #[trigger] self@.contains_key(g)
                            && self@[g] == q by {
                            if q == *p {
                                assert(self@.contains_key(h) && self@[h] == q);
                            } else {
                                let t = choose|t: int| 0 <= t < r@.len() && r@[t] == q;
                                assert(t < before.len());
                                assert(before[t] == q);
                                assert(before.contains(q));
                            }
                        }
                        assert forall|j: int| 0 <= j < it.index() + 1 implies r@.contains(self@[*it.seq()[j]]) by {
                            if j < it.index() {
                                let t = choose|t: int| 0 <= t < before.len() && before[t] == self@[*it.seq()[j]];
                                assert(r@[t] == before[t]);
                            } else {
                                assert(r@[before.len() as int] == *p);
                            }
                        }
                    }
                },
                None => {
                    assert(false);
                },
            }
        }
        proof {
            assert forall|p: u32| (exists|h: u64| #[trigger] self@.contains_key(h) && self@[h] == p) implies r@.contains(p) by {
                let h = choose|h: u64| #[trigger] self@.contains_key(h) && self@[h] == p;
                assert(self.map@.dom().contains(h));
            }
        }
        r
    }
}

/// What an idle watch does after a wait.
#[derive(Clone, Copy, Debug, PartialEq, Eq, Structural)]
pub enum IdleStep {
    /// The agent runs a job again: the watch ends.
    Stop,
    /// Ask the controller to kill this idle worker.
    AskToBeKilled,
}

/// The watch over an idle agent: each wait that finds no job asks the
/// controller to kill the worker; after two such waits the agent ends
/// itself.
#[derive(Clone, Copy, Debug, PartialEq, Eq, Structural)]
pub struct IdleWatch {
    pub retry: u8,
}

impl IdleWatch {
    /// A watch that has not asked yet.
    pub fn new() -> (w: IdleWatch)
        ensures
            w.retry == 0,
    {
        IdleWatch { retry: 0 }
    }

    /// Whether the watch waits again.
    pub fn watching(&self) -> (r: bool)
        ensures
            r == (self.retry < 2),
    {
        self.retry < 2
    }

    /// Whether the watch asked twice, and the agent is to end itself.
    pub fn exhausted(&self) -> (r: bool)
        ensures
            r == (self.retry == 2),
    {
        self.retry == 2
    }

    /// The step after a wait that found the agent idle or not.
    pub fn after_wait(&mut self, idle: bool) -> (r: IdleStep)
        requires
            old(self).retry < 2,
        ensures
            idle ==> r == IdleStep::AskToBeKilled && final(self).retry == old(self).retry + 1,
            !idle ==> r == IdleStep::Stop && final(self).retry == old(self).retry,
    {
        if idle {
            self.retry = self.retry + 1;
            IdleStep::AskToBeKilled
        } else {
            IdleStep::Stop
        }
    }
}

} // verus!
