//! Queues of job hashes per category, as the job scheduler keeps them.

use vstd::prelude::*;
use std::collections::HashMap;
use std::collections::VecDeque;

verus! {

broadcast use vstd::std_specs::hash::group_hash_axioms;

/// The queue without any occurrence of `h`, in the same order.
pub open spec fn without(q: Seq<u64>, h: u64) -> Seq<u64>
    decreases q.len(),
{
    if q.len() == 0 {
        Seq::empty()
    } else if q.last() == h {
        without(q.drop_last(), h)
    } else {
        without(q.drop_last(), h).push(q.last())
    }
}

/// An element of a sequence with one more element at its end.
pub proof fn lemma_push_contains(s: Seq<u64>, a: u64, x: u64)
    ensures
        s.push(a).contains(x) <==> (s.contains(x) || a == x),
{
    let t = s.push(a);
    if a == x {
        assert(t[s.len() as int] == x);
    }
    if s.contains(x) {
        let i = choose|i: int| 0 <= i < s.len() && s[i] == x;
        assert(t[i] == x);
    }
    if t.contains(x) {
        let i = choose|i: int| 0 <= i < t.len() && t[i] == x;
        if i < s.len() {
            assert(s[i] == x);
        }
    }
}

/// `without` keeps every other element and drops `h`.
pub proof fn lemma_without_contains(q: Seq<u64>, h: u64, x: u64)
    ensures
        without(q, h).contains(x) <==> (q.contains(x) && x != h),
    decreases q.len(),
{
    if q.len() > 0 {
        let p = q.drop_last();
        let l = q.last();
        lemma_without_contains(p, h, x);
        assert(q =~= p.push(l));
        lemma_push_contains(p, l, x);
        if l != h {
            lemma_push_contains(without(p, h), l, x);
        }
    }
}

/// Queues of job hashes, one per category.
#[derive(Debug)]
pub struct CategoryQueues {
    pub map: HashMap<u64, VecDeque<u64>>,
}

impl View for CategoryQueues {
    type V = Map<u64, Seq<u64>>;

    open spec fn view(&self) -> Map<u64, Seq<u64>> {
        self.map@.map_values(|q: VecDeque<u64>| q@)
    }
}

fn remove_all(q: &VecDeque<u64>, h: u64) -> (r: VecDeque<u64>)
    ensures
        r@ == without(q@, h),
{
    let mut out: VecDeque<u64> = VecDeque::new();
    let n = q.len();
    let mut i: usize = 0;
    while i < n
        invariant
            n == q@.len(),
            i <= n,
            out@ == without(q@.subrange(0, i as int), h),
        decreases n - i,
    {
        let x = q[i];
        assert(q@.subrange(0, i + 1).drop_last() =~= q@.subrange(0, i as int));
        if x != h {
            out.push_back(x);
        }
        i = i + 1;
    }
    assert(q@.subrange(0, n as int) =~= q@);
    out
}

impl CategoryQueues {
    /// No queue at all.
    pub fn new() -> (r: CategoryQueues)
        ensures
            r@ == Map::<u64, Seq<u64>>::empty(),
    {
        let r = CategoryQueues { map: HashMap::new() };
        assert(r@ =~= Map::<u64, Seq<u64>>::empty());
        r
    }

    /// Whether the category has a queue (possibly an empty one).
    pub fn contains_key(&self, category: u64) -> (r: bool)
        ensures
            r == self@.contains_key(category),
    {
        self.map.contains_key(&category)
    }

    /// The queue of a category.
    pub fn get(&self, category: u64) -> (r: Option<&VecDeque<u64>>)
        ensures
            match r {
                Some(q) => self@.contains_key(category) && q@ == self@[category],
                None => !self@.contains_key(category),
            },
    {
        self.map.get(&category)
    }

    /// Whether the category has no queue or an empty one.
    pub fn is_empty_at(&self, category: u64) -> (r: bool)
        ensures
            r == (!self@.contains_key(category) || self@[category].len() == 0),
    {
        match self.map.get(&category) {
            Some(q) => q.len() == 0,
            None => true,
        }
    }

    /// Sets the queue of a category.
    pub fn insert(&mut self, category: u64, q: VecDeque<u64>)
        ensures
            final(self)@ == old(self)@.insert(category, q@),
    {
        self.map.insert(category, q);
        assert(self@ =~= old(self)@.insert(category, q@));
    }

    /// Removes the queue of a category.
    pub fn remove(&mut self, category: u64)
        ensures
            final(self)@ == old(self)@.remove(category),
    {
        self.map.remove(&category);
        assert(self@ =~= old(self)@.remove(category));
    }

    /// Appends a job hash to the queue of a category, creating the queue when
    /// the category has none.
    pub fn push_back(&mut self, category: u64, h: u64)
        ensures
            final(self)@ == old(self)@.insert(
                category,
                if old(self)@.contains_key(category) {
                    old(self)@[category].push(h)
                } else {
                    seq![h]
                },
            ),
    {
        let mut q = match self.map.get(&category) {
            Some(q) => q.clone(),
            None => VecDeque::new(),
        };
        q.push_back(h);
        self.insert(category, q);
        assert(if old(self)@.contains_key(category) {
            old(self)@[category].push(h)
        } else {
            seq![h]
        } =~= q@);
    }

    /// Takes the first job hash of a category's queue; a category whose queue
    /// is empty loses its queue.
    pub fn pop_front(&mut self, category: u64) -> (r: Option<u64>)
        ensures
            !old(self)@.contains_key(category) ==> r is None && final(self)@ == old(self)@,
            old(self)@.contains_key(category) && old(self)@[category].len() == 0 ==> r is None
                && final(self)@ == old(self)@.remove(category),
            old(self)@.contains_key(category) && old(self)@[category].len() > 0 ==> r == Some(
                old(self)@[category][0],
            ) && final(self)@ == old(self)@.insert(category, old(self)@[category].drop_first()),
    {
        match self.map.get(&category) {
            Some(q) => {
                let mut q = q.clone();
                match q.pop_front() {
                    Some(h) => {
                        self.insert(category, q);
                        Some(h)
                    },
                    None => {
                        self.remove(category);
                        None
                    },
                }
            },
            None => None,
        }
    }

    /// Takes the first hash of a category's queue; the queue stays, even when
    /// it becomes empty.
    pub fn take_front(&mut self, category: u64) -> (r: Option<u64>)
        ensures
            !old(self)@.contains_key(category) || old(self)@[category].len() == 0 ==> r is None
                && final(self)@ == old(self)@,
            old(self)@.contains_key(category) && old(self)@[category].len() > 0 ==> r == Some(
                old(self)@[category][0],
            ) && final(self)@ == old(self)@.insert(category, old(self)@[category].drop_first()),
    {
        match self.map.get(&category) {
            Some(q) => {
                let mut q = q.clone();
                match q.pop_front() {
                    Some(h) => {
                        self.insert(category, q);
                        Some(h)
                    },
                    None => None,
                }
            },
            None => None,
        }
    }

    /// Drops every occurrence of a job hash from a category's queue, when the
    /// category has a queue.
    pub fn retain_other(&mut self, category: u64, h: u64)
        ensures
            old(self)@.contains_key(category) ==> final(self)@ == old(self)@.insert(
                category,
                without(old(self)@[category], h),
            ),
            !old(self)@.contains_key(category) ==> final(self)@ == old(self)@,
    {
        match self.map.get(&category) {
            Some(q) => {
                let r = remove_all(q, h);
                self.insert(category, r);
            },
            None => {},
        }
    }

    /// Whether a category's queue holds a job hash.
    pub fn contains_job(&self, category: u64, h: u64) -> (r: bool)
        ensures
            r == (self@.contains_key(category) && self@[category].contains(h)),
    {
        match self.map.get(&category) {
            Some(q) => {
                let n = q.len();
                let mut i: usize = 0;
                while i < n
                    invariant
                        n == q@.len(),
                        i <= n,
                        self@.contains_key(category),
                        self@[category] == q@,
                        forall|k: int| 0 <= k < i ==> q@[k] != h,
                    decreases n - i,
                {
                    if q[i] == h {
                        assert(q@[i as int] == h);
                        return true;
                    }
                    i = i + 1;
                }
                false
            },
            None => false,
        }
    }

    /// The length of a category's queue (zero without a queue).
    pub fn len_at(&self, category: u64) -> (r: usize)
        ensures
            r == (if self@.contains_key(category) {
                self@[category].len()
            } else {
                0
            }),
    {
        match self.map.get(&category) {
            Some(q) => q.len(),
            None => 0,
        }
    }

    /// Whether some category's queue holds a job hash.
    pub open spec fn holds(&self, h: u64) -> bool {
        exists|c: u64| #[trigger] self@.contains_key(c) && self@[c].contains(h)
    }

    /// The job hashes of all queues.
    pub fn all_jobs(&self) -> (r: Vec<u64>)
        ensures
            forall|h: u64| r@.contains(h) <==> self.holds(h),
    {
        let mut r: Vec<u64> = Vec::new();
        for k in it: self.map.keys()
            invariant
                forall|h: u64| r@.contains(h) ==> self.holds(h),
                forall|j: int, h: u64| 0 <= j < it.index() && self@.contains_key(*it.seq()[j])
                    && self@[*it.seq()[j]].contains(h) ==> r@.contains(h),
        {
            let c = *k;
            match self.map.get(&c) {
                Some(q) => {
                    let n = q.len();
                    let mut i: usize = 0;
                    let ghost r0 = r@;
                    while i < n
                        invariant
                            n == q@.len(),
                            i <= n,
                            self@.contains_key(c),
                            self@[c] == q@,
                            forall|h: u64| r0.contains(h) ==> r@.contains(h),
                            forall|h: u64| r@.contains(h) ==> self.holds(h),
                            forall|t: int| 0 <= t < i ==> r@.contains(#[trigger] q@[t]),
                        decreases n - i,
                    {
                        let x = q[i];
                        proof {
                            assert(self@.contains_key(c) && self@[c].contains(x)) by {
                                assert(self@[c][i as int] == x);
                            }
                        }
                        let ghost rp = r@;
                        r.push(x);
                        proof {
                            assert forall|h: u64| rp.contains(h) || h == x implies r@.contains(h) by {
                                lemma_push_contains(rp, x, h);
                            }
                            assert forall|h: u64| r@.contains(h) implies self.holds(h) by {
                                lemma_push_contains(rp, x, h);
                            }
                            assert forall|t: int| 0 <= t < i + 1 implies r@.contains(#[trigger] q@[t]) by {
                                lemma_push_contains(rp, x, q@[t]);
                            }
                        }
                        i = i + 1;
                    }
                    proof {
                        assert forall|h: u64| q@.contains(h) implies r@.contains(h) by {
                            let t = choose|t: int| 0 <= t < q@.len() && q@[t] == h;
                            assert(r@.contains(q@[t]));
                        }
                    }
                },
                None => {},
            }
        }
        proof {
            assert forall|h: u64| self.holds(h) implies r@.contains(h) by {
                let c = choose|c: u64| #[trigger] self@.contains_key(c) && self@[c].contains(h);
                assert(self.map@.dom().contains(c));
            }
        }
        r
    }

    /// Removes every queue.
    pub fn clear(&mut self)
        ensures
            final(self)@ == Map::<u64, Seq<u64>>::empty(),
    {
        self.map.clear();
        assert(self@ =~= Map::<u64, Seq<u64>>::empty());
    }
}

} // verus!
