//! Resource specifications: a number of cores and an amount of memory.

use vstd::prelude::*;
use std::cmp::Ordering;

verus! {

/// A resource specification: memory (in GiB) and cores.
#[derive(Clone, Copy, Debug, PartialEq, Eq, Hash, Structural)]
pub struct Spec {
    pub memory: i64,
    pub cores: i64,
}

/// How one spec compares with another: greater when it asks for more cores,
/// or else for more memory; equal when both agree; less otherwise.
/// This relation is not a total order: a spec with more cores but less memory
/// than another is greater than it, and the other is greater than it too.
pub open spec fn compare_specs(a: Spec, b: Spec) -> Ordering {
    if a.cores > b.cores {
        Ordering::Greater
    } else if a.memory > b.memory {
        Ordering::Greater
    } else if a.cores == b.cores && a.memory == b.memory {
        Ordering::Equal
    } else {
        Ordering::Less
    }
}

/// Whether `a` compares less than `b`: it asks for no more cores and no
/// more memory, and for less of one of them.
pub open spec fn less_than(a: Spec, b: Spec) -> bool {
    compare_specs(a, b) is Less
}

/// Whether `a` fits into `b`: it compares less than or equal to it.
pub open spec fn fits_within(a: Spec, b: Spec) -> bool {
    a.cores <= b.cores && a.memory <= b.memory
}

/// The sum of two specs stays within the range of `i64`.
pub open spec fn can_add(a: Spec, b: Spec) -> bool {
    i64::MIN <= a.cores + b.cores <= i64::MAX && i64::MIN <= a.memory + b.memory <= i64::MAX
}

/// The difference of two specs stays within the range of `i64`.
pub open spec fn can_remove(a: Spec, b: Spec) -> bool {
    i64::MIN <= a.cores - b.cores <= i64::MAX && i64::MIN <= a.memory - b.memory <= i64::MAX
}

/// Comparing less is a strict order: a spec never compares less than one
/// that compares less than it.
pub proof fn lemma_less_asymmetric(a: Spec, b: Spec)
    ensures
        less_than(a, b) ==> !less_than(b, a),
{
}

/// A spec fits within another exactly when it does not compare greater.
pub proof fn lemma_compare_fits(a: Spec, b: Spec)
    ensures
        fits_within(a, b) <==> !(compare_specs(a, b) is Greater),
        (compare_specs(a, b) is Equal) <==> a == b,
{
}

impl Spec {
    /// The empty spec.
    pub fn new() -> (s: Spec)
        ensures
            s.cores == 0,
            s.memory == 0,
    {
        Spec { cores: 0, memory: 0 }
    }

    /// Adds the cores and memory of `spec` to this spec.
    pub fn add(&mut self, spec: &Spec)
        requires
            can_add(*old(self), *spec),
        ensures
            final(self).cores == old(self).cores + spec.cores,
            final(self).memory == old(self).memory + spec.memory,
    {
        self.cores = self.cores + spec.cores;
        self.memory = self.memory + spec.memory;
    }

    /// Subtracts the cores and memory of `spec` from this spec.
    pub fn remove(&mut self, spec: &Spec)
        requires
            can_remove(*old(self), *spec),
        ensures
            final(self).cores == old(self).cores - spec.cores,
            final(self).memory == old(self).memory - spec.memory,
    {
        self.cores = self.cores - spec.cores;
        self.memory = self.memory - spec.memory;
    }

    /// Compares this spec with `other` (see `compare_specs`).
    pub fn cmp(&self, other: &Spec) -> (r: Ordering)
        ensures
            r == compare_specs(*self, *other),
    {
        if self.cores > other.cores {
            Ordering::Greater
        } else if self.memory > other.memory {
            Ordering::Greater
        } else if self.cores == other.cores && self.memory == other.memory {
            Ordering::Equal
        } else {
            Ordering::Less
        }
    }

    /// Whether this spec does not compare greater than `other`.
    pub fn fits(&self, other: &Spec) -> (r: bool)
        ensures
            r == fits_within(*self, *other),
    {
        match self.cmp(other) {
            Ordering::Greater => false,
            _ => true,
        }
    }

    /// Whether this spec compares less than `other`: it asks for no more cores
    /// and no more memory, and for less of one of them.
    pub fn is_less_than(&self, other: &Spec) -> (r: bool)
        ensures
            r == less_than(*self, *other),
    {
        match self.cmp(other) {
            Ordering::Less => true,
            _ => false,
        }
    }

    /// Checks that both cores and memory are positive.
    pub fn validate(&self) -> (r: Result<(), String>)
        ensures
            r is Ok <==> (self.cores > 0 && self.memory > 0),
            self.cores <= 0 ==> (r matches Err(m)
                && m@ == "Cores cannot be less than or equal to 0"@),
            self.cores > 0 && self.memory <= 0 ==> (r matches Err(m)
                && m@ == "Memory cannot be less than or equal to 0"@),
    {
        if self.cores <= 0 {
            return Err(String::from_str("Cores cannot be less than or equal to 0"));
        }
        if self.memory <= 0 {
            return Err(String::from_str("Memory cannot be less than or equal to 0"));
        }
        Ok(())
    }
}

} // verus!
