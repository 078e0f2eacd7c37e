//! Identifiers computed with the standard library's `DefaultHasher`: job,
//! worker and spec hashes, and job categories.

use vstd::prelude::*;
use std::collections::hash_map::DefaultHasher;
use std::hash::Hash;
use std::hash::Hasher;
use vstd::std_specs::hash::DefaultHasherAdditionalSpecFns;
use crate::spec::Spec;

verus! {

/// The writes that `<str as Hash>::hash` makes into a hasher for a string.
pub uninterp spec fn str_hash_writes(s: Seq<char>) -> Seq<Seq<u8>>;

/// The writes that `<i64 as Hash>::hash` makes into a hasher for a number.
pub uninterp spec fn i64_hash_writes(v: i64) -> Seq<Seq<u8>>;

/// The writes that `<Vec<Spec> as Hash>::hash` makes into a hasher for a list
/// of specs, each given as its (memory, cores) pair.
pub uninterp spec fn spec_list_hash_writes(specs: Seq<(i64, i64)>) -> Seq<Seq<u8>>;

/// A list of specs as (memory, cores) pairs, the order in which a spec's
/// fields are hashed.
pub open spec fn spec_pairs(specs: Seq<Spec>) -> Seq<(i64, i64)> {
    specs.map_values(|s: Spec| (s.memory, s.cores))
}

/// Calls `<str as Hash>::hash`: feeds the string into the hasher, which then
/// holds the writes it held before followed by the string's writes.
#[verifier::external_body]
fn hash_str_into(state: &mut DefaultHasher, s: &str)
    ensures
        final(state)@ == old(state)@ + str_hash_writes(s@),
{
    s.hash(state)
}

/// Calls `<i64 as Hash>::hash`: feeds the number into the hasher, which then
/// holds the writes it held before followed by the number's writes.
#[verifier::external_body]
fn hash_i64_into(state: &mut DefaultHasher, v: i64)
    ensures
        final(state)@ == old(state)@ + i64_hash_writes(v),
{
    v.hash(state)
}

/// Calls `<Vec<Spec> as Hash>::hash`: feeds the list of specs into the
/// hasher, which then holds the writes it held before followed by the list's
/// writes.
#[verifier::external_body]
fn hash_spec_list_into(state: &mut DefaultHasher, specs: &Vec<Spec>)
    ensures
        final(state)@ == old(state)@ + spec_list_hash_writes(spec_pairs(specs@)),
{
    specs.hash(state)
}

/// The hash of a name with a fresh `DefaultHasher`.
pub open spec fn name_hash(name: Seq<char>) -> u64 {
    DefaultHasher::spec_finish(str_hash_writes(name))
}

/// The hash of a spec: its cores, then its memory.
pub open spec fn spec_hash(s: Spec) -> u64 {
    DefaultHasher::spec_finish(i64_hash_writes(s.cores) + i64_hash_writes(s.memory))
}

/// The hash of a protocol name followed by a list of specs.
pub open spec fn protocol_specs_hash(protocol: Seq<char>, specs: Seq<Spec>) -> u64 {
    DefaultHasher::spec_finish(str_hash_writes(protocol) + spec_list_hash_writes(spec_pairs(specs)))
}

/// The hash of a name: the identifier of jobs and workers.
pub fn get_hash(name: &str) -> (h: u64)
    ensures
        h == name_hash(name@),
{
    let mut hasher = DefaultHasher::new();
    hash_str_into(&mut hasher, name);
    assert(hasher@ == str_hash_writes(name@));
    hasher.finish()
}

/// The hash of a spec.
pub fn spec_get_hash(spec: &Spec) -> (h: u64)
    ensures
        h == spec_hash(*spec),
{
    let mut hasher = DefaultHasher::new();
    hash_i64_into(&mut hasher, spec.cores);
    hash_i64_into(&mut hasher, spec.memory);
    assert(hasher@ == i64_hash_writes(spec.cores) + i64_hash_writes(spec.memory));
    hasher.finish()
}

/// The hash of a protocol name followed by a list of specs.
pub fn protocol_specs_get_hash(protocol: &str, specs: &Vec<Spec>) -> (h: u64)
    ensures
        h == protocol_specs_hash(protocol@, specs@),
{
    let mut hasher = DefaultHasher::new();
    hash_str_into(&mut hasher, protocol);
    hash_spec_list_into(&mut hasher, specs);
    assert(hasher@ == str_hash_writes(protocol@) + spec_list_hash_writes(spec_pairs(specs@)));
    hasher.finish()
}

impl Spec {
    /// The hash of this spec.
    pub fn get_hash(&self) -> (h: u64)
        ensures
            h == spec_hash(*self),
    {
        spec_get_hash(self)
    }
}

} // verus!
