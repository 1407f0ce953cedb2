//! The fingerprint engine: one digest-shaped value for a whole collection,
//! the same for every order in which the collection is handed over.

use crate::bag::entries_of;
use crate::combine::{
    chain_bytes, chained_bytes, combine_digests, combine_u64, combined_digests, combined_u64,
    Combiner,
};
use crate::digest::{
    ahash_chain_with, ahash_entries_with, digest_bytes, digest_entries, digest_of, digests_of,
    fast_chain_of, fast_digests_of, fast_seed, HashFamily,
};
use crate::mode::ExecMode;
use vstd::prelude::*;

verus! {

/// The fingerprint of a collection under a cryptographic family: the digest
/// of the combined digests of its entries, written out one after the other.
pub open spec fn fingerprint_of(family: HashFamily, c: Seq<Seq<u8>>, combiner: Combiner) -> [u8; 32] {
    digest_of(family, chained_bytes(combined_digests(digests_of(family, c), combiner)))
}

/// Fingerprints a collection under a cryptographic family.
pub fn fingerprint(family: HashFamily, c: Vec<Vec<u8>>, combiner: Combiner, mode: ExecMode) -> (out:
    [u8; 32])
    ensures
        out == fingerprint_of(family, entries_of(c@), combiner),
{
    let digests = digest_entries(family, &c, mode);
    let combined = combine_digests(digests, combiner, mode);
    let bytes = chain_bytes(&combined);
    digest_bytes(family, bytes.as_slice())
}

/// The fingerprint of a collection under the fast family, taken from
/// `seed`: the hash of the combined digests of its entries, fed to one
/// hasher one after the other.
pub open spec fn fast_fingerprint_of(seed: ahash::AHasher, c: Seq<Seq<u8>>, combiner: Combiner) -> u64 {
    fast_chain_of(seed, combined_u64(fast_digests_of(seed, c), combiner))
}

/// Fingerprints a collection under the fast family, from the given seed.
pub fn ahash_fingerprint_with(
    seed: &ahash::AHasher,
    c: Vec<Vec<u8>>,
    combiner: Combiner,
    mode: ExecMode,
) -> (out: u64)
    ensures
        out == fast_fingerprint_of(*seed, entries_of(c@), combiner),
{
    let digests = ahash_entries_with(seed, &c, mode);
    let combined = combine_u64(digests, combiner, mode);
    ahash_chain_with(seed, &combined)
}

/// Fingerprints a collection under the fast family. The seed is drawn in
/// the call and holds the keys of the process, so the fingerprint is that
/// of the collection under some seed: good for comparisons within one
/// process, and no more.
pub fn ahash_fingerprint(c: Vec<Vec<u8>>, combiner: Combiner, mode: ExecMode) -> (out: u64)
    ensures
        exists|seed: ahash::AHasher| out == fast_fingerprint_of(seed, entries_of(c@), combiner),
{
    let seed = fast_seed();
    ahash_fingerprint_with(&seed, c, combiner, mode)
}

/// The fast-family fingerprint of a collection as a multiset, computed on
/// the calling thread.
pub fn ahash_seq(x: Vec<Vec<u8>>) -> (out: u64)
    ensures
        exists|seed: ahash::AHasher|
            out == fast_fingerprint_of(seed, entries_of(x@), Combiner::SortThenChain),
{
    ahash_fingerprint(x, Combiner::SortThenChain, ExecMode::Sequential)
}

/// The fast-family fingerprint of a collection as a multiset, with
/// digesting and sorting fanned out over the worker pool. Under one seed the
/// same value as `ahash_seq` gives.
pub fn ahash_par(x: Vec<Vec<u8>>) -> (out: u64)
    ensures
        exists|seed: ahash::AHasher|
            out == fast_fingerprint_of(seed, entries_of(x@), Combiner::SortThenChain),
{
    ahash_fingerprint(x, Combiner::SortThenChain, ExecMode::Parallel)
}

/// The SHA-256 fingerprint of a collection as a multiset, computed on the
/// calling thread.
pub fn sha256_seq(x: Vec<Vec<u8>>) -> (out: [u8; 32])
    ensures
        out == fingerprint_of(HashFamily::Sha256, entries_of(x@), Combiner::SortThenChain),
{
    fingerprint(HashFamily::Sha256, x, Combiner::SortThenChain, ExecMode::Sequential)
}

/// The SHA-256 fingerprint of a collection as a multiset, with digesting
/// and sorting fanned out over the worker pool. The same value as
/// `sha256_seq` gives.
pub fn sha256_par(x: Vec<Vec<u8>>) -> (out: [u8; 32])
    ensures
        out == fingerprint_of(HashFamily::Sha256, entries_of(x@), Combiner::SortThenChain),
{
    fingerprint(HashFamily::Sha256, x, Combiner::SortThenChain, ExecMode::Parallel)
}

/// The BLAKE3 fingerprint of a collection as a multiset, computed on the
/// calling thread.
pub fn blake3_seq(x: Vec<Vec<u8>>) -> (out: [u8; 32])
    ensures
        out == fingerprint_of(HashFamily::Blake3, entries_of(x@), Combiner::SortThenChain),
{
    fingerprint(HashFamily::Blake3, x, Combiner::SortThenChain, ExecMode::Sequential)
}

/// The BLAKE3 fingerprint of a collection as a multiset, with digesting and
/// sorting fanned out over the worker pool. The same value as `blake3_seq`
/// gives.
pub fn blake3_par(x: Vec<Vec<u8>>) -> (out: [u8; 32])
    ensures
        out == fingerprint_of(HashFamily::Blake3, entries_of(x@), Combiner::SortThenChain),
{
    fingerprint(HashFamily::Blake3, x, Combiner::SortThenChain, ExecMode::Parallel)
}

} // verus!
