//! The equality engine: whether two collections are equal, decided on the
//! digests of their entries, without the final chaining that a fingerprint
//! needs.

use crate::bag::{entries_of, lemma_same_multiset_len, same_multiset, same_set};
use crate::combine::{combine_digests, combine_u64, digest_eq, digests_eq, u64s_eq, Combiner};
use crate::digest::{
    ahash_entries_with, digest_entries, digests_of, fast_digests_of, fast_seed, HashFamily,
};
use crate::fingerprint::{fingerprint, fingerprint_of};
use crate::laws::{
    law_combined_digests_decides, law_combined_u64_decides, law_fast_empty_equals_only_empty,
    law_fast_equal_permutation_invariant,
};
use crate::mode::ExecMode;
use vstd::prelude::*;

verus! {

/// Whether two collections of digests count as equal under a combiner: as
/// multisets where every occurrence is kept, as sets where repeats are
/// collapsed.
pub open spec fn digests_agree<D>(dx: Seq<D>, dy: Seq<D>, combiner: Combiner) -> bool {
    match combiner {
        Combiner::SortThenChain => same_multiset(dx, dy),
        Combiner::SetCollapse => same_set(dx, dy),
    }
}

/// Whether two collections count as equal under a cryptographic family and
/// a combiner.
pub open spec fn equal_by_digests(
    family: HashFamily,
    x: Seq<Seq<u8>>,
    y: Seq<Seq<u8>>,
    combiner: Combiner,
) -> bool {
    digests_agree(digests_of(family, x), digests_of(family, y), combiner)
}

/// Decides equality of two collections of 256-bit digests.
pub fn eq_digests(dx: Vec<[u8; 32]>, dy: Vec<[u8; 32]>, combiner: Combiner, mode: ExecMode) -> (equal:
    bool)
    ensures
        equal == digests_agree(dx@, dy@, combiner),
{
    proof {
        law_combined_digests_decides(dx@, dy@, combiner);
    }
    let cx = combine_digests(dx, combiner, mode);
    let cy = combine_digests(dy, combiner, mode);
    digests_eq(&cx, &cy)
}

/// Decides equality of two collections of 64-bit digests.
pub fn eq_u64_digests(dx: Vec<u64>, dy: Vec<u64>, combiner: Combiner, mode: ExecMode) -> (equal:
    bool)
    ensures
        equal == digests_agree(dx@, dy@, combiner),
{
    proof {
        law_combined_u64_decides(dx@, dy@, combiner);
    }
    let cx = combine_u64(dx, combiner, mode);
    let cy = combine_u64(dy, combiner, mode);
    u64s_eq(&cx, &cy)
}

/// Decides equality of two collections by comparing the combined digests of
/// their entries under a cryptographic family.
pub fn eq_by_digest(
    family: HashFamily,
    x: Vec<Vec<u8>>,
    y: Vec<Vec<u8>>,
    combiner: Combiner,
    mode: ExecMode,
) -> (equal: bool)
    ensures
        equal == equal_by_digests(family, entries_of(x@), entries_of(y@), combiner),
{
    if combiner == Combiner::SortThenChain && x.len() != y.len() {
        proof {
            let dx = digests_of(family, entries_of(x@));
            let dy = digests_of(family, entries_of(y@));
            if same_multiset(dx, dy) {
                lemma_same_multiset_len(dx, dy);
            }
        }
        return false;
    }
    let dx = digest_entries(family, &x, mode);
    let dy = digest_entries(family, &y, mode);
    eq_digests(dx, dy, combiner, mode)
}

/// Decides equality of two collections by comparing their fingerprints
/// under a cryptographic family.
pub fn eq_by_fingerprint(
    family: HashFamily,
    x: Vec<Vec<u8>>,
    y: Vec<Vec<u8>>,
    combiner: Combiner,
    mode: ExecMode,
) -> (equal: bool)
    ensures
        equal == (fingerprint_of(family, entries_of(x@), combiner) == fingerprint_of(
            family,
            entries_of(y@),
            combiner,
        )),
{
    let fx = fingerprint(family, x, combiner, mode);
    let fy = fingerprint(family, y, combiner, mode);
    digest_eq(&fx, &fy)
}

/// Decides equality of two collections by comparing the combined digests of
/// their entries under the fast family, all taken from the given seed.
pub fn eq_by_ahash_with(
    seed: &ahash::AHasher,
    x: Vec<Vec<u8>>,
    y: Vec<Vec<u8>>,
    combiner: Combiner,
    mode: ExecMode,
) -> (equal: bool)
    ensures
        equal == digests_agree(
            fast_digests_of(*seed, entries_of(x@)),
            fast_digests_of(*seed, entries_of(y@)),
            combiner,
        ),
{
    if combiner == Combiner::SortThenChain && x.len() != y.len() {
        proof {
            let dx = fast_digests_of(*seed, entries_of(x@));
            let dy = fast_digests_of(*seed, entries_of(y@));
            if same_multiset(dx, dy) {
                lemma_same_multiset_len(dx, dy);
            }
        }
        return false;
    }
    let dx = ahash_entries_with(seed, &x, mode);
    let dy = ahash_entries_with(seed, &y, mode);
    eq_u64_digests(dx, dy, combiner, mode)
}

/// Decides equality of two collections by comparing the combined digests of
/// their entries under the fast family. One seed is drawn in the call and
/// serves both collections, so the result is the agreement of the digests
/// under some seed. Whatever the seed: collections that are the same
/// multiset are equal, an empty collection equals the empty one and no
/// other, and as multisets collections of different lengths differ.
pub fn eq_by_ahash(x: Vec<Vec<u8>>, y: Vec<Vec<u8>>, combiner: Combiner, mode: ExecMode) -> (equal:
    bool)
    ensures
        exists|seed: ahash::AHasher|
            equal == digests_agree(
                fast_digests_of(seed, entries_of(x@)),
                fast_digests_of(seed, entries_of(y@)),
                combiner,
            ),
        same_multiset(entries_of(x@), entries_of(y@)) ==> equal,
        x@.len() == 0 && y@.len() == 0 ==> equal,
        (x@.len() == 0) != (y@.len() == 0) ==> !equal,
        combiner == Combiner::SortThenChain && x@.len() != y@.len() ==> !equal,
{
    let seed = fast_seed();
    proof {
        let ex = entries_of(x@);
        let ey = entries_of(y@);
        if same_multiset(ex, ey) {
            law_fast_equal_permutation_invariant(seed, ex, ey, combiner);
        }
        if x@.len() == 0 {
            law_fast_empty_equals_only_empty(seed, ex, ey, combiner);
        }
        if y@.len() == 0 {
            law_fast_empty_equals_only_empty(seed, ey, ex, combiner);
        }
        let dx = fast_digests_of(seed, ex);
        let dy = fast_digests_of(seed, ey);
        if same_multiset(dx, dy) {
            lemma_same_multiset_len(dx, dy);
        }
    }
    eq_by_ahash_with(&seed, x, y, combiner, mode)
}

/// Whether two collections are equal as multisets of fast-family digests,
/// decided on the calling thread.
pub fn eq_by_ahash_seq(x: Vec<Vec<u8>>, y: Vec<Vec<u8>>) -> (equal: bool)
    ensures
        exists|seed: ahash::AHasher|
            equal == same_multiset(
                fast_digests_of(seed, entries_of(x@)),
                fast_digests_of(seed, entries_of(y@)),
            ),
        same_multiset(entries_of(x@), entries_of(y@)) ==> equal,
        x@.len() != y@.len() ==> !equal,
        x@.len() == 0 && y@.len() == 0 ==> equal,
{
    eq_by_ahash(x, y, Combiner::SortThenChain, ExecMode::Sequential)
}

/// Whether two collections are equal as multisets of fast-family digests,
/// with digesting and sorting fanned out over the worker pool.
pub fn eq_by_ahash_par(x: Vec<Vec<u8>>, y: Vec<Vec<u8>>) -> (equal: bool)
    ensures
        exists|seed: ahash::AHasher|
            equal == same_multiset(
                fast_digests_of(seed, entries_of(x@)),
                fast_digests_of(seed, entries_of(y@)),
            ),
        same_multiset(entries_of(x@), entries_of(y@)) ==> equal,
        x@.len() != y@.len() ==> !equal,
        x@.len() == 0 && y@.len() == 0 ==> equal,
{
    eq_by_ahash(x, y, Combiner::SortThenChain, ExecMode::Parallel)
}

/// Whether two collections are equal as multisets of SHA-256 digests,
/// decided on the calling thread.
pub fn eq_by_sha256_seq(x: Vec<Vec<u8>>, y: Vec<Vec<u8>>) -> (equal: bool)
    ensures
        equal == same_multiset(
            digests_of(HashFamily::Sha256, entries_of(x@)),
            digests_of(HashFamily::Sha256, entries_of(y@)),
        ),
{
    eq_by_digest(HashFamily::Sha256, x, y, Combiner::SortThenChain, ExecMode::Sequential)
}

/// Whether two collections are equal as multisets of SHA-256 digests, with
/// digesting and sorting fanned out over the worker pool.
pub fn eq_by_sha256_par(x: Vec<Vec<u8>>, y: Vec<Vec<u8>>) -> (equal: bool)
    ensures
        equal == same_multiset(
            digests_of(HashFamily::Sha256, entries_of(x@)),
            digests_of(HashFamily::Sha256, entries_of(y@)),
        ),
{
    eq_by_digest(HashFamily::Sha256, x, y, Combiner::SortThenChain, ExecMode::Parallel)
}

/// Whether two collections are equal as multisets of BLAKE3 digests,
/// decided on the calling thread.
pub fn eq_by_blake3_seq(x: Vec<Vec<u8>>, y: Vec<Vec<u8>>) -> (equal: bool)
    ensures
        equal == same_multiset(
            digests_of(HashFamily::Blake3, entries_of(x@)),
            digests_of(HashFamily::Blake3, entries_of(y@)),
        ),
{
    eq_by_digest(HashFamily::Blake3, x, y, Combiner::SortThenChain, ExecMode::Sequential)
}

/// Whether two collections are equal as multisets of BLAKE3 digests, with
/// digesting and sorting fanned out over the worker pool.
pub fn eq_by_blake3_par(x: Vec<Vec<u8>>, y: Vec<Vec<u8>>) -> (equal: bool)
    ensures
        equal == same_multiset(
            digests_of(HashFamily::Blake3, entries_of(x@)),
            digests_of(HashFamily::Blake3, entries_of(y@)),
        ),
{
    eq_by_digest(HashFamily::Blake3, x, y, Combiner::SortThenChain, ExecMode::Parallel)
}

} // verus!
