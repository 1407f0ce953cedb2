//! Entry digests: one byte entry in, one fixed-size digest out, under a
//! chosen hash family; and the digests of a whole collection, entry by
//! entry, on one thread or fanned out over workers.

use crate::bag::entries_of;
use crate::mode::ExecMode;
use rayon::iter::{IntoParallelRefIterator, ParallelIterator};
use sha2::Digest;
use std::hash::Hasher;
use vstd::prelude::*;

verus! {

/// The SHA-256 digest of a byte string.
pub uninterp spec fn sha256_of(data: Seq<u8>) -> [u8; 32];

/// The BLAKE3 hash of a byte string, in its default 32-byte form.
pub uninterp spec fn blake3_of(data: Seq<u8>) -> [u8; 32];

/// The cryptographic hash families. Each maps an entry to a 256-bit
/// digest that depends on the bytes of the entry alone.
#[derive(Clone, Copy, Debug, PartialEq, Eq, Structural)]
pub enum HashFamily {
    Sha256,
    Blake3,
}

/// The digest of one entry under a cryptographic family.
pub open spec fn digest_of(family: HashFamily, data: Seq<u8>) -> [u8; 32] {
    match family {
        HashFamily::Sha256 => sha256_of(data),
        HashFamily::Blake3 => blake3_of(data),
    }
}

/// `digest_of` for a fixed family, as a function of the entry.
pub open spec fn digest_fn(family: HashFamily) -> spec_fn(Seq<u8>) -> [u8; 32] {
    |data: Seq<u8>| digest_of(family, data)
}

/// The digests of a collection, in the order of its entries.
pub open spec fn digests_of(family: HashFamily, c: Seq<Seq<u8>>) -> Seq<[u8; 32]> {
    c.map_values(digest_fn(family))
}

/// Calls `sha2::Sha256::digest`: the result is the SHA-256 digest of `data`,
/// a function of the bytes alone.
#[verifier::external_body]
fn sha256_digest(data: &[u8]) -> (out: [u8; 32])
    ensures
        out == sha256_of(data@),
{
    sha2::Sha256::digest(data).into()
}

/// Calls `blake3::hash`: the result holds the bytes of the BLAKE3 hash of
/// `data`, a function of the bytes alone.
#[verifier::external_body]
fn blake3_digest(data: &[u8]) -> (out: [u8; 32])
    ensures
        out == blake3_of(data@),
{
    blake3::hash(data).into()
}

/// Digests one entry under a cryptographic family.
pub fn digest_bytes(family: HashFamily, data: &[u8]) -> (out: [u8; 32])
    ensures
        out == digest_of(family, data@),
{
    match family {
        HashFamily::Sha256 => sha256_digest(data),
        HashFamily::Blake3 => blake3_digest(data),
    }
}

/// Digests one entry of a collection under a cryptographic family.
pub fn digest_entry(family: HashFamily, entry: &Vec<u8>) -> (out: [u8; 32])
    ensures
        out == digest_of(family, entry@),
{
    digest_bytes(family, entry.as_slice())
}

/// Calls `par_iter`, `map` and `collect` of rayon: the result holds the
/// digest of each entry, in the order of the entries.
#[verifier::external_body]
fn par_digest_entries(family: HashFamily, c: &Vec<Vec<u8>>) -> (out: Vec<[u8; 32]>)
    ensures
        out@ == digests_of(family, entries_of(c@)),
{
    c.par_iter().map(|e| digest_entry(family, e)).collect()
}

/// Digests every entry of a collection under a cryptographic family.
pub fn digest_entries(family: HashFamily, c: &Vec<Vec<u8>>, mode: ExecMode) -> (out: Vec<
    [u8; 32],
>)
    ensures
        out@ == digests_of(family, entries_of(c@)),
{
    match mode {
        ExecMode::Parallel => par_digest_entries(family, c),
        ExecMode::Sequential => {
            let mut out: Vec<[u8; 32]> = Vec::new();
            let n: usize = c.len();
            let mut i: usize = 0;
            while i < n
                invariant
                    n == c@.len(),
                    i <= n,
                    out@.len() == i,
                    forall|k: int| 0 <= k < i ==> out@[k] == digest_of(family, c@[k]@),
                decreases n - i,
            {
                out.push(digest_entry(family, &c[i]));
                i = i + 1;
            }
            assert(out@ =~= digests_of(family, entries_of(c@)));
            out
        },
    }
}

/// `ahash::AHasher`, the hasher of the fast family, carried through as an
/// opaque value. A hasher in its start state is a seed: it holds the keys
/// that the process drew, and every digest of a call is taken from one seed.
#[verifier::external_type_specification]
#[verifier::external_body]
pub struct ExAHasher(ahash::AHasher);

/// The hasher that `Hasher::write` leaves behind when the hasher `h` is fed
/// the bytes `data`.
pub uninterp spec fn fast_after_bytes(h: ahash::AHasher, data: Seq<u8>) -> ahash::AHasher;

/// The hasher that `Hasher::write_u64` leaves behind when the hasher `h` is
/// fed the number `word`.
pub uninterp spec fn fast_after_word(h: ahash::AHasher, word: u64) -> ahash::AHasher;

/// The hash that `Hasher::finish` reads off the hasher `h`.
pub uninterp spec fn fast_value(h: ahash::AHasher) -> u64;

/// The digest of one entry under the fast family, taken from `seed`.
pub open spec fn fast_digest_of(seed: ahash::AHasher, data: Seq<u8>) -> u64 {
    fast_value(fast_after_bytes(seed, data))
}

/// `fast_digest_of` for a fixed seed, as a function of the entry.
pub open spec fn fast_digest_fn(seed: ahash::AHasher) -> spec_fn(Seq<u8>) -> u64 {
    |data: Seq<u8>| fast_digest_of(seed, data)
}

/// The fast-family digests of a collection, in the order of its entries,
/// all taken from one seed.
pub open spec fn fast_digests_of(seed: ahash::AHasher, c: Seq<Seq<u8>>) -> Seq<u64> {
    c.map_values(fast_digest_fn(seed))
}

/// The hasher `h` after it was fed the numbers of `words`, first to last.
pub open spec fn fast_fed_words(h: ahash::AHasher, words: Seq<u64>) -> ahash::AHasher
    decreases words.len(),
{
    if words.len() == 0 {
        h
    } else {
        fast_after_word(fast_fed_words(h, words.drop_last()), words.last())
    }
}

/// The hash of a sequence of 64-bit digests that were fed, one after the
/// other, to a hasher that started as `seed`.
pub open spec fn fast_chain_of(seed: ahash::AHasher, words: Seq<u64>) -> u64 {
    fast_value(fast_fed_words(seed, words))
}

/// `fast_chain_of` for a fixed seed, as a function of the digests.
pub open spec fn fast_chain_fn(seed: ahash::AHasher) -> spec_fn(Seq<u64>) -> u64 {
    |words: Seq<u64>| fast_chain_of(seed, words)
}

/// Calls `AHasher::default`: a hasher of the fast family in its start
/// state. Its keys are drawn once per process, so nothing is stated of it.
#[verifier::external_body]
fn fast_hasher() -> ahash::AHasher {
    ahash::AHasher::default()
}

/// Calls `Clone::clone` on an `AHasher`: a hasher in the same state.
#[verifier::external_body]
fn fast_clone(seed: &ahash::AHasher) -> (hasher: ahash::AHasher)
    ensures
        hasher == *seed,
{
    seed.clone()
}

/// Calls `Hasher::write` on an `AHasher`: the new state depends on the old
/// state and the bytes alone.
#[verifier::external_body]
fn fast_write(hasher: &mut ahash::AHasher, data: &[u8])
    ensures
        *final(hasher) == fast_after_bytes(*old(hasher), data@),
{
    hasher.write(data);
}

/// Calls `Hasher::write_u64` on an `AHasher`: the new state depends on the
/// old state and the number alone.
#[verifier::external_body]
fn fast_write_u64(hasher: &mut ahash::AHasher, value: u64)
    ensures
        *final(hasher) == fast_after_word(*old(hasher), value),
{
    hasher.write_u64(value);
}

/// Calls `Hasher::finish` on an `AHasher`: the hash depends on the state of
/// the hasher alone.
#[verifier::external_body]
fn fast_finish(hasher: &ahash::AHasher) -> (out: u64)
    ensures
        out == fast_value(*hasher),
{
    hasher.finish()
}

/// Draws the seed of the fast family: a hasher in its start state, with the
/// keys of this process.
pub fn fast_seed() -> ahash::AHasher {
    fast_hasher()
}

/// Digests one entry under the fast family, from the given seed.
pub fn ahash_entry_with(seed: &ahash::AHasher, entry: &Vec<u8>) -> (out: u64)
    ensures
        out == fast_digest_of(*seed, entry@),
{
    let mut hasher = fast_clone(seed);
    fast_write(&mut hasher, entry.as_slice());
    fast_finish(&hasher)
}

/// Digests one entry under the fast family. The seed is drawn in the call,
/// so the digest is that of the entry under some seed.
pub fn ahash_entry(entry: &Vec<u8>) -> (out: u64)
    ensures
        exists|seed: ahash::AHasher| out == fast_digest_of(seed, entry@),
{
    let seed = fast_seed();
    ahash_entry_with(&seed, entry)
}

/// Feeds a sequence of 64-bit digests, one after the other, to a hasher
/// that starts as the given seed, and takes its hash.
pub fn ahash_chain_with(seed: &ahash::AHasher, digests: &Vec<u64>) -> (out: u64)
    ensures
        out == fast_chain_of(*seed, digests@),
{
    let mut hasher = fast_clone(seed);
    let n: usize = digests.len();
    let mut i: usize = 0;
    while i < n
        invariant
            n == digests@.len(),
            i <= n,
            hasher == fast_fed_words(*seed, digests@.take(i as int)),
        decreases n - i,
    {
        assert(digests@.take(i as int + 1).drop_last() =~= digests@.take(i as int));
        fast_write_u64(&mut hasher, digests[i]);
        i = i + 1;
    }
    assert(digests@.take(n as int) =~= digests@);
    fast_finish(&hasher)
}

/// Feeds a sequence of 64-bit digests, one after the other, to one hasher of
/// the fast family and takes its hash. The seed is drawn in the call.
pub fn ahash_chain(digests: &Vec<u64>) -> (out: u64)
    ensures
        exists|seed: ahash::AHasher| out == fast_chain_of(seed, digests@),
{
    let seed = fast_seed();
    ahash_chain_with(&seed, digests)
}

/// Calls `par_iter`, `map` and `collect` of rayon: the result holds the
/// digest of each entry from the given seed, in the order of the entries.
#[verifier::external_body]
fn par_ahash_entries(seed: &ahash::AHasher, c: &Vec<Vec<u8>>) -> (out: Vec<u64>)
    ensures
        out@ == fast_digests_of(*seed, entries_of(c@)),
{
    c.par_iter().map(|e| ahash_entry_with(seed, e)).collect()
}

/// Digests every entry of a collection under the fast family, from the
/// given seed.
pub fn ahash_entries_with(seed: &ahash::AHasher, c: &Vec<Vec<u8>>, mode: ExecMode) -> (out: Vec<
    u64,
>)
    ensures
        out@ == fast_digests_of(*seed, entries_of(c@)),
{
    match mode {
        ExecMode::Parallel => par_ahash_entries(seed, c),
        ExecMode::Sequential => {
            let mut out: Vec<u64> = Vec::new();
            let n: usize = c.len();
            let mut i: usize = 0;
            while i < n
                invariant
                    n == c@.len(),
                    i <= n,
                    out@.len() == i,
                    forall|k: int| 0 <= k < i ==> out@[k] == fast_digest_of(*seed, c@[k]@),
                decreases n - i,
            {
                out.push(ahash_entry_with(seed, &c[i]));
                i = i + 1;
            }
            assert(out@ =~= fast_digests_of(*seed, entries_of(c@)));
            out
        },
    }
}

/// Digests every entry of a collection under the fast family. The seed is
/// drawn in the call, one for all entries.
pub fn ahash_entries(c: &Vec<Vec<u8>>, mode: ExecMode) -> (out: Vec<u64>)
    ensures
        out@.len() == c@.len(),
        exists|seed: ahash::AHasher| out@ == fast_digests_of(seed, entries_of(c@)),
{
    let seed = fast_seed();
    ahash_entries_with(&seed, c, mode)
}

} // verus!
