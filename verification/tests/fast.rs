use order_insensitive_compare::digest::{
    ahash_chain, ahash_chain_with, ahash_entries, ahash_entries_with, ahash_entry,
    ahash_entry_with,
};
use order_insensitive_compare::{
    ahash_fingerprint, ahash_fingerprint_with, ahash_par, ahash_seq, eq_by_ahash, eq_by_ahash_par,
    eq_by_ahash_seq, eq_by_ahash_with, eq_by_sorting_seq, fast_seed, Combiner, ExecMode,
};
use std::hash::{BuildHasher, Hasher};

type Entries = Vec<Vec<u8>>;

fn keyed(k: u64) -> ahash::AHasher {
    ahash::RandomState::with_seeds(k, k + 1, k + 2, k + 3).build_hasher()
}

fn digest_from(seed: &ahash::AHasher, entry: &[u8]) -> u64 {
    let mut hasher = seed.clone();
    hasher.write(entry);
    hasher.finish()
}

fn chain_from(seed: &ahash::AHasher, digests: &[u64]) -> u64 {
    let mut hasher = seed.clone();
    for d in digests {
        hasher.write_u64(*d);
    }
    hasher.finish()
}

/// The fingerprint written out step by step: digest, sort, drop repeats on
/// request, chain.
fn fingerprint_from(seed: &ahash::AHasher, x: &Entries, collapse: bool) -> u64 {
    let mut hashes: Vec<u64> = x.iter().map(|e| digest_from(seed, e)).collect();
    hashes.sort_unstable();
    if collapse {
        hashes.dedup();
    }
    chain_from(seed, &hashes)
}

fn samples() -> Vec<Entries> {
    let mut all: Vec<Entries> = vec![
        vec![],
        vec![vec![]],
        vec![vec![], vec![]],
        vec![b"abc".to_vec(), b"de".to_vec()],
        vec![b"de".to_vec(), b"abc".to_vec()],
        vec![b"de".to_vec(), b"abc".to_vec(), b"abc".to_vec()],
        vec![b"ab".to_vec(), b"c".to_vec()],
        vec![b"a".to_vec(), b"bc".to_vec()],
    ];
    let mut state = 12345u64;
    for count in [1usize, 7, 64, 300] {
        let mut c = Vec::new();
        for _ in 0..count {
            state = state.wrapping_mul(6364136223846793005).wrapping_add(1442695040888963407);
            let len = ((state >> 33) % 40) as usize;
            let mut e = Vec::new();
            for _ in 0..len {
                state = state.wrapping_mul(6364136223846793005).wrapping_add(1442695040888963407);
                e.push((state >> 40) as u8);
            }
            c.push(e);
        }
        all.push(c);
    }
    all
}

#[test]
fn fast_digest_is_write_then_finish_from_the_seed() {
    for k in [1u64, 99] {
        let seed = keyed(k);
        for e in [&b""[..], &b"abc"[..], &b"de"[..], &[0u8; 100][..]] {
            assert_eq!(ahash_entry_with(&seed, &e.to_vec()), digest_from(&seed, e));
        }
    }
    let start = ahash::AHasher::default();
    assert_eq!(ahash_entry(&b"abc".to_vec()), digest_from(&start, b"abc"));
    assert_eq!(ahash_entry_with(&fast_seed(), &b"abc".to_vec()), digest_from(&start, b"abc"));
}

#[test]
fn fast_digest_depends_on_the_seed_and_leaves_it_as_it_was() {
    let one = keyed(1);
    let two = keyed(2);
    let entry = b"abc".to_vec();
    assert_ne!(ahash_entry_with(&one, &entry), ahash_entry_with(&two, &entry));
    let first = ahash_entry_with(&one, &entry);
    let again = ahash_entry_with(&one, &entry);
    assert_eq!(first, again);
    assert_eq!(one.finish(), keyed(1).finish());
    assert_ne!(first, one.finish());
}

#[test]
fn fast_chain_is_write_u64_in_order_then_finish() {
    for k in [3u64, 77] {
        let seed = keyed(k);
        for words in [vec![], vec![0u64], vec![1, 2, 3], vec![3, 2, 1], vec![u64::MAX; 9]] {
            assert_eq!(ahash_chain_with(&seed, &words), chain_from(&seed, &words));
        }
        assert_eq!(ahash_chain_with(&seed, &vec![]), seed.finish());
        assert_ne!(ahash_chain_with(&seed, &vec![1, 2]), ahash_chain_with(&seed, &vec![2, 1]));
    }
    let start = ahash::AHasher::default();
    assert_eq!(ahash_chain(&vec![4, 5, 6]), chain_from(&start, &[4, 5, 6]));
}

#[test]
fn fast_digests_come_in_the_order_of_the_entries() {
    let seed = keyed(5);
    for c in samples() {
        let expected: Vec<u64> = c.iter().map(|e| digest_from(&seed, e)).collect();
        assert_eq!(ahash_entries_with(&seed, &c, ExecMode::Sequential), expected);
        assert_eq!(ahash_entries_with(&seed, &c, ExecMode::Parallel), expected);
        let start = ahash::AHasher::default();
        let by_default: Vec<u64> = c.iter().map(|e| digest_from(&start, e)).collect();
        assert_eq!(ahash_entries(&c, ExecMode::Sequential), by_default);
        assert_eq!(ahash_entries(&c, ExecMode::Parallel), by_default);
    }
}

#[test]
fn fast_fingerprint_is_the_chain_of_the_sorted_digests() {
    let start = ahash::AHasher::default();
    for c in samples() {
        let expected = fingerprint_from(&start, &c, false);
        assert_eq!(ahash_seq(c.clone()), expected);
        assert_eq!(ahash_par(c.clone()), expected);
        let collapsed = fingerprint_from(&start, &c, true);
        for mode in [ExecMode::Sequential, ExecMode::Parallel] {
            assert_eq!(ahash_fingerprint(c.clone(), Combiner::SortThenChain, mode), expected);
            assert_eq!(ahash_fingerprint(c.clone(), Combiner::SetCollapse, mode), collapsed);
        }
    }
}

#[test]
fn seeded_fast_fingerprint_is_the_chain_of_the_sorted_digests() {
    for k in [11u64, 12] {
        let seed = keyed(k);
        for c in samples() {
            for mode in [ExecMode::Sequential, ExecMode::Parallel] {
                assert_eq!(
                    ahash_fingerprint_with(&seed, c.clone(), Combiner::SortThenChain, mode),
                    fingerprint_from(&seed, &c, false)
                );
                assert_eq!(
                    ahash_fingerprint_with(&seed, c.clone(), Combiner::SetCollapse, mode),
                    fingerprint_from(&seed, &c, true)
                );
            }
        }
    }
    let x: Entries = vec![b"abc".to_vec(), b"de".to_vec()];
    assert_ne!(
        ahash_fingerprint_with(&keyed(11), x.clone(), Combiner::SortThenChain, ExecMode::Sequential),
        ahash_fingerprint_with(&keyed(12), x, Combiner::SortThenChain, ExecMode::Sequential)
    );
}

#[test]
fn fast_fingerprint_of_the_empty_collection_is_the_hash_of_nothing() {
    assert_eq!(ahash_seq(vec![]), ahash::AHasher::default().finish());
    assert_eq!(ahash_par(vec![]), ahash::AHasher::default().finish());
    let seed = keyed(21);
    assert_eq!(
        ahash_fingerprint_with(&seed, vec![], Combiner::SortThenChain, ExecMode::Sequential),
        seed.finish()
    );
    assert_ne!(
        ahash_fingerprint_with(&seed, vec![vec![]], Combiner::SortThenChain, ExecMode::Sequential),
        seed.finish()
    );
}

#[test]
fn seeded_fast_fingerprint_ignores_the_order_of_the_entries() {
    let seed = keyed(31);
    for c in samples() {
        let mut reversed = c.clone();
        reversed.reverse();
        for combiner in [Combiner::SortThenChain, Combiner::SetCollapse] {
            assert_eq!(
                ahash_fingerprint_with(&seed, c.clone(), combiner, ExecMode::Sequential),
                ahash_fingerprint_with(&seed, reversed.clone(), combiner, ExecMode::Parallel)
            );
        }
    }
}

#[test]
fn seeded_fast_equality_is_the_agreement_of_the_digests() {
    let all = samples();
    for k in [41u64, 42] {
        let seed = keyed(k);
        for x in all.iter() {
            for y in all.iter() {
                let mut dx: Vec<u64> = x.iter().map(|e| digest_from(&seed, e)).collect();
                let mut dy: Vec<u64> = y.iter().map(|e| digest_from(&seed, e)).collect();
                dx.sort_unstable();
                dy.sort_unstable();
                let as_multisets = dx == dy;
                dx.dedup();
                dy.dedup();
                let as_sets = dx == dy;
                for mode in [ExecMode::Sequential, ExecMode::Parallel] {
                    assert_eq!(
                        eq_by_ahash_with(&seed, x.clone(), y.clone(), Combiner::SortThenChain, mode),
                        as_multisets
                    );
                    assert_eq!(
                        eq_by_ahash_with(&seed, x.clone(), y.clone(), Combiner::SetCollapse, mode),
                        as_sets
                    );
                }
                assert_eq!(as_multisets, eq_by_sorting_seq(x.clone(), y.clone()));
            }
        }
    }
}

#[test]
fn fast_equality_holds_of_every_reordering() {
    for c in samples() {
        let mut reversed = c.clone();
        reversed.reverse();
        let mut rotated = c.clone();
        if !rotated.is_empty() {
            rotated.rotate_left(1);
        }
        assert!(eq_by_ahash_seq(c.clone(), reversed.clone()));
        assert!(eq_by_ahash_par(c.clone(), reversed.clone()));
        assert!(eq_by_ahash_seq(c.clone(), rotated.clone()));
        assert!(eq_by_ahash_par(c.clone(), rotated.clone()));
        for mode in [ExecMode::Sequential, ExecMode::Parallel] {
            assert!(eq_by_ahash(c.clone(), reversed.clone(), Combiner::SetCollapse, mode));
        }
    }
}
