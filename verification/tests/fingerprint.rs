use order_insensitive_compare::{
    ahash_fingerprint, ahash_par, ahash_seq, blake3_par, blake3_seq, eq_by_sorting_seq,
    fingerprint, sha256_par, sha256_seq, Combiner, ExecMode, HashFamily,
};
use sha2::Digest;

type EntryList = Vec<Vec<u8>>;

fn step(state: &mut u64) -> u64 {
    *state = state
        .wrapping_mul(6364136223846793005)
        .wrapping_add(1442695040888963407);
    *state >> 33
}

fn entries(seed: u64, count: usize, max_len: usize, alphabet: u64) -> EntryList {
    let mut state = seed;
    let mut out = Vec::new();
    for _ in 0..count {
        let len = (step(&mut state) as usize) % (max_len + 1);
        let mut entry = Vec::new();
        for _ in 0..len {
            entry.push((step(&mut state) % alphabet) as u8);
        }
        out.push(entry);
    }
    out
}

fn reordered(data: &EntryList, seed: u64) -> EntryList {
    let mut state = seed;
    let mut out = data.clone();
    let mut i = out.len();
    while i > 1 {
        let j = (step(&mut state) as usize) % i;
        out.swap(i - 1, j);
        i -= 1;
    }
    out
}

fn inputs() -> Vec<EntryList> {
    let mut all: Vec<EntryList> = vec![
        vec![],
        vec![vec![]],
        vec![vec![], vec![]],
        vec![b"abc".to_vec(), b"de".to_vec()],
        vec![b"de".to_vec(), b"abc".to_vec(), b"abc".to_vec()],
        vec![b"ab".to_vec(), b"c".to_vec()],
        vec![b"a".to_vec(), b"bc".to_vec()],
    ];
    for seed in 0..10u64 {
        all.push(entries(seed, (seed as usize) * 5 % 13, 3, 2));
        all.push(entries(seed + 500, 30, 100, 256));
    }
    all
}

fn unhex(text: &str) -> [u8; 32] {
    let bytes = text.as_bytes();
    assert_eq!(bytes.len(), 64);
    let mut out = [0u8; 32];
    for i in 0..32 {
        let hi = (bytes[2 * i] as char).to_digit(16).unwrap() as u8;
        let lo = (bytes[2 * i + 1] as char).to_digit(16).unwrap() as u8;
        out[i] = hi * 16 + lo;
    }
    out
}

/// The SHA-256 fingerprint by the streaming interface: digest, sort, feed
/// the digests to one hasher in order.
fn sha256_by_streaming(x: &EntryList) -> [u8; 32] {
    let mut hashes: Vec<[u8; 32]> = x
        .iter()
        .map(|e| sha2::Sha256::digest(&e[..]).into())
        .collect();
    hashes.sort_unstable();
    let mut hasher = sha2::Sha256::new();
    for h in hashes.iter() {
        hasher.update(&h[..]);
    }
    hasher.finalize().into()
}

/// The BLAKE3 fingerprint by the streaming interface.
fn blake3_by_streaming(x: &EntryList) -> [u8; 32] {
    let mut hashes: Vec<blake3::Hash> = x.iter().map(|e| blake3::hash(&e[..])).collect();
    hashes.sort_unstable_by_key(|hash| *hash.as_bytes());
    let mut hasher = blake3::Hasher::new();
    for h in hashes.iter() {
        hasher.update(h.as_bytes());
    }
    *hasher.finalize().as_bytes()
}

fn same_hash<O: Eq + std::fmt::Debug>(hash: fn(EntryList) -> O) {
    for (k, data) in inputs().into_iter().enumerate() {
        let other = reordered(&data, k as u64 + 3);
        assert_eq!(hash(data.clone()), hash(other));
        let mut reversed = data.clone();
        reversed.reverse();
        assert_eq!(hash(data), hash(reversed));
    }
}

fn pair_hash<O: Eq + std::fmt::Debug>(hash: fn(EntryList) -> O) {
    let all = inputs();
    for x in all.iter() {
        for y in all.iter() {
            assert_eq!(
                eq_by_sorting_seq(x.clone(), y.clone()),
                hash(x.clone()) == hash(y.clone())
            );
        }
    }
}

#[test]
fn same_ahash_seq() {
    same_hash(ahash_seq);
}

#[test]
fn same_ahash_par() {
    same_hash(ahash_par);
}

#[test]
fn same_sha256_seq() {
    same_hash(sha256_seq);
}

#[test]
fn same_sha256_par() {
    same_hash(sha256_par);
}

#[test]
fn same_blake3_seq() {
    same_hash(blake3_seq);
}

#[test]
fn same_blake3_par() {
    same_hash(blake3_par);
}

#[test]
fn pair_ahash_seq() {
    pair_hash(ahash_seq);
}

#[test]
fn pair_ahash_par() {
    pair_hash(ahash_par);
}

#[test]
fn pair_sha256_seq() {
    pair_hash(sha256_seq);
}

#[test]
fn pair_sha256_par() {
    pair_hash(sha256_par);
}

#[test]
fn pair_blake3_seq() {
    pair_hash(blake3_seq);
}

#[test]
fn pair_blake3_par() {
    pair_hash(blake3_par);
}

#[test]
fn sha256_of_the_empty_collection() {
    let expected = unhex("e3b0c44298fc1c149afbf4c8996fb92427ae41e4649b934ca495991b7852b855");
    assert_eq!(sha256_seq(vec![]), expected);
    assert_eq!(sha256_par(vec![]), expected);
    for mode in [ExecMode::Sequential, ExecMode::Parallel] {
        for combiner in [Combiner::SortThenChain, Combiner::SetCollapse] {
            assert_eq!(fingerprint(HashFamily::Sha256, vec![], combiner, mode), expected);
        }
    }
}

#[test]
fn sha256_of_one_empty_entry() {
    let expected = unhex("5df6e0e2761359d30a8275058e299fcc0381534545f55cf43e41983f5d4c9456");
    assert_eq!(sha256_seq(vec![vec![]]), expected);
    assert_eq!(sha256_par(vec![vec![]]), expected);
    assert_eq!(
        fingerprint(
            HashFamily::Sha256,
            vec![vec![], vec![]],
            Combiner::SetCollapse,
            ExecMode::Sequential
        ),
        expected
    );
}

#[test]
fn blake3_of_the_empty_collection() {
    let expected = unhex("af1349b9f5f9a1a6a0404dea36dcc9499bcb25c9adc112b7cc9a93cae41f3262");
    assert_eq!(blake3_seq(vec![]), expected);
    assert_eq!(blake3_par(vec![]), expected);
    assert_eq!(blake3_seq(vec![]), *blake3::hash(b"").as_bytes());
}

#[test]
fn blake3_of_one_empty_entry() {
    let inner = blake3::hash(b"");
    let expected = *blake3::hash(inner.as_bytes()).as_bytes();
    assert_eq!(blake3_seq(vec![vec![]]), expected);
    assert_eq!(blake3_par(vec![vec![]]), expected);
}

#[test]
fn empty_collection_and_one_empty_entry_have_different_fingerprints() {
    assert_ne!(ahash_seq(vec![]), ahash_seq(vec![vec![]]));
    assert_ne!(ahash_par(vec![]), ahash_par(vec![vec![]]));
    assert_ne!(sha256_seq(vec![]), sha256_seq(vec![vec![]]));
    assert_ne!(sha256_par(vec![]), sha256_par(vec![vec![]]));
    assert_ne!(blake3_seq(vec![]), blake3_seq(vec![vec![]]));
    assert_ne!(blake3_par(vec![]), blake3_par(vec![vec![]]));
}

#[test]
fn sha256_fingerprint_is_the_digest_of_the_sorted_digests() {
    for data in inputs() {
        let expected = sha256_by_streaming(&data);
        assert_eq!(sha256_seq(data.clone()), expected);
        assert_eq!(sha256_par(data), expected);
    }
}

#[test]
fn sha256_fingerprint_of_two_entries() {
    let a: [u8; 32] = sha2::Sha256::digest(b"abc").into();
    let b: [u8; 32] = sha2::Sha256::digest(b"de").into();
    assert_eq!(
        a,
        unhex("ba7816bf8f01cfea414140de5dae2223b00361a396177a9cb410ff61f20015ad")
    );
    let (lo, hi) = if a < b { (a, b) } else { (b, a) };
    let mut chained = Vec::new();
    chained.extend_from_slice(&lo);
    chained.extend_from_slice(&hi);
    let expected: [u8; 32] = sha2::Sha256::digest(&chained).into();
    assert_eq!(sha256_seq(vec![b"abc".to_vec(), b"de".to_vec()]), expected);
    assert_eq!(sha256_seq(vec![b"de".to_vec(), b"abc".to_vec()]), expected);
    assert_ne!(sha256_seq(vec![b"abc".to_vec()]), expected);
}

#[test]
fn blake3_fingerprint_is_the_hash_of_the_sorted_hashes() {
    for data in inputs() {
        let expected = blake3_by_streaming(&data);
        assert_eq!(blake3_seq(data.clone()), expected);
        assert_eq!(blake3_par(data), expected);
    }
}

#[test]
fn the_two_families_give_different_fingerprints() {
    let data: EntryList = vec![b"abc".to_vec(), b"de".to_vec()];
    assert_ne!(sha256_seq(data.clone()), blake3_seq(data));
}

#[test]
fn sequential_and_parallel_fingerprints_agree() {
    for data in inputs() {
        assert_eq!(ahash_seq(data.clone()), ahash_par(data.clone()));
        assert_eq!(sha256_seq(data.clone()), sha256_par(data.clone()));
        assert_eq!(blake3_seq(data.clone()), blake3_par(data.clone()));
        for combiner in [Combiner::SortThenChain, Combiner::SetCollapse] {
            assert_eq!(
                ahash_fingerprint(data.clone(), combiner, ExecMode::Sequential),
                ahash_fingerprint(data.clone(), combiner, ExecMode::Parallel)
            );
            for family in [HashFamily::Sha256, HashFamily::Blake3] {
                assert_eq!(
                    fingerprint(family, data.clone(), combiner, ExecMode::Sequential),
                    fingerprint(family, data.clone(), combiner, ExecMode::Parallel)
                );
            }
        }
    }
}

#[test]
fn fast_fingerprint_is_stable_within_the_process() {
    for data in inputs() {
        assert_eq!(ahash_seq(data.clone()), ahash_seq(data.clone()));
        assert_eq!(ahash_par(data.clone()), ahash_par(data));
    }
}

#[test]
fn fingerprints_notice_a_repeated_entry_under_sort_then_chain() {
    let x: EntryList = vec![b"abc".to_vec(), b"de".to_vec()];
    let y2: EntryList = vec![b"de".to_vec(), b"abc".to_vec(), b"abc".to_vec()];
    assert_ne!(ahash_seq(x.clone()), ahash_seq(y2.clone()));
    assert_ne!(sha256_seq(x.clone()), sha256_seq(y2.clone()));
    assert_ne!(blake3_seq(x), blake3_seq(y2));
}

#[test]
fn fingerprints_miss_a_repeated_entry_under_set_collapse() {
    let x: EntryList = vec![b"abc".to_vec(), b"de".to_vec()];
    let y2: EntryList = vec![b"de".to_vec(), b"abc".to_vec(), b"abc".to_vec()];
    for mode in [ExecMode::Sequential, ExecMode::Parallel] {
        assert_eq!(
            ahash_fingerprint(x.clone(), Combiner::SetCollapse, mode),
            ahash_fingerprint(y2.clone(), Combiner::SetCollapse, mode)
        );
        for family in [HashFamily::Sha256, HashFamily::Blake3] {
            assert_eq!(
                fingerprint(family, x.clone(), Combiner::SetCollapse, mode),
                fingerprint(family, y2.clone(), Combiner::SetCollapse, mode)
            );
            assert_ne!(
                fingerprint(family, x.clone(), Combiner::SortThenChain, mode),
                fingerprint(family, y2.clone(), Combiner::SortThenChain, mode)
            );
        }
    }
}

#[test]
fn without_repeats_both_combiners_give_one_fingerprint() {
    let x: EntryList = vec![b"abc".to_vec(), b"de".to_vec(), b"".to_vec()];
    for family in [HashFamily::Sha256, HashFamily::Blake3] {
        assert_eq!(
            fingerprint(family, x.clone(), Combiner::SetCollapse, ExecMode::Sequential),
            fingerprint(family, x.clone(), Combiner::SortThenChain, ExecMode::Sequential)
        );
    }
}

#[test]
fn fingerprints_respect_entry_boundaries() {
    let x: EntryList = vec![b"ab".to_vec(), b"c".to_vec()];
    let y: EntryList = vec![b"a".to_vec(), b"bc".to_vec()];
    assert_ne!(ahash_seq(x.clone()), ahash_seq(y.clone()));
    assert_ne!(sha256_seq(x.clone()), sha256_seq(y.clone()));
    assert_ne!(blake3_seq(x), blake3_seq(y));
}
