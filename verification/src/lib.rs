//! Order-insensitive comparison and fingerprinting of collections of byte
//! entries.
//!
//! A collection is a `Vec<Vec<u8>>` that is read as a multiset: the order of
//! its entries means nothing, their number does. The crate decides whether
//! two collections are equal, and gives a collection a fingerprint that any
//! reordering of it has too.

pub mod bag;
pub mod collapse;
pub mod combine;
pub mod digest;
pub mod equality;
pub mod fingerprint;
pub mod laws;
pub mod mode;
pub mod oracle;
pub mod order;
pub mod sorting;

pub use crate::combine::Combiner;
pub use crate::digest::HashFamily;
pub use crate::digest::fast_seed;
pub use crate::equality::{
    eq_by_ahash, eq_by_ahash_par, eq_by_ahash_seq, eq_by_ahash_with, eq_by_blake3_par,
    eq_by_blake3_seq, eq_by_digest, eq_by_fingerprint, eq_by_sha256_par, eq_by_sha256_seq,
    eq_digests, eq_u64_digests,
};
pub use crate::fingerprint::{
    ahash_fingerprint, ahash_fingerprint_with, ahash_par, ahash_seq, blake3_par, blake3_seq,
    fingerprint, sha256_par, sha256_seq,
};
pub use crate::oracle::{eq_by_sorting, eq_by_sorting_par, eq_by_sorting_seq, par_eq};
pub use crate::mode::ExecMode;
