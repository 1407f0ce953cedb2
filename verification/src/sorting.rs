//! Canonical order: every way of sorting a collection ends in the same
//! sequence, so a sorted sequence stands for the multiset.

use crate::bag::{entries_of, same_multiset};
use crate::mode::ExecMode;
use crate::order::{
    bytes_le, digest_le, lemma_bytes_le_total, lemma_digest_le_total, lemma_u64_le_total, u64_le,
};
use rayon::slice::ParallelSliceMut;
use vstd::prelude::*;
use vstd::relations::*;

verus! {

/// Calls `sort_unstable` of std on 64-bit digests: afterwards the vector
/// holds the items it held before, in ascending order.
#[verifier::external_body]
fn sort_u64_seq(v: &mut Vec<u64>)
    ensures
        sorted_by(final(v)@, u64_le()),
        same_multiset(final(v)@, old(v)@),
{
    v.sort_unstable();
}

/// Calls `par_sort_unstable` of rayon on 64-bit digests: afterwards the
/// vector holds the items it held before, in ascending order.
#[verifier::external_body]
fn sort_u64_par(v: &mut Vec<u64>)
    ensures
        sorted_by(final(v)@, u64_le()),
        same_multiset(final(v)@, old(v)@),
{
    v.par_sort_unstable();
}

/// Calls `sort_unstable` of std on 256-bit digests, which std orders
/// lexicographically: afterwards the vector holds the items it held before,
/// in ascending order.
#[verifier::external_body]
fn sort_digests_seq(v: &mut Vec<[u8; 32]>)
    ensures
        sorted_by(final(v)@, digest_le()),
        same_multiset(final(v)@, old(v)@),
{
    v.sort_unstable();
}

/// Calls `par_sort_unstable` of rayon on 256-bit digests, ordered as std
/// orders arrays, lexicographically: afterwards the vector holds the items
/// it held before, in ascending order.
#[verifier::external_body]
fn sort_digests_par(v: &mut Vec<[u8; 32]>)
    ensures
        sorted_by(final(v)@, digest_le()),
        same_multiset(final(v)@, old(v)@),
{
    v.par_sort_unstable();
}

/// Calls `sort_unstable` of std on byte entries, which std orders
/// lexicographically: afterwards the vector holds the entries it held
/// before, in ascending order.
#[verifier::external_body]
fn sort_entries_seq(v: &mut Vec<Vec<u8>>)
    ensures
        sorted_by(entries_of(final(v)@), bytes_le()),
        same_multiset(entries_of(final(v)@), entries_of(old(v)@)),
{
    v.sort_unstable();
}

/// Calls `par_sort_unstable` of rayon on byte entries, ordered as std orders
/// vectors, lexicographically: afterwards the vector holds the entries it
/// held before, in ascending order.
#[verifier::external_body]
fn sort_entries_par(v: &mut Vec<Vec<u8>>)
    ensures
        sorted_by(entries_of(final(v)@), bytes_le()),
        same_multiset(entries_of(final(v)@), entries_of(old(v)@)),
{
    v.par_sort_unstable();
}

/// The canonical sequence of a collection of 64-bit digests: its items in
/// ascending order.
pub open spec fn canonical_u64(s: Seq<u64>) -> Seq<u64> {
    s.sort_by(u64_le())
}

/// The canonical sequence of a collection of 256-bit digests: its items in
/// lexicographic order.
pub open spec fn canonical_digests(s: Seq<[u8; 32]>) -> Seq<[u8; 32]> {
    s.sort_by(digest_le())
}

/// The canonical sequence of a collection of entries: its entries in
/// lexicographic order.
pub open spec fn canonical_entries(s: Seq<Seq<u8>>) -> Seq<Seq<u8>> {
    s.sort_by(bytes_le())
}

/// A sequence that is sorted by a total order and holds the items of `s` is
/// the one that `sort_by` gives.
pub proof fn lemma_sorted_is_canonical<A>(s: Seq<A>, t: Seq<A>, leq: spec_fn(A, A) -> bool)
    requires
        total_ordering(leq),
        sorted_by(t, leq),
        same_multiset(t, s),
    ensures
        t == s.sort_by(leq),
{
    s.lemma_sort_by_ensures(leq);
    vstd::seq_lib::lemma_sorted_unique(t, s.sort_by(leq), leq);
}

/// The canonical sequence depends on the multiset alone.
pub proof fn lemma_canonical_of_same_multiset<A>(x: Seq<A>, y: Seq<A>, leq: spec_fn(A, A) -> bool)
    requires
        total_ordering(leq),
    ensures
        same_multiset(x, y) <==> x.sort_by(leq) == y.sort_by(leq),
{
    x.lemma_sort_by_ensures(leq);
    y.lemma_sort_by_ensures(leq);
    if same_multiset(x, y) {
        vstd::seq_lib::lemma_sorted_unique(x.sort_by(leq), y.sort_by(leq), leq);
    }
}

/// Sorts 64-bit digests into their canonical sequence.
pub fn sort_u64(v: &mut Vec<u64>, mode: ExecMode)
    ensures
        final(v)@ == canonical_u64(old(v)@),
{
    match mode {
        ExecMode::Sequential => sort_u64_seq(v),
        ExecMode::Parallel => sort_u64_par(v),
    }
    proof {
        lemma_u64_le_total();
        lemma_sorted_is_canonical(old(v)@, v@, u64_le());
    }
}

/// Sorts 256-bit digests into their canonical sequence.
pub fn sort_digests(v: &mut Vec<[u8; 32]>, mode: ExecMode)
    ensures
        final(v)@ == canonical_digests(old(v)@),
{
    match mode {
        ExecMode::Sequential => sort_digests_seq(v),
        ExecMode::Parallel => sort_digests_par(v),
    }
    proof {
        lemma_digest_le_total();
        lemma_sorted_is_canonical(old(v)@, v@, digest_le());
    }
}

/// Sorts entries into their canonical sequence.
pub fn sort_entries(v: &mut Vec<Vec<u8>>, mode: ExecMode)
    ensures
        entries_of(final(v)@) == canonical_entries(entries_of(old(v)@)),
{
    match mode {
        ExecMode::Sequential => sort_entries_seq(v),
        ExecMode::Parallel => sort_entries_par(v),
    }
    proof {
        lemma_bytes_le_total();
        lemma_sorted_is_canonical(entries_of(old(v)@), entries_of(v@), bytes_le());
    }
}

} // verus!
