//! The sorting oracle: put both collections into canonical order by their
//! raw bytes and compare them entry by entry. It reads every byte of every
//! entry and errs on no input.

use crate::bag::{entries_of, same_multiset};
use crate::mode::ExecMode;
use crate::order::{bytes_le, lemma_bytes_le_total};
use crate::sorting::{lemma_canonical_of_same_multiset, sort_entries};
use rayon::iter::{IndexedParallelIterator, ParallelIterator};
use rayon::slice::ParallelSlice;
use vstd::prelude::*;

verus! {

/// Whether two entries hold the same bytes.
pub fn entry_eq(a: &Vec<u8>, b: &Vec<u8>) -> (same: bool)
    ensures
        same == (a@ == b@),
{
    if a.len() != b.len() {
        return false;
    }
    let n: usize = a.len();
    let mut i: usize = 0;
    while i < n
        invariant
            n == a@.len(),
            n == b@.len(),
            i <= n,
            forall|k: int| 0 <= k < i ==> a@[k] == b@[k],
        decreases n - i,
    {
        if a[i] != b[i] {
            return false;
        }
        i = i + 1;
    }
    assert(a@ =~= b@);
    true
}

/// Whether two runs of entries hold the same entries in the same order.
pub fn run_eq(x: &[Vec<u8>], y: &[Vec<u8>]) -> (same: bool)
    ensures
        same == (entries_of(x@) == entries_of(y@)),
{
    if x.len() != y.len() {
        assert(entries_of(x@).len() != entries_of(y@).len());
        return false;
    }
    let n: usize = x.len();
    let mut i: usize = 0;
    while i < n
        invariant
            n == x@.len(),
            n == y@.len(),
            i <= n,
            forall|k: int| 0 <= k < i ==> x@[k]@ == y@[k]@,
        decreases n - i,
    {
        if !entry_eq(&x[i], &y[i]) {
            assert(entries_of(x@)[i as int] != entries_of(y@)[i as int]);
            return false;
        }
        i = i + 1;
    }
    assert(entries_of(x@) =~= entries_of(y@));
    true
}

/// Calls `rayon::current_num_threads`: the size of the worker pool, which
/// the machine and its settings decide.
#[verifier::external_body]
fn worker_count() -> usize {
    rayon::current_num_threads()
}

/// Calls `par_chunks`, `zip` and `all` of rayon: cuts both collections,
/// which have one length, into runs of `chunk` entries and compares each run
/// of the one with the run at the same place in the other. The result says
/// whether every pair of runs is equal, that is whether the collections are.
#[verifier::external_body]
fn par_runs_eq(x: &Vec<Vec<u8>>, y: &Vec<Vec<u8>>, chunk: usize) -> (same: bool)
    requires
        chunk > 0,
        x@.len() == y@.len(),
    ensures
        same == (entries_of(x@) == entries_of(y@)),
{
    x.par_chunks(chunk).zip(y.par_chunks(chunk)).all(|(a, b)| run_eq(a, b))
}

/// Whether two collections hold the same entries in the same order, with
/// the comparison shared out among the workers: one run of entries for each
/// worker, and never an empty run.
pub fn par_eq(x: &Vec<Vec<u8>>, y: &Vec<Vec<u8>>) -> (same: bool)
    ensures
        same == (entries_of(x@) == entries_of(y@)),
{
    if x.len() != y.len() {
        assert(entries_of(x@).len() != entries_of(y@).len());
        return false;
    }
    let workers: usize = worker_count();
    let mut chunk: usize = 1;
    if workers > 0 && x.len() / workers > 0 {
        chunk = x.len() / workers;
    }
    par_runs_eq(x, y, chunk)
}

/// Whether two collections are equal as multisets of entries, decided by
/// sorting both and comparing the results.
pub fn eq_by_sorting(x: Vec<Vec<u8>>, y: Vec<Vec<u8>>, mode: ExecMode) -> (equal: bool)
    ensures
        equal == same_multiset(entries_of(x@), entries_of(y@)),
{
    let mut x = x;
    let mut y = y;
    let ghost x0 = entries_of(x@);
    let ghost y0 = entries_of(y@);
    sort_entries(&mut x, mode);
    sort_entries(&mut y, mode);
    proof {
        lemma_bytes_le_total();
        lemma_canonical_of_same_multiset(x0, y0, bytes_le());
    }
    match mode {
        ExecMode::Sequential => run_eq(x.as_slice(), y.as_slice()),
        ExecMode::Parallel => par_eq(&x, &y),
    }
}

/// Whether two collections are equal as multisets of entries, decided on
/// the calling thread.
pub fn eq_by_sorting_seq(x: Vec<Vec<u8>>, y: Vec<Vec<u8>>) -> (equal: bool)
    ensures
        equal == same_multiset(entries_of(x@), entries_of(y@)),
{
    eq_by_sorting(x, y, ExecMode::Sequential)
}

/// Whether two collections are equal as multisets of entries, with sorting
/// and comparison fanned out over the worker pool.
pub fn eq_by_sorting_par(x: Vec<Vec<u8>>, y: Vec<Vec<u8>>) -> (equal: bool)
    ensures
        equal == same_multiset(entries_of(x@), entries_of(y@)),
{
    eq_by_sorting(x, y, ExecMode::Parallel)
}

} // verus!
