//! The order-insensitive combiner: from the digests of a collection, in
//! whatever order they came, to one sequence that every reordering of the
//! collection gives too.

use crate::collapse::collapse;
use crate::mode::ExecMode;
use crate::sorting::{canonical_digests, canonical_u64, sort_digests, sort_u64};
use vstd::prelude::*;

verus! {

/// How the digests of a collection are combined.
#[derive(Clone, Copy, Debug, PartialEq, Eq, Structural)]
pub enum Combiner {
    /// Sort the digests and keep every occurrence: the result stands for
    /// the multiset of digests.
    SortThenChain,
    /// Sort the digests and keep one occurrence of each: the result stands
    /// for the set of digests, and repeated entries go unnoticed.
    SetCollapse,
}

/// The combined sequence of 256-bit digests.
pub open spec fn combined_digests(s: Seq<[u8; 32]>, combiner: Combiner) -> Seq<[u8; 32]> {
    match combiner {
        Combiner::SortThenChain => canonical_digests(s),
        Combiner::SetCollapse => collapse(canonical_digests(s)),
    }
}

/// The combined sequence of 64-bit digests.
pub open spec fn combined_u64(s: Seq<u64>, combiner: Combiner) -> Seq<u64> {
    match combiner {
        Combiner::SortThenChain => canonical_u64(s),
        Combiner::SetCollapse => collapse(canonical_u64(s)),
    }
}

/// The bytes of a sequence of 256-bit digests, one digest after the other.
pub open spec fn chained_bytes(s: Seq<[u8; 32]>) -> Seq<u8> {
    s.map_values(|d: [u8; 32]| d@).flatten()
}

/// Whether two 256-bit digests are the same.
pub fn digest_eq(a: &[u8; 32], b: &[u8; 32]) -> (same: bool)
    ensures
        same == (*a == *b),
{
    broadcast use vstd::array::group_array_axioms;

    let mut i: usize = 0;
    while i < 32
        invariant
            i <= 32,
            forall|k: int| 0 <= k < i ==> a@[k] == b@[k],
        decreases 32 - i,
    {
        if a[i] != b[i] {
            return false;
        }
        i = i + 1;
    }
    assert(a@ =~= b@);
    assert(*a =~= *b);
    true
}

/// Whether two sequences of 256-bit digests are the same.
pub fn digests_eq(x: &Vec<[u8; 32]>, y: &Vec<[u8; 32]>) -> (same: bool)
    ensures
        same == (x@ == y@),
{
    if x.len() != y.len() {
        return false;
    }
    let n: usize = x.len();
    let mut i: usize = 0;
    while i < n
        invariant
            n == x@.len(),
            n == y@.len(),
            i <= n,
            forall|k: int| 0 <= k < i ==> x@[k] == y@[k],
        decreases n - i,
    {
        if !digest_eq(&x[i], &y[i]) {
            return false;
        }
        i = i + 1;
    }
    assert(x@ =~= y@);
    true
}

/// Whether two sequences of 64-bit digests are the same.
pub fn u64s_eq(x: &Vec<u64>, y: &Vec<u64>) -> (same: bool)
    ensures
        same == (x@ == y@),
{
    if x.len() != y.len() {
        return false;
    }
    let n: usize = x.len();
    let mut i: usize = 0;
    while i < n
        invariant
            n == x@.len(),
            n == y@.len(),
            i <= n,
            forall|k: int| 0 <= k < i ==> x@[k] == y@[k],
        decreases n - i,
    {
        if x[i] != y[i] {
            return false;
        }
        i = i + 1;
    }
    assert(x@ =~= y@);
    true
}

/// One occurrence of each run of equal neighbours among 256-bit digests.
pub fn collapse_digests(v: &Vec<[u8; 32]>) -> (out: Vec<[u8; 32]>)
    ensures
        out@ == collapse(v@),
{
    let mut out: Vec<[u8; 32]> = Vec::new();
    let n: usize = v.len();
    let mut i: usize = 0;
    while i < n
        invariant
            n == v@.len(),
            i <= n,
            out@ == collapse(v@.take(i as int)),
        decreases n - i,
    {
        let ghost prefix = v@.take(i as int + 1);
        assert(prefix.drop_last() =~= v@.take(i as int));
        assert(prefix.last() == v@[i as int]);
        if i == 0 {
            assert(prefix =~= seq![v@[0]]);
            assert(collapse(v@.take(0)) =~= Seq::<[u8; 32]>::empty());
            out.push(v[i]);
            assert(out@ =~= prefix);
        } else {
            assert(prefix[prefix.len() - 2] == v@[i as int - 1]);
            if !digest_eq(&v[i - 1], &v[i]) {
                out.push(v[i]);
            }
        }
        i = i + 1;
    }
    assert(v@.take(n as int) =~= v@);
    out
}

/// One occurrence of each run of equal neighbours among 64-bit digests.
pub fn collapse_u64(v: &Vec<u64>) -> (out: Vec<u64>)
    ensures
        out@ == collapse(v@),
{
    let mut out: Vec<u64> = Vec::new();
    let n: usize = v.len();
    let mut i: usize = 0;
    while i < n
        invariant
            n == v@.len(),
            i <= n,
            out@ == collapse(v@.take(i as int)),
        decreases n - i,
    {
        let ghost prefix = v@.take(i as int + 1);
        assert(prefix.drop_last() =~= v@.take(i as int));
        assert(prefix.last() == v@[i as int]);
        if i == 0 {
            assert(prefix =~= seq![v@[0]]);
            assert(collapse(v@.take(0)) =~= Seq::<u64>::empty());
            out.push(v[i]);
            assert(out@ =~= prefix);
        } else {
            assert(prefix[prefix.len() - 2] == v@[i as int - 1]);
            if v[i - 1] != v[i] {
                out.push(v[i]);
            }
        }
        i = i + 1;
    }
    assert(v@.take(n as int) =~= v@);
    out
}

/// Combines 256-bit digests: sorts them and, for `SetCollapse`, drops the
/// repeats.
pub fn combine_digests(digests: Vec<[u8; 32]>, combiner: Combiner, mode: ExecMode) -> (out: Vec<
    [u8; 32],
>)
    ensures
        out@ == combined_digests(digests@, combiner),
{
    let mut sorted = digests;
    sort_digests(&mut sorted, mode);
    match combiner {
        Combiner::SortThenChain => sorted,
        Combiner::SetCollapse => collapse_digests(&sorted),
    }
}

/// Combines 64-bit digests: sorts them and, for `SetCollapse`, drops the
/// repeats.
pub fn combine_u64(digests: Vec<u64>, combiner: Combiner, mode: ExecMode) -> (out: Vec<u64>)
    ensures
        out@ == combined_u64(digests@, combiner),
{
    let mut sorted = digests;
    sort_u64(&mut sorted, mode);
    match combiner {
        Combiner::SortThenChain => sorted,
        Combiner::SetCollapse => collapse_u64(&sorted),
    }
}

/// Writes a sequence of 256-bit digests out as one byte string.
pub fn chain_bytes(digests: &Vec<[u8; 32]>) -> (out: Vec<u8>)
    ensures
        out@ == chained_bytes(digests@),
{
    let mut out: Vec<u8> = Vec::new();
    let n: usize = digests.len();
    let ghost views = digests@.map_values(|d: [u8; 32]| d@);
    let mut i: usize = 0;
    assert(views.take(0).flatten() =~= Seq::<u8>::empty());
    while i < n
        invariant
            n == digests@.len(),
            i <= n,
            views == digests@.map_values(|d: [u8; 32]| d@),
            out@ == views.take(i as int).flatten(),
        decreases n - i,
    {
        let d: [u8; 32] = digests[i];
        let ghost before = out@;
        let mut j: usize = 0;
        while j < 32
            invariant
                j <= 32,
                d@.len() == 32,
                out@ == before + d@.take(j as int),
            decreases 32 - j,
        {
            out.push(d[j]);
            assert(d@.take(j as int + 1) =~= d@.take(j as int).push(d@[j as int]));
            j = j + 1;
        }
        proof {
            assert(d@.take(32) =~= d@);
            assert(views.take(i as int + 1) =~= views.take(i as int).push(d@));
            views.take(i as int).lemma_flatten_push(d@);
        }
        i = i + 1;
    }
    assert(views.take(n as int) =~= views);
    out
}

} // verus!
