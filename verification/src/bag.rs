//! Collections as multisets: what stays the same when a sequence is
//! reordered, and how that carries over to a sequence of digests.

use vstd::multiset::*;
use vstd::prelude::*;
use vstd::relations::*;

verus! {

/// A collection as the sequence of its entries, each a byte string.
pub open spec fn entries_of(c: Seq<Vec<u8>>) -> Seq<Seq<u8>> {
    c.map_values(|e: Vec<u8>| e@)
}

/// Two sequences hold the same items the same number of times.
pub open spec fn same_multiset<A>(x: Seq<A>, y: Seq<A>) -> bool {
    x.to_multiset() == y.to_multiset()
}

/// Two sequences hold the same items, however often.
pub open spec fn same_set<A>(x: Seq<A>, y: Seq<A>) -> bool {
    x.to_set() == y.to_set()
}

/// `f` sends no two different items of `x` or `y` to the same value.
pub open spec fn collision_free<A, B>(f: spec_fn(A) -> B, x: Seq<A>, y: Seq<A>) -> bool {
    injective_on(f, x.to_set().union(y.to_set()))
}

/// Sequences with the same multiset have the same length.
pub proof fn lemma_same_multiset_len<A>(x: Seq<A>, y: Seq<A>)
    requires
        same_multiset(x, y),
    ensures
        x.len() == y.len(),
{
    x.to_multiset_ensures();
    y.to_multiset_ensures();
}

/// Taking the last item off one sequence and the same item off the other
/// leaves two sequences that again have the same multiset.
proof fn lemma_remove_matching<A>(x: Seq<A>, y: Seq<A>, j: int)
    requires
        x.len() > 0,
        0 <= j < y.len(),
        y[j] == x.last(),
    ensures
        same_multiset(x, y) <==> same_multiset(x.drop_last(), y.remove(j)),
{
    broadcast use group_multiset_axioms;

    let a = x.last();
    let xs = x.drop_last();
    let ys = y.remove(j);
    xs.to_multiset_ensures();
    y.to_multiset_ensures();
    assert(x =~= xs.push(a));
    assert(x.to_multiset() =~= xs.to_multiset().insert(a));
    assert(ys.to_multiset() =~= y.to_multiset().remove(a));
    assert(y.to_multiset().count(a) > 0);
    assert(y.to_multiset() =~= ys.to_multiset().insert(a));
    if same_multiset(x, y) {
        assert(xs.to_multiset() =~= ys.to_multiset()) by {
            assert forall|v: A| xs.to_multiset().count(v) == ys.to_multiset().count(v) by {
                assert(x.to_multiset().count(v) == y.to_multiset().count(v));
            }
        }
    }
}

/// Reordering a sequence reorders the sequence of its images under `f`.
pub proof fn lemma_map_preserves_multiset<A, B>(x: Seq<A>, y: Seq<A>, f: spec_fn(A) -> B)
    requires
        same_multiset(x, y),
    ensures
        same_multiset(x.map_values(f), y.map_values(f)),
    decreases x.len(),
{
    lemma_same_multiset_len(x, y);
    if x.len() == 0 {
        assert(x.map_values(f) =~= y.map_values(f));
    } else {
        let a = x.last();
        x.to_multiset_ensures();
        y.to_multiset_ensures();
        assert(x.contains(a));
        assert(y.to_multiset().count(a) > 0);
        assert(y.contains(a));
        let j = choose|j: int| 0 <= j < y.len() && y[j] == a;
        lemma_remove_matching(x, y, j);
        lemma_map_preserves_multiset(x.drop_last(), y.remove(j), f);
        let mx = x.map_values(f);
        let my = y.map_values(f);
        assert(mx.drop_last() =~= x.drop_last().map_values(f));
        assert(my.remove(j) =~= y.remove(j).map_values(f));
        lemma_remove_matching(mx, my, j);
    }
}

/// Where `f` has no collision among the items at hand, the images have the
/// same multiset only if the items do.
pub proof fn lemma_map_reflects_multiset<A, B>(x: Seq<A>, y: Seq<A>, f: spec_fn(A) -> B)
    requires
        collision_free(f, x, y),
        same_multiset(x.map_values(f), y.map_values(f)),
    ensures
        same_multiset(x, y),
    decreases x.len(),
{
    let mx = x.map_values(f);
    let my = y.map_values(f);
    lemma_same_multiset_len(mx, my);
    if x.len() == 0 {
        assert(x =~= y);
    } else {
        let a = x.last();
        mx.to_multiset_ensures();
        my.to_multiset_ensures();
        assert(mx.last() == f(a));
        assert(mx.contains(f(a)));
        assert(my.to_multiset().count(f(a)) > 0);
        assert(my.contains(f(a)));
        let j = choose|j: int| 0 <= j < my.len() && my[j] == f(a);
        assert(x.to_set().contains(a)) by {
            assert(x.contains(a));
        }
        assert(y.to_set().contains(y[j])) by {
            assert(y.contains(y[j]));
        }
        assert(y[j] == a);
        lemma_remove_matching(mx, my, j);
        assert(mx.drop_last() =~= x.drop_last().map_values(f));
        assert(my.remove(j) =~= y.remove(j).map_values(f));
        assert(collision_free(f, x.drop_last(), y.remove(j))) by {
            let big = x.to_set().union(y.to_set());
            let small = x.drop_last().to_set().union(y.remove(j).to_set());
            assert forall|v: A| small.contains(v) implies big.contains(v) by {
                if x.drop_last().contains(v) {
                    let i = choose|i: int| 0 <= i < x.drop_last().len() && x.drop_last()[i] == v;
                    assert(x[i] == v);
                    assert(x.contains(v));
                } else {
                    let i = choose|i: int| 0 <= i < y.remove(j).len() && y.remove(j)[i] == v;
                    if i < j {
                        assert(y[i] == v);
                    } else {
                        assert(y[i + 1] == v);
                    }
                    assert(y.contains(v));
                }
            }
        }
        lemma_map_reflects_multiset(x.drop_last(), y.remove(j), f);
        lemma_remove_matching(x, y, j);
    }
}

/// Sequences with the same multiset have the same set.
pub proof fn lemma_same_multiset_same_set<A>(x: Seq<A>, y: Seq<A>)
    requires
        same_multiset(x, y),
    ensures
        same_set(x, y),
{
    x.to_multiset_ensures();
    y.to_multiset_ensures();
    assert forall|a: A| x.to_set().contains(a) == y.to_set().contains(a) by {
        assert(x.contains(a) <==> x.to_multiset().count(a) > 0);
        assert(y.contains(a) <==> y.to_multiset().count(a) > 0);
    }
    assert(x.to_set() =~= y.to_set());
}

} // verus!
