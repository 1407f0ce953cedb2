//! Collapsing a canonical sequence to one occurrence of each item: the
//! canonical sequence of a set. Two collections collapse to the same
//! sequence exactly when they hold the same items, however often.

use crate::bag::same_set;
use vstd::prelude::*;
use vstd::relations::*;

verus! {

/// `s` with every run of equal neighbours cut down to its first item.
pub open spec fn collapse<A>(s: Seq<A>) -> Seq<A>
    decreases s.len(),
{
    if s.len() <= 1 {
        s
    } else if s[s.len() - 2] == s.last() {
        collapse(s.drop_last())
    } else {
        collapse(s.drop_last()).push(s.last())
    }
}

/// Collapsing keeps the last item last, and keeps and adds no item.
pub proof fn lemma_collapse_items<A>(s: Seq<A>)
    ensures
        collapse(s).len() <= s.len(),
        s.len() > 0 ==> collapse(s).len() > 0 && collapse(s).last() == s.last(),
        same_set(collapse(s), s),
    decreases s.len(),
{
    if s.len() <= 1 {
    } else {
        let init = s.drop_last();
        lemma_collapse_items(init);
        let c = collapse(s);
        let ci = collapse(init);
        assert(init.last() == s[s.len() - 2]);
        assert forall|a: A| c.to_set().contains(a) == s.to_set().contains(a) by {
            if c.contains(a) {
                let i = choose|i: int| 0 <= i < c.len() && c[i] == a;
                if i < ci.len() {
                    assert(ci[i] == a);
                    assert(ci.to_set().contains(a));
                    assert(init.contains(a));
                    let j = choose|j: int| 0 <= j < init.len() && init[j] == a;
                    assert(s[j] == a);
                } else {
                    assert(a == s.last());
                    assert(s[s.len() - 1] == a);
                }
                assert(s.contains(a));
            }
            if s.contains(a) {
                let j = choose|j: int| 0 <= j < s.len() && s[j] == a;
                if j < init.len() {
                    assert(init[j] == a);
                    assert(init.to_set().contains(a));
                    assert(ci.contains(a));
                    let i = choose|i: int| 0 <= i < ci.len() && ci[i] == a;
                    assert(c[i] == a);
                } else {
                    assert(c.last() == a);
                    assert(c[c.len() - 1] == a);
                }
                assert(c.contains(a));
            }
        }
        assert(c.to_set() =~= s.to_set());
    }
}

/// A sorted sequence collapses to a sorted sequence in which no item occurs
/// twice.
pub proof fn lemma_collapse_sorted<A>(s: Seq<A>, leq: spec_fn(A, A) -> bool)
    requires
        total_ordering(leq),
        sorted_by(s, leq),
    ensures
        sorted_by(collapse(s), leq),
        collapse(s).no_duplicates(),
    decreases s.len(),
{
    if s.len() <= 1 {
    } else {
        let init = s.drop_last();
        let last = s.last();
        assert(sorted_by(init, leq)) by {
            assert forall|i: int, j: int| 0 <= i < j < init.len() implies #[trigger] leq(
                init[i],
                init[j],
            ) by {
                assert(leq(s[i], s[j]));
            }
        }
        lemma_collapse_sorted(init, leq);
        lemma_collapse_items(init);
        let ci = collapse(init);
        if s[s.len() - 2] != last {
            let c = ci.push(last);
            assert(c.len() == ci.len() + 1);
            assert forall|i: int| 0 <= i < ci.len() implies leq(#[trigger] ci[i], last) && ci[i]
                != last by {
                assert(ci.contains(ci[i]));
                assert(ci.to_set().contains(ci[i]));
                assert(init.contains(ci[i]));
                let j = choose|j: int| 0 <= j < init.len() && init[j] == ci[i];
                assert(leq(s[j], s[s.len() - 1]));
                if ci[i] == last {
                    if j < s.len() - 2 {
                        assert(leq(s[j], s[s.len() - 2]));
                    }
                    assert(leq(s[s.len() - 2], s[s.len() - 1]));
                    assert(leq(s[s.len() - 2], s[j]));
                    assert(leq(s[j], s[s.len() - 2]));
                }
            }
            assert forall|i: int, j: int| 0 <= i < j < c.len() implies #[trigger] leq(
                c[i],
                c[j],
            ) by {
                if j < ci.len() {
                    assert(leq(ci[i], ci[j]));
                } else {
                    assert(c[i] == ci[i]);
                }
            }
            assert forall|i: int, j: int| 0 <= i < c.len() && 0 <= j < c.len() && i != j implies c[i]
                != c[j] by {
                if i < ci.len() && j < ci.len() {
                    assert(ci[i] != ci[j]);
                } else if i < ci.len() {
                    assert(c[j] == last);
                    assert(c[i] == ci[i]);
                } else {
                    assert(c[i] == last);
                    assert(c[j] == ci[j]);
                }
            }
        }
    }
}

/// Two sorted sequences without duplicates that hold the same items are
/// equal.
pub proof fn lemma_strictly_sorted_unique<A>(x: Seq<A>, y: Seq<A>, leq: spec_fn(A, A) -> bool)
    requires
        total_ordering(leq),
        sorted_by(x, leq),
        sorted_by(y, leq),
        x.no_duplicates(),
        y.no_duplicates(),
        same_set(x, y),
    ensures
        x == y,
{
    x.lemma_multiset_has_no_duplicates();
    y.lemma_multiset_has_no_duplicates();
    x.to_multiset_ensures();
    y.to_multiset_ensures();
    assert forall|a: A| x.to_multiset().count(a) == y.to_multiset().count(a) by {
        assert(x.to_set().contains(a) == y.to_set().contains(a));
        assert(x.contains(a) == y.contains(a));
        assert(x.to_multiset().contains(a) ==> x.to_multiset().count(a) == 1);
        assert(y.to_multiset().contains(a) ==> y.to_multiset().count(a) == 1);
    }
    assert(x.to_multiset() =~= y.to_multiset());
    vstd::seq_lib::lemma_sorted_unique(x, y, leq);
}

/// The collapsed canonical sequences of two collections are equal exactly
/// when the collections hold the same items.
pub proof fn lemma_collapse_of_same_set<A>(x: Seq<A>, y: Seq<A>, leq: spec_fn(A, A) -> bool)
    requires
        total_ordering(leq),
    ensures
        same_set(x, y) <==> collapse(x.sort_by(leq)) == collapse(y.sort_by(leq)),
{
    let sx = x.sort_by(leq);
    let sy = y.sort_by(leq);
    x.lemma_sort_by_ensures(leq);
    y.lemma_sort_by_ensures(leq);
    crate::bag::lemma_same_multiset_same_set(x, sx);
    crate::bag::lemma_same_multiset_same_set(y, sy);
    lemma_collapse_items(sx);
    lemma_collapse_items(sy);
    lemma_collapse_sorted(sx, leq);
    lemma_collapse_sorted(sy, leq);
    if same_set(x, y) {
        assert(same_set(collapse(sx), collapse(sy)));
        lemma_strictly_sorted_unique(collapse(sx), collapse(sy), leq);
    }
}

} // verus!
