//! What the engines promise of every collection: reordering changes
//! nothing, equality on digests agrees with equality on the entries as far
//! as the hash family is free of collisions, and collapsing to a set
//! loses the count of repeated entries. Each law is proved once of any
//! digest function and then stated of the cryptographic families and of the
//! fast family under one seed.

use crate::bag::{
    collision_free, lemma_map_preserves_multiset, lemma_map_reflects_multiset,
    lemma_same_multiset_len, lemma_same_multiset_same_set, same_multiset, same_set,
};
use crate::collapse::lemma_collapse_of_same_set;
use crate::combine::{chained_bytes, combined_digests, combined_u64, Combiner};
use crate::digest::{
    digest_fn, digest_of, digests_of, fast_chain_fn, fast_digest_fn, fast_digests_of, fast_value,
    HashFamily,
};
use crate::equality::{digests_agree, equal_by_digests};
use crate::fingerprint::{fast_fingerprint_of, fingerprint_of};
use crate::order::{digest_le, lemma_digest_le_total, lemma_u64_le_total, u64_le};
use crate::sorting::{lemma_canonical_of_same_multiset, lemma_sorted_is_canonical};
use vstd::prelude::*;
use vstd::relations::{sorted_by, total_ordering};

verus! {

/// Sequential and parallel sorting agree: however a collection is sorted,
/// by one thread or by many, by whatever procedure, there is one sequence
/// that can come out. With it every later step of a call starts from the
/// same value in either execution mode.
pub proof fn law_sorting_is_mode_independent<A>(
    s: Seq<A>,
    by_one: Seq<A>,
    by_many: Seq<A>,
    leq: spec_fn(A, A) -> bool,
)
    requires
        total_ordering(leq),
        sorted_by(by_one, leq),
        same_multiset(by_one, s),
        sorted_by(by_many, leq),
        same_multiset(by_many, s),
    ensures
        by_one == by_many,
{
    lemma_sorted_is_canonical(s, by_one, leq);
    lemma_sorted_is_canonical(s, by_many, leq);
}

/// The combiner is insensitive to order: digests that are handed over in
/// another order combine to the same sequence, under either combiner. This
/// holds of 64-bit digests whatever hash produced them.
pub proof fn law_combined_u64_order_insensitive(dx: Seq<u64>, dy: Seq<u64>, combiner: Combiner)
    requires
        same_multiset(dx, dy),
    ensures
        combined_u64(dx, combiner) == combined_u64(dy, combiner),
{
    lemma_same_multiset_same_set(dx, dy);
    law_combined_u64_decides(dx, dy, combiner);
}

/// The combined sequences of two collections of 64-bit digests are equal
/// exactly when the digests are the same multiset, for sort-then-chain, or
/// the same set, for set collapse.
pub proof fn law_combined_u64_decides(dx: Seq<u64>, dy: Seq<u64>, combiner: Combiner)
    ensures
        combined_u64(dx, combiner) == combined_u64(dy, combiner) <==> digests_agree(
            dx,
            dy,
            combiner,
        ),
{
    lemma_u64_le_total();
    lemma_canonical_of_same_multiset(dx, dy, u64_le());
    lemma_collapse_of_same_set(dx, dy, u64_le());
}

/// The combined sequences of two collections of 256-bit digests are equal
/// exactly when the digests are the same multiset, for sort-then-chain, or
/// the same set, for set collapse.
pub proof fn law_combined_digests_decides(
    dx: Seq<[u8; 32]>,
    dy: Seq<[u8; 32]>,
    combiner: Combiner,
)
    ensures
        combined_digests(dx, combiner) == combined_digests(dy, combiner) <==> digests_agree(
            dx,
            dy,
            combiner,
        ),
{
    lemma_digest_le_total();
    lemma_canonical_of_same_multiset(dx, dy, digest_le());
    lemma_collapse_of_same_set(dx, dy, digest_le());
}

/// Reordered items have images that agree under either combiner, whatever
/// the digest function.
pub proof fn lemma_images_agree<A, B>(
    x: Seq<A>,
    y: Seq<A>,
    f: spec_fn(A) -> B,
    combiner: Combiner,
)
    requires
        same_multiset(x, y),
    ensures
        digests_agree(x.map_values(f), y.map_values(f), combiner),
{
    lemma_map_preserves_multiset(x, y, f);
    lemma_same_multiset_same_set(x.map_values(f), y.map_values(f));
}

/// Where `f` has no collision among the items at hand, the images are the
/// same multiset exactly when the items are.
pub proof fn lemma_images_decide_multisets<A, B>(x: Seq<A>, y: Seq<A>, f: spec_fn(A) -> B)
    requires
        collision_free(f, x, y),
    ensures
        same_multiset(x.map_values(f), y.map_values(f)) <==> same_multiset(x, y),
{
    if same_multiset(x, y) {
        lemma_map_preserves_multiset(x, y, f);
    }
    if same_multiset(x.map_values(f), y.map_values(f)) {
        lemma_map_reflects_multiset(x, y, f);
    }
}

/// An item that two sequences share has its image among the images of
/// both.
proof fn lemma_image_present<A, B>(x: Seq<A>, y: Seq<A>, f: spec_fn(A) -> B, i: int)
    requires
        same_set(x, y),
        0 <= i < x.len(),
    ensures
        y.map_values(f).contains(x.map_values(f)[i]),
{
    assert(x.contains(x[i]));
    assert(x.to_set().contains(x[i]));
    assert(y.contains(x[i]));
    let j = choose|j: int| 0 <= j < y.len() && y[j] == x[i];
    assert(y.map_values(f)[j] == x.map_values(f)[i]);
}

/// Where `f` has no collision among the items at hand and the images of two
/// sequences are the same set, an item of the one is an item of the other.
proof fn lemma_preimage_present<A, B>(x: Seq<A>, y: Seq<A>, f: spec_fn(A) -> B, i: int)
    requires
        collision_free(f, x, y),
        same_set(x.map_values(f), y.map_values(f)),
        0 <= i < x.len(),
    ensures
        y.contains(x[i]),
{
    let dx = x.map_values(f);
    let dy = y.map_values(f);
    assert(dx.contains(dx[i]));
    assert(dx.to_set().contains(dx[i]));
    assert(dy.contains(dx[i]));
    let j = choose|j: int| 0 <= j < dy.len() && dy[j] == dx[i];
    assert(x.contains(x[i]));
    assert(y.contains(y[j]));
    assert(x.to_set().union(y.to_set()).contains(x[i]));
    assert(x.to_set().union(y.to_set()).contains(y[j]));
    assert(f(x[i]) == f(y[j]));
}

/// Where `f` has no collision among the items at hand, the images are the
/// same set exactly when the items are.
pub proof fn lemma_images_decide_sets<A, B>(x: Seq<A>, y: Seq<A>, f: spec_fn(A) -> B)
    requires
        collision_free(f, x, y),
    ensures
        same_set(x.map_values(f), y.map_values(f)) <==> same_set(x, y),
{
    let dx = x.map_values(f);
    let dy = y.map_values(f);
    if same_set(x, y) {
        assert forall|d: B| dx.to_set().contains(d) == dy.to_set().contains(d) by {
            if dx.contains(d) {
                let i = choose|i: int| 0 <= i < dx.len() && dx[i] == d;
                lemma_image_present(x, y, f, i);
            }
            if dy.contains(d) {
                let i = choose|i: int| 0 <= i < dy.len() && dy[i] == d;
                lemma_image_present(y, x, f, i);
            }
        }
        assert(dx.to_set() =~= dy.to_set());
    }
    if same_set(dx, dy) {
        assert(collision_free(f, y, x)) by {
            assert(y.to_set().union(x.to_set()) =~= x.to_set().union(y.to_set()));
        }
        assert forall|e: A| x.to_set().contains(e) == y.to_set().contains(e) by {
            if x.contains(e) {
                let i = choose|i: int| 0 <= i < x.len() && x[i] == e;
                lemma_preimage_present(x, y, f, i);
            }
            if y.contains(e) {
                let i = choose|i: int| 0 <= i < y.len() && y[i] == e;
                lemma_preimage_present(y, x, f, i);
            }
        }
        assert(x.to_set() =~= y.to_set());
    }
}

/// The images of no items agree with the images of no items and with no
/// others, under either combiner.
pub proof fn lemma_images_of_empty<A, B>(
    x: Seq<A>,
    y: Seq<A>,
    f: spec_fn(A) -> B,
    combiner: Combiner,
)
    requires
        x.len() == 0,
    ensures
        digests_agree(x.map_values(f), y.map_values(f), combiner) <==> y.len() == 0,
{
    let dx = x.map_values(f);
    let dy = y.map_values(f);
    if y.len() == 0 {
        assert(dx =~= dy);
    } else {
        assert(dy.contains(dy[0]));
        assert(dy.to_set().contains(dy[0]));
        assert(!dx.to_set().contains(dy[0]));
        if same_multiset(dx, dy) {
            lemma_same_multiset_len(dx, dy);
        }
    }
}

/// The images of a sequence and of the same sequence with one item repeated
/// are different multisets and the same set.
pub proof fn lemma_images_of_repeat<A, B>(c: Seq<A>, i: int, f: spec_fn(A) -> B)
    requires
        0 <= i < c.len(),
    ensures
        !same_multiset(c, c.push(c[i])),
        !digests_agree(c.map_values(f), c.push(c[i]).map_values(f), Combiner::SortThenChain),
        digests_agree(c.map_values(f), c.push(c[i]).map_values(f), Combiner::SetCollapse),
{
    let r = c.push(c[i]);
    let dc = c.map_values(f);
    let dr = r.map_values(f);
    if same_multiset(c, r) {
        lemma_same_multiset_len(c, r);
    }
    if same_multiset(dc, dr) {
        lemma_same_multiset_len(dc, dr);
    }
    assert forall|d: B| dc.to_set().contains(d) == dr.to_set().contains(d) by {
        if dc.contains(d) {
            let k = choose|k: int| 0 <= k < dc.len() && dc[k] == d;
            assert(dr[k] == d);
        }
        if dr.contains(d) {
            let k = choose|k: int| 0 <= k < dr.len() && dr[k] == d;
            if k < dc.len() {
                assert(dc[k] == d);
            } else {
                assert(dc[i] == d);
            }
        }
    }
    assert(dc.to_set() =~= dr.to_set());
}

/// Where `g` has no collision between `a` and `b`, equal images mean equal
/// items.
proof fn lemma_no_collision_between<A, B>(g: spec_fn(A) -> B, a: A, b: A)
    requires
        collision_free(g, seq![a], seq![b]),
        g(a) == g(b),
    ensures
        a == b,
{
    let both = seq![a].to_set().union(seq![b].to_set());
    assert(seq![a].contains(seq![a][0]));
    assert(seq![b].contains(seq![b][0]));
    assert(both.contains(a) && both.contains(b));
}

/// A reordered collection has the same combined digests, under either
/// combiner.
pub proof fn law_combined_permutation_invariant(
    family: HashFamily,
    c: Seq<Seq<u8>>,
    p: Seq<Seq<u8>>,
    combiner: Combiner,
)
    requires
        same_multiset(c, p),
    ensures
        combined_digests(digests_of(family, c), combiner) == combined_digests(
            digests_of(family, p),
            combiner,
        ),
{
    lemma_images_agree(c, p, digest_fn(family), combiner);
    law_combined_digests_decides(digests_of(family, c), digests_of(family, p), combiner);
}

/// Permutation invariance of the fingerprint: a collection and any
/// reordering of it have the same fingerprint, under every cryptographic
/// family and either combiner.
pub proof fn law_fingerprint_permutation_invariant(
    family: HashFamily,
    c: Seq<Seq<u8>>,
    p: Seq<Seq<u8>>,
    combiner: Combiner,
)
    requires
        same_multiset(c, p),
    ensures
        fingerprint_of(family, c, combiner) == fingerprint_of(family, p, combiner),
{
    law_combined_permutation_invariant(family, c, p, combiner);
}

/// Permutation invariance of equality: a collection equals every reordering
/// of itself, under every cryptographic family and either combiner.
pub proof fn law_equal_permutation_invariant(
    family: HashFamily,
    c: Seq<Seq<u8>>,
    p: Seq<Seq<u8>>,
    combiner: Combiner,
)
    requires
        same_multiset(c, p),
    ensures
        equal_by_digests(family, c, p, combiner),
{
    lemma_images_agree(c, p, digest_fn(family), combiner);
}

/// Agreement with the sorting oracle: where the family has no collision
/// among the entries at hand, equality on the multisets of digests is
/// equality on the multisets of entries.
pub proof fn law_oracle_agreement(family: HashFamily, x: Seq<Seq<u8>>, y: Seq<Seq<u8>>)
    requires
        collision_free(digest_fn(family), x, y),
    ensures
        equal_by_digests(family, x, y, Combiner::SortThenChain) <==> same_multiset(x, y),
{
    lemma_images_decide_multisets(x, y, digest_fn(family));
}

/// What the set-collapsing combiner decides: where the family has no
/// collision among the entries at hand, equality on the sets of digests is
/// equality on the sets of entries.
pub proof fn law_set_collapse_decides_sets(family: HashFamily, x: Seq<Seq<u8>>, y: Seq<Seq<u8>>)
    requires
        collision_free(digest_fn(family), x, y),
    ensures
        equal_by_digests(family, x, y, Combiner::SetCollapse) <==> same_set(x, y),
{
    lemma_images_decide_sets(x, y, digest_fn(family));
}

/// The chained bytes of `n` digests are `32 * n` bytes.
pub proof fn lemma_chained_len(s: Seq<[u8; 32]>)
    ensures
        chained_bytes(s).len() == 32 * s.len(),
    decreases s.len(),
{
    broadcast use vstd::array::group_array_axioms;

    if s.len() > 0 {
        let v = s.map_values(|d: [u8; 32]| d@);
        lemma_chained_len(s.drop_first());
        assert(v.drop_first() =~= s.drop_first().map_values(|d: [u8; 32]| d@));
        assert(v.first().len() == 32);
    }
}

/// Different sequences of digests chain to different byte strings.
pub proof fn lemma_chained_injective(a: Seq<[u8; 32]>, b: Seq<[u8; 32]>)
    requires
        chained_bytes(a) == chained_bytes(b),
    ensures
        a == b,
    decreases a.len(),
{
    broadcast use vstd::array::group_array_axioms;

    lemma_chained_len(a);
    lemma_chained_len(b);
    assert(a.len() == b.len());
    if a.len() == 0 {
        assert(a =~= b);
    } else {
        let va = a.map_values(|d: [u8; 32]| d@);
        let vb = b.map_values(|d: [u8; 32]| d@);
        let ra = va.drop_first().flatten();
        let rb = vb.drop_first().flatten();
        assert(va.drop_first() =~= a.drop_first().map_values(|d: [u8; 32]| d@));
        assert(vb.drop_first() =~= b.drop_first().map_values(|d: [u8; 32]| d@));
        assert(va.first().len() == 32 && vb.first().len() == 32);
        assert(va.flatten() == va.first() + ra);
        assert(vb.flatten() == vb.first() + rb);
        assert(va.first() =~= va.flatten().take(32));
        assert(vb.first() =~= vb.flatten().take(32));
        assert(ra =~= va.flatten().skip(32));
        assert(rb =~= vb.flatten().skip(32));
        assert(a[0]@ == b[0]@);
        assert(a[0] =~= b[0]);
        lemma_chained_injective(a.drop_first(), b.drop_first());
        assert(a =~= seq![a[0]] + a.drop_first());
        assert(b =~= seq![b[0]] + b.drop_first());
    }
}

/// Collections that are equal on their digests have the same fingerprint.
pub proof fn law_equal_gives_same_fingerprint(
    family: HashFamily,
    x: Seq<Seq<u8>>,
    y: Seq<Seq<u8>>,
    combiner: Combiner,
)
    requires
        equal_by_digests(family, x, y, combiner),
    ensures
        fingerprint_of(family, x, combiner) == fingerprint_of(family, y, combiner),
{
    law_combined_digests_decides(digests_of(family, x), digests_of(family, y), combiner);
}

/// Fingerprint consistency: where the family has no collision between the
/// two chained byte strings that the fingerprints are taken of, two
/// collections have the same fingerprint exactly when they are equal on
/// their digests.
pub proof fn law_fingerprint_consistency(
    family: HashFamily,
    x: Seq<Seq<u8>>,
    y: Seq<Seq<u8>>,
    combiner: Combiner,
)
    requires
        collision_free(
            digest_fn(family),
            seq![chained_bytes(combined_digests(digests_of(family, x), combiner))],
            seq![chained_bytes(combined_digests(digests_of(family, y), combiner))],
        ),
    ensures
        fingerprint_of(family, x, combiner) == fingerprint_of(family, y, combiner)
            <==> equal_by_digests(family, x, y, combiner),
{
    let cx = combined_digests(digests_of(family, x), combiner);
    let cy = combined_digests(digests_of(family, y), combiner);
    law_combined_digests_decides(digests_of(family, x), digests_of(family, y), combiner);
    if fingerprint_of(family, x, combiner) == fingerprint_of(family, y, combiner) {
        lemma_no_collision_between(digest_fn(family), chained_bytes(cx), chained_bytes(cy));
        lemma_chained_injective(cx, cy);
    }
}

/// Fingerprints decide equality of multisets: where the family has no
/// collision among the entries at hand nor between the two chained byte
/// strings, two collections have the same sort-then-chain fingerprint
/// exactly when they are equal as multisets of entries.
pub proof fn law_fingerprint_decides_multisets(family: HashFamily, x: Seq<Seq<u8>>, y: Seq<Seq<u8>>)
    requires
        collision_free(digest_fn(family), x, y),
        collision_free(
            digest_fn(family),
            seq![chained_bytes(combined_digests(digests_of(family, x), Combiner::SortThenChain))],
            seq![chained_bytes(combined_digests(digests_of(family, y), Combiner::SortThenChain))],
        ),
    ensures
        fingerprint_of(family, x, Combiner::SortThenChain) == fingerprint_of(
            family,
            y,
            Combiner::SortThenChain,
        ) <==> same_multiset(x, y),
{
    law_fingerprint_consistency(family, x, y, Combiner::SortThenChain);
    law_oracle_agreement(family, x, y);
}

/// The empty boundary: an empty collection equals the empty collection and
/// no other, under every cryptographic family and either combiner.
pub proof fn law_empty_equals_only_empty(
    family: HashFamily,
    x: Seq<Seq<u8>>,
    y: Seq<Seq<u8>>,
    combiner: Combiner,
)
    requires
        x.len() == 0,
    ensures
        equal_by_digests(family, x, y, combiner) <==> y.len() == 0,
{
    lemma_images_of_empty(x, y, digest_fn(family), combiner);
}

/// The set-collapse hazard: a collection and the same collection with one
/// of its entries repeated differ as multisets, and sort-then-chain tells
/// them apart, yet under set collapse they count as equal.
pub proof fn law_set_collapse_ignores_repeats(family: HashFamily, c: Seq<Seq<u8>>, i: int)
    requires
        0 <= i < c.len(),
    ensures
        !same_multiset(c, c.push(c[i])),
        !equal_by_digests(family, c, c.push(c[i]), Combiner::SortThenChain),
        equal_by_digests(family, c, c.push(c[i]), Combiner::SetCollapse),
{
    lemma_images_of_repeat(c, i, digest_fn(family));
}

/// A repeated entry changes the fingerprint: where the family has no
/// collision between the two chained byte strings, a collection and the
/// same collection with one of its entries repeated have different
/// sort-then-chain fingerprints.
pub proof fn law_repeat_changes_fingerprint(family: HashFamily, c: Seq<Seq<u8>>, i: int)
    requires
        0 <= i < c.len(),
        collision_free(
            digest_fn(family),
            seq![chained_bytes(combined_digests(digests_of(family, c), Combiner::SortThenChain))],
            seq![
                chained_bytes(
                    combined_digests(digests_of(family, c.push(c[i])), Combiner::SortThenChain),
                ),
            ],
        ),
    ensures
        fingerprint_of(family, c, Combiner::SortThenChain) != fingerprint_of(
            family,
            c.push(c[i]),
            Combiner::SortThenChain,
        ),
{
    law_set_collapse_ignores_repeats(family, c, i);
    law_fingerprint_consistency(family, c, c.push(c[i]), Combiner::SortThenChain);
}

/// The fingerprint of the empty collection is the digest of no bytes, for
/// every cryptographic family and either combiner.
pub proof fn law_fingerprint_of_empty(family: HashFamily, combiner: Combiner)
    ensures
        fingerprint_of(family, Seq::<Seq<u8>>::empty(), combiner) == digest_of(
            family,
            Seq::<u8>::empty(),
        ),
{
    let none = digests_of(family, Seq::<Seq<u8>>::empty());
    lemma_digest_le_total();
    none.lemma_sort_by_ensures(digest_le());
    lemma_same_multiset_len(none, none.sort_by(digest_le()));
    assert(combined_digests(none, combiner) =~= Seq::<[u8; 32]>::empty());
    assert(chained_bytes(Seq::<[u8; 32]>::empty()) =~= Seq::<u8>::empty());
}

/// The fast fingerprint of the empty collection is the hash of a hasher
/// that was fed nothing: the value of the seed itself, under either
/// combiner.
pub proof fn law_fast_fingerprint_of_empty(seed: ahash::AHasher, combiner: Combiner)
    ensures
        fast_fingerprint_of(seed, Seq::<Seq<u8>>::empty(), combiner) == fast_value(seed),
{
    let none = fast_digests_of(seed, Seq::<Seq<u8>>::empty());
    lemma_u64_le_total();
    none.lemma_sort_by_ensures(u64_le());
    lemma_same_multiset_len(none, none.sort_by(u64_le()));
    assert(combined_u64(none, combiner) =~= Seq::<u64>::empty());
}

/// Permutation invariance of the fast fingerprint: under one seed a
/// collection and any reordering of it have the same fingerprint, under
/// either combiner.
pub proof fn law_fast_fingerprint_permutation_invariant(
    seed: ahash::AHasher,
    c: Seq<Seq<u8>>,
    p: Seq<Seq<u8>>,
    combiner: Combiner,
)
    requires
        same_multiset(c, p),
    ensures
        fast_fingerprint_of(seed, c, combiner) == fast_fingerprint_of(seed, p, combiner),
{
    lemma_images_agree(c, p, fast_digest_fn(seed), combiner);
    law_combined_u64_decides(fast_digests_of(seed, c), fast_digests_of(seed, p), combiner);
}

/// Permutation invariance of fast equality: under one seed a collection
/// equals every reordering of itself, under either combiner.
pub proof fn law_fast_equal_permutation_invariant(
    seed: ahash::AHasher,
    c: Seq<Seq<u8>>,
    p: Seq<Seq<u8>>,
    combiner: Combiner,
)
    requires
        same_multiset(c, p),
    ensures
        digests_agree(fast_digests_of(seed, c), fast_digests_of(seed, p), combiner),
{
    lemma_images_agree(c, p, fast_digest_fn(seed), combiner);
}

/// Agreement of the fast family with the sorting oracle: where the digests
/// from one seed have no collision among the entries at hand, equality on
/// the multisets of digests is equality on the multisets of entries.
pub proof fn law_fast_oracle_agreement(seed: ahash::AHasher, x: Seq<Seq<u8>>, y: Seq<Seq<u8>>)
    requires
        collision_free(fast_digest_fn(seed), x, y),
    ensures
        digests_agree(fast_digests_of(seed, x), fast_digests_of(seed, y), Combiner::SortThenChain)
            <==> same_multiset(x, y),
{
    lemma_images_decide_multisets(x, y, fast_digest_fn(seed));
}

/// What set collapse decides for the fast family: where the digests from
/// one seed have no collision among the entries at hand, equality on the
/// sets of digests is equality on the sets of entries.
pub proof fn law_fast_set_collapse_decides_sets(
    seed: ahash::AHasher,
    x: Seq<Seq<u8>>,
    y: Seq<Seq<u8>>,
)
    requires
        collision_free(fast_digest_fn(seed), x, y),
    ensures
        digests_agree(fast_digests_of(seed, x), fast_digests_of(seed, y), Combiner::SetCollapse)
            <==> same_set(x, y),
{
    lemma_images_decide_sets(x, y, fast_digest_fn(seed));
}

/// Collections that are equal on their fast digests have the same fast
/// fingerprint, under one seed.
pub proof fn law_fast_equal_gives_same_fingerprint(
    seed: ahash::AHasher,
    x: Seq<Seq<u8>>,
    y: Seq<Seq<u8>>,
    combiner: Combiner,
)
    requires
        digests_agree(fast_digests_of(seed, x), fast_digests_of(seed, y), combiner),
    ensures
        fast_fingerprint_of(seed, x, combiner) == fast_fingerprint_of(seed, y, combiner),
{
    law_combined_u64_decides(fast_digests_of(seed, x), fast_digests_of(seed, y), combiner);
}

/// Consistency of the fast fingerprint: where the chain from one seed has
/// no collision between the two combined sequences of digests, two
/// collections have the same fingerprint exactly when they are equal on
/// their digests.
pub proof fn law_fast_fingerprint_consistency(
    seed: ahash::AHasher,
    x: Seq<Seq<u8>>,
    y: Seq<Seq<u8>>,
    combiner: Combiner,
)
    requires
        collision_free(
            fast_chain_fn(seed),
            seq![combined_u64(fast_digests_of(seed, x), combiner)],
            seq![combined_u64(fast_digests_of(seed, y), combiner)],
        ),
    ensures
        fast_fingerprint_of(seed, x, combiner) == fast_fingerprint_of(seed, y, combiner)
            <==> digests_agree(fast_digests_of(seed, x), fast_digests_of(seed, y), combiner),
{
    let cx = combined_u64(fast_digests_of(seed, x), combiner);
    let cy = combined_u64(fast_digests_of(seed, y), combiner);
    law_combined_u64_decides(fast_digests_of(seed, x), fast_digests_of(seed, y), combiner);
    if fast_fingerprint_of(seed, x, combiner) == fast_fingerprint_of(seed, y, combiner) {
        lemma_no_collision_between(fast_chain_fn(seed), cx, cy);
    }
}

/// Fast fingerprints decide equality of multisets: where, from one seed,
/// the digests have no collision among the entries at hand and the chain
/// has none between the two sorted sequences of digests, two collections
/// have the same sort-then-chain fingerprint exactly when they are equal as
/// multisets of entries.
pub proof fn law_fast_fingerprint_decides_multisets(
    seed: ahash::AHasher,
    x: Seq<Seq<u8>>,
    y: Seq<Seq<u8>>,
)
    requires
        collision_free(fast_digest_fn(seed), x, y),
        collision_free(
            fast_chain_fn(seed),
            seq![combined_u64(fast_digests_of(seed, x), Combiner::SortThenChain)],
            seq![combined_u64(fast_digests_of(seed, y), Combiner::SortThenChain)],
        ),
    ensures
        fast_fingerprint_of(seed, x, Combiner::SortThenChain) == fast_fingerprint_of(
            seed,
            y,
            Combiner::SortThenChain,
        ) <==> same_multiset(x, y),
{
    law_fast_fingerprint_consistency(seed, x, y, Combiner::SortThenChain);
    law_fast_oracle_agreement(seed, x, y);
}

/// The empty boundary of the fast family: under one seed an empty
/// collection equals the empty collection and no other, under either
/// combiner.
pub proof fn law_fast_empty_equals_only_empty(
    seed: ahash::AHasher,
    x: Seq<Seq<u8>>,
    y: Seq<Seq<u8>>,
    combiner: Combiner,
)
    requires
        x.len() == 0,
    ensures
        digests_agree(fast_digests_of(seed, x), fast_digests_of(seed, y), combiner) <==> y.len()
            == 0,
{
    lemma_images_of_empty(x, y, fast_digest_fn(seed), combiner);
}

/// The set-collapse hazard in the fast family: under one seed a collection
/// and the same collection with one of its entries repeated are told apart
/// by sort-then-chain and count as equal under set collapse.
pub proof fn law_fast_set_collapse_ignores_repeats(seed: ahash::AHasher, c: Seq<Seq<u8>>, i: int)
    requires
        0 <= i < c.len(),
    ensures
        !same_multiset(c, c.push(c[i])),
        !digests_agree(
            fast_digests_of(seed, c),
            fast_digests_of(seed, c.push(c[i])),
            Combiner::SortThenChain,
        ),
        digests_agree(
            fast_digests_of(seed, c),
            fast_digests_of(seed, c.push(c[i])),
            Combiner::SetCollapse,
        ),
{
    lemma_images_of_repeat(c, i, fast_digest_fn(seed));
}

/// A repeated entry changes the fast fingerprint: where the chain from one
/// seed has no collision between the two sorted sequences of digests, a
/// collection and the same collection with one of its entries repeated
/// have different sort-then-chain fingerprints.
pub proof fn law_fast_repeat_changes_fingerprint(seed: ahash::AHasher, c: Seq<Seq<u8>>, i: int)
    requires
        0 <= i < c.len(),
        collision_free(
            fast_chain_fn(seed),
            seq![combined_u64(fast_digests_of(seed, c), Combiner::SortThenChain)],
            seq![combined_u64(fast_digests_of(seed, c.push(c[i])), Combiner::SortThenChain)],
        ),
    ensures
        fast_fingerprint_of(seed, c, Combiner::SortThenChain) != fast_fingerprint_of(
            seed,
            c.push(c[i]),
            Combiner::SortThenChain,
        ),
{
    law_fast_set_collapse_ignores_repeats(seed, c, i);
    law_fast_fingerprint_consistency(seed, c, c.push(c[i]), Combiner::SortThenChain);
}

} // verus!
