//! The orders by which digests and entries are put into canonical sequence:
//! the numeric order on 64-bit digests and the lexicographic order on byte
//! strings.

use vstd::prelude::*;
use vstd::relations::*;

verus! {

/// Lexicographic "less than or equal" on byte strings: the first differing
/// byte decides, and a proper prefix comes before the longer string.
pub open spec fn lex_le(a: Seq<u8>, b: Seq<u8>) -> bool
    decreases a.len(),
{
    if a.len() == 0 {
        true
    } else if b.len() == 0 {
        false
    } else if a[0] != b[0] {
        a[0] < b[0]
    } else {
        lex_le(a.drop_first(), b.drop_first())
    }
}

/// The order on 64-bit digests.
pub open spec fn u64_le() -> spec_fn(u64, u64) -> bool {
    |a: u64, b: u64| a <= b
}

/// `lex_le` as a relation on byte strings.
pub open spec fn bytes_le() -> spec_fn(Seq<u8>, Seq<u8>) -> bool {
    |a: Seq<u8>, b: Seq<u8>| lex_le(a, b)
}

/// `lex_le` as a relation on 256-bit digests.
pub open spec fn digest_le() -> spec_fn([u8; 32], [u8; 32]) -> bool {
    |a: [u8; 32], b: [u8; 32]| lex_le(a@, b@)
}

/// Every byte string is at most itself.
pub proof fn lemma_lex_le_reflexive(a: Seq<u8>)
    ensures
        lex_le(a, a),
    decreases a.len(),
{
    if a.len() > 0 {
        lemma_lex_le_reflexive(a.drop_first());
    }
}

/// Two byte strings that are each at most the other are the same string.
pub proof fn lemma_lex_le_antisymmetric(a: Seq<u8>, b: Seq<u8>)
    requires
        lex_le(a, b),
        lex_le(b, a),
    ensures
        a == b,
    decreases a.len(),
{
    if a.len() == 0 || b.len() == 0 {
        assert(a =~= b);
    } else {
        lemma_lex_le_antisymmetric(a.drop_first(), b.drop_first());
        assert(a =~= seq![a[0]] + a.drop_first());
        assert(b =~= seq![b[0]] + b.drop_first());
    }
}

/// The lexicographic order carries over a middle string.
pub proof fn lemma_lex_le_transitive(a: Seq<u8>, b: Seq<u8>, c: Seq<u8>)
    requires
        lex_le(a, b),
        lex_le(b, c),
    ensures
        lex_le(a, c),
    decreases a.len(),
{
    if a.len() > 0 && b.len() > 0 && c.len() > 0 {
        if a[0] == b[0] && b[0] == c[0] {
            lemma_lex_le_transitive(a.drop_first(), b.drop_first(), c.drop_first());
        }
    }
}

/// Of two byte strings one is at most the other.
pub proof fn lemma_lex_le_connected(a: Seq<u8>, b: Seq<u8>)
    ensures
        lex_le(a, b) || lex_le(b, a),
    decreases a.len(),
{
    if a.len() > 0 && b.len() > 0 && a[0] == b[0] {
        lemma_lex_le_connected(a.drop_first(), b.drop_first());
    }
}

/// The numeric order on 64-bit digests is a total order.
pub proof fn lemma_u64_le_total()
    ensures
        total_ordering(u64_le()),
{
}

/// The lexicographic order on byte strings is a total order.
pub proof fn lemma_bytes_le_total()
    ensures
        total_ordering(bytes_le()),
{
    let r = bytes_le();
    assert forall|a: Seq<u8>| #[trigger] r(a, a) by {
        lemma_lex_le_reflexive(a);
    }
    assert forall|a: Seq<u8>, b: Seq<u8>| #[trigger] r(a, b) && #[trigger] r(b, a) implies a
        == b by {
        lemma_lex_le_antisymmetric(a, b);
    }
    assert forall|a: Seq<u8>, b: Seq<u8>, c: Seq<u8>| #[trigger]
        r(a, b) && #[trigger] r(b, c) implies r(a, c) by {
        lemma_lex_le_transitive(a, b, c);
    }
    assert forall|a: Seq<u8>, b: Seq<u8>| #[trigger] r(a, b) || #[trigger] r(b, a) by {
        lemma_lex_le_connected(a, b);
    }
}

/// The lexicographic order on 256-bit digests is a total order.
pub proof fn lemma_digest_le_total()
    ensures
        total_ordering(digest_le()),
{
    broadcast use vstd::array::group_array_axioms;

    let r = digest_le();
    assert forall|a: [u8; 32]| #[trigger] r(a, a) by {
        lemma_lex_le_reflexive(a@);
    }
    assert forall|a: [u8; 32], b: [u8; 32]| #[trigger] r(a, b) && #[trigger] r(b, a) implies a
        == b by {
        lemma_lex_le_antisymmetric(a@, b@);
        assert(a@ =~= b@);
        assert(a =~= b);
    }
    assert forall|a: [u8; 32], b: [u8; 32], c: [u8; 32]| #[trigger]
        r(a, b) && #[trigger] r(b, c) implies r(a, c) by {
        lemma_lex_le_transitive(a@, b@, c@);
    }
    assert forall|a: [u8; 32], b: [u8; 32]| #[trigger] r(a, b) || #[trigger] r(b, a) by {
        lemma_lex_le_connected(a@, b@);
    }
}

} // verus!
