//! Sums of per-card weights over card sequences: how many cards of a kind a
//! pile holds, and the total strength of its monsters. The lemmas here say how
//! such a sum reacts to pushing, removing, splitting and permuting the pile.

use vstd::prelude::*;

use crate::card::{Card, CardKind};

verus! {

/// One when the card has the given kind, zero otherwise.
pub open spec fn kind_weight(k: CardKind, c: Card) -> int {
    if c.kind == k {
        1
    } else {
        0
    }
}

/// The card's strength when it is a monster, zero otherwise.
pub open spec fn monster_weight(c: Card) -> int {
    if c.kind == CardKind::Monster {
        c.strength as int
    } else {
        0
    }
}

/// The sum of `f` over all cards of `s`.
pub open spec fn sum_by(s: Seq<Card>, f: spec_fn(Card) -> int) -> int
    decreases s.len(),
{
    if s.len() == 0 {
        0
    } else {
        sum_by(s.drop_last(), f) + f(s.last())
    }
}

/// `kind_weight` for a fixed kind, as a function of the card alone.
pub open spec fn kind_weight_fn(k: CardKind) -> spec_fn(Card) -> int {
    |c: Card| kind_weight(k, c)
}

/// `monster_weight` as a function value.
pub open spec fn monster_weight_fn() -> spec_fn(Card) -> int {
    |c: Card| monster_weight(c)
}

/// How many cards of `s` have kind `k`.
pub open spec fn kind_count(s: Seq<Card>, k: CardKind) -> int {
    sum_by(s, kind_weight_fn(k))
}

/// The total strength of the monsters among `s`.
pub open spec fn monster_sum(s: Seq<Card>) -> int {
    sum_by(s, monster_weight_fn())
}

/// Pushing a card onto a pile adds its weight to the sum.
pub proof fn lemma_sum_by_push(s: Seq<Card>, f: spec_fn(Card) -> int, c: Card)
    ensures
        sum_by(s.push(c), f) == sum_by(s, f) + f(c),
{
    assert(s.push(c).drop_last() =~= s);
}

/// Removing the card at an index subtracts its weight from the sum.
pub proof fn lemma_sum_by_remove(s: Seq<Card>, f: spec_fn(Card) -> int, i: int)
    requires
        0 <= i < s.len(),
    ensures
        sum_by(s.remove(i), f) == sum_by(s, f) - f(s[i]),
    decreases s.len(),
{
    if i == s.len() - 1 {
        assert(s.remove(i) =~= s.drop_last());
    } else {
        assert(s.remove(i).drop_last() =~= s.drop_last().remove(i));
        assert(s.remove(i).last() == s.last());
        lemma_sum_by_remove(s.drop_last(), f, i);
    }
}

/// The sum over a concatenation is the sum of the two parts' sums.
pub proof fn lemma_sum_by_append(a: Seq<Card>, b: Seq<Card>, f: spec_fn(Card) -> int)
    ensures
        sum_by(a + b, f) == sum_by(a, f) + sum_by(b, f),
    decreases b.len(),
{
    if b.len() == 0 {
        assert(a + b =~= a);
    } else {
        assert((a + b).drop_last() =~= a + b.drop_last());
        assert((a + b).last() == b.last());
        lemma_sum_by_append(a, b.drop_last(), f);
    }
}

/// Splitting a pile at an index splits its sum.
pub proof fn lemma_sum_by_split(s: Seq<Card>, f: spec_fn(Card) -> int, i: int)
    requires
        0 <= i <= s.len(),
    ensures
        sum_by(s, f) == sum_by(s.subrange(0, i), f) + sum_by(s.subrange(i, s.len() as int), f),
{
    assert(s =~= s.subrange(0, i) + s.subrange(i, s.len() as int));
    lemma_sum_by_append(s.subrange(0, i), s.subrange(i, s.len() as int), f);
}

/// A sum of nonnegative weights is nonnegative.
pub proof fn lemma_sum_by_nonneg(s: Seq<Card>, f: spec_fn(Card) -> int)
    requires
        forall|c: Card| #[trigger] f(c) >= 0,
    ensures
        sum_by(s, f) >= 0,
    decreases s.len(),
{
    if s.len() > 0 {
        lemma_sum_by_nonneg(s.drop_last(), f);
    }
}

/// Two piles holding the same cards (as a multiset) have the same sum:
/// shuffling a pile changes no tally taken over it.
pub proof fn lemma_sum_by_permutation(s1: Seq<Card>, s2: Seq<Card>, f: spec_fn(Card) -> int)
    requires
        s1.to_multiset() == s2.to_multiset(),
    ensures
        sum_by(s1, f) == sum_by(s2, f),
    decreases s1.len(),
{
    broadcast use vstd::seq_lib::group_to_multiset_ensures;

    if s1.len() == 0 {
        assert(s2.to_multiset().len() == 0);
    } else {
        let c = s1.last();
        assert(s1.to_multiset().count(c) > 0) by {
            assert(s1.contains(c));
        }
        assert(s2.contains(c));
        let i = choose|i: int| 0 <= i < s2.len() && s2[i] == c;
        assert(s1.drop_last() =~= s1.remove(s1.len() - 1));
        assert(s1.drop_last().to_multiset() == s1.to_multiset().remove(c));
        assert(s2.remove(i).to_multiset() == s2.to_multiset().remove(c));
        lemma_sum_by_permutation(s1.drop_last(), s2.remove(i), f);
        lemma_sum_by_remove(s2, f, i);
        lemma_sum_by_remove(s1, f, s1.len() - 1);
        assert(s1.remove(s1.len() - 1) =~= s1.drop_last());
    }
}

} // verus!
