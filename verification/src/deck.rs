//! The face-down draw pile. A fresh deck holds exactly 44 cards — all
//! thirteen ranks of spades and clubs, ranks 2 through 10 of diamonds and
//! hearts — in a shuffled order. Cards leave from the top by `draw` and
//! return underneath by `put_on_bottom`.

use vstd::prelude::*;

use crate::card::{card_of, Card, CardKind, Rank, Suit};
use crate::tally::{
    kind_count, kind_weight, kind_weight_fn, lemma_sum_by_nonneg, lemma_sum_by_permutation,
    lemma_sum_by_push, lemma_sum_by_split, monster_sum, monster_weight, monster_weight_fn,
};

use rand::seq::SliceRandom;

verus! {

#[derive(Debug)]
pub struct Deck {
    cards: Vec<Card>,
}

impl View for Deck {
    type V = Seq<Card>;

    /// A deck is its card sequence; the last element is the top of the pile.
    closed spec fn view(&self) -> Seq<Card> {
        self.cards@
    }
}

/// The thirteen cards of one suit, face cards first, in build order.
pub open spec fn suit_full_run(suit: Suit) -> Seq<Card> {
    seq![
        card_of(suit, Rank::Jack),
        card_of(suit, Rank::Queen),
        card_of(suit, Rank::King),
        card_of(suit, Rank::Ace),
        card_of(suit, Rank::Num(2)),
        card_of(suit, Rank::Num(3)),
        card_of(suit, Rank::Num(4)),
        card_of(suit, Rank::Num(5)),
        card_of(suit, Rank::Num(6)),
        card_of(suit, Rank::Num(7)),
        card_of(suit, Rank::Num(8)),
        card_of(suit, Rank::Num(9)),
        card_of(suit, Rank::Num(10)),
    ]
}

/// The nine cards, ranks 2 through 10, of one suit, in build order.
pub open spec fn suit_numeric_run(suit: Suit) -> Seq<Card> {
    seq![
        card_of(suit, Rank::Num(2)),
        card_of(suit, Rank::Num(3)),
        card_of(suit, Rank::Num(4)),
        card_of(suit, Rank::Num(5)),
        card_of(suit, Rank::Num(6)),
        card_of(suit, Rank::Num(7)),
        card_of(suit, Rank::Num(8)),
        card_of(suit, Rank::Num(9)),
        card_of(suit, Rank::Num(10)),
    ]
}

/// The fixed 44-card population: every rank of spades and clubs, ranks 2
/// through 10 of diamonds and hearts — red face cards stay out.
pub open spec fn full_deck() -> Seq<Card> {
    suit_full_run(Suit::Spades) + suit_full_run(Suit::Clubs) + suit_numeric_run(Suit::Diamonds)
        + suit_numeric_run(Suit::Hearts)
}

/// Relies on rand's `SliceRandom::shuffle`, a Fisher-Yates shuffle: it
/// permutes the slice in place, so afterwards the pile holds exactly the
/// cards it held before, in some order.
#[verifier::external_body]
fn shuffle_cards(cards: &mut Vec<Card>)
    ensures
        final(cards)@.to_multiset() == old(cards)@.to_multiset(),
{
    let mut rng = rand::rng();
    cards.shuffle(&mut rng);
}

/// Appends the card a suit and a rank determine, keeping track of the tallies.
fn push_card(cards: &mut Vec<Card>, suit: Suit, rank: Rank)
    ensures
        final(cards)@ == old(cards)@.push(card_of(suit, rank)),
        forall|k: CardKind| #[trigger]
            kind_count(final(cards)@, k) == kind_count(old(cards)@, k) + kind_weight(
                k,
                card_of(suit, rank),
            ),
        monster_sum(final(cards)@) == monster_sum(old(cards)@) + monster_weight(
            card_of(suit, rank),
        ),
{
    let card = Card::new(suit, rank);
    cards.push(card);
    proof {
        let c = card_of(suit, rank);
        assert forall|k: CardKind| #[trigger]
            kind_count(old(cards)@.push(c), k) == kind_count(old(cards)@, k) + kind_weight(
                k,
                c,
            ) by {
            lemma_sum_by_push(old(cards)@, kind_weight_fn(k), c);
        }
        lemma_sum_by_push(old(cards)@, monster_weight_fn(), c);
    }
}

/// Appends all thirteen ranks of one suit: Jack, Queen, King, Ace, then 2
/// through 10. Their strengths add up to 104.
fn push_suit_full(cards: &mut Vec<Card>, suit: Suit)
    ensures
        final(cards)@ == old(cards)@ + suit_full_run(suit),
        final(cards)@.len() == old(cards)@.len() + 13,
        forall|k: CardKind| #[trigger]
            kind_count(final(cards)@, k) == kind_count(old(cards)@, k) + (
            if k == crate::card::suit_kind(suit) {
                13int
            } else {
                0int
            }),
        monster_sum(final(cards)@) == monster_sum(old(cards)@) + (
        if crate::card::suit_kind(suit) == CardKind::Monster {
            104int
        } else {
            0int
        }),
{
    push_card(cards, suit, Rank::Jack);
    push_card(cards, suit, Rank::Queen);
    push_card(cards, suit, Rank::King);
    push_card(cards, suit, Rank::Ace);
    push_card(cards, suit, Rank::Num(2));
    push_card(cards, suit, Rank::Num(3));
    push_card(cards, suit, Rank::Num(4));
    push_card(cards, suit, Rank::Num(5));
    push_card(cards, suit, Rank::Num(6));
    push_card(cards, suit, Rank::Num(7));
    push_card(cards, suit, Rank::Num(8));
    push_card(cards, suit, Rank::Num(9));
    push_card(cards, suit, Rank::Num(10));
    proof {
        assert(cards@ =~= old(cards)@ + suit_full_run(suit));
    }
}

/// Appends ranks 2 through 10 of one suit. Their strengths add up to 54.
fn push_suit_numeric(cards: &mut Vec<Card>, suit: Suit)
    ensures
        final(cards)@ == old(cards)@ + suit_numeric_run(suit),
        final(cards)@.len() == old(cards)@.len() + 9,
        forall|k: CardKind| #[trigger]
            kind_count(final(cards)@, k) == kind_count(old(cards)@, k) + (
            if k == crate::card::suit_kind(suit) {
                9int
            } else {
                0int
            }),
        monster_sum(final(cards)@) == monster_sum(old(cards)@) + (
        if crate::card::suit_kind(suit) == CardKind::Monster {
            54int
        } else {
            0int
        }),
{
    push_card(cards, suit, Rank::Num(2));
    push_card(cards, suit, Rank::Num(3));
    push_card(cards, suit, Rank::Num(4));
    push_card(cards, suit, Rank::Num(5));
    push_card(cards, suit, Rank::Num(6));
    push_card(cards, suit, Rank::Num(7));
    push_card(cards, suit, Rank::Num(8));
    push_card(cards, suit, Rank::Num(9));
    push_card(cards, suit, Rank::Num(10));
    proof {
        assert(cards@ =~= old(cards)@ + suit_numeric_run(suit));
    }
}

impl Deck {
    /// Builds the fixed 44-card population — 26 monsters whose strengths sum
    /// to 208, 9 weapons and 9 potions — and shuffles it once.
    pub fn new() -> (deck: Deck)
        ensures
            deck@.to_multiset() == full_deck().to_multiset(),
            deck@.len() == 44,
            kind_count(deck@, CardKind::Monster) == 26,
            kind_count(deck@, CardKind::Weapon) == 9,
            kind_count(deck@, CardKind::Potion) == 9,
            monster_sum(deck@) == 208,
    {
        let mut cards: Vec<Card> = Vec::new();

        push_suit_full(&mut cards, Suit::Spades);
        push_suit_full(&mut cards, Suit::Clubs);
        push_suit_numeric(&mut cards, Suit::Diamonds);
        push_suit_numeric(&mut cards, Suit::Hearts);

        let ghost built = cards@;
        shuffle_cards(&mut cards);

        proof {
            broadcast use vstd::seq_lib::group_to_multiset_ensures;

            assert(built =~= full_deck());
            assert(built.len() == 44);
            assert(kind_count(built, CardKind::Monster) == 26);
            assert(kind_count(built, CardKind::Weapon) == 9);
            assert(kind_count(built, CardKind::Potion) == 9);
            assert(monster_sum(built) == 208);
            lemma_sum_by_permutation(built, cards@, kind_weight_fn(CardKind::Monster));
            lemma_sum_by_permutation(built, cards@, kind_weight_fn(CardKind::Weapon));
            lemma_sum_by_permutation(built, cards@, kind_weight_fn(CardKind::Potion));
            lemma_sum_by_permutation(built, cards@, monster_weight_fn());
            assert(built.to_multiset().len() == cards@.to_multiset().len());
        }

        Deck { cards }
    }

    /// Removes and returns the top card, or `None` when the pile is empty.
    pub fn draw(&mut self) -> (card: Option<Card>)
        ensures
            old(self)@.len() == 0 ==> card is None && final(self)@ == old(self)@,
            old(self)@.len() > 0 ==> card == Some(old(self)@.last()) && final(self)@ == old(
                self,
            )@.drop_last(),
    {
        self.cards.pop()
    }

    /// Borrows the underlying pile, bottom first.
    pub fn cards_mut(&mut self) -> (cards: &mut Vec<Card>)
        ensures
            (*cards)@ == old(self)@,
            final(self)@ == (*final(cards))@,
    {
        &mut self.cards
    }

    /// Slides one card under the pile.
    pub fn put_on_bottom(&mut self, card: Card)
        ensures
            final(self)@ == old(self)@.insert(0, card),
    {
        self.cards.insert(0, card);
    }

    pub fn is_empty(&self) -> (empty: bool)
        ensures
            empty == (self@.len() == 0),
    {
        self.cards.is_empty()
    }

    pub fn len(&self) -> (n: usize)
        ensures
            n == self@.len(),
    {
        self.cards.len()
    }

    /// The summed strength of every monster still in the pile — the score a
    /// player loses by.
    pub fn remaining_monster_strength(&self) -> (total: u8)
        requires
            monster_sum(self@) <= 255,
        ensures
            total as int == monster_sum(self@),
    {
        let mut total: u8 = 0;
        let n = self.cards.len();
        let mut i: usize = 0;
        while i < n
            invariant
                0 <= i <= n,
                n == self@.len(),
                monster_sum(self@) <= 255,
                total as int == monster_sum(self@.subrange(0, i as int)),
            decreases n - i,
        {
            let card = self.cards[i];
            proof {
                assert(self@.subrange(0, i + 1).drop_last() =~= self@.subrange(0, i as int));
                assert(self@.subrange(0, i + 1).last() == self@[i as int]);
                lemma_sum_by_split(self@, monster_weight_fn(), i + 1);
                lemma_sum_by_nonneg(
                    self@.subrange(i + 1, self@.len() as int),
                    monster_weight_fn(),
                );
            }
            if card.kind == CardKind::Monster {
                total = total + card.strength;
            }
            i = i + 1;
        }
        proof {
            assert(self@.subrange(0, n as int) =~= self@);
        }
        total
    }
}

} // verus!
