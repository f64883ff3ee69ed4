//! Cards: suit, rank, and the strength and kind derived from them.

use vstd::prelude::*;

verus! {

#[derive(Debug, Clone, Copy, PartialEq, Eq, Structural)]
pub enum Suit {
    Spades,
    Hearts,
    Clubs,
    Diamonds,
}

#[derive(Debug, Clone, Copy, PartialEq, Eq, Structural)]
pub enum Rank {
    Num(u8),
    Jack,
    Queen,
    King,
    Ace,
}

#[derive(Debug, Clone, Copy, PartialEq, Eq, Structural)]
pub enum CardKind {
    Monster,
    Weapon,
    Potion,
}

/// The strength a rank confers: a numeric rank is its own value,
/// Jack is 11, Queen is 12, King is 13, Ace is 14.
pub open spec fn rank_strength(rank: Rank) -> u8 {
    match rank {
        Rank::Jack => 11,
        Rank::Queen => 12,
        Rank::King => 13,
        Rank::Ace => 14,
        Rank::Num(v) => v,
    }
}

/// The kind a suit confers: spades and clubs are monsters,
/// hearts are potions, diamonds are weapons.
pub open spec fn suit_kind(suit: Suit) -> CardKind {
    match suit {
        Suit::Spades | Suit::Clubs => CardKind::Monster,
        Suit::Hearts => CardKind::Potion,
        Suit::Diamonds => CardKind::Weapon,
    }
}

#[derive(Debug, Clone, Copy, PartialEq, Eq, Structural)]
pub struct Card {
    pub suit: Suit,
    pub rank: Rank,
    pub strength: u8,
    pub kind: CardKind,
}

/// The card a suit and a rank determine.
pub open spec fn card_of(suit: Suit, rank: Rank) -> Card {
    Card { suit, rank, strength: rank_strength(rank), kind: suit_kind(suit) }
}

impl Card {
    /// Builds the card for a suit and a rank, deriving strength and kind.
    pub fn new(suit: Suit, rank: Rank) -> (c: Card)
        ensures
            c == card_of(suit, rank),
    {
        let strength = match rank {
            Rank::Jack => 11,
            Rank::Queen => 12,
            Rank::King => 13,
            Rank::Ace => 14,
            Rank::Num(v) => v,
        };

        let kind = match suit {
            Suit::Spades | Suit::Clubs => CardKind::Monster,
            Suit::Hearts => CardKind::Potion,
            Suit::Diamonds => CardKind::Weapon,
        };

        Card { kind, suit, rank, strength }
    }
}

} // verus!
