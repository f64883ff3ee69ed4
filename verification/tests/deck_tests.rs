use scoundrel::card::{Card, CardKind, Rank, Suit};
use scoundrel::deck::Deck;

fn drained() -> Deck {
    let mut deck = Deck::new();
    while deck.draw().is_some() {}
    deck
}

#[test]
fn fresh_deck_has_44_cards() {
    let deck = Deck::new();
    assert_eq!(deck.len(), 44);
    assert!(!deck.is_empty());
}

#[test]
fn fresh_deck_kind_counts_are_26_9_9() {
    let mut deck = Deck::new();
    let mut monsters = 0;
    let mut weapons = 0;
    let mut potions = 0;
    while let Some(card) = deck.draw() {
        match card.kind {
            CardKind::Monster => monsters += 1,
            CardKind::Weapon => weapons += 1,
            CardKind::Potion => potions += 1,
        }
    }
    assert_eq!(monsters, 26);
    assert_eq!(weapons, 9);
    assert_eq!(potions, 9);
}

#[test]
fn fresh_deck_monster_strength_totals_208() {
    let deck = Deck::new();
    assert_eq!(deck.remaining_monster_strength(), 208);
}

#[test]
fn draw_empties_the_deck() {
    let mut deck = drained();
    assert!(deck.is_empty());
    assert_eq!(deck.len(), 0);
    assert!(deck.draw().is_none());
}

#[test]
fn put_on_bottom_is_drawn_last() {
    let mut deck = drained();
    let first = Card::new(Suit::Spades, Rank::Num(3));
    let second = Card::new(Suit::Hearts, Rank::Num(7));
    deck.put_on_bottom(first);
    deck.put_on_bottom(second);
    // `first` went under an empty pile, `second` under `first`.
    assert_eq!(deck.len(), 2);
    assert_eq!(deck.draw().unwrap().rank, Rank::Num(3));
    assert_eq!(deck.draw().unwrap().rank, Rank::Num(7));
}

#[test]
fn remaining_monster_strength_counts_monsters_only() {
    let mut deck = drained();
    deck.put_on_bottom(Card::new(Suit::Spades, Rank::Num(5)));
    deck.put_on_bottom(Card::new(Suit::Clubs, Rank::Ace));
    deck.put_on_bottom(Card::new(Suit::Hearts, Rank::Num(9)));
    deck.put_on_bottom(Card::new(Suit::Diamonds, Rank::Num(8)));
    assert_eq!(deck.remaining_monster_strength(), 19);
}
