use scoundrel::card::{Card, CardKind, Rank, Suit};

#[test]
fn strength_mapping_is_total_and_exact() {
    for v in 2..=10u8 {
        let c = Card::new(Suit::Spades, Rank::Num(v));
        assert_eq!(c.strength, v);
    }
    assert_eq!(Card::new(Suit::Clubs, Rank::Jack).strength, 11);
    assert_eq!(Card::new(Suit::Clubs, Rank::Queen).strength, 12);
    assert_eq!(Card::new(Suit::Clubs, Rank::King).strength, 13);
    assert_eq!(Card::new(Suit::Clubs, Rank::Ace).strength, 14);
}

#[test]
fn kind_follows_suit() {
    assert_eq!(Card::new(Suit::Spades, Rank::Num(2)).kind, CardKind::Monster);
    assert_eq!(Card::new(Suit::Clubs, Rank::Ace).kind, CardKind::Monster);
    assert_eq!(Card::new(Suit::Diamonds, Rank::Num(7)).kind, CardKind::Weapon);
    assert_eq!(Card::new(Suit::Hearts, Rank::Num(9)).kind, CardKind::Potion);
}

#[test]
fn card_keeps_suit_and_rank() {
    let c = Card::new(Suit::Hearts, Rank::Num(4));
    assert_eq!(c.suit, Suit::Hearts);
    assert_eq!(c.rank, Rank::Num(4));
}
