use scoundrel::card::{Card, CardKind, Rank, Suit};
use scoundrel::deck::Deck;
use scoundrel::error::GameError;
use scoundrel::game::{Game, GameEvent, GameOutcome};
use scoundrel::ui::Action;

/// A deck that deals the listed cards in order: the first listed card is the
/// first one drawn.
fn deck_of(cards: &[(Suit, Rank)]) -> Deck {
    let mut deck = Deck::new();
    while deck.draw().is_some() {}
    for &(suit, rank) in cards {
        deck.put_on_bottom(Card::new(suit, rank));
    }
    deck
}

#[test]
fn fresh_game_starts_at_turn_zero_with_full_deck() {
    let game = Game::new();
    let info = game.game_info();
    assert_eq!(info.turn, 0);
    assert_eq!(info.last_skipped, 0);
    assert_eq!(info.health, 20);
    assert_eq!(info.weapon_strength, 0);
    assert_eq!(info.last_slain, 0);
    assert_eq!(info.remaining_cards, 44);
    assert_eq!(info.room_cards.len(), 0);
}

#[test]
fn start_turn_fills_only_the_missing_slots() {
    let mut game = Game::with_deck(deck_of(&[
        (Suit::Spades, Rank::Num(2)),
        (Suit::Spades, Rank::Num(3)),
        (Suit::Spades, Rank::Num(4)),
        (Suit::Spades, Rank::Num(5)),
        (Suit::Spades, Rank::Num(6)),
        (Suit::Spades, Rank::Num(7)),
    ]));
    game.start_turn();
    let info = game.game_info();
    assert_eq!(info.turn, 1);
    assert_eq!(info.room_cards.len(), 4);
    assert_eq!(info.remaining_cards, 2);
    // The first listed card was dealt first.
    assert_eq!(info.room_cards[0].rank, Rank::Num(2));
    assert_eq!(info.room_cards[3].rank, Rank::Num(5));
}

#[test]
fn quit_and_rules_change_nothing() {
    let mut game = Game::new();
    game.start_turn();
    assert_eq!(game.apply(Action::Quit), Ok(GameEvent::QuitGame));
    assert_eq!(game.apply(Action::PrintRules), Ok(GameEvent::RulesPrinted));
    let info = game.game_info();
    assert_eq!(info.room_cards.len(), 4);
    assert_eq!(info.remaining_cards, 40);
    assert_eq!(info.health, 20);
}

#[test]
fn action_on_missing_slot_is_out_of_bounds() {
    let mut game = Game::new();
    game.start_turn();
    assert_eq!(game.apply(Action::Fight { index: 7 }), Err(GameError::IndexOutOfBounds));
}

#[test]
fn skip_needs_a_full_room() {
    let mut game = Game::with_deck(deck_of(&[
        (Suit::Spades, Rank::Num(2)),
        (Suit::Spades, Rank::Num(3)),
        (Suit::Spades, Rank::Num(4)),
    ]));
    game.start_turn();
    assert_eq!(game.apply(Action::Skip), Err(GameError::CannotSkip));
}

#[test]
fn skip_returns_room_under_the_deck_and_cannot_repeat() {
    let mut cards = Vec::new();
    for v in 2..=5u8 {
        cards.push((Suit::Spades, Rank::Num(v)));
    }
    for v in 2..=5u8 {
        cards.push((Suit::Clubs, Rank::Num(v)));
    }
    for v in 6..=9u8 {
        cards.push((Suit::Spades, Rank::Num(v)));
    }
    let mut game = Game::with_deck(deck_of(&cards));

    // Skipping the very first turn is allowed.
    game.start_turn();
    assert_eq!(game.apply(Action::Skip), Ok(GameEvent::TurnEnded));
    let info = game.game_info();
    assert_eq!(info.remaining_cards, 12);
    assert_eq!(info.last_skipped, 1);

    // Two skips in a row are not.
    game.start_turn();
    assert_eq!(game.apply(Action::Skip), Err(GameError::CannotSkipTwoInRow));

    // Resolve this room instead: three cards end the turn.
    assert_eq!(game.apply(Action::Fight { index: 0 }), Ok(GameEvent::ActionApplied));
    assert_eq!(game.apply(Action::Fight { index: 0 }), Ok(GameEvent::ActionApplied));
    assert_eq!(game.apply(Action::Fight { index: 0 }), Ok(GameEvent::TurnEnded));

    // One turn has passed since the skip, so skipping is legal again.
    game.start_turn();
    assert_eq!(game.apply(Action::Skip), Ok(GameEvent::TurnEnded));
}

#[test]
fn kill_without_weapon_then_fight_barehanded() {
    // Scenario: fresh game, a strength-5 monster in the room, no weapon.
    let mut game = Game::with_deck(deck_of(&[
        (Suit::Spades, Rank::Num(5)),
        (Suit::Hearts, Rank::Num(2)),
        (Suit::Hearts, Rank::Num(3)),
        (Suit::Diamonds, Rank::Num(2)),
        (Suit::Diamonds, Rank::Num(3)),
    ]));
    game.start_turn();
    assert_eq!(game.apply(Action::Kill { index: 0 }), Err(GameError::NoWeaponEquipped));
    assert_eq!(game.game_info().health, 20);
    assert_eq!(game.apply(Action::Fight { index: 0 }), Ok(GameEvent::ActionApplied));
    assert_eq!(game.game_info().health, 15);
}

#[test]
fn weapon_kills_degrade_by_ceiling() {
    // Scenario: equip a strength-5 weapon, kill an Ace, then try again.
    let mut game = Game::with_deck(deck_of(&[
        (Suit::Diamonds, Rank::Num(5)),
        (Suit::Spades, Rank::Ace),
        (Suit::Clubs, Rank::Ace),
        (Suit::Spades, Rank::Num(2)),
        (Suit::Hearts, Rank::Num(2)),
    ]));
    game.start_turn();
    assert_eq!(game.apply(Action::Equip { index: 0 }), Ok(GameEvent::ActionApplied));
    assert_eq!(game.game_info().weapon_strength, 5);

    // The Ace (14) costs 14 - 5 = 9 health and sets the ceiling to 14.
    assert_eq!(game.apply(Action::Kill { index: 0 }), Ok(GameEvent::ActionApplied));
    assert_eq!(game.game_info().health, 11);
    assert_eq!(game.game_info().last_slain, 14);

    // A second Ace is refused; a strength-2 monster passes without damage
    // and lowers the ceiling to 2.
    assert_eq!(game.apply(Action::Kill { index: 0 }), Err(GameError::MonsterTooStrongForWeapon));
    assert_eq!(game.apply(Action::Kill { index: 1 }), Ok(GameEvent::TurnEnded));
    assert_eq!(game.game_info().health, 11);
    assert_eq!(game.game_info().last_slain, 2);
}

#[test]
fn emptied_deck_wins_with_health_as_score() {
    // Scenario: the deck runs out while 12 health remains.
    let mut game = Game::with_deck(deck_of(&[
        (Suit::Diamonds, Rank::Num(2)),
        (Suit::Diamonds, Rank::Num(3)),
        (Suit::Spades, Rank::Num(8)),
        (Suit::Hearts, Rank::Num(5)),
        (Suit::Diamonds, Rank::Num(4)),
    ]));
    game.start_turn();
    assert!(!game.is_over());
    assert_eq!(game.outcome(), None);
    assert_eq!(game.apply(Action::Fight { index: 2 }), Ok(GameEvent::ActionApplied));
    assert_eq!(game.apply(Action::Equip { index: 0 }), Ok(GameEvent::ActionApplied));
    assert_eq!(game.apply(Action::Equip { index: 0 }), Ok(GameEvent::TurnEnded));
    assert!(!game.is_over());
    game.start_turn();
    assert!(game.is_over());
    assert_eq!(game.outcome(), Some(GameOutcome::Win { score: 12 }));
}

#[test]
fn death_loses_with_undrawn_monster_strength_as_score() {
    // Scenario: health reaches 0 while monsters totalling 9 stay undrawn.
    let mut game = Game::with_deck(deck_of(&[
        (Suit::Spades, Rank::Ace),
        (Suit::Clubs, Rank::Ace),
        (Suit::Diamonds, Rank::Num(2)),
        (Suit::Diamonds, Rank::Num(3)),
        (Suit::Spades, Rank::Num(2)),
        (Suit::Spades, Rank::Num(3)),
        (Suit::Spades, Rank::Num(4)),
    ]));
    game.start_turn();
    assert_eq!(game.apply(Action::Fight { index: 0 }), Ok(GameEvent::ActionApplied));
    assert_eq!(game.game_info().health, 6);
    assert_eq!(game.apply(Action::Fight { index: 0 }), Ok(GameEvent::ActionApplied));
    assert_eq!(game.game_info().health, 0);
    assert!(game.is_over());
    assert_eq!(game.outcome(), Some(GameOutcome::Lose { score: 9 }));
}

#[test]
fn resolving_down_to_one_card_ends_the_turn() {
    let mut game = Game::with_deck(deck_of(&[
        (Suit::Hearts, Rank::Num(2)),
        (Suit::Hearts, Rank::Num(3)),
        (Suit::Hearts, Rank::Num(4)),
        (Suit::Hearts, Rank::Num(5)),
        (Suit::Hearts, Rank::Num(6)),
    ]));
    game.start_turn();
    assert_eq!(game.apply(Action::Heal { index: 0 }), Ok(GameEvent::ActionApplied));
    assert_eq!(game.apply(Action::Heal { index: 0 }), Ok(GameEvent::ActionApplied));
    assert_eq!(game.apply(Action::Heal { index: 0 }), Ok(GameEvent::TurnEnded));
    let info = game.game_info();
    assert_eq!(info.room_cards.len(), 1);
    assert_eq!(info.room_cards[0].rank, Rank::Num(5));

    // The carried-over card keeps its place next turn.
    game.start_turn();
    let info = game.game_info();
    assert_eq!(info.room_cards.len(), 2);
    assert_eq!(info.room_cards[0].rank, Rank::Num(5));
    assert_eq!(info.room_cards[1].rank, Rank::Num(6));
}

#[test]
fn a_full_game_always_reaches_an_outcome() {
    // Play a freshly shuffled deck by always resolving the first card with
    // whatever its kind allows; every such game must end with an outcome.
    let mut game = Game::new();
    let mut steps = 0;
    'game: loop {
        game.start_turn();
        loop {
            steps += 1;
            assert!(steps < 1000, "the game should have ended long ago");
            let info = game.game_info();
            if info.room_cards.is_empty() {
                break 'game;
            }
            let event = match info.room_cards[0].kind {
                CardKind::Monster => game.apply(Action::Fight { index: 0 }),
                CardKind::Weapon => game.apply(Action::Equip { index: 0 }),
                CardKind::Potion => game.apply(Action::Heal { index: 0 }),
            }
            .unwrap();
            if game.is_over() {
                break 'game;
            }
            if event == GameEvent::TurnEnded {
                break;
            }
        }
    }
    assert!(game.is_over());
    let outcome = game.outcome().unwrap();
    let info = game.game_info();
    match outcome {
        GameOutcome::Win { score } => assert_eq!(score, info.health as i16),
        GameOutcome::Lose { score } => {
            assert_eq!(info.health, 0);
            assert!((0..=208).contains(&score));
        }
    }
}

#[test]
fn second_potion_of_a_turn_is_wasted_but_still_resolved() {
    let mut game = Game::with_deck(deck_of(&[
        (Suit::Spades, Rank::Num(8)),
        (Suit::Hearts, Rank::Num(3)),
        (Suit::Hearts, Rank::Num(9)),
        (Suit::Diamonds, Rank::Num(2)),
        (Suit::Hearts, Rank::Num(4)),
    ]));
    game.start_turn();
    game.apply(Action::Fight { index: 0 }).unwrap();
    assert_eq!(game.game_info().health, 12);
    assert_eq!(game.apply(Action::Heal { index: 0 }), Ok(GameEvent::ActionApplied));
    assert_eq!(game.game_info().health, 15);
    // The second potion heals nothing, yet leaves the room.
    assert_eq!(game.apply(Action::Heal { index: 0 }), Ok(GameEvent::TurnEnded));
    assert_eq!(game.game_info().health, 15);
    assert_eq!(game.game_info().room_cards.len(), 1);
}
