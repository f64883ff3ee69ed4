//! Rules engine for a single-player, turn-based dungeon-crawling card game
//! played against a 44-card deck: spades and clubs are monsters, diamonds are
//! weapons, hearts are potions. The deck, the four-slot room, the player's
//! combat/heal/equip logic and the turn/skip state machine live here, each
//! with a verified contract; terminal rendering and input reading stay
//! outside the library.

pub mod card;
pub mod deck;
pub mod error;
pub mod game;
pub mod player;
pub mod room;
pub mod tally;
pub mod ui;
