//! The turn orchestrator. A game owns one deck, one room and one player;
//! each turn it refills the room from the deck, then applies one action at a
//! time until the turn ends. `apply_outcome` is the whole state machine in
//! spec form, and `apply` promises to realise exactly that outcome.

use vstd::prelude::*;

use crate::card::{Card, CardKind};
use crate::deck::Deck;
use crate::error::GameError;
use crate::player::{
    equip_outcome, fight_outcome, heal_outcome, kill_outcome, Player, Weapon,
};
use crate::room::{Room, ROOM_CAPACITY};
use crate::tally::{
    kind_count, lemma_sum_by_append, lemma_sum_by_nonneg, lemma_sum_by_push, lemma_sum_by_remove,
    monster_sum, monster_weight_fn,
};
use crate::ui::Action;

verus! {

/// What one applied action reports back to the caller.
#[derive(Debug, Clone, Copy, PartialEq, Eq, Structural)]
pub enum GameEvent {
    QuitGame,
    TurnEnded,
    ActionApplied,
    RulesPrinted,
}

/// How a finished game ended. Both scores are reported as positive numbers;
/// any sign convention for losses belongs to the presentation layer.
#[derive(Debug, Clone, Copy, PartialEq, Eq, Structural)]
pub enum GameOutcome {
    Win { score: i16 },
    Lose { score: i16 },
}

/// A read-only snapshot: enough for any renderer to draw the board.
pub struct GameInfo {
    pub health: u8,
    pub remaining_cards: usize,
    pub weapon_strength: u8,
    pub last_slain: u8,
    pub turn: u8,
    pub last_skipped: u8,
    pub room_cards: Vec<Card>,
}

/// The mathematical state of a game: the two card piles, the player, and the
/// turn counters.
pub ghost struct GameView {
    pub deck: Seq<Card>,
    pub room: Seq<Card>,
    pub player: Player,
    pub turn: u8,
    pub last_skipped_turn: u8,
}

impl GameView {
    /// What every reachable game state satisfies: health in range, the room
    /// within capacity, the undrawn monsters' strength within the score
    /// type's reach, and no skip recorded for a turn not yet played.
    pub open spec fn wf(self) -> bool {
        &&& self.player.wf()
        &&& self.room.len() <= ROOM_CAPACITY
        &&& monster_sum(self.deck) + monster_sum(self.room) <= 255
        &&& self.last_skipped_turn <= self.turn
    }

    /// Skip legality: the room must be untouched (full), and two consecutive
    /// turns may not both be skipped.
    pub open spec fn can_skip(self) -> bool {
        self.room.len() == ROOM_CAPACITY && !(self.turn != 1 && self.turn - self.last_skipped_turn
            == 1)
    }

    /// Which refusal an illegal skip earns; an unfull room is reported before
    /// a repeated skip.
    pub open spec fn skip_error(self) -> GameError {
        if self.room.len() != ROOM_CAPACITY {
            GameError::CannotSkip
        } else {
            GameError::CannotSkipTwoInRow
        }
    }

    /// The game ends when the deck is exhausted or the player is dead.
    pub open spec fn is_over(self) -> bool {
        self.deck.len() == 0 || self.player.health == 0
    }

    /// The score: remaining health once the deck is emptied, otherwise the
    /// summed strength of the monsters never drawn.
    pub open spec fn score(self) -> int {
        if self.deck.len() == 0 {
            self.player.health as int
        } else {
            monster_sum(self.deck)
        }
    }
}

/// What resolving the room card at `index` does, given the player-transition
/// result `op` for that card: an index past the room is refused; a refused
/// transition changes nothing; a successful one installs the new player state
/// and removes the card, ending the turn when exactly one card remains.
pub open spec fn card_action_outcome(g: GameView, index: int, op: Result<Player, GameError>) -> (
    Result<GameEvent, GameError>,
    GameView,
) {
    if index >= g.room.len() {
        (Err(GameError::IndexOutOfBounds), g)
    } else {
        match op {
            Err(e) => (Err(e), g),
            Ok(p) => (
                Ok(
                    if g.room.len() - 1 == 1 {
                        GameEvent::TurnEnded
                    } else {
                        GameEvent::ActionApplied
                    },
                ),
                GameView { room: g.room.remove(index), player: p, ..g },
            ),
        }
    }
}

/// The whole action dispatch in spec form: what `apply` returns and what the
/// game state becomes, for every action and every starting state.
pub open spec fn apply_outcome(g: GameView, action: Action) -> (
    Result<GameEvent, GameError>,
    GameView,
) {
    match action {
        Action::Quit => (Ok(GameEvent::QuitGame), g),
        Action::PrintRules => (Ok(GameEvent::RulesPrinted), g),
        Action::Skip => if g.can_skip() {
            (
                Ok(GameEvent::TurnEnded),
                GameView {
                    deck: g.room + g.deck,
                    room: Seq::<Card>::empty(),
                    last_skipped_turn: g.turn,
                    ..g
                },
            )
        } else {
            (Err(g.skip_error()), g)
        },
        Action::Fight { index } => card_action_outcome(
            g,
            index as int,
            fight_outcome(g.player, g.room[index as int]),
        ),
        Action::Kill { index } => card_action_outcome(
            g,
            index as int,
            kill_outcome(g.player, g.room[index as int]),
        ),
        Action::Heal { index } => card_action_outcome(
            g,
            index as int,
            heal_outcome(g.player, g.room[index as int], g.turn),
        ),
        Action::Equip { index } => card_action_outcome(
            g,
            index as int,
            equip_outcome(g.player, g.room[index as int]),
        ),
    }
}

/// Skip legality: a skip is never legal while the room is not full, nor when
/// exactly one turn has elapsed since the last skip (except on the first
/// turn, whose counter distance from the never-skipped mark is also one).
pub proof fn lemma_skip_legality(g: GameView)
    ensures
        g.room.len() != ROOM_CAPACITY ==> !g.can_skip(),
        g.turn != 1 && g.turn - g.last_skipped_turn == 1 ==> !g.can_skip(),
{
}

pub struct Game {
    deck: Deck,
    room: Room,
    player: Player,
    turn: u8,
    last_skipped_turn: u8,
}

impl View for Game {
    type V = GameView;

    closed spec fn view(&self) -> GameView {
        GameView {
            deck: self.deck@,
            room: self.room@,
            player: self.player,
            turn: self.turn,
            last_skipped_turn: self.last_skipped_turn,
        }
    }
}

impl Game {
    /// A fresh session: a shuffled 44-card deck, an empty room, a full-health
    /// player, turn 0.
    pub fn new() -> (game: Game)
        ensures
            game@.wf(),
            game@.turn == 0,
            game@.last_skipped_turn == 0,
            game@.room == Seq::<Card>::empty(),
            game@.player == (Player {
                health: 20,
                weapon: Weapon { strength: 0, last_slain_monster_strength: 0 },
                last_healed_turn: 0,
            }),
            game@.deck.to_multiset() == crate::deck::full_deck().to_multiset(),
            game@.deck.len() == 44,
            kind_count(game@.deck, CardKind::Monster) == 26,
            kind_count(game@.deck, CardKind::Weapon) == 9,
            kind_count(game@.deck, CardKind::Potion) == 9,
            monster_sum(game@.deck) == 208,
    {
        let deck = Deck::new();
        let room = Room::new();
        let player = Player::new();

        Game { deck, room, player, turn: 0, last_skipped_turn: 0 }
    }

    /// A fresh session over a given pile, so a caller can play a known deal.
    pub fn with_deck(deck: Deck) -> (game: Game)
        requires
            monster_sum(deck@) <= 255,
        ensures
            game@.wf(),
            game@.turn == 0,
            game@.last_skipped_turn == 0,
            game@.room == Seq::<Card>::empty(),
            game@.player == (Player {
                health: 20,
                weapon: Weapon { strength: 0, last_slain_monster_strength: 0 },
                last_healed_turn: 0,
            }),
            game@.deck == deck@,
    {
        let room = Room::new();
        let player = Player::new();

        Game { deck, room, player, turn: 0, last_skipped_turn: 0 }
    }

    /// Opens a turn: bumps the counter, then draws until the room is full or
    /// the deck is empty. Only the missing slots are filled; a carried-over
    /// card keeps its place.
    pub fn start_turn(&mut self)
        requires
            old(self)@.wf(),
            old(self)@.turn < 255,
        ensures
            final(self)@.wf(),
            final(self)@.turn == old(self)@.turn + 1,
            final(self)@.player == old(self)@.player,
            final(self)@.last_skipped_turn == old(self)@.last_skipped_turn,
            ({
                let g = old(self)@;
                let k: int = if g.deck.len() >= ROOM_CAPACITY - g.room.len() {
                    ROOM_CAPACITY - g.room.len()
                } else {
                    g.deck.len() as int
                };
                final(self)@.deck == g.deck.subrange(0, g.deck.len() - k) && final(self)@.room
                    == g.room + g.deck.subrange(g.deck.len() - k, g.deck.len() as int).reverse()
            }),
            final(self)@.room.len() == ROOM_CAPACITY || final(self)@.deck.len() == 0,
    {
        self.turn = self.turn + 1;
        self.fill_room();
    }

    /// Applies one action; see `apply_outcome` for the full dispatch.
    pub fn apply(&mut self, action: Action) -> (r: Result<GameEvent, GameError>)
        requires
            old(self)@.wf(),
        ensures
            final(self)@.wf(),
            r == apply_outcome(old(self)@, action).0,
            final(self)@ == apply_outcome(old(self)@, action).1,
    {
        match action {
            Action::Quit => Ok(GameEvent::QuitGame),

            Action::Skip => {
                match self.can_skip() {
                    Ok(_) => {},
                    Err(e) => return Err(e),
                }

                self.room.clear_into(self.deck.cards_mut());
                self.last_skipped_turn = self.turn;

                proof {
                    lemma_sum_by_append(old(self)@.room, old(self)@.deck, monster_weight_fn());
                }

                Ok(GameEvent::TurnEnded)
            },

            Action::PrintRules => Ok(GameEvent::RulesPrinted),

            Action::Fight { index } => {
                let card = match self.room.get(index) {
                    Ok(c) => *c,
                    Err(e) => return Err(e),
                };
                match self.player.fight(&card) {
                    Ok(_) => {},
                    Err(e) => return Err(e),
                }
                let _ = self.room.remove(index);

                proof {
                    lemma_sum_by_remove(old(self)@.room, monster_weight_fn(), index as int);
                }

                if self.room.len() == 1 {
                    Ok(GameEvent::TurnEnded)
                } else {
                    Ok(GameEvent::ActionApplied)
                }
            },

            Action::Kill { index } => {
                let card = match self.room.get(index) {
                    Ok(c) => *c,
                    Err(e) => return Err(e),
                };
                match self.player.kill(&card) {
                    Ok(_) => {},
                    Err(e) => return Err(e),
                }
                let _ = self.room.remove(index);

                proof {
                    lemma_sum_by_remove(old(self)@.room, monster_weight_fn(), index as int);
                }

                if self.room.len() == 1 {
                    Ok(GameEvent::TurnEnded)
                } else {
                    Ok(GameEvent::ActionApplied)
                }
            },

            Action::Heal { index } => {
                let card = match self.room.get(index) {
                    Ok(c) => *c,
                    Err(e) => return Err(e),
                };
                match self.player.heal(&card, self.turn) {
                    Ok(_) => {},
                    Err(e) => return Err(e),
                }
                let _ = self.room.remove(index);

                proof {
                    lemma_sum_by_remove(old(self)@.room, monster_weight_fn(), index as int);
                }

                if self.room.len() == 1 {
                    Ok(GameEvent::TurnEnded)
                } else {
                    Ok(GameEvent::ActionApplied)
                }
            },

            Action::Equip { index } => {
                let card = match self.room.get(index) {
                    Ok(c) => *c,
                    Err(e) => return Err(e),
                };
                match self.player.equip_weapon(&card) {
                    Ok(_) => {},
                    Err(e) => return Err(e),
                }
                let _ = self.room.remove(index);

                proof {
                    lemma_sum_by_remove(old(self)@.room, monster_weight_fn(), index as int);
                }

                if self.room.len() == 1 {
                    Ok(GameEvent::TurnEnded)
                } else {
                    Ok(GameEvent::ActionApplied)
                }
            },
        }
    }

    /// A snapshot of everything a renderer needs.
    pub fn game_info(&self) -> (info: GameInfo)
        ensures
            info.health == self@.player.health,
            info.remaining_cards == self@.deck.len(),
            info.weapon_strength == self@.player.weapon.strength,
            info.last_slain == self@.player.weapon.last_slain_monster_strength,
            info.turn == self@.turn,
            info.last_skipped == self@.last_skipped_turn,
            info.room_cards@ == self@.room,
    {
        GameInfo {
            room_cards: self.room.iter(),
            turn: self.turn,
            health: self.player.health,
            last_slain: self.player.weapon.last_slain_monster_strength,
            remaining_cards: self.deck.len(),
            last_skipped: self.last_skipped_turn,
            weapon_strength: self.player.weapon.strength,
        }
    }

    pub fn is_over(&self) -> (over: bool)
        ensures
            over == self@.is_over(),
    {
        self.deck.is_empty() || self.player.health == 0
    }

    /// `None` while the game is running; once over, a loss scored by the
    /// undrawn monsters' strength, or a win scored by the remaining health.
    pub fn outcome(&self) -> (outcome: Option<GameOutcome>)
        requires
            self@.wf(),
        ensures
            !self@.is_over() ==> outcome is None,
            self@.is_over() && self@.player.health == 0 ==> outcome == Some(
                GameOutcome::Lose { score: self@.score() as i16 },
            ),
            self@.is_over() && self@.player.health != 0 ==> outcome == Some(
                GameOutcome::Win { score: self@.score() as i16 },
            ),
    {
        if !self.is_over() {
            return None;
        }

        proof {
            lemma_sum_by_nonneg(self@.room, monster_weight_fn());
        }
        let score = self.calculate_score();

        if self.player.health == 0 {
            Some(GameOutcome::Lose { score })
        } else {
            Some(GameOutcome::Win { score })
        }
    }

    fn can_skip(&self) -> (r: Result<(), GameError>)
        requires
            self@.wf(),
        ensures
            self@.can_skip() ==> r == Ok::<(), GameError>(()),
            !self@.can_skip() ==> r == Err::<(), GameError>(self@.skip_error()),
    {
        if !self.room.is_full() {
            return Err(GameError::CannotSkip);
        }

        if self.turn != 1 && self.turn - self.last_skipped_turn == 1 {
            return Err(GameError::CannotSkipTwoInRow);
        }

        Ok(())
    }

    fn fill_room(&mut self)
        requires
            old(self)@.wf(),
        ensures
            final(self)@.wf(),
            final(self)@.turn == old(self)@.turn,
            final(self)@.player == old(self)@.player,
            final(self)@.last_skipped_turn == old(self)@.last_skipped_turn,
            ({
                let g = old(self)@;
                let k: int = if g.deck.len() >= ROOM_CAPACITY - g.room.len() {
                    ROOM_CAPACITY - g.room.len()
                } else {
                    g.deck.len() as int
                };
                final(self)@.deck == g.deck.subrange(0, g.deck.len() - k) && final(self)@.room
                    == g.room + g.deck.subrange(g.deck.len() - k, g.deck.len() as int).reverse()
            }),
            final(self)@.room.len() == ROOM_CAPACITY || final(self)@.deck.len() == 0,
    {
        proof {
            let g = old(self)@;
            assert(self@.deck =~= g.deck.subrange(0, self@.deck.len() as int));
            assert(g.deck.subrange(g.deck.len() as int, g.deck.len() as int).reverse()
                =~= Seq::<Card>::empty());
            assert(self@.room =~= g.room + g.deck.subrange(
                self@.deck.len() as int,
                g.deck.len() as int,
            ).reverse());
        }
        while !self.room.is_full() && !self.deck.is_empty()
            invariant
                self@.wf(),
                self@.turn == old(self)@.turn,
                self@.player == old(self)@.player,
                self@.last_skipped_turn == old(self)@.last_skipped_turn,
                old(self)@.room.len() <= ROOM_CAPACITY,
                self@.deck.len() <= old(self)@.deck.len(),
                self@.deck == old(self)@.deck.subrange(0, self@.deck.len() as int),
                self@.room == old(self)@.room + old(self)@.deck.subrange(
                    self@.deck.len() as int,
                    old(self)@.deck.len() as int,
                ).reverse(),
            decreases self@.deck.len(),
        {
            let ghost m = self@.deck.len() as int;
            let ghost d = old(self)@.deck;
            let ghost n = d.len() as int;
            let ghost room_before = self@.room;
            let card = self.deck.draw().unwrap();
            let _ = self.room.add(card);
            proof {
                assert(d.subrange(0, m).last() == d[m - 1]);
                assert(card == d[m - 1]);
                assert(self@.deck =~= d.subrange(0, m - 1));
                assert(d.subrange(m - 1, n).reverse() =~= d.subrange(m, n).reverse().push(
                    d[m - 1],
                ));
                assert(old(self)@.room + d.subrange(m - 1, n).reverse() =~= room_before.push(
                    d[m - 1],
                ));
                assert(d.subrange(0, m).drop_last() =~= d.subrange(0, m - 1));
                lemma_sum_by_push(room_before, monster_weight_fn(), d[m - 1]);
            }
        }
        proof {
            let g = old(self)@;
            let k: int = if g.deck.len() >= ROOM_CAPACITY - g.room.len() {
                ROOM_CAPACITY - g.room.len()
            } else {
                g.deck.len() as int
            };
            assert(self@.deck =~= g.deck.subrange(0, g.deck.len() - k));
        }
    }

    fn calculate_score(&self) -> (score: i16)
        requires
            monster_sum(self@.deck) <= 255,
        ensures
            score as int == self@.score(),
    {
        if self.deck.is_empty() {
            self.player.health as i16
        } else {
            self.deck.remaining_monster_strength() as i16
        }
    }
}

} // verus!
