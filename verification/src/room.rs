//! The room: up to four face-up card slots, stably indexed from zero.
//! Removal shifts later cards down; a skipped room is drained under the deck
//! in its current order.

use vstd::prelude::*;

use crate::card::Card;
use crate::error::GameError;

verus! {

/// How many face-up slots a room offers.
pub const ROOM_CAPACITY: usize = 4;

pub struct Room {
    cards: Vec<Card>,
}

impl View for Room {
    type V = Seq<Card>;

    /// A room is its card sequence, in slot order.
    closed spec fn view(&self) -> Seq<Card> {
        self.cards@
    }
}

impl Room {
    /// An empty room.
    pub fn new() -> (room: Room)
        ensures
            room@ == Seq::<Card>::empty(),
    {
        Room { cards: Vec::new() }
    }

    /// Whether every slot is taken.
    pub fn is_full(&self) -> (full: bool)
        ensures
            full == (self@.len() == ROOM_CAPACITY),
    {
        self.cards.len() == ROOM_CAPACITY
    }

    pub fn len(&self) -> (n: usize)
        ensures
            n == self@.len(),
    {
        self.cards.len()
    }

    /// The card at a slot, or `IndexOutOfBounds` past the end.
    pub fn get(&self, index: usize) -> (r: Result<&Card, GameError>)
        ensures
            index < self@.len() ==> (r matches Ok(card) && *card == self@[index as int]),
            index >= self@.len() ==> r == Err::<&Card, GameError>(GameError::IndexOutOfBounds),
    {
        if index < self.cards.len() {
            Ok(&self.cards[index])
        } else {
            Err(GameError::IndexOutOfBounds)
        }
    }

    /// Removes and returns the card at a slot; every later card moves down
    /// one slot. Fails with `IndexOutOfBounds` past the end.
    pub fn remove(&mut self, index: usize) -> (r: Result<Card, GameError>)
        ensures
            index < old(self)@.len() ==> r == Ok::<Card, GameError>(old(self)@[index as int])
                && final(self)@ == old(self)@.remove(index as int),
            index >= old(self)@.len() ==> r == Err::<Card, GameError>(GameError::IndexOutOfBounds)
                && final(self)@ == old(self)@,
    {
        if index >= self.cards.len() {
            return Err(GameError::IndexOutOfBounds);
        }
        Ok(self.cards.remove(index))
    }

    /// Appends a card, or fails with `RoomFull` when every slot is taken.
    pub fn add(&mut self, card: Card) -> (r: Result<(), GameError>)
        ensures
            old(self)@.len() == ROOM_CAPACITY ==> r == Err::<(), GameError>(GameError::RoomFull)
                && final(self)@ == old(self)@,
            old(self)@.len() != ROOM_CAPACITY ==> r == Ok::<(), GameError>(()) && final(self)@
                == old(self)@.push(card),
    {
        if self.is_full() {
            return Err(GameError::RoomFull);
        }
        self.cards.push(card);
        Ok(())
    }

    /// Drains every card into the bottom of the given pile, preserving the
    /// room's order: afterwards the pile starts with the old room.
    pub fn clear_into(&mut self, deck: &mut Vec<Card>)
        ensures
            final(deck)@ == old(self)@ + old(deck)@,
            final(self)@ == Seq::<Card>::empty(),
    {
        while self.cards.len() > 0
            invariant
                self.cards@.len() <= old(self)@.len(),
                self.cards@ == old(self)@.subrange(0, self.cards@.len() as int),
                deck@ == old(self)@.subrange(
                    self.cards@.len() as int,
                    old(self)@.len() as int,
                ) + old(deck)@,
            decreases self.cards@.len(),
        {
            let ghost k = self.cards@.len() as int;
            let ghost n = old(self)@.len() as int;
            let card = self.cards.pop().unwrap();
            deck.insert(0, card);
            proof {
                assert(old(self)@.subrange(0, k).drop_last() =~= old(self)@.subrange(0, k - 1));
                assert(card == old(self)@[k - 1]);
                assert((old(self)@.subrange(k, n) + old(deck)@).insert(0, card) =~= old(
                    self,
                )@.subrange(k - 1, n) + old(deck)@);
            }
        }
        proof {
            assert(old(self)@.subrange(0, old(self)@.len() as int) =~= old(self)@);
            assert(self.cards@ =~= Seq::<Card>::empty());
        }
    }

    /// The room's cards, in slot order.
    pub fn iter(&self) -> (cards: Vec<Card>)
        ensures
            cards@ == self@,
    {
        let mut cards: Vec<Card> = Vec::new();
        let mut i: usize = 0;
        while i < self.cards.len()
            invariant
                0 <= i <= self@.len(),
                cards@ == self@.subrange(0, i as int),
            decreases self@.len() - i,
        {
            cards.push(self.cards[i]);
            proof {
                assert(self@.subrange(0, i as int).push(self@[i as int]) =~= self@.subrange(
                    0,
                    i + 1,
                ));
            }
            i = i + 1;
        }
        proof {
            assert(self@.subrange(0, self@.len() as int) =~= self@);
        }
        cards
    }
}

} // verus!
