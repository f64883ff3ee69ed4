//! The closed error enumerations: one for the game rules, one for the
//! input layer that sits on top of them.

use vstd::prelude::*;

verus! {

/// Everything a game operation can refuse, and nothing else. All of these are
/// recoverable: the caller may simply pick another action.
#[derive(Debug, Clone, Copy, PartialEq, Eq, Structural)]
pub enum GameError {
    RoomFull,
    NotAWeapon,
    NotAPotion,
    CannotSkip,
    CannotSkipTwoInRow,
    NotAMonster,
    IndexOutOfBounds,
    NoWeaponEquipped,
    MonsterTooStrongForWeapon,
}

/// Everything the input layer can refuse before an action reaches the game.
#[derive(Debug, Clone, Copy, PartialEq, Eq, Structural)]
pub enum UiError {
    EmptyInput,
    UnknownCommand,
    MissingIndex,
    InvalidIndex,
    IndexStartsAtOne,
    InputReadFailed,
}

} // verus!
