//! The player: health clamped to [0, 20], the equipped weapon, and the four
//! guarded transitions — barehanded fighting, weapon kills with the
//! degrading-ceiling rule, binding weapon equips, and once-per-turn healing.
//! Each transition is stated as a spec-level outcome function; the methods
//! promise to realise exactly that outcome.

use vstd::prelude::*;

use crate::card::{Card, CardKind};
use crate::error::GameError;

verus! {

/// Health can never rise above this.
pub const MAX_HEALTH: u8 = 20;

#[derive(Debug, Clone, Copy, PartialEq, Eq, Structural)]
pub struct Weapon {
    /// 0 means no weapon is equipped.
    pub strength: u8,
    /// 0 means this weapon has not slain anything yet; otherwise the weapon
    /// only accepts strictly weaker monsters than this.
    pub last_slain_monster_strength: u8,
}

#[derive(Debug, Clone, Copy, PartialEq, Eq, Structural)]
pub struct Player {
    pub health: u8,
    pub weapon: Weapon,
    pub last_healed_turn: u8,
}

/// What a barehanded fight does: a monster deals its full strength, floored
/// so health never drops below zero; anything else is refused.
pub open spec fn fight_outcome(p: Player, card: Card) -> Result<Player, GameError> {
    if card.kind != CardKind::Monster {
        Err(GameError::NotAMonster)
    } else {
        let health = if card.strength > p.health {
            0
        } else {
            p.health - card.strength
        };
        Ok(Player { health: health as u8, ..p })
    }
}

/// What a weapon kill does: it needs a monster, an equipped weapon, and —
/// once the weapon has slain something — a strictly weaker monster than the
/// last one slain. Damage is the strength the weapon cannot absorb, floored
/// at zero; the kill always records the monster's strength as the weapon's
/// new ceiling.
pub open spec fn kill_outcome(p: Player, card: Card) -> Result<Player, GameError> {
    if card.kind != CardKind::Monster {
        Err(GameError::NotAMonster)
    } else if p.weapon.strength == 0 {
        Err(GameError::NoWeaponEquipped)
    } else if p.weapon.last_slain_monster_strength != 0 && card.strength
        >= p.weapon.last_slain_monster_strength {
        Err(GameError::MonsterTooStrongForWeapon)
    } else {
        let damage = if card.strength > p.weapon.strength {
            card.strength - p.weapon.strength
        } else {
            0
        };
        let health = if damage > p.health {
            0
        } else {
            p.health - damage
        };
        Ok(
            Player {
                health: health as u8,
                weapon: Weapon {
                    strength: p.weapon.strength,
                    last_slain_monster_strength: card.strength,
                },
                ..p
            },
        )
    }
}

/// What an equip does: a weapon card fully replaces the weapon state, and the
/// kill ceiling starts over at zero whatever it was before.
pub open spec fn equip_outcome(p: Player, card: Card) -> Result<Player, GameError> {
    if card.kind != CardKind::Weapon {
        Err(GameError::NotAWeapon)
    } else {
        Ok(
            Player {
                weapon: Weapon { strength: card.strength, last_slain_monster_strength: 0 },
                ..p
            },
        )
    }
}

/// What a heal does: the first potion of a turn restores its strength up to
/// the cap; any further potion that turn still succeeds but changes nothing.
pub open spec fn heal_outcome(p: Player, card: Card, turn: u8) -> Result<Player, GameError> {
    if card.kind != CardKind::Potion {
        Err(GameError::NotAPotion)
    } else if p.last_healed_turn == turn {
        Ok(p)
    } else {
        let health = if p.health + card.strength > MAX_HEALTH {
            MAX_HEALTH as int
        } else {
            p.health + card.strength
        };
        Ok(Player { health: health as u8, last_healed_turn: turn, ..p })
    }
}

impl Player {
    /// Health stays in the documented range.
    pub open spec fn wf(self) -> bool {
        self.health <= MAX_HEALTH
    }

    /// A fresh player: full health, no weapon, no heal taken.
    pub fn new() -> (p: Player)
        ensures
            p == (Player {
                health: 20,
                weapon: Weapon { strength: 0, last_slain_monster_strength: 0 },
                last_healed_turn: 0,
            }),
    {
        Player {
            health: 20,
            weapon: Weapon { strength: 0, last_slain_monster_strength: 0 },
            last_healed_turn: 0,
        }
    }

    /// Fights a monster barehanded; see `fight_outcome`.
    pub fn fight(&mut self, card: &Card) -> (r: Result<(), GameError>)
        ensures
            (match fight_outcome(*old(self), *card) {
                Ok(p) => r == Ok::<(), GameError>(()) && *final(self) == p,
                Err(e) => r == Err::<(), GameError>(e) && *final(self) == *old(self),
            }),
    {
        if card.kind != CardKind::Monster {
            return Err(GameError::NotAMonster);
        }

        let damage = if card.strength < self.health {
            card.strength
        } else {
            self.health
        };
        self.health = self.health - damage;

        Ok(())
    }

    /// Kills a monster with the equipped weapon; see `kill_outcome`.
    pub fn kill(&mut self, card: &Card) -> (r: Result<(), GameError>)
        ensures
            (match kill_outcome(*old(self), *card) {
                Ok(p) => r == Ok::<(), GameError>(()) && *final(self) == p,
                Err(e) => r == Err::<(), GameError>(e) && *final(self) == *old(self),
            }),
    {
        if card.kind != CardKind::Monster {
            return Err(GameError::NotAMonster);
        }

        if self.weapon.strength == 0 {
            return Err(GameError::NoWeaponEquipped);
        }

        if self.weapon.last_slain_monster_strength != 0 && card.strength
            >= self.weapon.last_slain_monster_strength {
            return Err(GameError::MonsterTooStrongForWeapon);
        }

        if card.strength > self.weapon.strength {
            let diff = card.strength - self.weapon.strength;
            let damage = if diff < self.health {
                diff
            } else {
                self.health
            };
            self.health = self.health - damage;
        }

        self.weapon.last_slain_monster_strength = card.strength;

        Ok(())
    }

    /// Equips a weapon card; see `equip_outcome`.
    pub fn equip_weapon(&mut self, card: &Card) -> (r: Result<(), GameError>)
        ensures
            (match equip_outcome(*old(self), *card) {
                Ok(p) => r == Ok::<(), GameError>(()) && *final(self) == p,
                Err(e) => r == Err::<(), GameError>(e) && *final(self) == *old(self),
            }),
    {
        if card.kind != CardKind::Weapon {
            return Err(GameError::NotAWeapon);
        }

        self.weapon = Weapon { strength: card.strength, last_slain_monster_strength: 0 };

        Ok(())
    }

    /// Drinks a potion card; see `heal_outcome`.
    pub fn heal(&mut self, card: &Card, turn: u8) -> (r: Result<(), GameError>)
        requires
            old(self).wf(),
        ensures
            (match heal_outcome(*old(self), *card, turn) {
                Ok(p) => r == Ok::<(), GameError>(()) && *final(self) == p,
                Err(e) => r == Err::<(), GameError>(e) && *final(self) == *old(self),
            }),
    {
        if card.kind != CardKind::Potion {
            return Err(GameError::NotAPotion);
        }

        if self.last_healed_turn != turn {
            let headroom = MAX_HEALTH - self.health;
            let gain = if card.strength < headroom {
                card.strength
            } else {
                headroom
            };
            self.health = self.health + gain;
            self.last_healed_turn = turn;
        }

        Ok(())
    }
}

/// Weapon degradation: once a kill has recorded the slain monster's strength
/// `s` (any real monster has `s > 0`), the same weapon refuses every monster
/// of strength at least `s`, and still accepts every strictly weaker one.
pub proof fn lemma_kill_degradation(p: Player, first: Card, second: Card)
    requires
        first.strength > 0,
        second.kind == CardKind::Monster,
        kill_outcome(p, first) is Ok,
    ensures
        (match kill_outcome(p, first) {
            Ok(p1) => (second.strength >= first.strength ==> kill_outcome(p1, second)
                == Err::<Player, GameError>(GameError::MonsterTooStrongForWeapon)) && (
            second.strength < first.strength ==> kill_outcome(p1, second) is Ok),
            Err(_) => true,
        }),
{
}

/// Healing is idempotent within a turn: after one heal in a turn, a second
/// potion that same turn still succeeds but returns the player unchanged.
pub proof fn lemma_heal_idempotent_within_turn(p: Player, first: Card, second: Card, turn: u8)
    requires
        first.kind == CardKind::Potion,
        second.kind == CardKind::Potion,
    ensures
        (match heal_outcome(p, first, turn) {
            Ok(p1) => heal_outcome(p1, second, turn) == Ok::<Player, GameError>(p1),
            Err(_) => false,
        }),
{
}

} // verus!
