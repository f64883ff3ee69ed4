use scoundrel::card::{Card, Rank, Suit};
use scoundrel::error::GameError;
use scoundrel::player::Player;

fn monster(v: u8) -> Card {
    Card::new(Suit::Spades, Rank::Num(v))
}

fn monster_ace() -> Card {
    Card::new(Suit::Clubs, Rank::Ace)
}

fn weapon(v: u8) -> Card {
    Card::new(Suit::Diamonds, Rank::Num(v))
}

fn potion(v: u8) -> Card {
    Card::new(Suit::Hearts, Rank::Num(v))
}

#[test]
fn fight_deals_full_monster_strength() {
    let mut p = Player::new();
    assert_eq!(p.fight(&monster(5)), Ok(()));
    assert_eq!(p.health, 15);
}

#[test]
fn fight_never_drops_health_below_zero() {
    let mut p = Player::new();
    p.fight(&monster_ace()).unwrap();
    assert_eq!(p.health, 6);
    p.fight(&monster_ace()).unwrap();
    assert_eq!(p.health, 0);
}

#[test]
fn fight_refuses_non_monsters() {
    let mut p = Player::new();
    assert_eq!(p.fight(&weapon(5)), Err(GameError::NotAMonster));
    assert_eq!(p.fight(&potion(5)), Err(GameError::NotAMonster));
    assert_eq!(p.health, 20);
}

#[test]
fn kill_without_weapon_fails() {
    let mut p = Player::new();
    assert_eq!(p.kill(&monster(5)), Err(GameError::NoWeaponEquipped));
    assert_eq!(p.health, 20);
}

#[test]
fn kill_refuses_non_monsters() {
    let mut p = Player::new();
    p.equip_weapon(&weapon(5)).unwrap();
    assert_eq!(p.kill(&potion(5)), Err(GameError::NotAMonster));
    assert_eq!(p.kill(&weapon(3)), Err(GameError::NotAMonster));
}

#[test]
fn kill_absorbs_weapon_strength() {
    let mut p = Player::new();
    p.equip_weapon(&weapon(5)).unwrap();
    assert_eq!(p.kill(&monster_ace()), Ok(()));
    // An Ace has strength 14; a strength-5 weapon absorbs 5 of it.
    assert_eq!(p.health, 11);
    assert_eq!(p.weapon.last_slain_monster_strength, 14);
}

#[test]
fn kill_degradation_refuses_equal_or_stronger() {
    let mut p = Player::new();
    p.equip_weapon(&weapon(5)).unwrap();
    p.kill(&monster_ace()).unwrap();
    assert_eq!(p.kill(&monster_ace()), Err(GameError::MonsterTooStrongForWeapon));
    assert_eq!(p.health, 11);
    // A strictly weaker monster still goes through, here with no damage.
    assert_eq!(p.kill(&monster(2)), Ok(()));
    assert_eq!(p.health, 11);
    assert_eq!(p.weapon.last_slain_monster_strength, 2);
    // Now even a strength-3 monster is too strong for this weapon.
    assert_eq!(p.kill(&monster(3)), Err(GameError::MonsterTooStrongForWeapon));
}

#[test]
fn equip_replaces_weapon_and_resets_ceiling() {
    let mut p = Player::new();
    p.equip_weapon(&weapon(5)).unwrap();
    p.kill(&monster(9)).unwrap();
    assert_eq!(p.weapon.last_slain_monster_strength, 9);
    p.equip_weapon(&weapon(7)).unwrap();
    assert_eq!(p.weapon.strength, 7);
    assert_eq!(p.weapon.last_slain_monster_strength, 0);
}

#[test]
fn equip_refuses_non_weapons() {
    let mut p = Player::new();
    assert_eq!(p.equip_weapon(&monster(5)), Err(GameError::NotAWeapon));
    assert_eq!(p.equip_weapon(&potion(5)), Err(GameError::NotAWeapon));
    assert_eq!(p.weapon.strength, 0);
}

#[test]
fn heal_restores_up_to_the_cap() {
    let mut p = Player::new();
    p.fight(&monster(8)).unwrap();
    assert_eq!(p.health, 12);
    assert_eq!(p.heal(&potion(5), 1), Ok(()));
    assert_eq!(p.health, 17);
    p.fight(&monster(2)).unwrap();
    assert_eq!(p.heal(&potion(9), 2), Ok(()));
    assert_eq!(p.health, 20);
}

#[test]
fn heal_refuses_non_potions() {
    let mut p = Player::new();
    assert_eq!(p.heal(&monster(5), 1), Err(GameError::NotAPotion));
    assert_eq!(p.heal(&weapon(5), 1), Err(GameError::NotAPotion));
}

#[test]
fn second_heal_in_a_turn_changes_nothing() {
    let mut p = Player::new();
    p.fight(&monster_ace()).unwrap();
    assert_eq!(p.health, 6);
    assert_eq!(p.heal(&potion(2), 3), Ok(()));
    assert_eq!(p.health, 8);
    // Still succeeds, but the second potion of turn 3 is wasted.
    assert_eq!(p.heal(&potion(9), 3), Ok(()));
    assert_eq!(p.health, 8);
    // A later turn heals again.
    assert_eq!(p.heal(&potion(9), 4), Ok(()));
    assert_eq!(p.health, 17);
}
