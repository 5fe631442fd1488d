//! A fighter with a name, health points and an attack strength.

use crate::text::{parse_u8, parsed_u8, trimmed};
use vstd::prelude::*;
use vstd::string::StringExecFns;

verus! {

/// The attack strength of a player whose strength could not be read.
pub const DEFAULT_ATTACK: u8 = 8;

/// The health a player starts with, and the most a player can have.
pub const FULL_HEALTH: u8 = 100;

/// A fighter.
#[derive(PartialEq, Debug)]
pub struct Player {
    name: String,
    hp: u8,
    attack: u8,
}

impl Player {
    /// The player's name.
    pub closed spec fn name(&self) -> Seq<char> {
        self.name@
    }

    /// The player's health points.
    pub closed spec fn health(&self) -> u8 {
        self.hp
    }

    /// The damage the player deals with one blow.
    pub closed spec fn strength(&self) -> u8 {
        self.attack
    }

    /// The two players agree in name, health and strength.
    pub open spec fn like(&self, other: &Player) -> bool {
        self.name() == other.name() && self.health() == other.health() && self.strength()
            == other.strength()
    }

    /// Whether the two players agree in name, health and strength.
    pub fn same_as(&self, other: &Player) -> (same: bool)
        ensures
            same == self.like(other),
    {
        self.name == other.name && self.hp == other.hp && self.attack == other.attack
    }

    /// The attack strength that `attack` stands for: the number it denotes
    /// once the white space around it is gone, or the default strength where
    /// it denotes none.
    pub open spec fn strength_from(attack: Seq<char>) -> u8 {
        match parsed_u8(trimmed(attack)) {
            Some(strength) => strength,
            None => DEFAULT_ATTACK,
        }
    }

    /// A player at full health whose attack strength is read from `attack`.
    pub fn new(attack: &str, name: &str) -> (player: Self)
        ensures
            player.name() == name@,
            player.health() == FULL_HEALTH,
            player.strength() == Self::strength_from(attack@),
    {
        Self::with_attack(parse_u8(attack.trim()), name)
    }

    /// A player at full health with the strength `parsed`, or with the
    /// default strength where there is none.
    pub fn with_attack(parsed: Option<u8>, name: &str) -> (player: Self)
        ensures
            player.name() == name@,
            player.health() == FULL_HEALTH,
            player.strength() == match parsed {
                Some(strength) => strength,
                None => DEFAULT_ATTACK,
            },
    {
        let attack = match parsed {
            Some(strength) => strength,
            None => DEFAULT_ATTACK,
        };
        Self { name: String::from_str(name), hp: FULL_HEALTH, attack }
    }

    pub fn get_health(&self) -> (health: u8)
        ensures
            health == self.health(),
    {
        self.hp
    }

    pub fn get_attack(&self) -> (strength: u8)
        ensures
            strength == self.strength(),
    {
        self.attack
    }

    pub fn get_name(&self) -> (name: &str)
        ensures
            name@ == self.name(),
    {
        self.name.as_str()
    }

    pub fn get_default_attack() -> (strength: u8)
        ensures
            strength == DEFAULT_ATTACK,
    {
        DEFAULT_ATTACK
    }

    /// Sets the health points to `amount`, whatever it is.
    pub fn set_health(&mut self, amount: u8)
        ensures
            *final(self) == old(self).with_health(amount),
            final(self).health() == amount,
            final(self).name() == old(self).name(),
            final(self).strength() == old(self).strength(),
    {
        self.hp = amount;
    }

    /// This player with `amount` health points.
    pub closed spec fn with_health(self, amount: u8) -> Player {
        Player { hp: amount, ..self }
    }

    /// The health left after a blow of the given strength: never below zero.
    pub open spec fn health_after_blow(health: u8, strength: u8) -> u8 {
        if health >= strength {
            (health - strength) as u8
        } else {
            0
        }
    }

    /// The health after healing by `amount`: never above full health.
    pub open spec fn health_after_heal(health: u8, amount: u8) -> u8 {
        if health + amount > FULL_HEALTH {
            FULL_HEALTH
        } else {
            (health + amount) as u8
        }
    }

    /// This player after a blow of the given strength: the same player with
    /// less health.
    pub closed spec fn hurt_by(self, strength: u8) -> Player {
        Player { hp: Self::health_after_blow(self.hp, strength), ..self }
    }

    /// A blow changes the health and nothing else.
    pub proof fn lemma_hurt_by(self, strength: u8)
        ensures
            self.hurt_by(strength).health() == Self::health_after_blow(self.health(), strength),
            self.hurt_by(strength).name() == self.name(),
            self.hurt_by(strength).strength() == self.strength(),
    {
    }

    /// Takes a blow of the given strength.
    pub fn take_blow(&mut self, strength: u8)
        ensures
            *final(self) == old(self).hurt_by(strength),
    {
        let new_health = self.hp.saturating_sub(strength);
        self.set_health(new_health);
    }

    /// Deals one blow to `enemy`.
    pub fn damage(&self, enemy: &mut Player)
        ensures
            *final(enemy) == old(enemy).hurt_by(self.strength()),
            final(enemy).health() == Self::health_after_blow(old(enemy).health(), self.strength()),
            final(enemy).name() == old(enemy).name(),
            final(enemy).strength() == old(enemy).strength(),
    {
        enemy.take_blow(self.attack);
    }

    /// Restores up to `amount` health points.
    pub fn heal(&mut self, amount: u8)
        ensures
            final(self).health() == Self::health_after_heal(old(self).health(), amount),
            final(self).name() == old(self).name(),
            final(self).strength() == old(self).strength(),
    {
        let mut new_health = self.hp.saturating_add(amount);
        if new_health > FULL_HEALTH {
            new_health = FULL_HEALTH;
        }
        self.hp = new_health;
    }
}

} // verus!
