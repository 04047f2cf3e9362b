//! Scripted opponents with fixed health and damage.
use crate::character::after_damage;
use vstd::prelude::*;

verus! {

pub struct Enemy {
    pub name: String,
    pub health: u32,
    /// Dealt by every attack of this enemy.
    pub damage: u32,
}

impl Enemy {
    pub fn new(name: &str, health: u32, damage: u32) -> (r: Enemy)
        ensures
            r.name@ == name@,
            r.health == health,
            r.damage == damage,
    {
        Enemy { name: name.to_owned(), health, damage }
    }

    /// Damage of one attack: always the enemy's fixed damage.
    pub fn attack(&self) -> (r: u32)
        ensures
            r == self.damage,
    {
        self.damage
    }

    /// Loses `damage` health, stopping at zero. Returns whether the enemy is
    /// now defeated, that is at zero health.
    pub fn take_damage(&mut self, damage: u32) -> (defeated: bool)
        ensures
            final(self).health == after_damage(old(self).health, damage),
            final(self).name == old(self).name,
            final(self).damage == old(self).damage,
            defeated == (final(self).health == 0),
    {
        if self.health > damage {
            self.health = self.health - damage;
            false
        } else {
            self.health = 0;
            true
        }
    }
}

} // verus!
