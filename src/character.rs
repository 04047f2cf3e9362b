//! The player character: statistics, inventory, and what can be done to them.
use crate::dice::roll;
use crate::item::{same_item, Item, ItemEffect};
use rand::rngs::StdRng;
use vstd::prelude::*;

verus! {

/// Fixed at creation; sets the starting maxima and the attack range.
#[derive(Clone, Copy, Debug, PartialEq, Eq, Structural)]
pub enum CharacterClass {
    Warrior,
    Mage,
    Rogue,
}

pub const SPELL_COST: u32 = 10;
pub const SPELL_MIN_DAMAGE: u32 = 10;
pub const SPELL_MAX_DAMAGE: u32 = 20;
pub const LEVEL_UP_HEALTH: u32 = 20;
pub const LEVEL_UP_MAGIC: u32 = 10;
pub const EXPERIENCE_TO_LEVEL_UP: u32 = 100;

/// Starting maximum health of a class.
pub open spec fn base_max_health(class: CharacterClass) -> u32 {
    match class {
        CharacterClass::Warrior => 120,
        CharacterClass::Mage => 80,
        CharacterClass::Rogue => 100,
    }
}

/// Starting maximum magic points of a class.
pub open spec fn base_max_magic(class: CharacterClass) -> u32 {
    match class {
        CharacterClass::Warrior => 40,
        CharacterClass::Mage => 80,
        CharacterClass::Rogue => 60,
    }
}

/// Smallest damage an attack of this class deals.
pub open spec fn attack_min(class: CharacterClass) -> u32 {
    match class {
        CharacterClass::Warrior => 10,
        CharacterClass::Mage => 15,
        CharacterClass::Rogue => 12,
    }
}

/// Largest damage an attack of this class deals.
pub open spec fn attack_max(class: CharacterClass) -> u32 {
    match class {
        CharacterClass::Warrior => 20,
        CharacterClass::Mage => 25,
        CharacterClass::Rogue => 22,
    }
}

/// Health left after taking `damage`: `max(0, health - damage)`.
pub open spec fn after_damage(health: u32, damage: u32) -> u32 {
    if health > damage {
        (health - damage) as u32
    } else {
        0
    }
}

/// `current + amount`, capped at `max`.
pub open spec fn restored(current: u32, amount: u32, max: u32) -> u32 {
    if current + amount > max {
        max
    } else {
        (current + amount) as u32
    }
}

/// `items` without its first entry that is the same item as `it`; unchanged
/// when there is none.
pub open spec fn remove_first(items: Seq<Item>, it: Item) -> Seq<Item>
    decreases items.len(),
{
    if items.len() == 0 {
        items
    } else if same_item(items[0], it) {
        items.drop_first()
    } else {
        seq![items[0]] + remove_first(items.drop_first(), it)
    }
}

/// How many entries of `items` are the same item as `it`.
pub open spec fn count_matching(items: Seq<Item>, it: Item) -> nat
    decreases items.len(),
{
    if items.len() == 0 {
        0
    } else {
        (if same_item(items[0], it) { 1nat } else { 0nat }) + count_matching(items.drop_first(), it)
    }
}

pub struct Character {
    pub name: String,
    pub level: u32,
    pub health: u32,
    pub max_health: u32,
    pub magic_points: u32,
    pub max_magic_points: u32,
    pub experience_points: u32,
    pub experience_to_level_up: u32,
    pub class: CharacterClass,
    /// In the order the items were added, which is also the display order.
    pub inventory: Vec<Item>,
}

impl Character {
    /// Health and magic points never exceed their maxima.
    pub open spec fn wf(&self) -> bool {
        &&& self.health <= self.max_health
        &&& self.magic_points <= self.max_magic_points
    }

    /// Everything but health and magic points is as in `other`.
    pub open spec fn same_but_points(&self, other: Character) -> bool {
        &&& self.name@ == other.name@
        &&& self.level == other.level
        &&& self.max_health == other.max_health
        &&& self.max_magic_points == other.max_magic_points
        &&& self.experience_points == other.experience_points
        &&& self.experience_to_level_up == other.experience_to_level_up
        &&& self.class == other.class
    }

    pub fn new(name: &str, class: CharacterClass) -> (r: Character)
        ensures
            r.wf(),
            r.name@ == name@,
            r.level == 1,
            r.max_health == base_max_health(class),
            r.max_magic_points == base_max_magic(class),
            r.health == r.max_health,
            r.magic_points == r.max_magic_points,
            r.experience_points == 0,
            r.experience_to_level_up == EXPERIENCE_TO_LEVEL_UP,
            r.class == class,
            r.inventory@.len() == 0,
    {
        let (max_health, max_magic_points): (u32, u32) = match class {
            CharacterClass::Warrior => (120, 40),
            CharacterClass::Mage => (80, 80),
            CharacterClass::Rogue => (100, 60),
        };
        Character {
            name: name.to_owned(),
            level: 1,
            health: max_health,
            max_health,
            magic_points: max_magic_points,
            max_magic_points,
            experience_points: 0,
            experience_to_level_up: EXPERIENCE_TO_LEVEL_UP,
            class,
            inventory: Vec::new(),
        }
    }

    /// Casts a spell when at least `SPELL_COST` magic points are left: pays
    /// them and returns the spell's damage. Otherwise changes nothing and
    /// returns `None`.
    pub fn cast_spell(&mut self, rng: &mut StdRng) -> (r: Option<u32>)
        ensures
            old(self).magic_points >= SPELL_COST ==> {
                &&& r is Some
                &&& SPELL_MIN_DAMAGE <= r->0 <= SPELL_MAX_DAMAGE
                &&& final(self).magic_points == old(self).magic_points - SPELL_COST
            },
            old(self).magic_points < SPELL_COST ==> {
                &&& r is None
                &&& final(self).magic_points == old(self).magic_points
            },
            final(self).health == old(self).health,
            final(self).same_but_points(*old(self)),
            final(self).inventory@ == old(self).inventory@,
    {
        if self.magic_points >= SPELL_COST {
            let damage = roll(rng, SPELL_MIN_DAMAGE, SPELL_MAX_DAMAGE);
            self.magic_points = self.magic_points - SPELL_COST;
            Some(damage)
        } else {
            None
        }
    }

    /// Damage of one attack, drawn from the class's range.
    pub fn attack(&self, rng: &mut StdRng) -> (r: u32)
        ensures
            attack_min(self.class) <= r <= attack_max(self.class),
    {
        match self.class {
            CharacterClass::Warrior => roll(rng, 10, 20),
            CharacterClass::Mage => roll(rng, 15, 25),
            CharacterClass::Rogue => roll(rng, 12, 22),
        }
    }

    /// Loses `damage` health, stopping at zero. Returns whether the character
    /// is now defeated, that is at zero health.
    pub fn take_damage(&mut self, damage: u32) -> (defeated: bool)
        ensures
            final(self).health == after_damage(old(self).health, damage),
            defeated == (final(self).health == 0),
            final(self).magic_points == old(self).magic_points,
            final(self).same_but_points(*old(self)),
            final(self).inventory@ == old(self).inventory@,
            old(self).wf() ==> final(self).wf(),
    {
        if self.health > damage {
            self.health = self.health - damage;
            false
        } else {
            self.health = 0;
            true
        }
    }

    /// Applies the effect of `item`, then takes the first matching entry out
    /// of the inventory, keeping the others in order.
    pub fn use_item(&mut self, item: &Item)
        requires
            old(self).wf(),
        ensures
            final(self).wf(),
            final(self).health == match item.effect {
                ItemEffect::Heal(h) => restored(old(self).health, h, old(self).max_health),
                _ => old(self).health,
            },
            final(self).magic_points == match item.effect {
                ItemEffect::RestoreMagicPoints(m) => restored(
                    old(self).magic_points,
                    m,
                    old(self).max_magic_points,
                ),
                _ => old(self).magic_points,
            },
            final(self).same_but_points(*old(self)),
            final(self).inventory@ == remove_first(old(self).inventory@, *item),
    {
        match item.effect {
            ItemEffect::Heal(h) => {
                self.health = restore(self.health, h, self.max_health);
            },
            ItemEffect::RestoreMagicPoints(m) => {
                self.magic_points = restore(self.magic_points, m, self.max_magic_points);
            },
            ItemEffect::DamageIncrease(_) => {},
        }
        let ghost before = self.inventory@;
        let mut i: usize = 0;
        let mut found = false;
        while !found && i < self.inventory.len()
            invariant
                self.inventory@ == before,
                i <= before.len(),
                forall|j: int| 0 <= j < i ==> !same_item(#[trigger] before[j], *item),
                found ==> i < before.len() && same_item(before[i as int], *item),
            decreases before.len() - i, if found { 0int } else { 1int },
        {
            if self.inventory[i] == *item {
                found = true;
            } else {
                i = i + 1;
            }
        }
        proof {
            lemma_remove_first_at(before, *item, i as int);
        }
        if i < self.inventory.len() {
            self.inventory.remove(i);
        }
    }

    /// Gains a level: both maxima grow by fixed amounts, and health and magic
    /// points are refilled to the new maxima.
    pub fn level_up(&mut self)
        requires
            old(self).level < u32::MAX,
            old(self).max_health <= u32::MAX - LEVEL_UP_HEALTH,
            old(self).max_magic_points <= u32::MAX - LEVEL_UP_MAGIC,
        ensures
            final(self).wf(),
            final(self).level == old(self).level + 1,
            final(self).max_health == old(self).max_health + LEVEL_UP_HEALTH,
            final(self).max_magic_points == old(self).max_magic_points + LEVEL_UP_MAGIC,
            final(self).health == final(self).max_health,
            final(self).magic_points == final(self).max_magic_points,
            final(self).name@ == old(self).name@,
            final(self).experience_points == old(self).experience_points,
            final(self).experience_to_level_up == old(self).experience_to_level_up,
            final(self).class == old(self).class,
            final(self).inventory@ == old(self).inventory@,
    {
        self.level = self.level + 1;
        self.max_health = self.max_health + LEVEL_UP_HEALTH;
        self.max_magic_points = self.max_magic_points + LEVEL_UP_MAGIC;
        self.health = self.max_health;
        self.magic_points = self.max_magic_points;
    }
}

/// `current + amount`, capped at `max`, without overflow.
fn restore(current: u32, amount: u32, max: u32) -> (r: u32)
    requires
        current <= max,
    ensures
        r == restored(current, amount, max),
        r <= max,
{
    if amount >= max - current {
        max
    } else {
        current + amount
    }
}

/// Where no entry before `i` matches and `i` is the first match (or the end),
/// removing the first match removes index `i` (or nothing).
proof fn lemma_remove_first_at(items: Seq<Item>, it: Item, i: int)
    requires
        0 <= i <= items.len(),
        forall|j: int| 0 <= j < i ==> !same_item(#[trigger] items[j], it),
        i < items.len() ==> same_item(items[i], it),
    ensures
        i < items.len() ==> remove_first(items, it) == items.remove(i),
        i == items.len() ==> remove_first(items, it) == items,
    decreases i,
{
    if i > 0 {
        let rest = items.drop_first();
        assert forall|j: int| 0 <= j < i - 1 implies !same_item(#[trigger] rest[j], it) by {
            assert(rest[j] == items[j + 1]);
        }
        lemma_remove_first_at(rest, it, i - 1);
        assert(!same_item(items[0], it));
        if i < items.len() {
            assert(seq![items[0]] + rest.remove(i - 1) =~= items.remove(i));
        } else {
            assert(seq![items[0]] + rest =~= items);
        }
    }
}

/// Using an item takes out exactly one entry matching it when the inventory
/// holds one: the number of matching entries and the length both drop by one.
/// When it holds none, the inventory stays as it was.
pub proof fn lemma_remove_first_count(items: Seq<Item>, it: Item)
    ensures
        count_matching(items, it) > 0 ==> {
            &&& count_matching(remove_first(items, it), it) + 1 == count_matching(items, it)
            &&& remove_first(items, it).len() + 1 == items.len()
        },
        count_matching(items, it) == 0 ==> remove_first(items, it) == items,
    decreases items.len(),
{
    if items.len() > 0 {
        let rest = items.drop_first();
        lemma_remove_first_count(rest, it);
        if !same_item(items[0], it) {
            let r = seq![items[0]] + remove_first(rest, it);
            assert(r[0] == items[0]);
            assert(r.drop_first() =~= remove_first(rest, it));
            if count_matching(items, it) == 0 {
                assert(r =~= items);
            }
        }
    }
}

} // verus!
