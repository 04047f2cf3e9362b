//! Items a character carries, and the single effect each one has.
use vstd::prelude::*;

verus! {

/// How rare an item is. It does not take part in any rule.
#[derive(Clone, Copy, Debug, PartialEq, Eq, Structural)]
pub enum ItemRarity {
    Common,
    Rare,
    Epic,
}

#[derive(Clone, Copy, Debug, PartialEq, Eq, Structural)]
pub enum ItemType {
    HealthPotion,
    MagicPotion,
    DamageBoost,
}

/// What consuming an item does.
#[derive(Clone, Copy, Debug, PartialEq, Eq, Structural)]
pub enum ItemEffect {
    /// Restores this much health, up to the maximum.
    Heal(u32),
    /// Restores this many magic points, up to the maximum.
    RestoreMagicPoints(u32),
    /// Recognized, but consuming it changes no statistic.
    DamageIncrease(u32),
}

#[derive(Debug)]
pub struct Item {
    pub name: String,
    pub rarity: ItemRarity,
    pub item_type: ItemType,
    pub effect: ItemEffect,
}

/// Two items are the same item when name, type and effect agree; rarity is
/// not compared.
pub open spec fn same_item(a: Item, b: Item) -> bool {
    &&& a.name@ == b.name@
    &&& a.item_type == b.item_type
    &&& a.effect == b.effect
}

impl Item {
    pub fn new(name: &str, rarity: ItemRarity, item_type: ItemType, effect: ItemEffect) -> (r: Item)
        ensures
            r.name@ == name@,
            r.rarity == rarity,
            r.item_type == item_type,
            r.effect == effect,
    {
        Item { name: name.to_owned(), rarity, item_type, effect }
    }
}

impl PartialEq for Item {
    fn eq(&self, other: &Item) -> (r: bool)
        ensures
            r == same_item(*self, *other),
    {
        self.name == other.name && self.item_type == other.item_type && self.effect == other.effect
    }
}

impl vstd::std_specs::cmp::PartialEqSpecImpl for Item {
    open spec fn obeys_eq_spec() -> bool {
        true
    }

    open spec fn eq_spec(&self, other: &Item) -> bool {
        same_item(*self, *other)
    }
}

impl Clone for Item {
    fn clone(&self) -> (r: Item)
        ensures
            r.name@ == self.name@,
            r.rarity == self.rarity,
            r.item_type == self.item_type,
            r.effect == self.effect,
    {
        Item {
            name: self.name.clone(),
            rarity: self.rarity,
            item_type: self.item_type,
            effect: self.effect,
        }
    }
}

} // verus!
