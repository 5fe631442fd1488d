//! The kinds of item and the item itself.

use vstd::prelude::*;

verus! {

#[derive(Debug, PartialEq, Eq, Hash, Clone, Copy, Structural)]
pub enum ToolType {
    Axe,
    Pickaxe,
    Shovel,
}

#[derive(Debug, PartialEq, Eq, Hash, Clone, Copy, Structural)]
pub enum MaterialType {
    Wood,
    Stone,
    IronOre,
    Stick,
    Log,
}

#[derive(Debug, PartialEq, Eq, Hash, Clone, Copy, Structural)]
pub enum ConsumableType {
    Berry,
    CookedMeat,
}

#[derive(Debug, PartialEq, Eq, Hash, Clone, Copy, Structural)]
pub enum WeaponType {
    Sword,
    Bow,
}

#[derive(Debug, PartialEq, Eq, Hash, Clone, Copy, Structural)]
pub enum ItemType {
    Tool(ToolType),
    Material(MaterialType),
    Consumable(ConsumableType),
    Weapon(WeaponType),
}

/// What an item of the given kind weighs.
pub open spec fn weight_of(category: ItemType) -> u32 {
    match category {
        ItemType::Tool(ToolType::Axe) => 2,
        ItemType::Tool(ToolType::Pickaxe) => 1,
        ItemType::Tool(ToolType::Shovel) => 3,
        ItemType::Material(MaterialType::Wood) => 1,
        ItemType::Material(MaterialType::Stone) => 4,
        ItemType::Material(MaterialType::IronOre) => 5,
        ItemType::Material(MaterialType::Stick) => 2,
        ItemType::Material(MaterialType::Log) => 6,
        ItemType::Consumable(_) => 1,
        ItemType::Weapon(WeaponType::Sword) => 5,
        ItemType::Weapon(WeaponType::Bow) => 4,
    }
}

/// A named thing of some kind, with its weight.
#[derive(Debug, PartialEq, Eq, Hash)]
pub struct Item {
    pub name: String,
    pub category: ItemType,
    pub weight: u32,
}

impl Clone for Item {
    fn clone(&self) -> (copy: Self)
        ensures
            copy == *self,
    {
        Item { name: self.name.clone(), category: self.category, weight: self.weight }
    }
}

impl Item {
    /// An item of the given kind, with the weight of its kind.
    pub fn new(name: String, category: ItemType) -> (item: Self)
        ensures
            item.name == name,
            item.category == category,
            item.weight == weight_of(category),
    {
        Self {
            name,
            weight: match &category {
                ItemType::Tool(tool_type) => match tool_type {
                    ToolType::Axe => 2,
                    ToolType::Pickaxe => 1,
                    ToolType::Shovel => 3,
                },
                ItemType::Material(material_type) => match material_type {
                    MaterialType::Wood => 1,
                    MaterialType::Stone => 4,
                    MaterialType::IronOre => 5,
                    MaterialType::Stick => 2,
                    MaterialType::Log => 6,
                },
                ItemType::Consumable(consumable_type) => match consumable_type {
                    ConsumableType::Berry | ConsumableType::CookedMeat => 1,
                },
                ItemType::Weapon(weapon_type) => match weapon_type {
                    WeaponType::Sword => 5,
                    WeaponType::Bow => 4,
                },
            },
            category,
        }
    }
}

/// The text that `format!` with `{:#?}` writes for `category`: its `Debug`
/// form, spread over lines.
pub uninterp spec fn pretty_kind(category: ItemType) -> Seq<char>;

/// `format!` with `{:#?}` on a kind of item: the text of its `Debug` form,
/// spread over lines.
#[verifier::external_body]
pub(crate) fn kind_text(category: &ItemType) -> (text: String)
    ensures
        text@ == pretty_kind(*category),
{
    format!("{category:#?}")
}

} // verus!
