use cache_manager::craft::{CraftingBench, CraftingRecipe};
use cache_manager::inventory::items::{
    ConsumableType, Item, ItemType, MaterialType, ToolType, WeaponType,
};
use cache_manager::inventory::management::Inventory;

fn wood() -> Item {
    Item::new(String::from("wood"), ItemType::Material(MaterialType::Wood))
}

fn stick() -> Item {
    Item::new(String::from("stick"), ItemType::Material(MaterialType::Stick))
}

fn axe() -> Item {
    Item::new(String::from("axe"), ItemType::Tool(ToolType::Axe))
}

fn names(inventory: &Inventory) -> Vec<&str> {
    inventory
        .get_items()
        .iter()
        .map(|item| item.name.as_str())
        .collect()
}

fn wooden_axe_bench() -> CraftingBench {
    let recipe = CraftingRecipe::new(
        String::from("wooden axe"),
        Item::new(String::from("wooden axe"), ItemType::Tool(ToolType::Axe)),
        vec![(wood(), 2), (stick(), 1)],
    );
    CraftingBench::new(vec![recipe])
}

#[test]
fn every_kind_has_its_weight() {
    let weights = [
        (ItemType::Tool(ToolType::Axe), 2),
        (ItemType::Tool(ToolType::Pickaxe), 1),
        (ItemType::Tool(ToolType::Shovel), 3),
        (ItemType::Material(MaterialType::Wood), 1),
        (ItemType::Material(MaterialType::Stone), 4),
        (ItemType::Material(MaterialType::IronOre), 5),
        (ItemType::Material(MaterialType::Stick), 2),
        (ItemType::Material(MaterialType::Log), 6),
        (ItemType::Consumable(ConsumableType::Berry), 1),
        (ItemType::Consumable(ConsumableType::CookedMeat), 1),
        (ItemType::Weapon(WeaponType::Sword), 5),
        (ItemType::Weapon(WeaponType::Bow), 4),
    ];
    for (category, weight) in weights {
        let item = Item::new(String::from("thing"), category);
        assert_eq!(item.weight, weight);
        assert_eq!(item.category, category);
        assert_eq!(item.name, "thing");
        assert_eq!(item.clone(), item);
    }
}

#[test]
fn items_are_added_while_weight_is_below_capacity() {
    let mut inventory = Inventory::new(3);
    assert_eq!(inventory.current_weight(), 0);
    assert_eq!(inventory.add_item(wood()), Ok(()));
    assert_eq!(inventory.add_item(axe()), Ok(()));
    assert_eq!(inventory.current_weight(), 3);
    assert_eq!(
        inventory.add_item(wood()),
        Err(String::from(
            "Couldn't add more items, {capacity_left} units of weight left"
        ))
    );
    assert_eq!(names(&inventory), vec!["wood", "axe"]);
}

#[test]
fn a_heavy_item_is_added_to_the_last_free_unit() {
    let mut inventory = Inventory::new(2);
    inventory.add_item(wood()).unwrap();
    let sword = Item::new(String::from("sword"), ItemType::Weapon(WeaponType::Sword));
    assert_eq!(inventory.add_item(sword), Ok(()));
    assert_eq!(inventory.current_weight(), 6);
}

#[test]
fn zero_capacity_takes_nothing() {
    let mut inventory = Inventory::new(0);
    assert!(inventory.add_item(wood()).is_err());
    assert!(inventory.get_items().is_empty());
}

#[test]
fn items_are_counted_by_name() {
    let mut inventory = Inventory::new(10);
    for item in [wood(), stick(), wood()] {
        inventory.add_item(item).unwrap();
    }
    assert_eq!(inventory.count_item("wood"), 2);
    assert_eq!(inventory.count_item("stick"), 1);
    assert_eq!(inventory.count_item("axe"), 0);
}

#[test]
fn the_item_added_last_is_removed() {
    let mut inventory = Inventory::new(10);
    let marked = Item {
        name: String::from("wood"),
        category: ItemType::Material(MaterialType::Log),
        weight: 6,
    };
    inventory.add_item(wood()).unwrap();
    inventory.add_item(stick()).unwrap();
    inventory.add_item(marked.clone()).unwrap();
    inventory.add_item(axe()).unwrap();
    assert_eq!(inventory.remove_item("wood"), Some(marked));
    assert_eq!(names(&inventory), vec!["wood", "stick", "axe"]);
    assert_eq!(inventory.remove_item("wood"), Some(wood()));
    assert_eq!(inventory.remove_item("wood"), None);
    assert_eq!(names(&inventory), vec!["stick", "axe"]);
}

#[test]
fn crafting_takes_the_inputs_and_adds_the_output() {
    let mut inventory = Inventory::new(10);
    for item in [wood(), wood(), axe(), stick()] {
        inventory.add_item(item).unwrap();
    }
    let crafted = wooden_axe_bench().craft(&mut inventory, "wooden axe");
    assert_eq!(
        crafted,
        Ok(Item::new(
            String::from("wooden axe"),
            ItemType::Tool(ToolType::Axe)
        ))
    );
    assert_eq!(names(&inventory), vec!["axe", "wooden axe"]);
}

#[test]
fn crafting_needs_the_exact_number_of_pieces() {
    let mut inventory = Inventory::new(10);
    for item in [wood(), wood(), wood(), stick()] {
        inventory.add_item(item).unwrap();
    }
    let crafted = wooden_axe_bench().craft(&mut inventory, "wooden axe");
    assert_eq!(
        crafted,
        Err(String::from("Needed 2 Material(\n    Wood,\n), got 3 Material(\n    Wood,\n)"))
    );
    assert_eq!(names(&inventory), vec!["wood", "wood", "wood", "stick"]);
}

#[test]
fn crafting_an_unknown_recipe_fails() {
    let mut inventory = Inventory::new(10);
    inventory.add_item(wood()).unwrap();
    assert_eq!(
        wooden_axe_bench().craft(&mut inventory, "stone axe"),
        Err(String::from("No recipe called {recipe_name}"))
    );
    assert_eq!(names(&inventory), vec!["wood"]);
}

#[test]
fn crafting_into_a_full_inventory_fails() {
    let mut inventory = Inventory::new(4);
    for item in [wood(), wood(), stick()] {
        inventory.add_item(item).unwrap();
    }
    assert_eq!(
        wooden_axe_bench().craft(&mut inventory, "wooden axe"),
        Err(String::from(
            "Inventory full, cannot add crafted item: Couldn't add more items, {capacity_left} units of weight left"
        ))
    );
    assert_eq!(names(&inventory), vec!["wood", "wood", "stick"]);
}

#[test]
fn the_first_recipe_of_a_name_is_used() {
    let first = CraftingRecipe::new(
        String::from("gift"),
        Item::new(String::from("berry"), ItemType::Consumable(ConsumableType::Berry)),
        vec![],
    );
    let second = CraftingRecipe::new(String::from("gift"), axe(), vec![]);
    let bench = CraftingBench::new(vec![first, second]);
    let mut inventory = Inventory::new(5);
    let crafted = bench.craft(&mut inventory, "gift").unwrap();
    assert_eq!(crafted.name, "berry");
    assert_eq!(names(&inventory), vec!["berry"]);
}
