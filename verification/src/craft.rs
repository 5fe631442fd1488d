//! Recipes, and a bench that crafts them from what an inventory holds.

use crate::inventory::items::{kind_text, pretty_kind, Item, ItemType};
use crate::inventory::management::{
    count_named, total_weight, without_last_named, Inventory,
};
use crate::text::{decimal, same_text, u32_text};
use vstd::prelude::*;
use vstd::string::StringExecFns;

verus! {

/// What is needed to craft an item.
pub struct CraftingRecipe {
    pub name: String,
    pub output: Item,
    /// The items needed, each with the number of pieces.
    pub inputs: Vec<(Item, u32)>,
}

impl CraftingRecipe {
    pub fn new(name: String, output: Item, inputs: Vec<(Item, u32)>) -> (recipe: Self)
        ensures
            recipe.name == name,
            recipe.output == output,
            recipe.inputs == inputs,
    {
        Self { name, output, inputs }
    }
}

/// The first of `recipes` that is called `name`, if one is.
pub open spec fn recipe_named(recipes: Seq<CraftingRecipe>, name: Seq<char>) -> Option<
    CraftingRecipe,
>
    decreases recipes.len(),
{
    if recipes.len() == 0 {
        None
    } else if recipes[0].name@ == name {
        Some(recipes[0])
    } else {
        recipe_named(recipes.drop_first(), name)
    }
}

/// What `Inventory::count_item` reports for `name`.
pub open spec fn counted(items: Seq<Item>, name: Seq<char>) -> u32 {
    if count_named(items, name) <= u32::MAX {
        count_named(items, name) as u32
    } else {
        0
    }
}

/// `items` hold exactly the number of pieces that each of `inputs` asks for.
pub open spec fn inputs_met(items: Seq<Item>, inputs: Seq<(Item, u32)>) -> bool {
    forall|k: int|
        0 <= k < inputs.len() ==> counted(items, (#[trigger] inputs[k]).0.name@) == inputs[k].1
}

/// `items` after `pieces` times taking out the last item called `name`.
pub open spec fn without_last_n(items: Seq<Item>, name: Seq<char>, pieces: nat) -> Seq<Item>
    decreases pieces,
{
    if pieces == 0 {
        items
    } else {
        without_last_named(without_last_n(items, name, (pieces - 1) as nat), name)
    }
}

/// `items` after the pieces of every one of `inputs` were taken out, the
/// inputs in order.
pub open spec fn after_inputs(items: Seq<Item>, inputs: Seq<(Item, u32)>) -> Seq<Item>
    decreases inputs.len(),
{
    if inputs.len() == 0 {
        items
    } else {
        without_last_n(
            after_inputs(items, inputs.drop_last()),
            inputs.last().0.name@,
            inputs.last().1 as nat,
        )
    }
}

/// The message for an input of which the inventory holds another number of
/// pieces than needed: both numbers, each followed by the input's kind.
fn shortage_message(needed: u32, held: u32, category: &ItemType) -> (message: String)
    ensures
        message@ == shortage_text(needed, held, *category),
{
    let kind = kind_text(category);
    String::from_str("Needed ").concat(u32_text(needed).as_str()).concat(" ").concat(
        kind.as_str(),
    ).concat(", got ").concat(u32_text(held).as_str()).concat(" ").concat(kind.as_str())
}

/// The text that tells that `needed` pieces of a kind are asked for and
/// `held` pieces are there.
pub open spec fn shortage_text(needed: u32, held: u32, category: ItemType) -> Seq<char> {
    "Needed "@ + decimal(needed as nat) + " "@ + pretty_kind(category) + ", got "@ + decimal(
        held as nat,
    ) + " "@ + pretty_kind(category)
}

/// `at` is the place of the first of `inputs` of which `items` do not hold
/// exactly the pieces asked for.
pub open spec fn first_unmet(items: Seq<Item>, inputs: Seq<(Item, u32)>, at: int) -> bool {
    &&& 0 <= at < inputs.len()
    &&& counted(items, inputs[at].0.name@) != inputs[at].1
    &&& forall|k: int|
        0 <= k < at ==> counted(items, (#[trigger] inputs[k]).0.name@) == inputs[k].1
}

/// The text that tells that the inventory refused a crafted item for the
/// reason `cause`.
pub open spec fn full_text(cause: Seq<char>) -> Seq<char> {
    "Inventory full, cannot add crafted item: "@ + cause
}

/// The message for a crafted item that the inventory refused.
fn full_message(cause: &str) -> (message: String)
    ensures
        message@ == full_text(cause@),
{
    String::from_str("Inventory full, cannot add crafted item: ").concat(cause)
}

/// A bench that knows some recipes.
pub struct CraftingBench {
    recipes: Vec<CraftingRecipe>,
}

impl CraftingBench {
    /// The recipes, in the order in which they are looked through.
    pub closed spec fn recipes(&self) -> Seq<CraftingRecipe> {
        self.recipes@
    }

    pub fn new(recipes: Vec<CraftingRecipe>) -> (bench: Self)
        ensures
            bench.recipes() == recipes@,
    {
        Self { recipes }
    }

    /// The first recipe called `recipe_name`.
    fn find(&self, recipe_name: &str) -> (found: Option<&CraftingRecipe>)
        ensures
            match found {
                Some(recipe) => recipe_named(self.recipes(), recipe_name@) == Some(*recipe),
                None => recipe_named(self.recipes(), recipe_name@) is None,
            },
    {
        let mut i: usize = 0;
        proof {
            assert(self.recipes@.skip(0) =~= self.recipes@);
        }
        while i < self.recipes.len()
            invariant
                i <= self.recipes.len(),
                recipe_named(self.recipes@, recipe_name@) == recipe_named(
                    self.recipes@.skip(i as int),
                    recipe_name@,
                ),
            decreases self.recipes.len() - i,
        {
            proof {
                assert(self.recipes@.skip(i as int).drop_first() =~= self.recipes@.skip(i + 1));
                assert(self.recipes@.skip(i as int)[0] == self.recipes@[i as int]);
            }
            if same_text(self.recipes[i].name.as_str(), recipe_name) {
                return Some(&self.recipes[i]);
            }
            i += 1;
        }
        None
    }

    /// Crafts the recipe called `recipe_name` from what `inventory` holds.
    ///
    /// The inventory has to hold exactly the pieces the recipe asks for, and
    /// to accept the crafted item.  Then the item is added, the pieces are
    /// taken out, and a copy of the item is returned.  In every other case
    /// the inventory stays as it was.
    pub fn craft(&self, inventory: &mut Inventory, recipe_name: &str) -> (crafted: Result<
        Item,
        String,
    >)
        requires
            total_weight(old(inventory).items()) <= old(inventory).capacity(),
        ensures
            final(inventory).capacity() == old(inventory).capacity(),
            match recipe_named(self.recipes(), recipe_name@) {
                None => {
                    &&& crafted matches Err(message)
                    &&& message@ == "No recipe called {recipe_name}"@
                    &&& final(inventory).items() == old(inventory).items()
                },
                Some(recipe) => if !inputs_met(old(inventory).items(), recipe.inputs@) {
                    &&& crafted matches Err(message)
                    &&& exists|at: int|
                        {
                            &&& #[trigger] first_unmet(old(inventory).items(), recipe.inputs@, at)
                            &&& message@ == shortage_text(
                                recipe.inputs@[at].1,
                                counted(old(inventory).items(), recipe.inputs@[at].0.name@),
                                recipe.inputs@[at].0.category,
                            )
                        }
                    &&& final(inventory).items() == old(inventory).items()
                } else if total_weight(old(inventory).items()) == old(inventory).capacity() {
                    &&& crafted matches Err(message)
                    &&& message@ == full_text(
                        "Couldn't add more items, {capacity_left} units of weight left"@,
                    )
                    &&& final(inventory).items() == old(inventory).items()
                } else {
                    &&& crafted == Ok::<Item, String>(recipe.output)
                    &&& final(inventory).items() == after_inputs(
                        old(inventory).items().push(recipe.output),
                        recipe.inputs@,
                    )
                },
            },
    {
        if let Some(recipe) = self.find(recipe_name) {
            let mut k: usize = 0;
            while k < recipe.inputs.len()
                invariant
                    k <= recipe.inputs.len(),
                    *inventory == *old(inventory),
                    recipe_named(self.recipes(), recipe_name@) == Some(*recipe),
                    forall|j: int|
                        0 <= j < k ==> counted(
                            inventory.items(),
                            (#[trigger] recipe.inputs@[j]).0.name@,
                        ) == recipe.inputs@[j].1,
                decreases recipe.inputs.len() - k,
            {
                let inventory_has = inventory.count_item(recipe.inputs[k].0.name.as_str());
                if inventory_has != recipe.inputs[k].1 {
                    proof {
                        let lacking = recipe.inputs@[k as int];
                        assert(counted(inventory.items(), lacking.0.name@) != lacking.1);
                        assert(first_unmet(old(inventory).items(), recipe.inputs@, k as int));
                    }
                    return Err(
                        shortage_message(
                            recipe.inputs[k].1,
                            inventory_has,
                            &recipe.inputs[k].0.category,
                        ),
                    );
                }
                k += 1;
            }
            match inventory.add_item(recipe.output.clone()) {
                Ok(()) => {
                    let ghost added = inventory.items();
                    let mut k: usize = 0;
                    proof {
                        assert(recipe.inputs@.take(0) =~= Seq::<(Item, u32)>::empty());
                    }
                    while k < recipe.inputs.len()
                        invariant
                            k <= recipe.inputs.len(),
                            inventory.capacity() == old(inventory).capacity(),
                            inventory.items() == after_inputs(added, recipe.inputs@.take(k as int)),
                        decreases recipe.inputs.len() - k,
                    {
                        let ghost before = inventory.items();
                        let pieces: u32 = recipe.inputs[k].1;
                        let mut taken: u32 = 0;
                        while taken < pieces
                            invariant
                                taken <= pieces,
                                k < recipe.inputs.len(),
                                inventory.capacity() == old(inventory).capacity(),
                                inventory.items() == without_last_n(
                                    before,
                                    recipe.inputs@[k as int].0.name@,
                                    taken as nat,
                                ),
                            decreases pieces - taken,
                        {
                            inventory.remove_item(recipe.inputs[k].0.name.as_str());
                            taken += 1;
                        }
                        proof {
                            assert(recipe.inputs@.take(k + 1).drop_last() =~= recipe.inputs@.take(
                                k as int,
                            ));
                            assert(recipe.inputs@.take(k + 1).last() == recipe.inputs@[k as int]);
                        }
                        k += 1;
                    }
                    proof {
                        assert(recipe.inputs@.take(k as int) =~= recipe.inputs@);
                    }
                    Ok(recipe.output.clone())
                },
                Err(e) => Err(full_message(e.as_str())),
            }
        } else {
            Err(String::from_str("No recipe called {recipe_name}"))
        }
    }
}

} // verus!
