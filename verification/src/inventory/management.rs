//! The inventory: a list of items under a weight limit.

use crate::inventory::items::Item;
use crate::text::same_text;
use vstd::prelude::*;
use vstd::string::StringExecFns;

verus! {

/// The weight of all of `items` together.
pub open spec fn total_weight(items: Seq<Item>) -> int
    decreases items.len(),
{
    if items.len() == 0 {
        0
    } else {
        total_weight(items.drop_last()) + items.last().weight
    }
}

/// How many of `items` are called `name`.
pub open spec fn count_named(items: Seq<Item>, name: Seq<char>) -> nat
    decreases items.len(),
{
    if items.len() == 0 {
        0
    } else if items.last().name@ == name {
        count_named(items.drop_last(), name) + 1
    } else {
        count_named(items.drop_last(), name)
    }
}

/// The position of the last of `items` that is called `name`, if one is.
pub open spec fn last_named(items: Seq<Item>, name: Seq<char>) -> Option<int>
    decreases items.len(),
{
    if items.len() == 0 {
        None
    } else if items.last().name@ == name {
        Some(items.len() - 1)
    } else {
        last_named(items.drop_last(), name)
    }
}

/// `items` without the last one that is called `name`.
pub open spec fn without_last_named(items: Seq<Item>, name: Seq<char>) -> Seq<Item> {
    match last_named(items, name) {
        Some(at) => items.remove(at),
        None => items,
    }
}

/// Items behind which no item is called `name` do not matter to
/// `last_named`.
proof fn lemma_last_named_skips(items: Seq<Item>, name: Seq<char>, n: int)
    requires
        0 <= n <= items.len(),
        forall|i: int| n <= i < items.len() ==> (#[trigger] items[i]).name@ != name,
    ensures
        last_named(items, name) == last_named(items.take(n), name),
    decreases items.len() - n,
{
    if n < items.len() {
        assert(items[items.len() - 1].name@ != name);
        assert forall|i: int| n <= i < items.drop_last().len() implies (
        #[trigger] items.drop_last()[i]).name@ != name by {
            assert(items[i].name@ != name);
        }
        lemma_last_named_skips(items.drop_last(), name, n);
        assert(items.drop_last().take(n) =~= items.take(n));
    } else {
        assert(items.take(n) =~= items);
    }
}

/// The weight of a part of the items is at most the weight of all.
proof fn lemma_weight_of_prefix(items: Seq<Item>, n: int)
    requires
        0 <= n <= items.len(),
    ensures
        0 <= total_weight(items.take(n)) <= total_weight(items),
    decreases items.len() - n,
{
    if n == items.len() {
        assert(items.take(n) =~= items);
        lemma_weight_nonnegative(items);
    } else {
        lemma_weight_of_prefix(items, n + 1);
        assert(items.take(n + 1).drop_last() =~= items.take(n));
        lemma_weight_nonnegative(items.take(n));
    }
}

proof fn lemma_weight_nonnegative(items: Seq<Item>)
    ensures
        0 <= total_weight(items),
    decreases items.len(),
{
    if items.len() > 0 {
        lemma_weight_nonnegative(items.drop_last());
    }
}

/// A list of items and the weight it may hold.
#[derive(Debug)]
pub struct Inventory {
    items: Vec<Item>,
    max_capacity: u32,
}

impl Inventory {
    /// The items held, oldest first.
    pub closed spec fn items(&self) -> Seq<Item> {
        self.items@
    }

    /// The weight the inventory is meant to hold.
    pub closed spec fn capacity(&self) -> u32 {
        self.max_capacity
    }

    /// An empty inventory for the given weight.
    pub fn new(capacity: u32) -> (inventory: Self)
        ensures
            inventory.items() == Seq::<Item>::empty(),
            inventory.capacity() == capacity,
    {
        Self { items: Vec::new(), max_capacity: capacity }
    }

    /// The weight of everything held.
    pub fn current_weight(&self) -> (weight: u32)
        requires
            total_weight(self.items()) <= u32::MAX,
        ensures
            weight == total_weight(self.items()),
    {
        let mut current_weight: u32 = 0;
        let mut i: usize = 0;
        proof {
            assert(self.items@.take(0) =~= Seq::<Item>::empty());
        }
        while i < self.items.len()
            invariant
                i <= self.items.len(),
                total_weight(self.items@) <= u32::MAX,
                current_weight == total_weight(self.items@.take(i as int)),
            decreases self.items.len() - i,
        {
            proof {
                lemma_weight_of_prefix(self.items@, i + 1);
                assert(self.items@.take(i + 1).drop_last() =~= self.items@.take(i as int));
            }
            current_weight += self.items[i].weight;
            i += 1;
        }
        proof {
            assert(self.items@.take(i as int) =~= self.items@);
        }
        current_weight
    }

    /// Adds `item` at the end if the weight held is still below the
    /// capacity, however heavy the item is; refuses it otherwise.
    pub fn add_item(&mut self, item: Item) -> (done: Result<(), String>)
        requires
            total_weight(old(self).items()) <= old(self).capacity(),
        ensures
            final(self).capacity() == old(self).capacity(),
            total_weight(old(self).items()) < old(self).capacity() ==> {
                &&& done is Ok
                &&& final(self).items() == old(self).items().push(item)
            },
            total_weight(old(self).items()) == old(self).capacity() ==> {
                &&& done matches Err(message)
                &&& message@ == "Couldn't add more items, {capacity_left} units of weight left"@
                &&& final(self).items() == old(self).items()
            },
    {
        let capacity_left = self.max_capacity - self.current_weight();
        if capacity_left > 0 {
            self.items.push(item);
            return Ok(());
        }
        Err(String::from_str("Couldn't add more items, {capacity_left} units of weight left"))
    }

    /// Takes out the item called `item_name` that was added last, if there
    /// is one.
    pub fn remove_item(&mut self, item_name: &str) -> (removed: Option<Item>)
        ensures
            final(self).capacity() == old(self).capacity(),
            final(self).items() == without_last_named(old(self).items(), item_name@),
            removed == match last_named(old(self).items(), item_name@) {
                Some(at) => Some(old(self).items()[at]),
                None => None,
            },
    {
        let mut i: usize = self.items.len();
        while i > 0
            invariant
                i <= self.items.len(),
                self.items() == old(self).items(),
                self.capacity() == old(self).capacity(),
                forall|j: int| i <= j < self.items.len() ==> (#[trigger] self.items@[j]).name@
                    != item_name@,
            decreases i,
        {
            if same_text(self.items[i - 1].name.as_str(), item_name) {
                proof {
                    lemma_last_named_skips(self.items@, item_name@, i as int);
                    assert(self.items@.take(i as int).last() == self.items@[i - 1]);
                }
                let removed = self.items.remove(i - 1);
                return Some(removed);
            }
            i -= 1;
        }
        proof {
            lemma_last_named_skips(self.items@, item_name@, 0);
        }
        None
    }

    /// The number of items called `item_name`, or zero where that number
    /// does not fit in a `u32`.
    pub fn count_item(&self, item_name: &str) -> (count: u32)
        ensures
            count == if count_named(self.items(), item_name@) <= u32::MAX {
                count_named(self.items(), item_name@)
            } else {
                0
            },
    {
        let mut count: usize = 0;
        let mut i: usize = 0;
        proof {
            assert(self.items@.take(0) =~= Seq::<Item>::empty());
        }
        while i < self.items.len()
            invariant
                i <= self.items.len(),
                count <= i,
                count == count_named(self.items@.take(i as int), item_name@),
            decreases self.items.len() - i,
        {
            proof {
                assert(self.items@.take(i + 1).drop_last() =~= self.items@.take(i as int));
            }
            if same_text(self.items[i].name.as_str(), item_name) {
                count += 1;
            }
            i += 1;
        }
        proof {
            assert(self.items@.take(i as int) =~= self.items@);
        }
        match u32::try_from(count) {
            Ok(fitting) => fitting,
            Err(_) => 0,
        }
    }

    /// A read-only look at the items held.
    pub fn get_items(&self) -> (items: &Vec<Item>)
        ensures
            items@ == self.items(),
    {
        &self.items
    }
}

} // verus!
