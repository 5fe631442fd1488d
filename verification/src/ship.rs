//! A ship with a hull, shields, fuel and a small cargo hold.

use vstd::prelude::*;

verus! {

pub const MAX_HULL: u32 = 100;

pub const MAX_SHIELDS: u32 = 50;

pub const MAX_FUEL: u32 = 200;

pub const MAX_CARGO_CAPACITY: usize = 5;

#[derive(Debug)]
pub struct Ship {
    pub name: String,
    pub hull_strength: u32,
    pub shields: u32,
    pub fuel: u32,
    pub cargo: Vec<String>,
}

/// `value` less `amount`, but not below zero.
pub open spec fn reduced(value: u32, amount: u32) -> u32 {
    if value >= amount {
        (value - amount) as u32
    } else {
        0
    }
}

impl Ship {
    /// A ship in full repair, fully fuelled and with an empty hold.
    pub fn new(name: String) -> (ship: Self)
        ensures
            ship.name == name,
            ship.hull_strength == MAX_HULL,
            ship.shields == MAX_SHIELDS,
            ship.fuel == MAX_FUEL,
            ship.cargo@ == Seq::<String>::empty(),
    {
        Self {
            name,
            hull_strength: MAX_HULL,
            shields: MAX_SHIELDS,
            fuel: MAX_FUEL,
            cargo: Vec::with_capacity(MAX_CARGO_CAPACITY),
        }
    }

    /// Takes a hit: the shields take all of it while there are any, the hull
    /// takes it once they are gone.  Tells whether the hull is destroyed.
    pub fn take_damage(&mut self, amount: u32) -> (destroyed: bool)
        ensures
            old(self).shields > 0 ==> {
                &&& final(self).shields == reduced(old(self).shields, amount)
                &&& final(self).hull_strength == old(self).hull_strength
            },
            old(self).shields == 0 ==> {
                &&& final(self).shields == 0
                &&& final(self).hull_strength == reduced(old(self).hull_strength, amount)
            },
            destroyed == (final(self).hull_strength == 0),
            final(self).name == old(self).name,
            final(self).fuel == old(self).fuel,
            final(self).cargo == old(self).cargo,
    {
        if self.shields > 0 {
            self.shields = self.shields.saturating_sub(amount);
        } else {
            self.hull_strength = self.hull_strength.saturating_sub(amount);
        }
        self.hull_strength == 0
    }

    /// Takes on fuel, up to a full tank.  A tank that holds more than a full
    /// one already is brought down to a full one.
    pub fn refuel(&mut self, amount: u32)
        ensures
            final(self).fuel == if old(self).fuel + amount > MAX_FUEL {
                MAX_FUEL
            } else {
                (old(self).fuel + amount) as u32
            },
            final(self).name == old(self).name,
            final(self).hull_strength == old(self).hull_strength,
            final(self).shields == old(self).shields,
            final(self).cargo == old(self).cargo,
    {
        let amount_to_refuel = self.fuel.saturating_add(amount);
        if amount_to_refuel > MAX_FUEL {
            self.fuel = MAX_FUEL;
        } else {
            self.fuel = amount_to_refuel;
        }
    }

    /// Loads `item` if the hold has room for it, and tells whether it did.
    pub fn load_cargo(&mut self, item: String) -> (loaded: bool)
        ensures
            loaded == (old(self).cargo@.len() < MAX_CARGO_CAPACITY),
            loaded ==> final(self).cargo@ == old(self).cargo@.push(item),
            !loaded ==> final(self).cargo@ == old(self).cargo@,
            final(self).name == old(self).name,
            final(self).hull_strength == old(self).hull_strength,
            final(self).shields == old(self).shields,
            final(self).fuel == old(self).fuel,
    {
        if self.cargo.len() < MAX_CARGO_CAPACITY {
            self.cargo.push(item);
            return true;
        }
        false
    }

    /// Gives up the ship for its cargo.
    pub fn jettison_all_cargo(self) -> (load: Vec<String>)
        ensures
            load == self.cargo,
    {
        self.cargo
    }
}

} // verus!
