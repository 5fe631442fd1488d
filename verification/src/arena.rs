//! An arena: its fighters, and the duels that were announced among them.

use crate::player::Player;
use vstd::prelude::*;

verus! {

/// Why an event was not accepted.
#[derive(Debug, PartialEq, Eq, Clone, Copy, Structural)]
pub enum ArenaErr {
    /// Both sides of a duel are the same fighter.
    SameFighterErr,
}

/// Something that happens in the arena.  Fighters are named by their
/// position among the arena's fighters.
#[derive(Debug, PartialEq, Eq, Clone, Copy, Structural)]
pub enum Event {
    /// The first fighter deals one blow to the second.
    Duel(usize, usize),
}

/// What can be carried out among a group of fighters.
pub trait Perform {
    /// Every fighter that `self` names is among `fighters`.
    spec fn ready(&self, fighters: Seq<Player>) -> bool;

    /// The fighters after `self` has been carried out among `fighters`.
    spec fn outcome(&self, fighters: Seq<Player>) -> Seq<Player>;

    /// Carries `self` out.  A failure leaves the fighters as they were.
    fn perform(&self, fighters: &mut Vec<Player>) -> (done: Result<(), ArenaErr>)
        requires
            self.ready(old(fighters)@),
        ensures
            done is Ok ==> final(fighters)@ == self.outcome(old(fighters)@),
            done is Err ==> final(fighters)@ == old(fighters)@,
    ;
}

impl Perform for Event {
    open spec fn ready(&self, fighters: Seq<Player>) -> bool {
        match *self {
            Event::Duel(attacker, defender) => attacker < fighters.len() && defender
                < fighters.len(),
        }
    }

    open spec fn outcome(&self, fighters: Seq<Player>) -> Seq<Player> {
        match *self {
            Event::Duel(attacker, defender) => fighters.update(
                defender as int,
                fighters[defender as int].hurt_by(fighters[attacker as int].strength()),
            ),
        }
    }

    fn perform(&self, fighters: &mut Vec<Player>) -> (done: Result<(), ArenaErr>)
        ensures
            done is Ok,
    {
        match *self {
            Event::Duel(attacker, defender) => {
                let strength = fighters[attacker].get_attack();
                fighters[defender].take_blow(strength);
            },
        }
        Ok(())
    }
}

/// `at` is the first position in `fighters` of a fighter equal to `who`.
pub open spec fn first_like(fighters: Seq<Player>, who: Player, at: int) -> bool {
    &&& 0 <= at < fighters.len()
    &&& fighters[at].like(&who)
    &&& forall|i: int| 0 <= i < at ==> !(#[trigger] fighters[i]).like(&who)
}

/// Some fighter in `fighters` is equal to `who`.
pub open spec fn enlisted(fighters: Seq<Player>, who: Player) -> bool {
    exists|i: int| 0 <= i < fighters.len() && (#[trigger] fighters[i]).like(&who)
}

/// `fighters`, with `who` added at the end unless an equal fighter is there.
pub open spec fn enlist(fighters: Seq<Player>, who: Player) -> Seq<Player> {
    if enlisted(fighters, who) {
        fighters
    } else {
        fighters.push(who)
    }
}

/// The fighters after `events` have been carried out in order.
pub open spec fn after_all(fighters: Seq<Player>, events: Seq<Event>) -> Seq<Player>
    decreases events.len(),
{
    if events.len() == 0 {
        fighters
    } else {
        events.last().outcome(after_all(fighters, events.drop_last()))
    }
}

/// The first position of a fighter equal to `who`, if there is one.
fn position(fighters: &Vec<Player>, who: &Player) -> (found: Option<usize>)
    ensures
        match found {
            Some(at) => first_like(fighters@, *who, at as int),
            None => !enlisted(fighters@, *who),
        },
{
    let mut i: usize = 0;
    while i < fighters.len()
        invariant
            i <= fighters.len(),
            forall|j: int| 0 <= j < i ==> !(#[trigger] fighters@[j]).like(who),
        decreases fighters.len() - i,
    {
        if fighters[i].same_as(who) {
            return Some(i);
        }
        i += 1;
    }
    None
}

/// The fighters of an arena and the events announced in it.
pub struct Arena {
    events: Vec<Event>,
    fighters: Vec<Player>,
}

impl Arena {
    /// The fighters, in the order in which they joined.
    pub closed spec fn fighters(&self) -> Seq<Player> {
        self.fighters@
    }

    /// The events, in the order in which they were announced.
    pub closed spec fn events(&self) -> Seq<Event> {
        self.events@
    }

    /// Every announced event names fighters of this arena.
    pub open spec fn wf(&self) -> bool {
        forall|i: int| 0 <= i < self.events().len() ==> (#[trigger] self.events()[i]).ready(
            self.fighters(),
        )
    }

    /// An arena without fighters and events.
    pub fn new() -> (arena: Self)
        ensures
            arena.fighters() == Seq::<Player>::empty(),
            arena.events() == Seq::<Event>::empty(),
            arena.wf(),
    {
        Self { events: Vec::new(), fighters: Vec::new() }
    }

    pub fn get_fighters(&self) -> (fighters: &Vec<Player>)
        ensures
            fighters@ == self.fighters(),
    {
        &self.fighters
    }

    pub fn get_events(&self) -> (events: &Vec<Event>)
        ensures
            events@ == self.events(),
    {
        &self.events
    }

    /// Adds `fighter` at the end, whether an equal fighter is there or not.
    pub fn add_fighter(&mut self, fighter: Player)
        ensures
            final(self).fighters() == old(self).fighters().push(fighter),
            final(self).events() == old(self).events(),
            old(self).wf() ==> final(self).wf(),
    {
        self.fighters.push(fighter);
    }

    /// The position of a fighter equal to `who`, who joins at the end if no
    /// such fighter is there.
    fn enlist(&mut self, who: Player) -> (at: usize)
        ensures
            final(self).fighters() == enlist(old(self).fighters(), who),
            final(self).events() == old(self).events(),
            first_like(final(self).fighters(), who, at as int),
    {
        match position(&self.fighters, &who) {
            Some(at) => at,
            None => {
                let at = self.fighters.len();
                self.add_fighter(who);
                at
            },
        }
    }

    /// Announces a duel between `first` and `second`.  Two equal fighters
    /// cannot duel.  A fighter who is not in the arena yet joins it.
    pub fn add_event(&mut self, first: Player, second: Player) -> (done: Result<(), ArenaErr>)
        ensures
            first.like(&second) ==> {
                &&& done == Err::<(), ArenaErr>(ArenaErr::SameFighterErr)
                &&& final(self).fighters() == old(self).fighters()
                &&& final(self).events() == old(self).events()
            },
            !first.like(&second) ==> {
                &&& done is Ok
                &&& final(self).fighters() == enlist(enlist(old(self).fighters(), first), second)
                &&& final(self).events().len() == old(self).events().len() + 1
                &&& final(self).events().drop_last() == old(self).events()
                &&& final(self).events().last() matches Event::Duel(attacker, defender)
                &&& first_like(final(self).fighters(), first, attacker as int)
                &&& first_like(final(self).fighters(), second, defender as int)
            },
            old(self).wf() ==> final(self).wf(),
    {
        if first.same_as(&second) {
            return Err(ArenaErr::SameFighterErr);
        }
        let attacker = self.enlist(first);
        let defender = self.enlist(second);
        self.events.push(Event::Duel(attacker, defender));
        proof {
            assert(final(self).events().drop_last() =~= old(self).events());
        }
        Ok(())
    }

    /// Carries out every announced event, in order.  The events stay.
    pub fn handle_events(&mut self)
        requires
            old(self).wf(),
        ensures
            final(self).events() == old(self).events(),
            final(self).fighters() == after_all(old(self).fighters(), old(self).events()),
            final(self).wf(),
    {
        let mut i: usize = 0;
        while i < self.events.len()
            invariant
                i <= self.events.len(),
                self.events() == old(self).events(),
                old(self).wf(),
                self.fighters().len() == old(self).fighters().len(),
                self.fighters() == after_all(old(self).fighters(), old(self).events().take(i as int)),
            decreases self.events.len() - i,
        {
            proof {
                let done = old(self).events().take(i + 1);
                assert(done.drop_last() =~= old(self).events().take(i as int));
                assert(done.last() == old(self).events()[i as int]);
                assert(old(self).events()[i as int].ready(old(self).fighters()));
            }
            let _ = self.events[i].perform(&mut self.fighters);
            i += 1;
        }
        proof {
            assert(old(self).events().take(i as int) =~= old(self).events());
        }
    }
}

} // verus!
