//! Per-player records: one value for every card of the game.

use vstd::prelude::*;

use crate::cards::{Card, Person, Place, State, Weapon};

verus! {

/// One value for each weapon.
#[derive(Clone, Copy, Debug)]
pub struct WeaponInventory<T> {
    pub rope: T,
    pub candlestick: T,
    pub lead_pipe: T,
    pub revolver: T,
    pub spanner: T,
    pub dagger: T,
}

impl<T> WeaponInventory<T> {
    /// The value kept for `w`.
    pub open spec fn at(self, w: Weapon) -> T {
        match w {
            Weapon::Rope => self.rope,
            Weapon::Candlestick => self.candlestick,
            Weapon::LeadPipe => self.lead_pipe,
            Weapon::Revolver => self.revolver,
            Weapon::Spanner => self.spanner,
            Weapon::Dagger => self.dagger,
        }
    }

    /// The record with the value for `w` replaced by `x`.
    pub open spec fn with(self, w: Weapon, x: T) -> Self {
        WeaponInventory {
            rope: if w == Weapon::Rope { x } else { self.rope },
            candlestick: if w == Weapon::Candlestick { x } else { self.candlestick },
            lead_pipe: if w == Weapon::LeadPipe { x } else { self.lead_pipe },
            revolver: if w == Weapon::Revolver { x } else { self.revolver },
            spanner: if w == Weapon::Spanner { x } else { self.spanner },
            dagger: if w == Weapon::Dagger { x } else { self.dagger },
        }
    }

    /// The value kept for `w`.
    pub fn get(&self, w: Weapon) -> (r: &T)
        ensures
            *r == self.at(w),
    {
        match w {
            Weapon::Rope => &self.rope,
            Weapon::Candlestick => &self.candlestick,
            Weapon::LeadPipe => &self.lead_pipe,
            Weapon::Revolver => &self.revolver,
            Weapon::Spanner => &self.spanner,
            Weapon::Dagger => &self.dagger,
        }
    }

    /// Replaces the value kept for `w`.
    pub fn set(&mut self, w: Weapon, x: T)
        ensures
            *final(self) == old(self).with(w, x),
    {
        match w {
            Weapon::Rope => self.rope = x,
            Weapon::Candlestick => self.candlestick = x,
            Weapon::LeadPipe => self.lead_pipe = x,
            Weapon::Revolver => self.revolver = x,
            Weapon::Spanner => self.spanner = x,
            Weapon::Dagger => self.dagger = x,
        }
    }
}

impl<T: Copy> WeaponInventory<T> {
    /// The record that keeps `x` for every weapon.
    pub open spec fn uniform(x: T) -> Self {
        WeaponInventory {
            rope: x,
            candlestick: x,
            lead_pipe: x,
            revolver: x,
            spanner: x,
            dagger: x,
        }
    }

    /// The record that keeps `x` for every weapon.
    pub fn filled(x: T) -> (r: Self)
        ensures
            r == Self::uniform(x),
    {
        WeaponInventory {
            rope: x,
            candlestick: x,
            lead_pipe: x,
            revolver: x,
            spanner: x,
            dagger: x,
        }
    }
}

/// One value for each suspect.
#[derive(Clone, Copy, Debug)]
pub struct PersonInventory<T> {
    pub green: T,
    pub white: T,
    pub plum: T,
    pub scarlet: T,
    pub mustard: T,
    pub peacock: T,
}

impl<T> PersonInventory<T> {
    /// The value kept for `p`.
    pub open spec fn at(self, p: Person) -> T {
        match p {
            Person::Green => self.green,
            Person::White => self.white,
            Person::Plum => self.plum,
            Person::Scarlet => self.scarlet,
            Person::Mustard => self.mustard,
            Person::Peacock => self.peacock,
        }
    }

    /// The record with the value for `p` replaced by `x`.
    pub open spec fn with(self, p: Person, x: T) -> Self {
        PersonInventory {
            green: if p == Person::Green { x } else { self.green },
            white: if p == Person::White { x } else { self.white },
            plum: if p == Person::Plum { x } else { self.plum },
            scarlet: if p == Person::Scarlet { x } else { self.scarlet },
            mustard: if p == Person::Mustard { x } else { self.mustard },
            peacock: if p == Person::Peacock { x } else { self.peacock },
        }
    }

    /// The value kept for `p`.
    pub fn get(&self, p: Person) -> (r: &T)
        ensures
            *r == self.at(p),
    {
        match p {
            Person::Green => &self.green,
            Person::White => &self.white,
            Person::Plum => &self.plum,
            Person::Scarlet => &self.scarlet,
            Person::Mustard => &self.mustard,
            Person::Peacock => &self.peacock,
        }
    }

    /// Replaces the value kept for `p`.
    pub fn set(&mut self, p: Person, x: T)
        ensures
            *final(self) == old(self).with(p, x),
    {
        match p {
            Person::Green => self.green = x,
            Person::White => self.white = x,
            Person::Plum => self.plum = x,
            Person::Scarlet => self.scarlet = x,
            Person::Mustard => self.mustard = x,
            Person::Peacock => self.peacock = x,
        }
    }
}

impl<T: Copy> PersonInventory<T> {
    /// The record that keeps `x` for every suspect.
    pub open spec fn uniform(x: T) -> Self {
        PersonInventory {
            green: x,
            white: x,
            plum: x,
            scarlet: x,
            mustard: x,
            peacock: x,
        }
    }

    /// The record that keeps `x` for every suspect.
    pub fn filled(x: T) -> (r: Self)
        ensures
            r == Self::uniform(x),
    {
        PersonInventory {
            green: x,
            white: x,
            plum: x,
            scarlet: x,
            mustard: x,
            peacock: x,
        }
    }
}

/// One value for each room.
#[derive(Clone, Copy, Debug)]
pub struct PlaceInventory<T> {
    pub study: T,
    pub dining_room: T,
    pub ball_room: T,
    pub library: T,
    pub hall: T,
    pub conservatory: T,
    pub kitchen: T,
}

impl<T> PlaceInventory<T> {
    /// The value kept for `p`.
    pub open spec fn at(self, p: Place) -> T {
        match p {
            Place::Study => self.study,
            Place::DiningRoom => self.dining_room,
            Place::BallRoom => self.ball_room,
            Place::Library => self.library,
            Place::Hall => self.hall,
            Place::Conservatory => self.conservatory,
            Place::Kitchen => self.kitchen,
        }
    }

    /// The record with the value for `p` replaced by `x`.
    pub open spec fn with(self, p: Place, x: T) -> Self {
        PlaceInventory {
            study: if p == Place::Study { x } else { self.study },
            dining_room: if p == Place::DiningRoom { x } else { self.dining_room },
            ball_room: if p == Place::BallRoom { x } else { self.ball_room },
            library: if p == Place::Library { x } else { self.library },
            hall: if p == Place::Hall { x } else { self.hall },
            conservatory: if p == Place::Conservatory { x } else { self.conservatory },
            kitchen: if p == Place::Kitchen { x } else { self.kitchen },
        }
    }

    /// The value kept for `p`.
    pub fn get(&self, p: Place) -> (r: &T)
        ensures
            *r == self.at(p),
    {
        match p {
            Place::Study => &self.study,
            Place::DiningRoom => &self.dining_room,
            Place::BallRoom => &self.ball_room,
            Place::Library => &self.library,
            Place::Hall => &self.hall,
            Place::Conservatory => &self.conservatory,
            Place::Kitchen => &self.kitchen,
        }
    }

    /// Replaces the value kept for `p`.
    pub fn set(&mut self, p: Place, x: T)
        ensures
            *final(self) == old(self).with(p, x),
    {
        match p {
            Place::Study => self.study = x,
            Place::DiningRoom => self.dining_room = x,
            Place::BallRoom => self.ball_room = x,
            Place::Library => self.library = x,
            Place::Hall => self.hall = x,
            Place::Conservatory => self.conservatory = x,
            Place::Kitchen => self.kitchen = x,
        }
    }
}

impl<T: Copy> PlaceInventory<T> {
    /// The record that keeps `x` for every room.
    pub open spec fn uniform(x: T) -> Self {
        PlaceInventory {
            study: x,
            dining_room: x,
            ball_room: x,
            library: x,
            hall: x,
            conservatory: x,
            kitchen: x,
        }
    }

    /// The record that keeps `x` for every room.
    pub fn filled(x: T) -> (r: Self)
        ensures
            r == Self::uniform(x),
    {
        PlaceInventory {
            study: x,
            dining_room: x,
            ball_room: x,
            library: x,
            hall: x,
            conservatory: x,
            kitchen: x,
        }
    }
}

/// One value for each card of the game.
#[derive(Clone, Copy, Debug)]
pub struct Inventory<T> {
    pub weapon: WeaponInventory<T>,
    pub person: PersonInventory<T>,
    pub place: PlaceInventory<T>,
}

impl<T> Inventory<T> {
    /// The value kept for card `c`.
    pub open spec fn at(self, c: Card) -> T {
        match c {
            Card::Weapon(w) => self.weapon.at(w),
            Card::Person(p) => self.person.at(p),
            Card::Place(l) => self.place.at(l),
        }
    }

    /// The record with the value for card `c` replaced by `x`.
    pub open spec fn with(self, c: Card, x: T) -> Self {
        match c {
            Card::Weapon(w) => Inventory { weapon: self.weapon.with(w, x), person: self.person, place: self.place },
            Card::Person(p) => Inventory { weapon: self.weapon, person: self.person.with(p, x), place: self.place },
            Card::Place(l) => Inventory { weapon: self.weapon, person: self.person, place: self.place.with(l, x) },
        }
    }

    /// The value kept for card `c`.
    pub fn get(&self, c: Card) -> (r: &T)
        ensures
            *r == self.at(c),
    {
        match c {
            Card::Weapon(w) => self.weapon.get(w),
            Card::Person(p) => self.person.get(p),
            Card::Place(l) => self.place.get(l),
        }
    }

    /// Replaces the value kept for card `c`.
    pub fn set(&mut self, c: Card, x: T)
        ensures
            *final(self) == old(self).with(c, x),
    {
        match c {
            Card::Weapon(w) => self.weapon.set(w, x),
            Card::Person(p) => self.person.set(p, x),
            Card::Place(l) => self.place.set(l, x),
        }
    }
}

impl<T: Copy> Inventory<T> {
    /// The record that keeps `x` for every card.
    pub open spec fn uniform(x: T) -> Self {
        Inventory {
            weapon: WeaponInventory::uniform(x),
            person: PersonInventory::uniform(x),
            place: PlaceInventory::uniform(x),
        }
    }

    /// The record that keeps `x` for every card.
    pub fn filled(x: T) -> (r: Self)
        ensures
            r == Self::uniform(x),
    {
        Inventory {
            weapon: WeaponInventory::filled(x),
            person: PersonInventory::filled(x),
            place: PlaceInventory::filled(x),
        }
    }
}

impl Default for Inventory<State> {
    /// Nothing known of any card.
    fn default() -> (r: Inventory<State>)
        ensures
            r == Inventory::uniform(State::Unknown),
    {
        Inventory::filled(State::Unknown)
    }
}

/// Reading a record after one replacement: the replaced card gives the new
/// value, every other card what it gave before.
pub broadcast proof fn lemma_at_with<T>(inv: Inventory<T>, c: Card, d: Card, x: T)
    ensures
        #[trigger] inv.with(c, x).at(d) == if c == d { x } else { inv.at(d) },
{
}

/// A uniform record gives its value for every card.
pub broadcast proof fn lemma_uniform_at<T: Copy>(x: T, c: Card)
    ensures
        #[trigger] Inventory::uniform(x).at(c) == x,
{
}

/// Two records that give the same value for every card are the same record.
pub proof fn lemma_inventory_ext<T>(a: Inventory<T>, b: Inventory<T>)
    requires
        forall|c: Card| a.at(c) == b.at(c),
    ensures
        a == b,
{
    assert(a.at(Card::Weapon(Weapon::Rope)) == b.at(Card::Weapon(Weapon::Rope)));
    assert(a.at(Card::Weapon(Weapon::Candlestick)) == b.at(Card::Weapon(Weapon::Candlestick)));
    assert(a.at(Card::Weapon(Weapon::LeadPipe)) == b.at(Card::Weapon(Weapon::LeadPipe)));
    assert(a.at(Card::Weapon(Weapon::Revolver)) == b.at(Card::Weapon(Weapon::Revolver)));
    assert(a.at(Card::Weapon(Weapon::Spanner)) == b.at(Card::Weapon(Weapon::Spanner)));
    assert(a.at(Card::Weapon(Weapon::Dagger)) == b.at(Card::Weapon(Weapon::Dagger)));
    assert(a.at(Card::Person(Person::Green)) == b.at(Card::Person(Person::Green)));
    assert(a.at(Card::Person(Person::White)) == b.at(Card::Person(Person::White)));
    assert(a.at(Card::Person(Person::Plum)) == b.at(Card::Person(Person::Plum)));
    assert(a.at(Card::Person(Person::Scarlet)) == b.at(Card::Person(Person::Scarlet)));
    assert(a.at(Card::Person(Person::Mustard)) == b.at(Card::Person(Person::Mustard)));
    assert(a.at(Card::Person(Person::Peacock)) == b.at(Card::Person(Person::Peacock)));
    assert(a.at(Card::Place(Place::Study)) == b.at(Card::Place(Place::Study)));
    assert(a.at(Card::Place(Place::DiningRoom)) == b.at(Card::Place(Place::DiningRoom)));
    assert(a.at(Card::Place(Place::BallRoom)) == b.at(Card::Place(Place::BallRoom)));
    assert(a.at(Card::Place(Place::Library)) == b.at(Card::Place(Place::Library)));
    assert(a.at(Card::Place(Place::Hall)) == b.at(Card::Place(Place::Hall)));
    assert(a.at(Card::Place(Place::Conservatory)) == b.at(Card::Place(Place::Conservatory)));
    assert(a.at(Card::Place(Place::Kitchen)) == b.at(Card::Place(Place::Kitchen)));
}

/// Each card is kept in the field named after it.
pub proof fn lemma_inventory_fields<T>(inv: Inventory<T>)
    ensures
        inv.at(Card::Weapon(Weapon::Rope)) == inv.weapon.rope,
        inv.at(Card::Weapon(Weapon::Candlestick)) == inv.weapon.candlestick,
        inv.at(Card::Weapon(Weapon::LeadPipe)) == inv.weapon.lead_pipe,
        inv.at(Card::Weapon(Weapon::Revolver)) == inv.weapon.revolver,
        inv.at(Card::Weapon(Weapon::Spanner)) == inv.weapon.spanner,
        inv.at(Card::Weapon(Weapon::Dagger)) == inv.weapon.dagger,
        inv.at(Card::Person(Person::Green)) == inv.person.green,
        inv.at(Card::Person(Person::White)) == inv.person.white,
        inv.at(Card::Person(Person::Plum)) == inv.person.plum,
        inv.at(Card::Person(Person::Scarlet)) == inv.person.scarlet,
        inv.at(Card::Person(Person::Mustard)) == inv.person.mustard,
        inv.at(Card::Person(Person::Peacock)) == inv.person.peacock,
        inv.at(Card::Place(Place::Study)) == inv.place.study,
        inv.at(Card::Place(Place::DiningRoom)) == inv.place.dining_room,
        inv.at(Card::Place(Place::BallRoom)) == inv.place.ball_room,
        inv.at(Card::Place(Place::Library)) == inv.place.library,
        inv.at(Card::Place(Place::Hall)) == inv.place.hall,
        inv.at(Card::Place(Place::Conservatory)) == inv.place.conservatory,
        inv.at(Card::Place(Place::Kitchen)) == inv.place.kitchen,
{
}

} // verus!
