//! The words the player types to steer the session.

use vstd::prelude::*;

use crate::cards::{same_text, Card, Person, Place, Weapon};

verus! {

/// Which of the three cards of a suggestion was shown.
#[derive(Clone, Copy, PartialEq, Eq, Debug, Structural)]
pub enum ItemClass {
    Weapon,
    Person,
    Place,
}

impl ItemClass {
    /// The class written as `s`, if any.
    pub open spec fn parse(s: Seq<char>) -> Option<ItemClass> {
        if s == "weapon"@ {
            Some(ItemClass::Weapon)
        } else if s == "person"@ {
            Some(ItemClass::Person)
        } else if s == "place"@ {
            Some(ItemClass::Place)
        } else {
            None
        }
    }

    /// The card of this class among a suggestion's three.
    pub open spec fn of(self, weapon: Weapon, person: Person, place: Place) -> Card {
        match self {
            ItemClass::Weapon => Card::Weapon(weapon),
            ItemClass::Person => Card::Person(person),
            ItemClass::Place => Card::Place(place),
        }
    }

    /// The class whose word is exactly `v`, if any.
    pub fn from_str(v: &str) -> (r: Option<ItemClass>)
        ensures
            r == ItemClass::parse(v@),
    {
        if same_text(v, "weapon") {
            Some(ItemClass::Weapon)
        } else if same_text(v, "person") {
            Some(ItemClass::Person)
        } else if same_text(v, "place") {
            Some(ItemClass::Place)
        } else {
            None
        }
    }

    /// The card of this class among a suggestion's three.
    pub fn pick(self, weapon: Weapon, person: Person, place: Place) -> (r: Card)
        ensures
            r == self.of(weapon, person, place),
    {
        match self {
            ItemClass::Weapon => Card::Weapon(weapon),
            ItemClass::Person => Card::Person(person),
            ItemClass::Place => Card::Place(place),
        }
    }
}

/// An action chosen at the main prompt.
#[derive(Clone, Copy, PartialEq, Eq, Debug, Structural)]
pub enum Command {
    Interaction,
    Query,
    Print,
    Facts,
    Save,
}

impl Command {
    /// The action written as `s`, if any.
    pub open spec fn parse(s: Seq<char>) -> Option<Command> {
        if s == "interaction"@ {
            Some(Command::Interaction)
        } else if s == "query"@ {
            Some(Command::Query)
        } else if s == "print"@ {
            Some(Command::Print)
        } else if s == "facts"@ {
            Some(Command::Facts)
        } else if s == "save"@ {
            Some(Command::Save)
        } else {
            None
        }
    }

    /// The action whose word is exactly `v`, if any.
    pub fn from_str(v: &str) -> (r: Option<Command>)
        ensures
            r == Command::parse(v@),
    {
        if same_text(v, "interaction") {
            Some(Command::Interaction)
        } else if same_text(v, "query") {
            Some(Command::Query)
        } else if same_text(v, "print") {
            Some(Command::Print)
        } else if same_text(v, "facts") {
            Some(Command::Facts)
        } else if same_text(v, "save") {
            Some(Command::Save)
        } else {
            None
        }
    }
}

/// The first two letters and the length of each word, which tell the
/// words apart.
proof fn lemma_word_letters()
    ensures
        "facts"@.len() == 5 && "facts"@[0] == 'f' && "facts"@[1] == 'a',
        "interaction"@.len() == 11 && "interaction"@[0] == 'i' && "interaction"@[1] == 'n',
        "person"@.len() == 6 && "person"@[0] == 'p' && "person"@[1] == 'e',
        "place"@.len() == 5 && "place"@[0] == 'p' && "place"@[1] == 'l',
        "print"@.len() == 5 && "print"@[0] == 'p' && "print"@[1] == 'r',
        "query"@.len() == 5 && "query"@[0] == 'q' && "query"@[1] == 'u',
        "save"@.len() == 4 && "save"@[0] == 's' && "save"@[1] == 'a',
        "weapon"@.len() == 6 && "weapon"@[0] == 'w' && "weapon"@[1] == 'e',
{
    reveal_strlit("facts");
    reveal_strlit("interaction");
    reveal_strlit("person");
    reveal_strlit("place");
    reveal_strlit("print");
    reveal_strlit("query");
    reveal_strlit("save");
    reveal_strlit("weapon");
}

/// Each action and each class is chosen by exactly its own word.
pub proof fn lemma_words(s: Seq<char>)
    ensures
        (Command::parse(s) == Some(Command::Interaction)) == (s == "interaction"@),
        (Command::parse(s) == Some(Command::Query)) == (s == "query"@),
        (Command::parse(s) == Some(Command::Print)) == (s == "print"@),
        (Command::parse(s) == Some(Command::Facts)) == (s == "facts"@),
        (Command::parse(s) == Some(Command::Save)) == (s == "save"@),
        (ItemClass::parse(s) == Some(ItemClass::Weapon)) == (s == "weapon"@),
        (ItemClass::parse(s) == Some(ItemClass::Person)) == (s == "person"@),
        (ItemClass::parse(s) == Some(ItemClass::Place)) == (s == "place"@),
{
    lemma_word_letters();
}

/// The card of each class is the suggestion's card of that list.
pub proof fn lemma_class_cards(weapon: Weapon, person: Person, place: Place)
    ensures
        ItemClass::Weapon.of(weapon, person, place) == Card::Weapon(weapon),
        ItemClass::Person.of(weapon, person, place) == Card::Person(person),
        ItemClass::Place.of(weapon, person, place) == Card::Place(place),
{
}

} // verus!
