//! The cards of the game, their names, and the knowledge states a player's
//! hand can be in for each of them.

use vstd::prelude::*;

verus! {

/// The weapons.
#[derive(Clone, Copy, PartialEq, Eq, Debug, Structural)]
pub enum Weapon {
    Rope,
    Candlestick,
    LeadPipe,
    Revolver,
    Spanner,
    Dagger,
}

/// The suspects.
#[derive(Clone, Copy, PartialEq, Eq, Debug, Structural)]
pub enum Person {
    Green,
    White,
    Plum,
    Scarlet,
    Mustard,
    Peacock,
}

/// The rooms.
#[derive(Clone, Copy, PartialEq, Eq, Debug, Structural)]
pub enum Place {
    Study,
    DiningRoom,
    BallRoom,
    Library,
    Hall,
    Conservatory,
    Kitchen,
}

/// Any one card of the game.
#[derive(Clone, Copy, PartialEq, Eq, Debug, Structural)]
pub enum Card {
    Weapon(Weapon),
    Person(Person),
    Place(Place),
}

/// What is known of whether a player holds a card.
#[derive(Clone, Copy, PartialEq, Eq, Debug, Structural)]
pub enum State {
    Unknown,
    Has,
    HasNot,
}

impl Default for State {
    fn default() -> (r: State)
        ensures
            r == State::Unknown,
    {
        State::Unknown
    }
}

/// Whether two strings hold the same characters.
pub fn same_text(a: &str, b: &str) -> (r: bool)
    ensures
        r == (a@ == b@),
{
    let n = a.unicode_len();
    if n != b.unicode_len() {
        return false;
    }
    let mut i: usize = 0;
    while i < n
        invariant
            n == a@.len(),
            n == b@.len(),
            i <= n,
            forall|j: int| 0 <= j < i ==> a@[j] == b@[j],
        decreases n - i,
    {
        if a.get_char(i) != b.get_char(i) {
            return false;
        }
        i += 1;
    }
    assert(a@ =~= b@);
    true
}

impl Weapon {
    /// The name by which the weapon is written.
    pub open spec fn text(self) -> Seq<char> {
        match self {
            Weapon::Rope => "Rope"@,
            Weapon::Candlestick => "Candlestick"@,
            Weapon::LeadPipe => "LeadPipe"@,
            Weapon::Revolver => "Revolver"@,
            Weapon::Spanner => "Spanner"@,
            Weapon::Dagger => "Dagger"@,
        }
    }

    /// The weapon written as `s`, if any.
    pub open spec fn parse(s: Seq<char>) -> Option<Weapon> {
        if s == "Rope"@ {
            Some(Weapon::Rope)
        } else if s == "Candlestick"@ {
            Some(Weapon::Candlestick)
        } else if s == "LeadPipe"@ {
            Some(Weapon::LeadPipe)
        } else if s == "Revolver"@ {
            Some(Weapon::Revolver)
        } else if s == "Spanner"@ {
            Some(Weapon::Spanner)
        } else if s == "Dagger"@ {
            Some(Weapon::Dagger)
        } else {
            None
        }
    }

    /// Every weapon, in the order of the game's list.
    pub open spec fn every() -> Seq<Weapon> {
        seq![
            Weapon::Rope,
            Weapon::Candlestick,
            Weapon::LeadPipe,
            Weapon::Revolver,
            Weapon::Spanner,
            Weapon::Dagger,
        ]
    }

    /// The name by which the weapon is written.
    pub fn name(self) -> (r: &'static str)
        ensures
            r@ == self.text(),
    {
        match self {
            Weapon::Rope => "Rope",
            Weapon::Candlestick => "Candlestick",
            Weapon::LeadPipe => "LeadPipe",
            Weapon::Revolver => "Revolver",
            Weapon::Spanner => "Spanner",
            Weapon::Dagger => "Dagger",
        }
    }

    /// The weapon whose name is exactly `v`, if any.
    pub fn from_str(v: &str) -> (r: Option<Weapon>)
        ensures
            r == Weapon::parse(v@),
    {
        if same_text(v, "Rope") {
            Some(Weapon::Rope)
        } else if same_text(v, "Candlestick") {
            Some(Weapon::Candlestick)
        } else if same_text(v, "LeadPipe") {
            Some(Weapon::LeadPipe)
        } else if same_text(v, "Revolver") {
            Some(Weapon::Revolver)
        } else if same_text(v, "Spanner") {
            Some(Weapon::Spanner)
        } else if same_text(v, "Dagger") {
            Some(Weapon::Dagger)
        } else {
            None
        }
    }

    /// Every weapon, in the order of the game's list.
    pub fn all() -> (r: Vec<Weapon>)
        ensures
            r@ == Weapon::every(),
    {
        let r = vec![
            Weapon::Rope,
            Weapon::Candlestick,
            Weapon::LeadPipe,
            Weapon::Revolver,
            Weapon::Spanner,
            Weapon::Dagger,
        ];
        assert(r@ =~= Weapon::every());
        r
    }
}

impl Person {
    /// The name by which the suspect is written.
    pub open spec fn text(self) -> Seq<char> {
        match self {
            Person::Green => "Green"@,
            Person::White => "White"@,
            Person::Plum => "Plum"@,
            Person::Scarlet => "Scarlet"@,
            Person::Mustard => "Mustard"@,
            Person::Peacock => "Peacock"@,
        }
    }

    /// The suspect written as `s`, if any.
    pub open spec fn parse(s: Seq<char>) -> Option<Person> {
        if s == "Green"@ {
            Some(Person::Green)
        } else if s == "White"@ {
            Some(Person::White)
        } else if s == "Plum"@ {
            Some(Person::Plum)
        } else if s == "Scarlet"@ {
            Some(Person::Scarlet)
        } else if s == "Mustard"@ {
            Some(Person::Mustard)
        } else if s == "Peacock"@ {
            Some(Person::Peacock)
        } else {
            None
        }
    }

    /// Every suspect, in the order of the game's list.
    pub open spec fn every() -> Seq<Person> {
        seq![
            Person::Green,
            Person::White,
            Person::Plum,
            Person::Scarlet,
            Person::Mustard,
            Person::Peacock,
        ]
    }

    /// The name by which the suspect is written.
    pub fn name(self) -> (r: &'static str)
        ensures
            r@ == self.text(),
    {
        match self {
            Person::Green => "Green",
            Person::White => "White",
            Person::Plum => "Plum",
            Person::Scarlet => "Scarlet",
            Person::Mustard => "Mustard",
            Person::Peacock => "Peacock",
        }
    }

    /// The suspect whose name is exactly `v`, if any.
    pub fn from_str(v: &str) -> (r: Option<Person>)
        ensures
            r == Person::parse(v@),
    {
        if same_text(v, "Green") {
            Some(Person::Green)
        } else if same_text(v, "White") {
            Some(Person::White)
        } else if same_text(v, "Plum") {
            Some(Person::Plum)
        } else if same_text(v, "Scarlet") {
            Some(Person::Scarlet)
        } else if same_text(v, "Mustard") {
            Some(Person::Mustard)
        } else if same_text(v, "Peacock") {
            Some(Person::Peacock)
        } else {
            None
        }
    }

    /// Every suspect, in the order of the game's list.
    pub fn all() -> (r: Vec<Person>)
        ensures
            r@ == Person::every(),
    {
        let r = vec![
            Person::Green,
            Person::White,
            Person::Plum,
            Person::Scarlet,
            Person::Mustard,
            Person::Peacock,
        ];
        assert(r@ =~= Person::every());
        r
    }
}

impl Place {
    /// The name by which the room is written.
    pub open spec fn text(self) -> Seq<char> {
        match self {
            Place::Study => "Study"@,
            Place::DiningRoom => "DiningRoom"@,
            Place::BallRoom => "BallRoom"@,
            Place::Library => "Library"@,
            Place::Hall => "Hall"@,
            Place::Conservatory => "Conservatory"@,
            Place::Kitchen => "Kitchen"@,
        }
    }

    /// The room written as `s`, if any.
    pub open spec fn parse(s: Seq<char>) -> Option<Place> {
        if s == "Study"@ {
            Some(Place::Study)
        } else if s == "DiningRoom"@ {
            Some(Place::DiningRoom)
        } else if s == "BallRoom"@ {
            Some(Place::BallRoom)
        } else if s == "Library"@ {
            Some(Place::Library)
        } else if s == "Hall"@ {
            Some(Place::Hall)
        } else if s == "Conservatory"@ {
            Some(Place::Conservatory)
        } else if s == "Kitchen"@ {
            Some(Place::Kitchen)
        } else {
            None
        }
    }

    /// Every room, in the order of the game's list.
    pub open spec fn every() -> Seq<Place> {
        seq![
            Place::Study,
            Place::DiningRoom,
            Place::BallRoom,
            Place::Library,
            Place::Hall,
            Place::Conservatory,
            Place::Kitchen,
        ]
    }

    /// The name by which the room is written.
    pub fn name(self) -> (r: &'static str)
        ensures
            r@ == self.text(),
    {
        match self {
            Place::Study => "Study",
            Place::DiningRoom => "DiningRoom",
            Place::BallRoom => "BallRoom",
            Place::Library => "Library",
            Place::Hall => "Hall",
            Place::Conservatory => "Conservatory",
            Place::Kitchen => "Kitchen",
        }
    }

    /// The room whose name is exactly `v`, if any.
    pub fn from_str(v: &str) -> (r: Option<Place>)
        ensures
            r == Place::parse(v@),
    {
        if same_text(v, "Study") {
            Some(Place::Study)
        } else if same_text(v, "DiningRoom") {
            Some(Place::DiningRoom)
        } else if same_text(v, "BallRoom") {
            Some(Place::BallRoom)
        } else if same_text(v, "Library") {
            Some(Place::Library)
        } else if same_text(v, "Hall") {
            Some(Place::Hall)
        } else if same_text(v, "Conservatory") {
            Some(Place::Conservatory)
        } else if same_text(v, "Kitchen") {
            Some(Place::Kitchen)
        } else {
            None
        }
    }

    /// Every room, in the order of the game's list.
    pub fn all() -> (r: Vec<Place>)
        ensures
            r@ == Place::every(),
    {
        let r = vec![
            Place::Study,
            Place::DiningRoom,
            Place::BallRoom,
            Place::Library,
            Place::Hall,
            Place::Conservatory,
            Place::Kitchen,
        ];
        assert(r@ =~= Place::every());
        r
    }
}

impl Card {
    /// The name by which the card is written.
    pub open spec fn text(self) -> Seq<char> {
        match self {
            Card::Weapon(w) => w.text(),
            Card::Person(p) => p.text(),
            Card::Place(l) => l.text(),
        }
    }

    /// The card written as `s`: a card is read only where exactly one
    /// of the three lists knows the name.
    pub open spec fn parse(s: Seq<char>) -> Option<Card> {
        match (Weapon::parse(s), Person::parse(s), Place::parse(s)) {
            (Some(w), None, None) => Some(Card::Weapon(w)),
            (None, Some(p), None) => Some(Card::Person(p)),
            (None, None, Some(l)) => Some(Card::Place(l)),
            _ => None,
        }
    }

    /// Every card: the weapons, then the suspects, then the rooms.
    pub open spec fn every() -> Seq<Card> {
        Weapon::every().map_values(|w: Weapon| Card::Weapon(w)) + Person::every().map_values(
            |p: Person| Card::Person(p),
        ) + Place::every().map_values(|l: Place| Card::Place(l))
    }

    /// Every card: the weapons, then the suspects, then the rooms.
    pub fn all() -> (r: Vec<Card>)
        ensures
            r@ == Card::every(),
    {
        let r = vec![
            Card::Weapon(Weapon::Rope),
            Card::Weapon(Weapon::Candlestick),
            Card::Weapon(Weapon::LeadPipe),
            Card::Weapon(Weapon::Revolver),
            Card::Weapon(Weapon::Spanner),
            Card::Weapon(Weapon::Dagger),
            Card::Person(Person::Green),
            Card::Person(Person::White),
            Card::Person(Person::Plum),
            Card::Person(Person::Scarlet),
            Card::Person(Person::Mustard),
            Card::Person(Person::Peacock),
            Card::Place(Place::Study),
            Card::Place(Place::DiningRoom),
            Card::Place(Place::BallRoom),
            Card::Place(Place::Library),
            Card::Place(Place::Hall),
            Card::Place(Place::Conservatory),
            Card::Place(Place::Kitchen),
        ];
        assert(r@ =~= Card::every());
        r
    }

    /// The name by which the card is written.
    pub fn name(self) -> (r: &'static str)
        ensures
            r@ == self.text(),
    {
        match self {
            Card::Weapon(w) => w.name(),
            Card::Person(p) => p.name(),
            Card::Place(l) => l.name(),
        }
    }

    /// The card whose name is `v`, if exactly one list knows it.
    pub fn from_str(v: &str) -> (r: Option<Card>)
        ensures
            r == Card::parse(v@),
    {
        match (Weapon::from_str(v), Person::from_str(v), Place::from_str(v)) {
            (Some(w), None, None) => Some(Card::Weapon(w)),
            (None, Some(p), None) => Some(Card::Person(p)),
            (None, None, Some(l)) => Some(Card::Place(l)),
            _ => None,
        }
    }
}

/// The first two letters of each name, which tell every two names of
/// equal length apart.
proof fn lemma_name_letters()
    ensures
        "Rope"@.len() == 4 && "Rope"@[0] == 'R' && "Rope"@[1] == 'o',
        "Candlestick"@.len() == 11 && "Candlestick"@[0] == 'C' && "Candlestick"@[1] == 'a',
        "LeadPipe"@.len() == 8 && "LeadPipe"@[0] == 'L' && "LeadPipe"@[1] == 'e',
        "Revolver"@.len() == 8 && "Revolver"@[0] == 'R' && "Revolver"@[1] == 'e',
        "Spanner"@.len() == 7 && "Spanner"@[0] == 'S' && "Spanner"@[1] == 'p',
        "Dagger"@.len() == 6 && "Dagger"@[0] == 'D' && "Dagger"@[1] == 'a',
        "Green"@.len() == 5 && "Green"@[0] == 'G' && "Green"@[1] == 'r',
        "White"@.len() == 5 && "White"@[0] == 'W' && "White"@[1] == 'h',
        "Plum"@.len() == 4 && "Plum"@[0] == 'P' && "Plum"@[1] == 'l',
        "Scarlet"@.len() == 7 && "Scarlet"@[0] == 'S' && "Scarlet"@[1] == 'c',
        "Mustard"@.len() == 7 && "Mustard"@[0] == 'M' && "Mustard"@[1] == 'u',
        "Peacock"@.len() == 7 && "Peacock"@[0] == 'P' && "Peacock"@[1] == 'e',
        "Study"@.len() == 5 && "Study"@[0] == 'S' && "Study"@[1] == 't',
        "DiningRoom"@.len() == 10 && "DiningRoom"@[0] == 'D' && "DiningRoom"@[1] == 'i',
        "BallRoom"@.len() == 8 && "BallRoom"@[0] == 'B' && "BallRoom"@[1] == 'a',
        "Library"@.len() == 7 && "Library"@[0] == 'L' && "Library"@[1] == 'i',
        "Hall"@.len() == 4 && "Hall"@[0] == 'H' && "Hall"@[1] == 'a',
        "Conservatory"@.len() == 12 && "Conservatory"@[0] == 'C' && "Conservatory"@[1] == 'o',
        "Kitchen"@.len() == 7 && "Kitchen"@[0] == 'K' && "Kitchen"@[1] == 'i',
{
    reveal_strlit("Rope");
    reveal_strlit("Candlestick");
    reveal_strlit("LeadPipe");
    reveal_strlit("Revolver");
    reveal_strlit("Spanner");
    reveal_strlit("Dagger");
    reveal_strlit("Green");
    reveal_strlit("White");
    reveal_strlit("Plum");
    reveal_strlit("Scarlet");
    reveal_strlit("Mustard");
    reveal_strlit("Peacock");
    reveal_strlit("Study");
    reveal_strlit("DiningRoom");
    reveal_strlit("BallRoom");
    reveal_strlit("Library");
    reveal_strlit("Hall");
    reveal_strlit("Conservatory");
    reveal_strlit("Kitchen");
}

proof fn lemma_weapon_name_unique(w: Weapon)
    ensures
        Weapon::parse(w.text()) == Some(w),
        Person::parse(w.text()) is None,
        Place::parse(w.text()) is None,
{
    lemma_name_letters();
    match w {
        Weapon::Rope => {},
        Weapon::Candlestick => {},
        Weapon::LeadPipe => {},
        Weapon::Revolver => {},
        Weapon::Spanner => {},
        Weapon::Dagger => {},
    }
}

proof fn lemma_person_name_unique(p: Person)
    ensures
        Weapon::parse(p.text()) is None,
        Person::parse(p.text()) == Some(p),
        Place::parse(p.text()) is None,
{
    lemma_name_letters();
    match p {
        Person::Green => {},
        Person::White => {},
        Person::Plum => {},
        Person::Scarlet => {},
        Person::Mustard => {},
        Person::Peacock => {},
    }
}

proof fn lemma_place_name_unique(l: Place)
    ensures
        Weapon::parse(l.text()) is None,
        Person::parse(l.text()) is None,
        Place::parse(l.text()) == Some(l),
{
    lemma_name_letters();
    match l {
        Place::Study => {},
        Place::DiningRoom => {},
        Place::BallRoom => {},
        Place::Library => {},
        Place::Hall => {},
        Place::Conservatory => {},
        Place::Kitchen => {},
    }
}

/// Every card is read back from its own name: the names of the game are
/// all distinct, across the three lists too.
pub proof fn lemma_card_name_round_trip(c: Card)
    ensures
        Card::parse(c.text()) == Some(c),
{
    match c {
        Card::Weapon(w) => lemma_weapon_name_unique(w),
        Card::Person(p) => lemma_person_name_unique(p),
        Card::Place(l) => lemma_place_name_unique(l),
    }
}

/// Every card of the game stands in the list of all cards.
pub proof fn lemma_every_card_listed(c: Card)
    ensures
        Card::every().contains(c),
{
    assert(Card::every().len() == 19);
    match c {
        Card::Weapon(w) => match w {
            Weapon::Rope => assert(Card::every()[0] == c),
            Weapon::Candlestick => assert(Card::every()[1] == c),
            Weapon::LeadPipe => assert(Card::every()[2] == c),
            Weapon::Revolver => assert(Card::every()[3] == c),
            Weapon::Spanner => assert(Card::every()[4] == c),
            Weapon::Dagger => assert(Card::every()[5] == c),
        },
        Card::Person(p) => match p {
            Person::Green => assert(Card::every()[6] == c),
            Person::White => assert(Card::every()[7] == c),
            Person::Plum => assert(Card::every()[8] == c),
            Person::Scarlet => assert(Card::every()[9] == c),
            Person::Mustard => assert(Card::every()[10] == c),
            Person::Peacock => assert(Card::every()[11] == c),
        },
        Card::Place(p) => match p {
            Place::Study => assert(Card::every()[12] == c),
            Place::DiningRoom => assert(Card::every()[13] == c),
            Place::BallRoom => assert(Card::every()[14] == c),
            Place::Library => assert(Card::every()[15] == c),
            Place::Hall => assert(Card::every()[16] == c),
            Place::Conservatory => assert(Card::every()[17] == c),
            Place::Kitchen => assert(Card::every()[18] == c),
        },
    }
}

/// Every weapon stands in the list of all weapons.
pub proof fn lemma_weapon_listed(w: Weapon)
    ensures
        Weapon::every().contains(w),
{
    match w {
        Weapon::Rope => assert(Weapon::every()[0] == w),
        Weapon::Candlestick => assert(Weapon::every()[1] == w),
        Weapon::LeadPipe => assert(Weapon::every()[2] == w),
        Weapon::Revolver => assert(Weapon::every()[3] == w),
        Weapon::Spanner => assert(Weapon::every()[4] == w),
        Weapon::Dagger => assert(Weapon::every()[5] == w),
    }
}

/// Every suspect stands in the list of all suspects.
pub proof fn lemma_person_listed(p: Person)
    ensures
        Person::every().contains(p),
{
    match p {
        Person::Green => assert(Person::every()[0] == p),
        Person::White => assert(Person::every()[1] == p),
        Person::Plum => assert(Person::every()[2] == p),
        Person::Scarlet => assert(Person::every()[3] == p),
        Person::Mustard => assert(Person::every()[4] == p),
        Person::Peacock => assert(Person::every()[5] == p),
    }
}

/// Every room stands in the list of all rooms.
pub proof fn lemma_place_listed(p: Place)
    ensures
        Place::every().contains(p),
{
    match p {
        Place::Study => assert(Place::every()[0] == p),
        Place::DiningRoom => assert(Place::every()[1] == p),
        Place::BallRoom => assert(Place::every()[2] == p),
        Place::Library => assert(Place::every()[3] == p),
        Place::Hall => assert(Place::every()[4] == p),
        Place::Conservatory => assert(Place::every()[5] == p),
        Place::Kitchen => assert(Place::every()[6] == p),
    }
}

/// Each of the weapons is written as its own identifier, and a text
/// is read as that weapon exactly when it is that identifier, whether
/// read from the list of weapons or from all the cards.
pub proof fn lemma_weapon_names(s: Seq<char>)
    ensures
        Weapon::Rope.text() == "Rope"@,
        Weapon::Candlestick.text() == "Candlestick"@,
        Weapon::LeadPipe.text() == "LeadPipe"@,
        Weapon::Revolver.text() == "Revolver"@,
        Weapon::Spanner.text() == "Spanner"@,
        Weapon::Dagger.text() == "Dagger"@,
        (Weapon::parse(s) == Some(Weapon::Rope)) == (s == "Rope"@),
        (Weapon::parse(s) == Some(Weapon::Candlestick)) == (s == "Candlestick"@),
        (Weapon::parse(s) == Some(Weapon::LeadPipe)) == (s == "LeadPipe"@),
        (Weapon::parse(s) == Some(Weapon::Revolver)) == (s == "Revolver"@),
        (Weapon::parse(s) == Some(Weapon::Spanner)) == (s == "Spanner"@),
        (Weapon::parse(s) == Some(Weapon::Dagger)) == (s == "Dagger"@),
        (Card::parse(s) == Some(Card::Weapon(Weapon::Rope))) == (s == "Rope"@),
        (Card::parse(s) == Some(Card::Weapon(Weapon::Candlestick))) == (s == "Candlestick"@),
        (Card::parse(s) == Some(Card::Weapon(Weapon::LeadPipe))) == (s == "LeadPipe"@),
        (Card::parse(s) == Some(Card::Weapon(Weapon::Revolver))) == (s == "Revolver"@),
        (Card::parse(s) == Some(Card::Weapon(Weapon::Spanner))) == (s == "Spanner"@),
        (Card::parse(s) == Some(Card::Weapon(Weapon::Dagger))) == (s == "Dagger"@),
{
    lemma_name_letters();
}

/// Each of the suspects is written as its own identifier, and a text
/// is read as that suspect exactly when it is that identifier, whether
/// read from the list of suspects or from all the cards.
pub proof fn lemma_person_names(s: Seq<char>)
    ensures
        Person::Green.text() == "Green"@,
        Person::White.text() == "White"@,
        Person::Plum.text() == "Plum"@,
        Person::Scarlet.text() == "Scarlet"@,
        Person::Mustard.text() == "Mustard"@,
        Person::Peacock.text() == "Peacock"@,
        (Person::parse(s) == Some(Person::Green)) == (s == "Green"@),
        (Person::parse(s) == Some(Person::White)) == (s == "White"@),
        (Person::parse(s) == Some(Person::Plum)) == (s == "Plum"@),
        (Person::parse(s) == Some(Person::Scarlet)) == (s == "Scarlet"@),
        (Person::parse(s) == Some(Person::Mustard)) == (s == "Mustard"@),
        (Person::parse(s) == Some(Person::Peacock)) == (s == "Peacock"@),
        (Card::parse(s) == Some(Card::Person(Person::Green))) == (s == "Green"@),
        (Card::parse(s) == Some(Card::Person(Person::White))) == (s == "White"@),
        (Card::parse(s) == Some(Card::Person(Person::Plum))) == (s == "Plum"@),
        (Card::parse(s) == Some(Card::Person(Person::Scarlet))) == (s == "Scarlet"@),
        (Card::parse(s) == Some(Card::Person(Person::Mustard))) == (s == "Mustard"@),
        (Card::parse(s) == Some(Card::Person(Person::Peacock))) == (s == "Peacock"@),
{
    lemma_name_letters();
}

/// Each of the rooms is written as its own identifier, and a text
/// is read as that room exactly when it is that identifier, whether
/// read from the list of rooms or from all the cards.
pub proof fn lemma_place_names(s: Seq<char>)
    ensures
        Place::Study.text() == "Study"@,
        Place::DiningRoom.text() == "DiningRoom"@,
        Place::BallRoom.text() == "BallRoom"@,
        Place::Library.text() == "Library"@,
        Place::Hall.text() == "Hall"@,
        Place::Conservatory.text() == "Conservatory"@,
        Place::Kitchen.text() == "Kitchen"@,
        (Place::parse(s) == Some(Place::Study)) == (s == "Study"@),
        (Place::parse(s) == Some(Place::DiningRoom)) == (s == "DiningRoom"@),
        (Place::parse(s) == Some(Place::BallRoom)) == (s == "BallRoom"@),
        (Place::parse(s) == Some(Place::Library)) == (s == "Library"@),
        (Place::parse(s) == Some(Place::Hall)) == (s == "Hall"@),
        (Place::parse(s) == Some(Place::Conservatory)) == (s == "Conservatory"@),
        (Place::parse(s) == Some(Place::Kitchen)) == (s == "Kitchen"@),
        (Card::parse(s) == Some(Card::Place(Place::Study))) == (s == "Study"@),
        (Card::parse(s) == Some(Card::Place(Place::DiningRoom))) == (s == "DiningRoom"@),
        (Card::parse(s) == Some(Card::Place(Place::BallRoom))) == (s == "BallRoom"@),
        (Card::parse(s) == Some(Card::Place(Place::Library))) == (s == "Library"@),
        (Card::parse(s) == Some(Card::Place(Place::Hall))) == (s == "Hall"@),
        (Card::parse(s) == Some(Card::Place(Place::Conservatory))) == (s == "Conservatory"@),
        (Card::parse(s) == Some(Card::Place(Place::Kitchen))) == (s == "Kitchen"@),
{
    lemma_name_letters();
}

/// The lists in the game's order: six weapons, six suspects, seven rooms,
/// and all cards as the weapons, then the suspects, then the rooms.
pub proof fn lemma_list_order()
    ensures
        Weapon::every().len() == 6,
        Weapon::every()[0] == Weapon::Rope,
        Weapon::every()[1] == Weapon::Candlestick,
        Weapon::every()[2] == Weapon::LeadPipe,
        Weapon::every()[3] == Weapon::Revolver,
        Weapon::every()[4] == Weapon::Spanner,
        Weapon::every()[5] == Weapon::Dagger,
        Person::every().len() == 6,
        Person::every()[0] == Person::Green,
        Person::every()[1] == Person::White,
        Person::every()[2] == Person::Plum,
        Person::every()[3] == Person::Scarlet,
        Person::every()[4] == Person::Mustard,
        Person::every()[5] == Person::Peacock,
        Place::every().len() == 7,
        Place::every()[0] == Place::Study,
        Place::every()[1] == Place::DiningRoom,
        Place::every()[2] == Place::BallRoom,
        Place::every()[3] == Place::Library,
        Place::every()[4] == Place::Hall,
        Place::every()[5] == Place::Conservatory,
        Place::every()[6] == Place::Kitchen,
        Card::every().len() == 19,
        Card::every()[0] == Card::Weapon(Weapon::Rope),
        Card::every()[1] == Card::Weapon(Weapon::Candlestick),
        Card::every()[2] == Card::Weapon(Weapon::LeadPipe),
        Card::every()[3] == Card::Weapon(Weapon::Revolver),
        Card::every()[4] == Card::Weapon(Weapon::Spanner),
        Card::every()[5] == Card::Weapon(Weapon::Dagger),
        Card::every()[6] == Card::Person(Person::Green),
        Card::every()[7] == Card::Person(Person::White),
        Card::every()[8] == Card::Person(Person::Plum),
        Card::every()[9] == Card::Person(Person::Scarlet),
        Card::every()[10] == Card::Person(Person::Mustard),
        Card::every()[11] == Card::Person(Person::Peacock),
        Card::every()[12] == Card::Place(Place::Study),
        Card::every()[13] == Card::Place(Place::DiningRoom),
        Card::every()[14] == Card::Place(Place::BallRoom),
        Card::every()[15] == Card::Place(Place::Library),
        Card::every()[16] == Card::Place(Place::Hall),
        Card::every()[17] == Card::Place(Place::Conservatory),
        Card::every()[18] == Card::Place(Place::Kitchen),
{
}

} // verus!
