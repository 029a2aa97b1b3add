use clue_solver::cards::{Card, Person, Place, State, Weapon};
use clue_solver::command::{Command, ItemClass};
use clue_solver::inventory::{Inventory, WeaponInventory};

#[test]
fn every_card_reads_back_from_its_name() {
    let all = Card::all();
    assert_eq!(all.len(), 19);
    for c in all {
        assert_eq!(Card::from_str(c.name()), Some(c));
    }
}

#[test]
fn names_are_the_variant_names() {
    assert_eq!(Weapon::LeadPipe.name(), "LeadPipe");
    assert_eq!(Person::Peacock.name(), "Peacock");
    assert_eq!(Place::DiningRoom.name(), "DiningRoom");
    assert_eq!(Card::Place(Place::Hall).name(), "Hall");
}

#[test]
fn parsing_is_exact_and_case_sensitive() {
    assert_eq!(Weapon::from_str("Rope"), Some(Weapon::Rope));
    assert_eq!(Weapon::from_str("rope"), None);
    assert_eq!(Weapon::from_str("Rope "), None);
    assert_eq!(Weapon::from_str(""), None);
    assert_eq!(Person::from_str("Scarlet"), Some(Person::Scarlet));
    assert_eq!(Person::from_str("Rope"), None);
    assert_eq!(Place::from_str("Kitchen"), Some(Place::Kitchen));
    assert_eq!(Card::from_str("Kitchen"), Some(Card::Place(Place::Kitchen)));
    assert_eq!(Card::from_str("Mustard"), Some(Card::Person(Person::Mustard)));
    assert_eq!(Card::from_str("Dagger"), Some(Card::Weapon(Weapon::Dagger)));
    assert_eq!(Card::from_str("Knife"), None);
}

#[test]
fn lists_follow_the_game_order() {
    assert_eq!(
        Weapon::all(),
        vec![
            Weapon::Rope,
            Weapon::Candlestick,
            Weapon::LeadPipe,
            Weapon::Revolver,
            Weapon::Spanner,
            Weapon::Dagger
        ]
    );
    assert_eq!(Person::all().len(), 6);
    assert_eq!(Place::all().len(), 7);
    assert_eq!(Place::all()[6], Place::Kitchen);
    assert_eq!(Card::all()[6], Card::Person(Person::Green));
    assert_eq!(Card::all()[12], Card::Place(Place::Study));
}

#[test]
fn commands_and_classes() {
    assert_eq!(Command::from_str("interaction"), Some(Command::Interaction));
    assert_eq!(Command::from_str("query"), Some(Command::Query));
    assert_eq!(Command::from_str("print"), Some(Command::Print));
    assert_eq!(Command::from_str("facts"), Some(Command::Facts));
    assert_eq!(Command::from_str("save"), Some(Command::Save));
    assert_eq!(Command::from_str("quit"), None);
    assert_eq!(ItemClass::from_str("weapon"), Some(ItemClass::Weapon));
    assert_eq!(ItemClass::from_str("person"), Some(ItemClass::Person));
    assert_eq!(ItemClass::from_str("place"), Some(ItemClass::Place));
    assert_eq!(ItemClass::from_str("Weapon"), None);
    assert_eq!(
        ItemClass::Person.pick(Weapon::Rope, Person::Plum, Place::Hall),
        Card::Person(Person::Plum)
    );
    assert_eq!(
        ItemClass::Place.pick(Weapon::Rope, Person::Plum, Place::Hall),
        Card::Place(Place::Hall)
    );
}

#[test]
fn inventory_get_and_set() {
    let mut inv: Inventory<State> = Inventory::default();
    assert_eq!(*inv.get(Card::Weapon(Weapon::Spanner)), State::Unknown);
    inv.set(Card::Weapon(Weapon::Spanner), State::Has);
    assert_eq!(*inv.get(Card::Weapon(Weapon::Spanner)), State::Has);
    assert_eq!(*inv.get(Card::Weapon(Weapon::Dagger)), State::Unknown);
    assert_eq!(*inv.get(Card::Person(Person::White)), State::Unknown);
    let mut w = WeaponInventory::filled(3u8);
    w.set(Weapon::Revolver, 7);
    assert_eq!(*w.get(Weapon::Revolver), 7);
    assert_eq!(*w.get(Weapon::Rope), 3);
    assert_eq!(w.revolver, 7);
}
