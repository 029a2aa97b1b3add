use clue_solver::cards::{Card, Person, Place, State, Weapon};
use clue_solver::command::ItemClass;
use clue_solver::deduction::Interaction;
use clue_solver::game::Game;
use clue_solver::inventory::Inventory;

fn names(list: &[&str]) -> Vec<String> {
    list.iter().map(|s| s.to_string()).collect()
}

#[test]
fn new_game_knows_nothing() {
    let g = Game::new(names(&["Me", "Ann", "Bob"]));
    assert_eq!(g.players(), 3);
    for p in 0..3 {
        for c in Card::all() {
            assert_eq!(g.state(p, c), State::Unknown);
        }
    }
    let (w, p, l) = g.available_options();
    assert_eq!(w.len(), 6);
    assert_eq!(p.len(), 6);
    assert_eq!(l.len(), 7);
}

#[test]
fn start_marks_my_hand_empty() {
    let g = Game::start(names(&["Me", "Ann"]));
    for c in Card::all() {
        assert_eq!(g.state(0, c), State::HasNot);
        assert_eq!(g.state(1, c), State::Unknown);
    }
}

#[test]
fn name_lookup() {
    let g = Game::new(names(&["Me", "Ann", "Bob", "Ann"]));
    assert_eq!(g.name_to_index("Ann"), Some(1));
    assert_eq!(g.name_to_index("Bob"), Some(2));
    assert_eq!(g.name_to_index("Me"), Some(0));
    assert_eq!(g.name_to_index("Zed"), None);
    assert_eq!(g.name_to_index("ann"), None);
    assert_eq!(g.index_to_name(0), Some("me"));
    assert_eq!(g.index_to_name(1), Some("Me"));
    assert_eq!(g.index_to_name(2), Some("Ann"));
    assert_eq!(g.index_to_name(4), Some("Ann"));
    assert_eq!(g.index_to_name(5), None);
}

#[test]
fn name_lookup_round_trip() {
    let g = Game::new(names(&["Me", "Ann", "Bob"]));
    for n in ["Me", "Ann", "Bob"] {
        let i = g.name_to_index(n).unwrap();
        assert_eq!(g.index_to_name(i + 1), Some(n));
    }
}

#[test]
fn others_skips_the_given_player() {
    let g = Game::new(names(&["A", "B", "C", "D"]));
    assert_eq!(g.others(0), vec![1, 2, 3]);
    assert_eq!(g.others(1), vec![0, 2, 3]);
    assert_eq!(g.others(3), vec![0, 1, 2]);
    assert_eq!(g.others(7), vec![0, 1, 2]);
    let one = Game::new(names(&["A"]));
    assert_eq!(one.others(0), Vec::<usize>::new());
}

#[test]
fn between_follows_seating() {
    let g = Game::new(names(&["A", "B", "C", "D"]));
    assert_eq!(g.between(1, 1), Some(vec![2, 3, 0]));
    assert_eq!(g.between(0, 0), Some(vec![1, 2, 3]));
    assert_eq!(g.between(3, 1), Some(vec![]));
    assert_eq!(g.between(1, 3), Some(vec![2, 3]));
    assert_eq!(g.between(0, 2), Some(vec![1, 2, 3]));
    assert_eq!(g.between(4, 4), Some(vec![0, 1, 2, 3]));
    assert_eq!(g.between(5, 0), None);
    assert_eq!(g.between(0, 5), None);
    for from in 0..4 {
        for to in 0..4 {
            for i in g.between(from, to).unwrap() {
                assert!(i < 4);
                assert_ne!(i, from);
            }
        }
    }
}

#[test]
fn marking_a_card_absent() {
    let mut g = Game::new(names(&["A", "B"]));
    g.weapon_mark_has_not(1, Weapon::Dagger);
    g.person_mark_has_not(0, Person::White);
    g.place_mark_has_not(1, Place::Library);
    assert_eq!(g.state(1, Card::Weapon(Weapon::Dagger)), State::HasNot);
    assert_eq!(g.state(0, Card::Weapon(Weapon::Dagger)), State::Unknown);
    assert_eq!(g.state(0, Card::Person(Person::White)), State::HasNot);
    assert_eq!(g.state(1, Card::Place(Place::Library)), State::HasNot);
    assert_eq!(g.state(1, Card::Place(Place::Study)), State::Unknown);
}

#[test]
fn a_held_card_has_a_single_holder() {
    let mut g = Game::new(names(&["A", "B", "C"]));
    g.add_person_to_inv(1, Person::Plum);
    assert_eq!(g.state(1, Card::Person(Person::Plum)), State::Has);
    assert_eq!(g.state(0, Card::Person(Person::Plum)), State::HasNot);
    assert_eq!(g.state(2, Card::Person(Person::Plum)), State::HasNot);
    assert_eq!(g.state(1, Card::Person(Person::Green)), State::Unknown);
    g.add_weapon_to_inv(2, Weapon::Rope);
    g.add_place_to_inv(0, Place::Hall);
    g.add_card_to_inv(0, Card::Weapon(Weapon::Dagger));
    assert_eq!(g.state(2, Card::Weapon(Weapon::Rope)), State::Has);
    assert_eq!(g.state(1, Card::Weapon(Weapon::Rope)), State::HasNot);
    assert_eq!(g.state(0, Card::Place(Place::Hall)), State::Has);
    assert_eq!(g.state(2, Card::Place(Place::Hall)), State::HasNot);
    assert_eq!(g.state(0, Card::Weapon(Weapon::Dagger)), State::Has);
    assert_eq!(g.state(2, Card::Weapon(Weapon::Dagger)), State::HasNot);
    // a later assignment overrides an earlier holder
    g.add_person_to_inv(2, Person::Plum);
    assert_eq!(g.state(1, Card::Person(Person::Plum)), State::HasNot);
    assert_eq!(g.state(2, Card::Person(Person::Plum)), State::Has);
}

#[test]
fn options_leave_out_held_cards() {
    let mut g = Game::new(names(&["A", "B"]));
    g.add_weapon_to_inv(0, Weapon::Candlestick);
    g.add_person_to_inv(1, Person::Green);
    g.place_mark_has_not(0, Place::Hall);
    let (w, p, l) = g.available_options();
    assert_eq!(
        w,
        vec![Weapon::Rope, Weapon::LeadPipe, Weapon::Revolver, Weapon::Spanner, Weapon::Dagger]
    );
    assert_eq!(
        p,
        vec![Person::White, Person::Plum, Person::Scarlet, Person::Mustard, Person::Peacock]
    );
    assert_eq!(l.len(), 7);
}

#[test]
fn interaction_marks_the_players_between() {
    let mut g = Game::new(names(&["A", "B", "C", "D"]));
    g.add_interaction(Interaction::new(1, 1, Weapon::Rope, Person::Plum, Place::Hall));
    for p in [2, 3, 0] {
        assert_eq!(g.state(p, Card::Weapon(Weapon::Rope)), State::HasNot);
        assert_eq!(g.state(p, Card::Person(Person::Plum)), State::HasNot);
        assert_eq!(g.state(p, Card::Place(Place::Hall)), State::HasNot);
    }
    assert_eq!(g.state(1, Card::Weapon(Weapon::Rope)), State::Unknown);
    assert_eq!(g.state(1, Card::Person(Person::Plum)), State::Unknown);
}

#[test]
fn interaction_from_later_seat_marks_nobody() {
    let mut g = Game::new(names(&["A", "B", "C", "D"]));
    g.add_interaction(Interaction::new(3, 1, Weapon::Rope, Person::Plum, Place::Hall));
    for p in 0..4 {
        assert_eq!(g.state(p, Card::Weapon(Weapon::Rope)), State::Unknown);
    }
}

#[test]
fn interaction_from_earlier_seat_marks_to_the_end() {
    let mut g = Game::new(names(&["A", "B", "C", "D"]));
    g.add_interaction(Interaction::new(0, 2, Weapon::Rope, Person::Plum, Place::Hall));
    for p in [1, 2, 3] {
        assert_eq!(g.state(p, Card::Place(Place::Hall)), State::HasNot);
    }
    assert_eq!(g.state(0, Card::Place(Place::Hall)), State::Unknown);
}

#[test]
fn elimination_assigns_the_last_possible_card() {
    let mut g = Game::new(names(&["Me", "A", "B"]));
    g.person_mark_has_not(1, Person::Green);
    g.place_mark_has_not(1, Place::Study);
    g.add_interaction(Interaction::new(2, 1, Weapon::Rope, Person::Green, Place::Study));
    assert_eq!(g.state(1, Card::Weapon(Weapon::Rope)), State::Has);
    assert_eq!(g.state(0, Card::Weapon(Weapon::Rope)), State::HasNot);
    assert_eq!(g.state(2, Card::Weapon(Weapon::Rope)), State::HasNot);
}

#[test]
fn elimination_repeats_until_nothing_changes() {
    let mut g = Game::new(names(&["Me", "A", "B", "C"]));
    g.place_mark_has_not(1, Place::Hall);
    g.person_mark_has_not(2, Person::Green);
    g.place_mark_has_not(2, Place::Study);
    g.add_interaction(Interaction::new(3, 1, Weapon::Rope, Person::Plum, Place::Hall));
    assert_eq!(g.state(1, Card::Person(Person::Plum)), State::Unknown);
    g.add_interaction(Interaction::new(3, 2, Weapon::Rope, Person::Green, Place::Study));
    // the second suggestion gives B the rope, which then gives A the suspect
    assert_eq!(g.state(2, Card::Weapon(Weapon::Rope)), State::Has);
    assert_eq!(g.state(1, Card::Weapon(Weapon::Rope)), State::HasNot);
    assert_eq!(g.state(1, Card::Person(Person::Plum)), State::Has);
    assert_eq!(g.state(0, Card::Person(Person::Plum)), State::HasNot);
    assert_eq!(g.state(3, Card::Person(Person::Plum)), State::HasNot);
    let (w, p, l) = g.available_options();
    assert!(!w.contains(&Weapon::Rope));
    assert!(!p.contains(&Person::Plum));
    assert_eq!(l.len(), 7);
    // a further pass changes nothing
    let before = g.parts().1;
    g.conduct_elimination();
    let after = g.parts().1;
    for i in 0..4 {
        for c in Card::all() {
            assert_eq!(*before[i].get(c), *after[i].get(c));
        }
    }
}

#[test]
fn elimination_ignores_suggestions_answered_by_the_asker() {
    let mut g = Game::new(names(&["Me", "A"]));
    g.person_mark_has_not(0, Person::Green);
    g.place_mark_has_not(0, Place::Study);
    g.add_interaction(Interaction::new(0, 0, Weapon::Rope, Person::Green, Place::Study));
    assert_eq!(g.state(0, Card::Weapon(Weapon::Rope)), State::Unknown);
    assert_eq!(g.state(1, Card::Weapon(Weapon::Rope)), State::HasNot);
}

#[test]
fn query_records_the_shown_card() {
    let mut h = Game::start(names(&["Me", "A", "B"]));
    h.record_query(0, Weapon::Spanner, Person::White, Place::Kitchen, ItemClass::Weapon);
    assert_eq!(h.state(0, Card::Weapon(Weapon::Spanner)), State::Has);
    assert_eq!(h.state(1, Card::Weapon(Weapon::Spanner)), State::HasNot);
    assert_eq!(h.state(2, Card::Weapon(Weapon::Spanner)), State::HasNot);

    let mut g = Game::start(names(&["Me", "A", "B"]));
    g.record_query(2, Weapon::Spanner, Person::White, Place::Kitchen, ItemClass::Place);
    assert_eq!(g.state(1, Card::Place(Place::Kitchen)), State::HasNot);
    // the suggestion from seat 0 marks everyone after it to the end of the
    // table, the answerer too, so the shown card ends up marked absent
    assert_eq!(g.state(2, Card::Place(Place::Kitchen)), State::HasNot);
    assert_eq!(g.state(1, Card::Weapon(Weapon::Spanner)), State::HasNot);
    assert_eq!(g.state(2, Card::Person(Person::White)), State::HasNot);
    assert_eq!(g.parts().2.len(), 1);
}

#[test]
fn knowledge_is_never_lost() {
    let mut g = Game::start(names(&["Me", "A", "B"]));
    g.add_weapon_to_inv(1, Weapon::Rope);
    g.add_interaction(Interaction::new(2, 1, Weapon::Rope, Person::Plum, Place::Hall));
    g.add_interaction(Interaction::new(1, 1, Weapon::Dagger, Person::Plum, Place::Hall));
    for p in 0..3 {
        for c in Card::all() {
            if p == 0 {
                assert_ne!(g.state(p, c), State::Unknown);
            }
        }
    }
    assert_ne!(g.state(1, Card::Weapon(Weapon::Rope)), State::Unknown);
}

#[test]
fn parts_and_restore() {
    let mut g = Game::new(names(&["Me", "A", "B"]));
    g.add_interaction(Interaction::new(2, 1, Weapon::Rope, Person::Plum, Place::Hall));
    let (n, i, l) = g.parts();
    assert_eq!(n, names(&["Me", "A", "B"]));
    assert_eq!(l.len(), 1);
    let h = Game::restore(n.clone(), i.clone(), l.clone()).unwrap();
    assert_eq!(h.players(), 3);
    assert_eq!(h.name_to_index("B"), Some(2));
    assert!(Game::restore(names(&["Me"]), i.clone(), l.clone()).is_none());
    let bad = vec![Interaction::new(0, 3, Weapon::Rope, Person::Plum, Place::Hall)];
    assert!(Game::restore(n.clone(), i.clone(), bad).is_none());
    let same = vec![Interaction::new(9, 9, Weapon::Rope, Person::Plum, Place::Hall)];
    assert!(Game::restore(n.clone(), i.clone(), same).is_some());
    let empty: Vec<Inventory<State>> = Vec::new();
    assert!(Game::restore(Vec::new(), empty, Vec::new()).is_some());
}
