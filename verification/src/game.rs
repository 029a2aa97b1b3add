//! The table: the players' names, what is known of their hands, and the
//! record of suggestions made so far.

use vstd::prelude::*;

use crate::cards::{lemma_every_card_listed, same_text, Card, Person, Place, State, Weapon};
use crate::command::ItemClass;
use crate::deduction::{
    after_interaction, assign, between_seq, lemma_between_seating, fits, held, lemma_between_excludes_asker,
    lemma_mark_absent_idempotent, lemma_offered_exactly, lemma_pass, lemma_settle_conclusions, keeps_has_not, nothing_forced,
    holders_forced, lemma_settle, mark_absent, mark_between,
    no_new_unknown, others_seq, pass, settle, span, step, unknowns, Interaction,
};
use crate::inventory::{lemma_at_with, lemma_inventory_ext, lemma_uniform_at, Inventory};

verus! {

broadcast use lemma_at_with, lemma_uniform_at;

/// `i` is the first seat at which the name `s` is found.
pub open spec fn is_first_index(names: Seq<Seq<char>>, s: Seq<char>, i: int) -> bool {
    &&& 0 <= i < names.len()
    &&& names[i] == s
    &&& forall|j: int| 0 <= j < i ==> names[j] != s
}

/// The name read for `val`: 0 is "me", and `val` from 1 up to the number of
/// players is the name seated at `val - 1`.
pub open spec fn name_at(names: Seq<Seq<char>>, val: int) -> Option<Seq<char>> {
    if val == 0 {
        Some("me"@)
    } else if 1 <= val <= names.len() {
        Some(names[val - 1])
    } else {
        None
    }
}

/// The state of one game. Player 0 is the one who keeps the record.
#[derive(Clone, Debug)]
pub struct Game {
    names_invs: Vec<(String, Inventory<State>)>,
    interactions: Vec<Interaction>,
}

impl Game {
    /// The players' names, in seating order.
    pub closed spec fn names(self) -> Seq<Seq<char>> {
        self.names_invs@.map_values(|e: (String, Inventory<State>)| e.0@)
    }

    /// What is known of each player's hand.
    pub closed spec fn invs(self) -> Seq<Inventory<State>> {
        self.names_invs@.map_values(|e: (String, Inventory<State>)| e.1)
    }

    /// The suggestions recorded so far, oldest first.
    pub closed spec fn log(self) -> Seq<Interaction> {
        self.interactions@
    }

    /// Every recorded suggestion whose two players differ was answered by a
    /// player at the table (and the table is shorter than the largest
    /// index).
    pub closed spec fn wf(self) -> bool {
        &&& fits(self.log(), self.invs().len())
        &&& self.invs().len() < usize::MAX
    }

    proof fn lemma_views(self)
        ensures
            self.names().len() == self.invs().len(),
            self.invs().len() == self.names_invs@.len(),
            forall|j: int|
                0 <= j < self.names_invs@.len() ==> #[trigger] self.invs()[j]
                    == self.names_invs@[j].1 && self.names()[j] == self.names_invs@[j].0@,
    {
    }

    /// A table of the named players, nothing known of any hand, and an
    /// empty record.
    pub fn new(names: Vec<String>) -> (g: Game)
        requires
            names.len() < usize::MAX,
        ensures
            g.wf(),
            g.names() == names@.map_values(|s: String| s@),
            g.invs() == Seq::new(names.len() as nat, |i: int| Inventory::uniform(State::Unknown)),
            g.log() == Seq::<Interaction>::empty(),
    {
        let mut names_invs: Vec<(String, Inventory<State>)> = Vec::new();
        let mut i: usize = 0;
        while i < names.len()
            invariant
                i <= names.len(),
                names_invs@.len() == i,
                forall|j: int|
                    0 <= j < i ==> (#[trigger] names_invs@[j]).0@ == names@[j]@ && names_invs@[j].1
                        == Inventory::uniform(State::Unknown),
            decreases names.len() - i,
        {
            let name = names[i].clone();
            names_invs.push((name, Inventory::default()));
            i += 1;
        }
        let g = Game { names_invs, interactions: Vec::new() };
        assert(g.names() =~= names@.map_values(|s: String| s@));
        assert(g.invs() =~= Seq::new(names.len() as nat, |i: int| Inventory::uniform(State::Unknown)));
        g
    }

    /// The number of players.
    pub fn players(&self) -> (r: usize)
        ensures
            r == self.invs().len(),
    {
        self.names_invs.len()
    }

    /// Records state `s` for card `c` in player `i`'s hand.
    fn set_card(&mut self, i: usize, c: Card, s: State)
        requires
            old(self).wf(),
            i < old(self).invs().len(),
        ensures
            final(self).wf(),
            final(self).names() == old(self).names(),
            final(self).log() == old(self).log(),
            final(self).invs() == old(self).invs().update(i as int, old(self).invs()[i as int].with(c, s)),
    {
        proof {
            old(self).lemma_views();
        }
        self.names_invs[i].1.set(c, s);
        proof {
            self.lemma_views();
            assert(self.names() =~= old(self).names());
            assert(self.invs() =~= old(self).invs().update(i as int, old(self).invs()[i as int].with(c, s)));
        }
    }

    /// Player `inv` is known not to hold `item`.
    pub fn weapon_mark_has_not(&mut self, inv: usize, item: Weapon)
        requires
            old(self).wf(),
            inv < old(self).invs().len(),
        ensures
            final(self).wf(),
            final(self).names() == old(self).names(),
            final(self).log() == old(self).log(),
            final(self).invs() == old(self).invs().update(
                inv as int,
                old(self).invs()[inv as int].with(Card::Weapon(item), State::HasNot),
            ),
    {
        self.set_card(inv, Card::Weapon(item), State::HasNot)
    }

    /// Player `inv` is known not to hold `item`.
    pub fn person_mark_has_not(&mut self, inv: usize, item: Person)
        requires
            old(self).wf(),
            inv < old(self).invs().len(),
        ensures
            final(self).wf(),
            final(self).names() == old(self).names(),
            final(self).log() == old(self).log(),
            final(self).invs() == old(self).invs().update(
                inv as int,
                old(self).invs()[inv as int].with(Card::Person(item), State::HasNot),
            ),
    {
        self.set_card(inv, Card::Person(item), State::HasNot)
    }

    /// Player `inv` is known not to hold `item`.
    pub fn place_mark_has_not(&mut self, inv: usize, item: Place)
        requires
            old(self).wf(),
            inv < old(self).invs().len(),
        ensures
            final(self).wf(),
            final(self).names() == old(self).names(),
            final(self).log() == old(self).log(),
            final(self).invs() == old(self).invs().update(
                inv as int,
                old(self).invs()[inv as int].with(Card::Place(item), State::HasNot),
            ),
    {
        self.set_card(inv, Card::Place(item), State::HasNot)
    }

    /// The players other than `idx`, in order: one fewer than the table,
    /// counting on past `idx`.
    pub fn others(&self, idx: usize) -> (r: Vec<usize>)
        requires
            self.invs().len() >= 1,
        ensures
            r@ == others_seq(self.invs().len(), idx),
    {
        proof {
            self.lemma_views();
        }
        let n = self.players() - 1;
        let mut v: Vec<usize> = Vec::new();
        let mut above = false;
        let mut index: usize = 0;
        while index < n
            invariant
                n == self.invs().len() - 1,
                index <= n,
                above == (idx < index),
                v@ =~= others_seq(self.invs().len(), idx).take(index as int),
            decreases n - index,
        {
            if index == idx {
                above = true;
            }
            let x: usize = if above {
                index + 1
            } else {
                index
            };
            v.push(x);
            index += 1;
        }
        v
    }

    /// Player `inv` holds card `c`, so every other player does not.
    fn assign_card(&mut self, inv: usize, c: Card)
        requires
            old(self).wf(),
            inv < old(self).invs().len(),
        ensures
            final(self).wf(),
            final(self).names() == old(self).names(),
            final(self).log() == old(self).log(),
            final(self).invs() == assign(old(self).invs(), inv as int, c),
    {
        let ghost before = self.invs();
        let ghost n = before.len();
        self.set_card(inv, c, State::Has);
        let others = self.others(inv);
        let mut k: usize = 0;
        while k < others.len()
            invariant
                self.wf(),
                self.names() == old(self).names(),
                self.log() == old(self).log(),
                before == old(self).invs(),
                n == before.len(),
                inv < n,
                self.invs().len() == n,
                others@ == others_seq(n, inv),
                k <= others@.len(),
                forall|j: int|
                    0 <= j < n ==> #[trigger] self.invs()[j] == if j == inv {
                        before[j].with(c, State::Has)
                    } else if (j < inv && j < k) || (j > inv && j <= k) {
                        before[j].with(c, State::HasNot)
                    } else {
                        before[j]
                    },
            decreases others@.len() - k,
        {
            let i = others[k];
            self.set_card(i, c, State::HasNot);
            k += 1;
        }
        assert(self.invs() =~= assign(before, inv as int, c));
    }

    /// Player `inv` holds `weapon`, so every other player does not.
    pub fn add_weapon_to_inv(&mut self, inv: usize, weapon: Weapon)
        requires
            old(self).wf(),
            inv < old(self).invs().len(),
        ensures
            final(self).wf(),
            final(self).names() == old(self).names(),
            final(self).log() == old(self).log(),
            final(self).invs() == assign(old(self).invs(), inv as int, Card::Weapon(weapon)),
    {
        self.assign_card(inv, Card::Weapon(weapon))
    }

    /// Player `inv` holds `person`, so every other player does not.
    pub fn add_person_to_inv(&mut self, inv: usize, person: Person)
        requires
            old(self).wf(),
            inv < old(self).invs().len(),
        ensures
            final(self).wf(),
            final(self).names() == old(self).names(),
            final(self).log() == old(self).log(),
            final(self).invs() == assign(old(self).invs(), inv as int, Card::Person(person)),
    {
        self.assign_card(inv, Card::Person(person))
    }

    /// Player `inv` holds `place`, so every other player does not.
    pub fn add_place_to_inv(&mut self, inv: usize, place: Place)
        requires
            old(self).wf(),
            inv < old(self).invs().len(),
        ensures
            final(self).wf(),
            final(self).names() == old(self).names(),
            final(self).log() == old(self).log(),
            final(self).invs() == assign(old(self).invs(), inv as int, Card::Place(place)),
    {
        self.assign_card(inv, Card::Place(place))
    }

    /// Player `inv` holds card `c`, whichever list it is from.
    pub fn add_card_to_inv(&mut self, inv: usize, c: Card)
        requires
            old(self).wf(),
            inv < old(self).invs().len(),
        ensures
            final(self).wf(),
            final(self).names() == old(self).names(),
            final(self).log() == old(self).log(),
            final(self).invs() == assign(old(self).invs(), inv as int, c),
    {
        match c {
            Card::Weapon(w) => self.add_weapon_to_inv(inv, w),
            Card::Person(p) => self.add_person_to_inv(inv, p),
            Card::Place(l) => self.add_place_to_inv(inv, l),
        }
    }

    /// Pushes `lo`, `lo + 1`, ..., `hi - 1` onto `v`.
    fn push_span(v: &mut Vec<usize>, lo: usize, hi: usize)
        ensures
            final(v)@ == old(v)@ + span(lo as int, hi as int),
    {
        let mut i = lo;
        while i < hi
            invariant
                lo <= i <= hi || (hi < lo && i == lo),
                v@ =~= old(v)@ + span(lo as int, i as int),
            decreases hi - i,
        {
            v.push(i);
            i += 1;
        }
        assert(v@ =~= old(v)@ + span(lo as int, hi as int));
    }

    /// The players who, by seating order, are shown by a suggestion from
    /// `from` answered by `to` to hold none of its cards; `None` where
    /// either player is past the end of the table.
    pub fn between(&self, from: usize, to: usize) -> (r: Option<Vec<usize>>)
        requires
            self.wf(),
        ensures
            r is None <==> (from > self.invs().len() || to > self.invs().len()),
            r matches Some(v) ==> v@ == between_seq(from, to, self.invs().len()),
            r matches Some(v) ==> (to < from ==> v@.len() == 0),
            r matches Some(v) ==> (from < to ==> v@.len() == self.invs().len() - from - 1
                && forall|k: int| 0 <= k < v@.len() ==> v@[k] == from + 1 + k),
    {
        proof {
            self.lemma_views();
        }
        let n = self.players();
        if from > n || to > n {
            return None;
        }
        let mut v: Vec<usize> = Vec::new();
        if from == to {
            Self::push_span(&mut v, from + 1, n);
            Self::push_span(&mut v, 0, from);
        } else if from > to {
            Self::push_span(&mut v, from + 1, to);
            Self::push_span(&mut v, 0, 0);
        } else {
            Self::push_span(&mut v, from + 1, n);
            Self::push_span(&mut v, n, to);
        }
        assert(v@ =~= between_seq(from, to, n as nat));
        proof {
            lemma_between_seating(from, to, n as nat);
        }
        Some(v)
    }

    /// Records suggestion `interaction`: the players between hold none of its three
    /// cards; then the deductions are drawn again from the whole record.
    pub fn add_interaction(&mut self, interaction: Interaction)
        requires
            old(self).wf(),
            interaction.from <= old(self).invs().len(),
            interaction.to <= old(self).invs().len(),
            interaction.from != interaction.to ==> interaction.to < old(self).invs().len(),
        ensures
            final(self).wf(),
            final(self).names() == old(self).names(),
            final(self).log() == old(self).log().push(interaction),
            final(self).invs() == after_interaction(old(self).invs(), old(self).log(), interaction),
    {
        let ghost before = self.invs();
        let ghost n = before.len();
        proof {
            self.lemma_views();
        }
        let between = self.between(interaction.from, interaction.to).unwrap();
        let mut k: usize = 0;
        while k < between.len()
            invariant
                self.wf(),
                self.names() == old(self).names(),
                self.log() == old(self).log(),
                before == old(self).invs(),
                n == before.len(),
                n <= usize::MAX,
                interaction.from <= n,
                interaction.to <= n,
                between@ == between_seq(interaction.from, interaction.to, n),
                k <= between@.len(),
                self.invs() == mark_between(before, between@.take(k as int), interaction),
            decreases between@.len() - k,
        {
            let i = between[k];
            proof {
                lemma_between_excludes_asker(interaction.from, interaction.to, n, k as int);
            }
            self.weapon_mark_has_not(i, interaction.weapon);
            self.person_mark_has_not(i, interaction.person);
            self.place_mark_has_not(i, interaction.place);
            proof {
                reveal_with_fuel(Seq::filter, 1);
                let t = between@.take(k as int);
                let t1 = between@.take(k + 1);
                assert(t1 =~= t.push(i));
                lemma_mark_absent_idempotent(before[i as int], interaction);
                assert forall|j: int| 0 <= j < n implies #[trigger] self.invs()[j]
                    == mark_between(before, t1, interaction)[j] by {
                    if j == i {
                        assert(t1[k as int] == i);
                        lemma_inventory_ext(
                            self.invs()[j],
                            mark_absent(mark_between(before, t, interaction)[j], interaction),
                        );
                    } else {
                        assert(t1.contains(j as usize) == t.contains(j as usize));
                    }
                }
                assert(self.invs() =~= mark_between(before, t1, interaction));
            }
            k += 1;
        }
        assert(between@.take(between@.len() as int) =~= between@);
        self.interactions.push(interaction);
        proof {
            assert(self.log() =~= old(self).log().push(interaction));
            assert forall|k: int|
                0 <= k < self.log().len() && (#[trigger] self.log()[k]).from != self.log()[k].to implies self.log()[k].to < n by {
                if k < old(self).log().len() {
                    assert(self.log()[k] == old(self).log()[k]);
                }
            }
        }
        self.conduct_elimination();
    }

    /// Draws every deduction the record allows: passes over the record,
    /// assigning a card wherever the answering player is known to hold
    /// neither of the two others and nothing is known of it, until a pass
    /// assigns nothing.
    pub fn conduct_elimination(&mut self)
        requires
            old(self).wf(),
        ensures
            final(self).wf(),
            final(self).names() == old(self).names(),
            final(self).log() == old(self).log(),
            final(self).invs() == settle(old(self).invs(), old(self).log()),
            no_new_unknown(old(self).invs(), final(self).invs()),
            forall|k: int|
                0 <= k < final(self).log().len() ==> #[trigger] step(
                    final(self).invs(),
                    final(self).log()[k],
                ).1 == 0,
            nothing_forced(final(self).invs(), final(self).log()),
            keeps_has_not(old(self).invs(), final(self).invs()),
            holders_forced(old(self).invs(), final(self).invs(), final(self).log()),
    {
        let ghost log = self.log();
        let ghost target = settle(self.invs(), log);
        proof {
            lemma_settle(self.invs(), log);
        }
        loop
            invariant
                self.wf(),
                self.names() == old(self).names(),
                self.log() == log,
                log == old(self).log(),
                target == settle(old(self).invs(), log),
                settle(self.invs(), log) == target,
                self.invs().len() == old(self).invs().len(),
            ensures
                self.wf(),
                self.names() == old(self).names(),
                self.log() == log,
                self.invs() == target,
            decreases unknowns(self.invs()),
        {
            let ghost before = self.invs();
            let count = self.interactions.len();
            let mut mod_count: usize = 0;
            let mut k: usize = 0;
            while k < count
                invariant
                    self.wf(),
                    self.names() == old(self).names(),
                    self.log() == log,
                    count == log.len(),
                    k <= count,
                    mod_count <= k,
                    self.invs() == pass(before, log.take(k as int)).0,
                    mod_count == pass(before, log.take(k as int)).1,
                decreases count - k,
            {
                let it = self.interactions[k];
                proof {
                    self.lemma_views();
                    assert(log.take(k + 1).drop_last() =~= log.take(k as int));
                    assert(log.take(k + 1).last() == it);
                    assert(log[k as int] == it);
                }
                if it.to != it.from {
                    let w = *self.names_invs[it.to].1.get(Card::Weapon(it.weapon));
                    let p = *self.names_invs[it.to].1.get(Card::Person(it.person));
                    let l = *self.names_invs[it.to].1.get(Card::Place(it.place));
                    match (w, p, l) {
                        (State::Unknown, State::HasNot, State::HasNot) => {
                            self.add_weapon_to_inv(it.to, it.weapon);
                            mod_count += 1;
                        },
                        (State::HasNot, State::Unknown, State::HasNot) => {
                            self.add_person_to_inv(it.to, it.person);
                            mod_count += 1;
                        },
                        (State::HasNot, State::HasNot, State::Unknown) => {
                            self.add_place_to_inv(it.to, it.place);
                            mod_count += 1;
                        },
                        _ => {},
                    }
                }
                k += 1;
            }
            proof {
                assert(log.take(count as int) =~= log);
                lemma_pass(before, log);
            }
            if mod_count == 0 {
                break;
            }
        }
        proof {
            let s0 = old(self).invs();
            lemma_settle(s0, log);
            lemma_settle_conclusions(s0, log);
        }
    }

    /// The seat of the first player named `name`, if any.
    pub fn name_to_index(&self, name: &str) -> (r: Option<usize>)
        ensures
            r matches Some(i) ==> is_first_index(self.names(), name@, i as int),
            r is None ==> forall|j: int| 0 <= j < self.names().len() ==> self.names()[j] != name@,
    {
        proof {
            self.lemma_views();
        }
        let mut index: usize = 0;
        while index < self.names_invs.len()
            invariant
                index <= self.names_invs@.len(),
                forall|j: int| 0 <= j < index ==> self.names()[j] != name@,
            decreases self.names_invs@.len() - index,
        {
            if same_text(name, self.names_invs[index].0.as_str()) {
                return Some(index);
            }
            index += 1;
        }
        None
    }

    /// The name read for `val`: 0 is "me", and `val` from 1 up to the number
    /// of players is the name seated at `val - 1`.
    pub fn index_to_name(&self, val: usize) -> (r: Option<&str>)
        ensures
            r is Some <==> name_at(self.names(), val as int) is Some,
            r matches Some(s) ==> name_at(self.names(), val as int) == Some(s@),
            val == 0 ==> (r matches Some(s) && s@ == "me"@),
            1 <= val <= self.names().len() ==> (r matches Some(s) && s@ == self.names()[val - 1]),
            val > self.names().len() ==> r is None,
    {
        proof {
            self.lemma_views();
        }
        if val == 0 {
            Some("me")
        } else if val <= self.players() {
            Some(self.names_invs[val - 1].0.as_str())
        } else {
            None
        }
    }

    /// Whether some player is known to hold card `c`.
    fn someone_has(&self, c: Card) -> (r: bool)
        ensures
            r == held(self.invs(), c),
    {
        proof {
            self.lemma_views();
        }
        let mut i: usize = 0;
        while i < self.names_invs.len()
            invariant
                i <= self.names_invs@.len(),
                forall|j: int| 0 <= j < i ==> (#[trigger] self.invs()[j]).at(c) != State::Has,
            decreases self.names_invs@.len() - i,
        {
            if *self.names_invs[i].1.get(c) == State::Has {
                assert(self.invs()[i as int].at(c) == State::Has);
                return true;
            }
            i += 1;
        }
        false
    }

    /// The cards nobody is known to hold, each list in its own order: the
    /// weapons, suspects and rooms that may still be in the envelope.
    pub fn available_options(&self) -> (r: (Vec<Weapon>, Vec<Person>, Vec<Place>))
        ensures
            r.0@ == Weapon::every().filter(|w: Weapon| !held(self.invs(), Card::Weapon(w))),
            r.1@ == Person::every().filter(|p: Person| !held(self.invs(), Card::Person(p))),
            r.2@ == Place::every().filter(|l: Place| !held(self.invs(), Card::Place(l))),
            forall|w: Weapon|
                r.0@.contains(w) == forall|i: int|
                    0 <= i < self.invs().len() ==> self.invs()[i].at(Card::Weapon(w)) != State::Has,
            forall|p: Person|
                r.1@.contains(p) == forall|i: int|
                    0 <= i < self.invs().len() ==> self.invs()[i].at(Card::Person(p)) != State::Has,
            forall|l: Place|
                r.2@.contains(l) == forall|i: int|
                    0 <= i < self.invs().len() ==> self.invs()[i].at(Card::Place(l)) != State::Has,
    {
        let ghost invs = self.invs();
        let all_weapons = Weapon::all();
        let mut weapons: Vec<Weapon> = Vec::new();
        let mut k: usize = 0;
        while k < all_weapons.len()
            invariant
                invs == self.invs(),
                all_weapons@ == Weapon::every(),
                k <= all_weapons@.len(),
                weapons@ == Weapon::every().take(k as int).filter(
                    |w: Weapon| !held(invs, Card::Weapon(w)),
                ),
            decreases all_weapons@.len() - k,
        {
            let w = all_weapons[k];
            let ghost pred = |x: Weapon| !held(invs, Card::Weapon(x));
            let ghost before = weapons@;
            let keep = !self.someone_has(Card::Weapon(w));
            if keep {
                weapons.push(w);
            }
            proof {
                reveal_with_fuel(Seq::filter, 1);
                let t = Weapon::every().take(k + 1);
                assert(t.drop_last() =~= Weapon::every().take(k as int));
                assert(t.last() == w);
                assert(pred(w) == keep);
                assert(t.filter(pred) == if pred(t.last()) {
                    t.drop_last().filter(pred).push(t.last())
                } else {
                    t.drop_last().filter(pred)
                });
            }
            k += 1;
        }
        assert(Weapon::every().take(all_weapons@.len() as int) =~= Weapon::every());
        let all_people = Person::all();
        let mut people: Vec<Person> = Vec::new();
        let mut k: usize = 0;
        while k < all_people.len()
            invariant
                invs == self.invs(),
                all_people@ == Person::every(),
                k <= all_people@.len(),
                people@ == Person::every().take(k as int).filter(
                    |p: Person| !held(invs, Card::Person(p)),
                ),
            decreases all_people@.len() - k,
        {
            let p = all_people[k];
            let ghost pred = |x: Person| !held(invs, Card::Person(x));
            let ghost before = people@;
            let keep = !self.someone_has(Card::Person(p));
            if keep {
                people.push(p);
            }
            proof {
                reveal_with_fuel(Seq::filter, 1);
                let t = Person::every().take(k + 1);
                assert(t.drop_last() =~= Person::every().take(k as int));
                assert(t.last() == p);
                assert(pred(p) == keep);
                assert(t.filter(pred) == if pred(t.last()) {
                    t.drop_last().filter(pred).push(t.last())
                } else {
                    t.drop_last().filter(pred)
                });
            }
            k += 1;
        }
        assert(Person::every().take(all_people@.len() as int) =~= Person::every());
        let all_places = Place::all();
        let mut places: Vec<Place> = Vec::new();
        let mut k: usize = 0;
        while k < all_places.len()
            invariant
                invs == self.invs(),
                all_places@ == Place::every(),
                k <= all_places@.len(),
                places@ == Place::every().take(k as int).filter(
                    |l: Place| !held(invs, Card::Place(l)),
                ),
            decreases all_places@.len() - k,
        {
            let l = all_places[k];
            let ghost pred = |x: Place| !held(invs, Card::Place(x));
            let ghost before = places@;
            let keep = !self.someone_has(Card::Place(l));
            if keep {
                places.push(l);
            }
            proof {
                reveal_with_fuel(Seq::filter, 1);
                let t = Place::every().take(k + 1);
                assert(t.drop_last() =~= Place::every().take(k as int));
                assert(t.last() == l);
                assert(pred(l) == keep);
                assert(t.filter(pred) == if pred(t.last()) {
                    t.drop_last().filter(pred).push(t.last())
                } else {
                    t.drop_last().filter(pred)
                });
            }
            k += 1;
        }
        assert(Place::every().take(all_places@.len() as int) =~= Place::every());
        proof {
            assert forall|w: Weapon|
                weapons@.contains(w) == forall|i: int|
                    0 <= i < invs.len() ==> invs[i].at(Card::Weapon(w)) != State::Has by {
                lemma_offered_exactly(invs, Card::Weapon(w));
            }
            assert forall|p: Person|
                people@.contains(p) == forall|i: int|
                    0 <= i < invs.len() ==> invs[i].at(Card::Person(p)) != State::Has by {
                lemma_offered_exactly(invs, Card::Person(p));
            }
            assert forall|l: Place|
                places@.contains(l) == forall|i: int|
                    0 <= i < invs.len() ==> invs[i].at(Card::Place(l)) != State::Has by {
                lemma_offered_exactly(invs, Card::Place(l));
            }
        }
        (weapons, people, places)
    }

    /// A table of the named players where the first, the one keeping the
    /// record, is known to hold none of the cards (the cards in hand are
    /// entered afterwards), nothing is known of the others, and the record
    /// is empty.
    pub fn start(names: Vec<String>) -> (g: Game)
        requires
            1 <= names.len() < usize::MAX,
        ensures
            g.wf(),
            g.names() == names@.map_values(|s: String| s@),
            g.invs() == Seq::new(
                names.len() as nat,
                |i: int|
                    if i == 0 {
                        Inventory::uniform(State::HasNot)
                    } else {
                        Inventory::uniform(State::Unknown)
                    },
            ),
            g.log() == Seq::<Interaction>::empty(),
    {
        let mut game = Game::new(names);
        let ghost n = names.len() as nat;
        let cards = Card::all();
        let mut k: usize = 0;
        while k < cards.len()
            invariant
                game.wf(),
                game.names() == names@.map_values(|s: String| s@),
                game.log() == Seq::<Interaction>::empty(),
                game.invs().len() == n,
                n == names.len(),
                n >= 1,
                cards@ == Card::every(),
                k <= cards@.len(),
                forall|j: int| 1 <= j < n ==> #[trigger] game.invs()[j] == Inventory::uniform(State::Unknown),
                forall|c: Card|
                    #[trigger] game.invs()[0].at(c) == if cards@.take(k as int).contains(c) {
                        State::HasNot
                    } else {
                        State::Unknown
                    },
            decreases cards@.len() - k,
        {
            let c = cards[k];
            match c {
                Card::Weapon(w) => game.weapon_mark_has_not(0, w),
                Card::Person(p) => game.person_mark_has_not(0, p),
                Card::Place(l) => game.place_mark_has_not(0, l),
            }
            proof {
                reveal_with_fuel(Seq::filter, 1);
                let t = cards@.take(k as int);
                assert(cards@.take(k + 1) =~= t.push(c));
                assert forall|d: Card| #[trigger] game.invs()[0].at(d) == if cards@.take(k + 1).contains(d) {
                        State::HasNot
                    } else {
                        State::Unknown
                    } by {
                    assert(t.push(c).contains(d) == (t.contains(d) || d == c)) by {
                        if d == c {
                            assert(t.push(c)[t.len() as int] == c);
                        }
                        if t.push(c).contains(d) && d != c {
                            let i = choose|i: int| 0 <= i < t.push(c).len() && t.push(c)[i] == d;
                            assert(t[i] == d);
                        }
                    }
                }
            }
            k += 1;
        }
        proof {
            assert(cards@.take(cards@.len() as int) =~= cards@);
            assert forall|c: Card| game.invs()[0].at(c) == Inventory::uniform(State::HasNot).at(c) by {
                lemma_every_card_listed(c);
            }
            lemma_inventory_ext(game.invs()[0], Inventory::uniform(State::HasNot));
            assert(game.invs() =~= Seq::new(
                names.len() as nat,
                |i: int|
                    if i == 0 {
                        Inventory::uniform(State::HasNot)
                    } else {
                        Inventory::uniform(State::Unknown)
                    },
            ));
        }
        game
    }

    /// Records a suggestion the keeper of the record (player 0) made and
    /// player `to` answered by showing the card of class `class`: player
    /// `to` holds that card, then the suggestion is recorded.
    pub fn record_query(
        &mut self,
        to: usize,
        weapon: Weapon,
        person: Person,
        place: Place,
        class: ItemClass,
    )
        requires
            old(self).wf(),
            to < old(self).invs().len(),
        ensures
            final(self).wf(),
            final(self).names() == old(self).names(),
            final(self).log() == old(self).log().push(
                Interaction { from: 0, to, weapon, person, place },
            ),
            final(self).invs() == after_interaction(
                assign(old(self).invs(), to as int, class.of(weapon, person, place)),
                old(self).log(),
                Interaction { from: 0, to, weapon, person, place },
            ),
    {
        match class {
            ItemClass::Weapon => self.add_weapon_to_inv(to, weapon),
            ItemClass::Person => self.add_person_to_inv(to, person),
            ItemClass::Place => self.add_place_to_inv(to, place),
        }
        let interaction = Interaction::new(0, to, weapon, person, place);
        self.add_interaction(interaction);
    }

    /// What is known of whether player `player` holds card `c`.
    pub fn state(&self, player: usize, c: Card) -> (r: State)
        requires
            player < self.invs().len(),
        ensures
            r == self.invs()[player as int].at(c),
    {
        proof {
            self.lemma_views();
        }
        *self.names_invs[player].1.get(c)
    }

    /// A copy of the names, the hands and the record.
    pub fn parts(&self) -> (r: (Vec<String>, Vec<Inventory<State>>, Vec<Interaction>))
        ensures
            r.0@.map_values(|s: String| s@) == self.names(),
            r.1@ == self.invs(),
            r.2@ == self.log(),
    {
        proof {
            self.lemma_views();
        }
        let mut names: Vec<String> = Vec::new();
        let mut invs: Vec<Inventory<State>> = Vec::new();
        let mut i: usize = 0;
        while i < self.names_invs.len()
            invariant
                i <= self.names_invs@.len(),
                names@.len() == i,
                invs@.len() == i,
                forall|j: int| 0 <= j < i ==> (#[trigger] names@[j])@ == self.names()[j],
                forall|j: int| 0 <= j < i ==> #[trigger] invs@[j] == self.invs()[j],
            decreases self.names_invs@.len() - i,
        {
            names.push(self.names_invs[i].0.clone());
            invs.push(self.names_invs[i].1);
            i += 1;
        }
        let mut log: Vec<Interaction> = Vec::new();
        let mut k: usize = 0;
        while k < self.interactions.len()
            invariant
                k <= self.interactions@.len(),
                log@ =~= self.interactions@.take(k as int),
            decreases self.interactions@.len() - k,
        {
            log.push(self.interactions[k]);
            k += 1;
        }
        assert(names@.map_values(|s: String| s@) =~= self.names());
        assert(invs@ =~= self.invs());
        assert(log@ =~= self.log());
        (names, invs, log)
    }

    /// A table put together from names, hands and a record, as `parts`
    /// gives them; `None` where the names and hands differ in number, there
    /// are as many players as the largest index, or a suggestion of the
    /// record between two different players names an answering player past
    /// the end of the table.
    pub fn restore(names: Vec<String>, invs: Vec<Inventory<State>>, log: Vec<Interaction>) -> (r:
        Option<Game>)
        ensures
            r is Some <==> (names@.len() == invs@.len() && invs@.len() < usize::MAX && fits(
                log@,
                invs@.len(),
            )),
            r matches Some(g) ==> g.wf() && g.names() == names@.map_values(|s: String| s@)
                && g.invs() == invs@ && g.log() == log@,
            r is Some <==> (names@.len() == invs@.len() && invs@.len() < usize::MAX && forall|k: int|
                0 <= k < log@.len() && (#[trigger] log@[k]).from != log@[k].to ==> log@[k].to
                    < invs@.len()),
    {
        if names.len() != invs.len() || invs.len() == usize::MAX {
            return None;
        }
        let n = invs.len();
        let mut k: usize = 0;
        while k < log.len()
            invariant
                k <= log@.len(),
                n == invs@.len(),
                fits(log@.take(k as int), n as nat),
            decreases log@.len() - k,
        {
            let it = log[k];
            if it.from != it.to && it.to >= n {
                assert(log@[k as int] == it);
                return None;
            }
            proof {
                let t = log@.take(k + 1);
                assert forall|j: int| 0 <= j < t.len() && (#[trigger] t[j]).from != t[j].to implies t[j].to < n by {
                    if j < k {
                        assert(t[j] == log@.take(k as int)[j]);
                    }
                }
            }
            k += 1;
        }
        assert(log@.take(log@.len() as int) =~= log@);
        let mut names_invs: Vec<(String, Inventory<State>)> = Vec::new();
        let mut i: usize = 0;
        while i < n
            invariant
                i <= n,
                n == names@.len(),
                n == invs@.len(),
                names_invs@.len() == i,
                forall|j: int|
                    0 <= j < i ==> (#[trigger] names_invs@[j]).0@ == names@[j]@ && names_invs@[j].1
                        == invs@[j],
            decreases n - i,
        {
            names_invs.push((names[i].clone(), invs[i]));
            i += 1;
        }
        let g = Game { names_invs, interactions: log };
        assert(g.names() =~= names@.map_values(|s: String| s@));
        assert(g.invs() =~= invs@);
        Some(g)
    }
}

/// A name looked up at the table is read back one further on: the seat
/// found for a name, plus one, reads as that name.
pub proof fn lemma_name_lookup_round_trip(names: Seq<Seq<char>>, s: Seq<char>, i: int)
    requires
        is_first_index(names, s, i),
    ensures
        name_at(names, i + 1) == Some(s),
{
}

/// A game taken apart by `parts` can always be put together again by
/// `restore`: its names and hands agree in number, the table is shorter
/// than the largest index, and its record fits the table.
pub proof fn lemma_parts_restorable(g: Game)
    requires
        g.wf(),
    ensures
        g.names().len() == g.invs().len(),
        g.invs().len() < usize::MAX,
        fits(g.log(), g.invs().len()),
{
    g.lemma_views();
}

} // verus!
