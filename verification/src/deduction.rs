//! What a recorded suggestion tells about the players' hands, and the
//! deductions drawn from the record of all suggestions.
//!
//! The players' hands are modelled as a sequence of inventories, one per
//! player, each giving a knowledge state for every card.

use vstd::prelude::*;

use crate::cards::{
    lemma_every_card_listed, lemma_person_listed, lemma_place_listed, lemma_weapon_listed, Card,
    Person, Place, State, Weapon,
};
use crate::inventory::{lemma_at_with, lemma_inventory_ext, Inventory};

verus! {

broadcast use lemma_at_with;

/// One suggestion: player `from` named a weapon, a suspect and a room, and
/// player `to` answered it.
#[derive(Clone, Copy, Debug)]
pub struct Interaction {
    pub from: usize,
    pub to: usize,
    pub weapon: Weapon,
    pub person: Person,
    pub place: Place,
}

impl Interaction {
    pub fn new(from: usize, to: usize, weapon: Weapon, person: Person, place: Place) -> (r: Self)
        ensures
            r == (Interaction { from, to, weapon, person, place }),
    {
        Interaction { from, to, weapon, person, place }
    }
}

/// Every recorded suggestion whose two players differ names an answering
/// player among the `n` players.
pub open spec fn fits(log: Seq<Interaction>, n: nat) -> bool {
    forall|k: int|
        0 <= k < log.len() ==> (#[trigger] log[k]).from != log[k].to ==> log[k].to < n
}

/// The players other than `idx`, in order, out of `n` players: the list is
/// one shorter than the table, and skips `idx` where `idx` lies inside it.
pub open spec fn others_seq(n: nat, idx: usize) -> Seq<usize> {
    Seq::new((n - 1) as nat, |k: int| if k < idx { k as usize } else { (k + 1) as usize })
}

/// The indices `lo`, `lo + 1`, ..., `hi - 1` (empty where `hi <= lo`).
pub open spec fn span(lo: int, hi: int) -> Seq<usize> {
    Seq::new(if lo < hi { (hi - lo) as nat } else { 0 }, |k: int| (lo + k) as usize)
}

/// The players whose hands a suggestion from `from` answered by `to` shows
/// to hold none of the three cards, out of `n` players. Where `from` and
/// `to` are one player, everyone else in turn after `from`; where `from`
/// comes after `to`, nobody; else everyone after `from` to the end of the
/// table.
pub open spec fn between_seq(from: usize, to: usize, n: nat) -> Seq<usize> {
    if from == to {
        span(from + 1, n as int) + span(0, from as int)
    } else if from > to {
        Seq::empty()
    } else {
        span(from + 1, n as int)
    }
}

/// Player `inv` holds card `c`, so nobody else does.
pub open spec fn assign(invs: Seq<Inventory<State>>, inv: int, c: Card) -> Seq<Inventory<State>> {
    Seq::new(
        invs.len(),
        |j: int|
            if j == inv {
                invs[j].with(c, State::Has)
            } else {
                invs[j].with(c, State::HasNot)
            },
    )
}

/// The hand `inv` holds none of the three cards of suggestion `it`.
pub open spec fn mark_absent(inv: Inventory<State>, it: Interaction) -> Inventory<State> {
    inv.with(Card::Weapon(it.weapon), State::HasNot).with(
        Card::Person(it.person),
        State::HasNot,
    ).with(Card::Place(it.place), State::HasNot)
}

/// The players listed in `idxs` hold none of the three cards of `it`.
pub open spec fn mark_between(
    invs: Seq<Inventory<State>>,
    idxs: Seq<usize>,
    it: Interaction,
) -> Seq<Inventory<State>> {
    Seq::new(
        invs.len(),
        |j: int|
            if idxs.contains(j as usize) {
                mark_absent(invs[j], it)
            } else {
                invs[j]
            },
    )
}

/// One deduction from one suggestion: where the answering player is known
/// to hold neither of two of the three cards and nothing is known of the
/// third, that player holds the third. The count is 1 where a card was
/// assigned, else 0.
pub open spec fn step(invs: Seq<Inventory<State>>, it: Interaction) -> (Seq<Inventory<State>>, nat) {
    if it.from == it.to {
        (invs, 0)
    } else {
        let inv = invs[it.to as int];
        let w = Card::Weapon(it.weapon);
        let p = Card::Person(it.person);
        let l = Card::Place(it.place);
        match (inv.at(w), inv.at(p), inv.at(l)) {
            (State::Unknown, State::HasNot, State::HasNot) => (assign(invs, it.to as int, w), 1),
            (State::HasNot, State::Unknown, State::HasNot) => (assign(invs, it.to as int, p), 1),
            (State::HasNot, State::HasNot, State::Unknown) => (assign(invs, it.to as int, l), 1),
            _ => (invs, 0),
        }
    }
}

/// One pass over the record, in order, with the number of cards assigned.
pub open spec fn pass(invs: Seq<Inventory<State>>, log: Seq<Interaction>) -> (
    Seq<Inventory<State>>,
    nat,
)
    decreases log.len(),
{
    if log.len() == 0 {
        (invs, 0)
    } else {
        let first = pass(invs, log.drop_last());
        let last = step(first.0, log.last());
        (last.0, first.1 + last.1)
    }
}

/// The number of cards of which nothing is known, among `cards`, in `inv`.
pub open spec fn unknown_cards(inv: Inventory<State>, cards: Seq<Card>) -> nat
    decreases cards.len(),
{
    if cards.len() == 0 {
        0
    } else {
        unknown_cards(inv, cards.drop_last()) + if inv.at(cards.last()) == State::Unknown {
            1nat
        } else {
            0nat
        }
    }
}

/// The number of (player, card) pairs of which nothing is known.
pub open spec fn unknowns(invs: Seq<Inventory<State>>) -> nat
    decreases invs.len(),
{
    if invs.len() == 0 {
        0
    } else {
        unknowns(invs.drop_last()) + unknown_cards(invs.last(), Card::every())
    }
}

/// `after` has the same players as `before`, and knows at least what
/// `before` knows: no state went back to unknown.
pub open spec fn no_new_unknown(before: Seq<Inventory<State>>, after: Seq<Inventory<State>>) -> bool {
    &&& before.len() == after.len()
    &&& forall|j: int, c: Card|
        0 <= j < after.len() && #[trigger] after[j].at(c) == State::Unknown ==> before[j].at(
            c,
        ) == State::Unknown
}

/// Passes over the record, repeated until one assigns nothing.
pub open spec fn settle(invs: Seq<Inventory<State>>, log: Seq<Interaction>) -> Seq<Inventory<State>>
    decreases unknowns(invs),
    when fits(log, invs.len())
    via settle_decreases
{
    let r = pass(invs, log);
    if r.1 == 0 {
        invs
    } else {
        settle(r.0, log)
    }
}

#[via_fn]
proof fn settle_decreases(invs: Seq<Inventory<State>>, log: Seq<Interaction>) {
    lemma_pass(invs, log);
}

/// The hands after a suggestion `it` is recorded: the players between mark
/// the three cards absent, then the deductions are drawn from the whole
/// record, `it` last.
pub open spec fn after_interaction(
    invs: Seq<Inventory<State>>,
    log: Seq<Interaction>,
    it: Interaction,
) -> Seq<Inventory<State>> {
    settle(mark_between(invs, between_seq(it.from, it.to, invs.len()), it), log.push(it))
}

/// Some player is known to hold card `c`.
pub open spec fn held(invs: Seq<Inventory<State>>, c: Card) -> bool {
    exists|i: int| 0 <= i < invs.len() && (#[trigger] invs[i]).at(c) == State::Has
}

/// Fewer cards are unknown in `b` than in `a` where `b` knows all `a` does.
proof fn lemma_unknown_cards_mono(
    a: Inventory<State>,
    b: Inventory<State>,
    cards: Seq<Card>,
    c0: Card,
)
    requires
        forall|c: Card| b.at(c) == State::Unknown ==> a.at(c) == State::Unknown,
    ensures
        unknown_cards(b, cards) <= unknown_cards(a, cards),
        cards.contains(c0) && a.at(c0) == State::Unknown && b.at(c0) != State::Unknown
            ==> unknown_cards(b, cards) < unknown_cards(a, cards),
    decreases cards.len(),
{
    if cards.len() > 0 {
        lemma_unknown_cards_mono(a, b, cards.drop_last(), c0);
        if cards.contains(c0) && cards.last() != c0 {
            let k = choose|k: int| 0 <= k < cards.len() && cards[k] == c0;
            assert(cards.drop_last()[k] == c0);
        }
    }
}

/// Fewer (player, card) pairs are unknown in `b` than in `a` where `b`
/// knows all `a` does; strictly fewer where it knows one pair more.
proof fn lemma_unknowns_mono(
    a: Seq<Inventory<State>>,
    b: Seq<Inventory<State>>,
    j0: int,
    c0: Card,
)
    requires
        no_new_unknown(a, b),
    ensures
        unknowns(b) <= unknowns(a),
        0 <= j0 < a.len() && a[j0].at(c0) == State::Unknown && b[j0].at(c0) != State::Unknown
            ==> unknowns(b) < unknowns(a),
    decreases a.len(),
{
    if a.len() > 0 {
        let n = a.len() - 1;
        assert(no_new_unknown(a.drop_last(), b.drop_last())) by {
            assert forall|j: int, c: Card|
                0 <= j < b.drop_last().len() && #[trigger] b.drop_last()[j].at(c)
                    == State::Unknown implies a.drop_last()[j].at(c) == State::Unknown by {
                assert(b[j].at(c) == State::Unknown);
            }
        }
        lemma_unknowns_mono(a.drop_last(), b.drop_last(), j0, c0);
        assert forall|c: Card| b.last().at(c) == State::Unknown implies a.last().at(c)
            == State::Unknown by {
            assert(b[n].at(c) == State::Unknown);
        }
        lemma_every_card_listed(c0);
        lemma_unknown_cards_mono(a.last(), b.last(), Card::every(), c0);
    }
}

/// Knowing at least as much is transitive.
proof fn lemma_no_new_unknown_trans(
    a: Seq<Inventory<State>>,
    b: Seq<Inventory<State>>,
    c: Seq<Inventory<State>>,
)
    requires
        no_new_unknown(a, b),
        no_new_unknown(b, c),
    ensures
        no_new_unknown(a, c),
{
    assert forall|j: int, d: Card|
        0 <= j < c.len() && #[trigger] c[j].at(d) == State::Unknown implies a[j].at(d)
        == State::Unknown by {
        assert(b[j].at(d) == State::Unknown);
    }
}

/// A single deduction keeps the players, forgets nothing, and where it
/// assigns a card it makes one unknown pair known.
proof fn lemma_step(invs: Seq<Inventory<State>>, it: Interaction)
    requires
        it.from != it.to ==> it.to < invs.len(),
    ensures
        step(invs, it).0.len() == invs.len(),
        no_new_unknown(invs, step(invs, it).0),
        step(invs, it).1 <= 1,
        step(invs, it).1 == 0 ==> step(invs, it).0 == invs,
        step(invs, it).1 == 1 ==> unknowns(step(invs, it).0) < unknowns(invs),
{
    let r = step(invs, it);
    if r.1 == 1 {
        let inv = invs[it.to as int];
        let w = Card::Weapon(it.weapon);
        let p = Card::Person(it.person);
        let l = Card::Place(it.place);
        let c = if inv.at(w) == State::Unknown {
            w
        } else if inv.at(p) == State::Unknown {
            p
        } else {
            l
        };
        assert(r.0 == assign(invs, it.to as int, c));
        assert(no_new_unknown(invs, r.0)) by {
            assert forall|j: int, d: Card|
                0 <= j < r.0.len() && #[trigger] r.0[j].at(d) == State::Unknown implies invs[j].at(
                d,
            ) == State::Unknown by {
                assert(d != c);
            }
        }
        lemma_unknowns_mono(invs, r.0, it.to as int, c);
    } else {
        assert(no_new_unknown(invs, r.0));
    }
}

/// A pass keeps the players and forgets nothing; each card it assigns makes
/// one more pair known; and a pass that assigns nothing leaves the hands as
/// they were, with no suggestion of the record giving a deduction on them.
pub proof fn lemma_pass(invs: Seq<Inventory<State>>, log: Seq<Interaction>)
    requires
        fits(log, invs.len()),
    ensures
        pass(invs, log).0.len() == invs.len(),
        no_new_unknown(invs, pass(invs, log).0),
        unknowns(pass(invs, log).0) + pass(invs, log).1 <= unknowns(invs),
        pass(invs, log).1 == 0 ==> pass(invs, log).0 == invs && forall|k: int|
            0 <= k < log.len() ==> #[trigger] step(invs, log[k]).1 == 0,
    decreases log.len(),
{
    if log.len() > 0 {
        let front = log.drop_last();
        assert(fits(front, invs.len())) by {
            assert forall|k: int|
                0 <= k < front.len() && (#[trigger] front[k]).from != front[k].to implies front[k].to
                < invs.len() by {
                assert(log[k] == front[k]);
            }
        }
        lemma_pass(invs, front);
        let first = pass(invs, front);
        assert(log[log.len() - 1] == log.last());
        lemma_step(first.0, log.last());
        lemma_no_new_unknown_trans(invs, first.0, step(first.0, log.last()).0);
        if pass(invs, log).1 == 0 {
            assert forall|k: int| 0 <= k < log.len() implies #[trigger] step(invs, log[k]).1
                == 0 by {
                if k < log.len() - 1 {
                    assert(front[k] == log[k]);
                }
            }
        }
    }
}

/// Settling keeps the players, forgets nothing, and ends where no
/// suggestion of the record gives a deduction.
pub proof fn lemma_settle(invs: Seq<Inventory<State>>, log: Seq<Interaction>)
    requires
        fits(log, invs.len()),
    ensures
        settle(invs, log).len() == invs.len(),
        no_new_unknown(invs, settle(invs, log)),
        forall|k: int| 0 <= k < log.len() ==> #[trigger] step(settle(invs, log), log[k]).1 == 0,
    decreases unknowns(invs),
{
    lemma_pass(invs, log);
    let r = pass(invs, log);
    if r.1 != 0 {
        lemma_settle(r.0, log);
        lemma_no_new_unknown_trans(invs, r.0, settle(r.0, log));
    } else {
        assert(no_new_unknown(invs, invs));
    }
}

/// After a card is assigned to player `inv`, that player is the only one
/// known to hold it.
pub proof fn lemma_assign_single_holder(invs: Seq<Inventory<State>>, inv: int, c: Card, j: int)
    requires
        0 <= inv < invs.len(),
        0 <= j < invs.len(),
    ensures
        (assign(invs, inv, c)[j].at(c) == State::Has) == (j == inv),
        held(assign(invs, inv, c), c),
        assign(invs, inv, c).len() == invs.len(),
        forall|d: Card|
            #[trigger] assign(invs, inv, c)[j].at(d) == if d == c {
                if j == inv {
                    State::Has
                } else {
                    State::HasNot
                }
            } else {
                invs[j].at(d)
            },
{
    assert(assign(invs, inv, c)[inv].at(c) == State::Has);
}

/// The list of the others holds every player but `idx`, each once.
pub proof fn lemma_others_complete(n: nat, idx: usize, j: usize)
    requires
        idx < n <= usize::MAX,
    ensures
        others_seq(n, idx).contains(j) == (j < n && j != idx),
        others_seq(n, idx).len() == n - 1,
        forall|a: int, b: int|
            0 <= a < b < n - 1 ==> others_seq(n, idx)[a] < others_seq(n, idx)[b],
{
    let s = others_seq(n, idx);
    if s.contains(j) {
        let k = choose|k: int| 0 <= k < s.len() && s[k] == j;
        assert(s[k] == j);
    }
    if j < n && j != idx {
        if j < idx {
            assert(s[j as int] == j);
        } else {
            assert(s[j - 1] == j);
        }
    }
}

/// The players between never include the one who made the suggestion, and
/// all sit at the table.
pub proof fn lemma_between_excludes_asker(from: usize, to: usize, n: nat, k: int)
    requires
        from <= n <= usize::MAX,
        to <= n,
        0 <= k < between_seq(from, to, n).len(),
    ensures
        between_seq(from, to, n)[k] < n,
        between_seq(from, to, n)[k] != from,
{
    if from == to {
        let a = span(from + 1, n as int);
        if k >= a.len() {
            assert(between_seq(from, to, n)[k] == span(0, from as int)[k - a.len()]);
        } else {
            assert(between_seq(from, to, n)[k] == a[k]);
        }
    }
}

/// Marking the same three cards absent twice is marking them once.
pub proof fn lemma_mark_absent_idempotent(inv: Inventory<State>, it: Interaction)
    ensures
        mark_absent(mark_absent(inv, it), it) == mark_absent(inv, it),
{
    lemma_inventory_ext(mark_absent(mark_absent(inv, it), it), mark_absent(inv, it));
}

/// Whether card `c` is among the cards offered as possibly in the envelope:
/// those of its list that nobody is known to hold.
pub open spec fn offered(invs: Seq<Inventory<State>>, c: Card) -> bool {
    match c {
        Card::Weapon(w) => Weapon::every().filter(|x: Weapon| !held(invs, Card::Weapon(x))).contains(w),
        Card::Person(p) => Person::every().filter(|x: Person| !held(invs, Card::Person(x))).contains(p),
        Card::Place(l) => Place::every().filter(|x: Place| !held(invs, Card::Place(x))).contains(l),
    }
}

/// Filtering a list that holds `x` keeps `x` exactly where the predicate
/// holds of it.
proof fn lemma_filter_keeps<A>(s: Seq<A>, pred: spec_fn(A) -> bool, x: A)
    requires
        s.contains(x),
    ensures
        s.filter(pred).contains(x) == pred(x),
{
    broadcast use vstd::seq_lib::group_filter_ensures;

    let i = choose|i: int| 0 <= i < s.len() && s[i] == x;
    if pred(x) {
        s.lemma_filter_contains(pred, i);
    }
    if s.filter(pred).contains(x) {
        let j = choose|j: int| 0 <= j < s.filter(pred).len() && s.filter(pred)[j] == x;
        s.lemma_filter_pred(pred, j);
    }
}

/// A card is offered as possibly in the envelope exactly where nobody is
/// known to hold it.
pub proof fn lemma_offered_exactly(invs: Seq<Inventory<State>>, c: Card)
    ensures
        offered(invs, c) == !held(invs, c),
        offered(invs, c) == forall|i: int| 0 <= i < invs.len() ==> invs[i].at(c) != State::Has,
{
    match c {
        Card::Weapon(w) => {
            lemma_weapon_listed(w);
            lemma_filter_keeps(Weapon::every(), |x: Weapon| !held(invs, Card::Weapon(x)), w);
        },
        Card::Person(p) => {
            lemma_person_listed(p);
            lemma_filter_keeps(Person::every(), |x: Person| !held(invs, Card::Person(x)), p);
        },
        Card::Place(l) => {
            lemma_place_listed(l);
            lemma_filter_keeps(Place::every(), |x: Place| !held(invs, Card::Place(x)), l);
        },
    }
}

/// Recording a suggestion forgets nothing already known and keeps the
/// players.
pub proof fn lemma_after_interaction_keeps_knowledge(
    invs: Seq<Inventory<State>>,
    log: Seq<Interaction>,
    it: Interaction,
)
    requires
        fits(log, invs.len()),
        it.from != it.to ==> it.to < invs.len(),
    ensures
        no_new_unknown(invs, after_interaction(invs, log, it)),
{
    let marked = mark_between(invs, between_seq(it.from, it.to, invs.len()), it);
    assert(no_new_unknown(invs, marked)) by {
        assert forall|j: int, c: Card|
            0 <= j < marked.len() && #[trigger] marked[j].at(c) == State::Unknown implies invs[j].at(c)
            == State::Unknown by {
        }
    }
    let log2 = log.push(it);
    assert(fits(log2, marked.len())) by {
        assert forall|k: int| 0 <= k < log2.len() && (#[trigger] log2[k]).from != log2[k].to implies log2[k].to < marked.len() by {
            if k < log.len() {
                assert(log2[k] == log[k]);
            }
        }
    }
    lemma_settle(marked, log2);
    lemma_no_new_unknown_trans(invs, marked, settle(marked, log2));
}

/// Which players a suggestion marks, by seating: where the asker sits after
/// the answerer, nobody; where the asker sits before the answerer, every
/// player after the asker to the end of the table; where asker and answerer
/// are one player, every other player in turn, starting after the asker and
/// going round the table.
pub proof fn lemma_between_seating(from: usize, to: usize, n: nat)
    requires
        from <= n <= usize::MAX,
        to <= n,
    ensures
        to < from ==> between_seq(from, to, n).len() == 0,
        from < to ==> between_seq(from, to, n).len() == n - from - 1 && forall|k: int|
            0 <= k < n - from - 1 ==> between_seq(from, to, n)[k] == from + 1 + k,
        from == to && from < n ==> between_seq(from, to, n).len() == n - 1 && (forall|k: int|
            0 <= k < n - from - 1 ==> between_seq(from, to, n)[k] == from + 1 + k) && (forall|
            k: int,
        |
            n - from - 1 <= k < n - 1 ==> between_seq(from, to, n)[k] == k - (n - from - 1)),
        from == to && from == n ==> between_seq(from, to, n).len() == n && forall|k: int|
            0 <= k < n ==> between_seq(from, to, n)[k] == k,
{
    if from == to {
        let a = span(from + 1, n as int);
        let b = span(0, from as int);
        assert forall|k: int| 0 <= k < a.len() implies between_seq(from, to, n)[k] == from + 1 + k by {
            assert(between_seq(from, to, n)[k] == a[k]);
        }
        assert forall|k: int| a.len() <= k < a.len() + b.len() implies between_seq(from, to, n)[k]
            == k - a.len() by {
            assert(between_seq(from, to, n)[k] == b[k - a.len()]);
        }
    }
}

/// A suggestion whose asker sits after its answerer marks nobody: recording
/// it changes no hand before the deductions are drawn.
pub proof fn lemma_later_asker_marks_nobody(invs: Seq<Inventory<State>>, it: Interaction)
    requires
        it.to < it.from <= invs.len() <= usize::MAX,
    ensures
        mark_between(invs, between_seq(it.from, it.to, invs.len()), it) == invs,
{
    lemma_between_seating(it.from, it.to, invs.len());
    assert(mark_between(invs, between_seq(it.from, it.to, invs.len()), it) =~= invs);
}

/// Every state `a` knows to be "does not hold" is still so in `b`, and the
/// players are the same.
pub open spec fn keeps_has_not(a: Seq<Inventory<State>>, b: Seq<Inventory<State>>) -> bool {
    &&& a.len() == b.len()
    &&& forall|j: int, c: Card|
        0 <= j < a.len() && #[trigger] a[j].at(c) == State::HasNot ==> b[j].at(c) == State::HasNot
}

/// Some suggestion of `log` was answered by player `j`, names card `c`, and
/// `j` is known in `f` to hold neither of its two other cards.
pub open spec fn forced_by(f: Seq<Inventory<State>>, log: Seq<Interaction>, j: int, c: Card) -> bool {
    exists|k: int|
        0 <= k < log.len() && (#[trigger] log[k]).from != log[k].to && log[k].to == j && {
            let inv = f[j];
            let w = Card::Weapon(log[k].weapon);
            let p = Card::Person(log[k].person);
            let l = Card::Place(log[k].place);
            ||| c == w && inv.at(p) == State::HasNot && inv.at(l) == State::HasNot
            ||| c == p && inv.at(w) == State::HasNot && inv.at(l) == State::HasNot
            ||| c == l && inv.at(w) == State::HasNot && inv.at(p) == State::HasNot
        }
}

/// Every card `f` knows a player to hold was known so in `s0`, or is forced
/// by a suggestion of `log`.
pub open spec fn justified(s0: Seq<Inventory<State>>, f: Seq<Inventory<State>>, log: Seq<Interaction>) -> bool {
    forall|j: int, c: Card|
        0 <= j < f.len() && #[trigger] f[j].at(c) == State::Has ==> s0[j].at(c) == State::Has
            || forced_by(f, log, j, c)
}

/// Every "does not hold" that `f` knows and `s0` did not comes with a
/// player known in `f` to hold that card.
pub open spec fn covered(s0: Seq<Inventory<State>>, f: Seq<Inventory<State>>) -> bool {
    forall|j: int, c: Card|
        0 <= j < f.len() && #[trigger] f[j].at(c) == State::HasNot && s0[j].at(c) != State::HasNot
            ==> exists|i: int| 0 <= i < f.len() && (#[trigger] f[i]).at(c) == State::Has
}

/// The three bookkeeping facts hold of a state `s` reached from `s0`.
pub open spec fn bookkept(s0: Seq<Inventory<State>>, s: Seq<Inventory<State>>, log: Seq<Interaction>) -> bool {
    &&& keeps_has_not(s0, s)
    &&& justified(s0, s, log)
    &&& covered(s0, s)
}

proof fn lemma_forced_kept(
    s: Seq<Inventory<State>>,
    t: Seq<Inventory<State>>,
    log: Seq<Interaction>,
    j: int,
    c: Card,
)
    requires
        keeps_has_not(s, t),
        0 <= j < s.len(),
        forced_by(s, log, j, c),
    ensures
        forced_by(t, log, j, c),
{
    let k = choose|k: int|
        0 <= k < log.len() && (#[trigger] log[k]).from != log[k].to && log[k].to == j && {
            let inv = s[j];
            let w = Card::Weapon(log[k].weapon);
            let p = Card::Person(log[k].person);
            let l = Card::Place(log[k].place);
            ||| c == w && inv.at(p) == State::HasNot && inv.at(l) == State::HasNot
            ||| c == p && inv.at(w) == State::HasNot && inv.at(l) == State::HasNot
            ||| c == l && inv.at(w) == State::HasNot && inv.at(p) == State::HasNot
        };
    let w = Card::Weapon(log[k].weapon);
    let p = Card::Person(log[k].person);
    let l = Card::Place(log[k].place);
    if s[j].at(w) == State::HasNot {
        assert(t[j].at(w) == State::HasNot);
    }
    if s[j].at(p) == State::HasNot {
        assert(t[j].at(p) == State::HasNot);
    }
    if s[j].at(l) == State::HasNot {
        assert(t[j].at(l) == State::HasNot);
    }
}

/// One deduction from suggestion `log[k0]` keeps the bookkeeping facts.
proof fn lemma_step_bookkept(
    s0: Seq<Inventory<State>>,
    s: Seq<Inventory<State>>,
    log: Seq<Interaction>,
    k0: int,
)
    requires
        0 <= k0 < log.len(),
        log[k0].from != log[k0].to ==> log[k0].to < s.len(),
        bookkept(s0, s, log),
    ensures
        bookkept(s0, step(s, log[k0]).0, log),
{
    let it = log[k0];
    let r = step(s, it);
    let t = r.0;
    if r.1 == 0 {
        assert(t == s);
    } else {
        let to = it.to as int;
        let inv = s[to];
        let w = Card::Weapon(it.weapon);
        let p = Card::Person(it.person);
        let l = Card::Place(it.place);
        let c = if inv.at(w) == State::Unknown {
            w
        } else if inv.at(p) == State::Unknown {
            p
        } else {
            l
        };
        assert(t == assign(s, to, c));
        assert(s[to].at(c) == State::Unknown);
        assert(keeps_has_not(s, t)) by {
            assert forall|j: int, d: Card|
                0 <= j < s.len() && #[trigger] s[j].at(d) == State::HasNot implies t[j].at(d)
                == State::HasNot by {
                if j == to && d == c {
                    assert(false);
                }
            }
        }
        assert(keeps_has_not(s0, t)) by {
            assert forall|j: int, d: Card|
                0 <= j < s0.len() && #[trigger] s0[j].at(d) == State::HasNot implies t[j].at(d)
                == State::HasNot by {
                assert(s[j].at(d) == State::HasNot);
            }
        }
        assert(forced_by(t, log, to, c)) by {
            assert(log[k0].to == to);
        }
        assert forall|j: int, d: Card|
            0 <= j < t.len() && #[trigger] t[j].at(d) == State::Has implies s0[j].at(d) == State::Has
            || forced_by(t, log, j, d) by {
            if !(j == to && d == c) {
                assert(d != c);
                assert(s[j].at(d) == State::Has);
                if s0[j].at(d) != State::Has {
                    lemma_forced_kept(s, t, log, j, d);
                }
            }
        }
        assert forall|j: int, d: Card|
            0 <= j < t.len() && #[trigger] t[j].at(d) == State::HasNot && s0[j].at(d)
                != State::HasNot implies exists|i: int|
            0 <= i < t.len() && (#[trigger] t[i]).at(d) == State::Has by {
            if d == c {
                assert(t[to].at(d) == State::Has);
            } else {
                assert(s[j].at(d) == State::HasNot);
                let i = choose|i: int| 0 <= i < s.len() && (#[trigger] s[i]).at(d) == State::Has;
                assert(t[i].at(d) == State::Has);
            }
        }
    }
}

/// A pass over a prefix of the record keeps the bookkeeping facts.
proof fn lemma_pass_bookkept(
    s0: Seq<Inventory<State>>,
    s: Seq<Inventory<State>>,
    log: Seq<Interaction>,
    full: Seq<Interaction>,
)
    requires
        log.len() <= full.len(),
        forall|k: int| 0 <= k < log.len() ==> log[k] == full[k],
        fits(full, s.len()),
        bookkept(s0, s, full),
    ensures
        bookkept(s0, pass(s, log).0, full),
        pass(s, log).0.len() == s.len(),
    decreases log.len(),
{
    if log.len() > 0 {
        let front = log.drop_last();
        lemma_pass_bookkept(s0, s, front, full);
        let mid = pass(s, front).0;
        let k0 = log.len() - 1;
        assert(log.last() == full[k0]);
        assert(full[k0].from != full[k0].to ==> full[k0].to < mid.len());
        lemma_step_bookkept(s0, mid, full, k0);
        lemma_step(mid, full[k0]);
    }
}

/// Settling keeps the bookkeeping facts.
proof fn lemma_settle_bookkept(s0: Seq<Inventory<State>>, s: Seq<Inventory<State>>, log: Seq<Interaction>)
    requires
        fits(log, s.len()),
        bookkept(s0, s, log),
    ensures
        bookkept(s0, settle(s, log), log),
    decreases unknowns(s),
{
    lemma_pass(s, log);
    lemma_pass_bookkept(s0, s, log, log);
    let r = pass(s, log);
    if r.1 != 0 {
        lemma_settle_bookkept(s0, r.0, log);
    }
}

proof fn lemma_bookkept_start(s0: Seq<Inventory<State>>, log: Seq<Interaction>)
    ensures
        bookkept(s0, s0, log),
{
}

/// After the deductions, no suggestion of the record answered by another
/// player leaves its answerer known to hold neither of two of its cards
/// while nothing is known of the third.
pub proof fn lemma_settle_leaves_nothing_forced(
    invs: Seq<Inventory<State>>,
    log: Seq<Interaction>,
    k: int,
)
    requires
        fits(log, invs.len()),
        0 <= k < log.len(),
        log[k].from != log[k].to,
    ensures
        ({
            let a = settle(invs, log)[log[k].to as int];
            let w = a.at(Card::Weapon(log[k].weapon));
            let p = a.at(Card::Person(log[k].person));
            let l = a.at(Card::Place(log[k].place));
            &&& !(w == State::Unknown && p == State::HasNot && l == State::HasNot)
            &&& !(w == State::HasNot && p == State::Unknown && l == State::HasNot)
            &&& !(w == State::HasNot && p == State::HasNot && l == State::Unknown)
        }),
{
    lemma_settle(invs, log);
    assert(step(settle(invs, log), log[k]).1 == 0);
}

/// The deductions never undo a "does not hold".
pub proof fn lemma_settle_keeps_has_not(invs: Seq<Inventory<State>>, log: Seq<Interaction>, j: int, c: Card)
    requires
        fits(log, invs.len()),
        0 <= j < invs.len(),
        invs[j].at(c) == State::HasNot,
    ensures
        settle(invs, log)[j].at(c) == State::HasNot,
{
    lemma_bookkept_start(invs, log);
    lemma_settle_bookkept(invs, invs, log);
}

/// The deductions make a player the holder of a card only where a recorded
/// suggestion answered by that player names the card and the player is
/// known to hold neither of its other two cards.
pub proof fn lemma_settle_only_forced_holders(
    invs: Seq<Inventory<State>>,
    log: Seq<Interaction>,
    j: int,
    c: Card,
)
    requires
        fits(log, invs.len()),
        0 <= j < invs.len(),
        settle(invs, log)[j].at(c) == State::Has,
        invs[j].at(c) != State::Has,
    ensures
        exists|k: int|
            0 <= k < log.len() && (#[trigger] log[k]).from != log[k].to && log[k].to == j && {
                let inv = settle(invs, log)[j];
                let w = Card::Weapon(log[k].weapon);
                let p = Card::Person(log[k].person);
                let l = Card::Place(log[k].place);
                ||| c == w && inv.at(p) == State::HasNot && inv.at(l) == State::HasNot
                ||| c == p && inv.at(w) == State::HasNot && inv.at(l) == State::HasNot
                ||| c == l && inv.at(w) == State::HasNot && inv.at(p) == State::HasNot
            },
{
    lemma_bookkept_start(invs, log);
    lemma_settle_bookkept(invs, invs, log);
    lemma_settle(invs, log);
    assert(forced_by(settle(invs, log), log, j, c));
}

/// Where the answerer of a recorded suggestion is known to hold neither the
/// weapon nor the suspect, and is not known to lack the room, the
/// deductions end with somebody known to hold the room: the answerer, or
/// another player already shown to hold it. Likewise for each of the three
/// cards.
pub proof fn lemma_settle_finds_the_third(invs: Seq<Inventory<State>>, log: Seq<Interaction>, k: int)
    requires
        fits(log, invs.len()),
        0 <= k < log.len(),
        log[k].from != log[k].to,
    ensures
        ({
            let a = invs[log[k].to as int];
            let w = Card::Weapon(log[k].weapon);
            let p = Card::Person(log[k].person);
            let l = Card::Place(log[k].place);
            let f = settle(invs, log);
            &&& a.at(w) == State::HasNot && a.at(p) == State::HasNot && a.at(l) != State::HasNot
                ==> exists|i: int| 0 <= i < f.len() && (#[trigger] f[i]).at(l) == State::Has
            &&& a.at(w) == State::HasNot && a.at(l) == State::HasNot && a.at(p) != State::HasNot
                ==> exists|i: int| 0 <= i < f.len() && (#[trigger] f[i]).at(p) == State::Has
            &&& a.at(p) == State::HasNot && a.at(l) == State::HasNot && a.at(w) != State::HasNot
                ==> exists|i: int| 0 <= i < f.len() && (#[trigger] f[i]).at(w) == State::Has
        }),
{
    lemma_bookkept_start(invs, log);
    lemma_settle_bookkept(invs, invs, log);
    lemma_settle(invs, log);
    lemma_settle_leaves_nothing_forced(invs, log, k);
    let f = settle(invs, log);
    let to = log[k].to as int;
    let w = Card::Weapon(log[k].weapon);
    let p = Card::Person(log[k].person);
    let l = Card::Place(log[k].place);
    assert(invs[to].at(w) == State::HasNot ==> f[to].at(w) == State::HasNot);
    assert(invs[to].at(p) == State::HasNot ==> f[to].at(p) == State::HasNot);
    assert(invs[to].at(l) == State::HasNot ==> f[to].at(l) == State::HasNot);
    assert(f[to].at(w) == State::Has ==> exists|i: int| 0 <= i < f.len() && (#[trigger] f[i]).at(w) == State::Has);
    assert(f[to].at(p) == State::Has ==> exists|i: int| 0 <= i < f.len() && (#[trigger] f[i]).at(p) == State::Has);
    assert(f[to].at(l) == State::Has ==> exists|i: int| 0 <= i < f.len() && (#[trigger] f[i]).at(l) == State::Has);
}

/// No suggestion of `log` answered by another player leaves its answerer
/// known in `f` to hold neither of two of its cards while nothing is known
/// of the third.
#[verifier::opaque]
pub open spec fn nothing_forced(f: Seq<Inventory<State>>, log: Seq<Interaction>) -> bool {
    forall|k: int|
        0 <= k < log.len() && (#[trigger] log[k]).from != log[k].to ==> ({
            let a = f[log[k].to as int];
            let w = a.at(Card::Weapon(log[k].weapon));
            let p = a.at(Card::Person(log[k].person));
            let l = a.at(Card::Place(log[k].place));
            &&& !(w == State::Unknown && p == State::HasNot && l == State::HasNot)
            &&& !(w == State::HasNot && p == State::Unknown && l == State::HasNot)
            &&& !(w == State::HasNot && p == State::HasNot && l == State::Unknown)
        })
}

/// Every card `f` knows a player to hold, that `s0` did not, is named by a
/// suggestion of `log` answered by that player, who is known in `f` to hold
/// neither of its two other cards.
#[verifier::opaque]
pub open spec fn holders_forced(
    s0: Seq<Inventory<State>>,
    f: Seq<Inventory<State>>,
    log: Seq<Interaction>,
) -> bool {
    forall|j: int, c: Card|
        0 <= j < f.len() && #[trigger] f[j].at(c) == State::Has && s0[j].at(c) != State::Has
            ==> forced_by(f, log, j, c)
}

/// The conclusions of the deductions, gathered: nothing is left forced, no
/// "does not hold" is undone, and every new holder is forced.
pub proof fn lemma_settle_conclusions(invs: Seq<Inventory<State>>, log: Seq<Interaction>)
    requires
        fits(log, invs.len()),
    ensures
        nothing_forced(settle(invs, log), log),
        keeps_has_not(invs, settle(invs, log)),
        holders_forced(invs, settle(invs, log), log),
{
    lemma_bookkept_start(invs, log);
    lemma_settle_bookkept(invs, invs, log);
    lemma_settle(invs, log);
    reveal(nothing_forced);
    reveal(holders_forced);
    assert forall|k: int| 0 <= k < log.len() && (#[trigger] log[k]).from != log[k].to implies ({
        let a = settle(invs, log)[log[k].to as int];
        let w = a.at(Card::Weapon(log[k].weapon));
        let p = a.at(Card::Person(log[k].person));
        let l = a.at(Card::Place(log[k].place));
        &&& !(w == State::Unknown && p == State::HasNot && l == State::HasNot)
        &&& !(w == State::HasNot && p == State::Unknown && l == State::HasNot)
        &&& !(w == State::HasNot && p == State::HasNot && l == State::Unknown)
    }) by {
        lemma_settle_leaves_nothing_forced(invs, log, k);
    }
}

/// Marking the players listed in `idxs` for suggestion `it`: a listed
/// player is known to hold none of the three cards of `it`, and every other
/// entry is left as it was.
pub proof fn lemma_mark_between_cells(
    invs: Seq<Inventory<State>>,
    idxs: Seq<usize>,
    it: Interaction,
    j: int,
    d: Card,
)
    requires
        0 <= j < invs.len(),
    ensures
        mark_between(invs, idxs, it).len() == invs.len(),
        mark_between(invs, idxs, it)[j].at(d) == if idxs.contains(j as usize) && (d == Card::Weapon(
            it.weapon,
        ) || d == Card::Person(it.person) || d == Card::Place(it.place)) {
            State::HasNot
        } else {
            invs[j].at(d)
        },
{
}

/// Recording suggestion `it`: every player between is known afterwards to
/// hold none of its three cards, no "does not hold" known before is undone,
/// and no suggestion of the record, `it` included, is left with a card it
/// forces.
pub proof fn lemma_after_interaction_effects(
    invs: Seq<Inventory<State>>,
    log: Seq<Interaction>,
    it: Interaction,
)
    requires
        fits(log, invs.len()),
        invs.len() <= usize::MAX,
        it.from <= invs.len(),
        it.to <= invs.len(),
        it.from != it.to ==> it.to < invs.len(),
    ensures
        nothing_forced(after_interaction(invs, log, it), log.push(it)),
        forall|k: int|
            0 <= k < between_seq(it.from, it.to, invs.len()).len() ==> {
                let j = #[trigger] between_seq(it.from, it.to, invs.len())[k] as int;
                let a = after_interaction(invs, log, it)[j];
                &&& a.at(Card::Weapon(it.weapon)) == State::HasNot
                &&& a.at(Card::Person(it.person)) == State::HasNot
                &&& a.at(Card::Place(it.place)) == State::HasNot
            },
        forall|j: int, c: Card|
            0 <= j < invs.len() && #[trigger] invs[j].at(c) == State::HasNot
                ==> after_interaction(invs, log, it)[j].at(c) == State::HasNot,
{
    let b = between_seq(it.from, it.to, invs.len());
    let marked = mark_between(invs, b, it);
    let log2 = log.push(it);
    assert(fits(log2, marked.len())) by {
        assert forall|k: int| 0 <= k < log2.len() && (#[trigger] log2[k]).from != log2[k].to implies log2[k].to < marked.len() by {
            if k < log.len() {
                assert(log2[k] == log[k]);
            }
        }
    }
    lemma_settle_conclusions(marked, log2);
    let f = settle(marked, log2);
    assert forall|k: int| 0 <= k < b.len() implies {
        let j = #[trigger] b[k] as int;
        let a = f[j];
        &&& a.at(Card::Weapon(it.weapon)) == State::HasNot
        &&& a.at(Card::Person(it.person)) == State::HasNot
        &&& a.at(Card::Place(it.place)) == State::HasNot
    } by {
        lemma_between_excludes_asker(it.from, it.to, invs.len(), k);
        let j = b[k] as int;
        assert(b.contains(b[k]));
        assert(j as usize == b[k]);
        lemma_mark_between_cells(invs, b, it, j, Card::Weapon(it.weapon));
        lemma_mark_between_cells(invs, b, it, j, Card::Person(it.person));
        lemma_mark_between_cells(invs, b, it, j, Card::Place(it.place));
    }
    assert forall|j: int, c: Card|
        0 <= j < invs.len() && #[trigger] invs[j].at(c) == State::HasNot implies f[j].at(c) == State::HasNot by {
        lemma_mark_between_cells(invs, b, it, j, c);
    }
}

} // verus!
