//! Shuffling a pile of cards from rolls that the caller supplies.
//!
//! The engine holds no source of randomness. Whoever asks for a shuffle hands
//! in a sequence of rolls; the order that comes out is a function of the pile
//! and the rolls alone. With rolls drawn uniformly, each over a range that is a
//! multiple of the number of cards still to place, every order is equally
//! likely.

use vstd::prelude::*;
use vstd::multiset::Multiset;
use vstd::seq_lib::{to_multiset_build, to_multiset_insert, to_multiset_len, to_multiset_update};

verus! {

/// The roll used at `step`. Steps past the end of `rolls` roll 0.
pub open spec fn roll_at(rolls: Seq<u64>, step: int) -> int {
    if 0 <= step < rolls.len() {
        rolls[step] as int
    } else {
        0
    }
}

/// The pile without the card at `j`: the last card takes its place.
pub open spec fn without<T>(pile: Seq<T>, j: int) -> Seq<T>
    recommends
        0 <= j < pile.len(),
{
    pile.update(j, pile.last()).drop_last()
}

/// The order in which `pile` comes out when steps `step`, `step + 1`, ...
/// of `rolls` are used: each step takes the card at the roll modulo the
/// number of cards left.
pub open spec fn shuffle_from<T>(pile: Seq<T>, rolls: Seq<u64>, step: int) -> Seq<T>
    decreases pile.len(),
{
    if pile.len() == 0 {
        Seq::<T>::empty()
    } else {
        let j = roll_at(rolls, step) % (pile.len() as int);
        seq![pile[j]] + shuffle_from(without(pile, j), rolls, step + 1)
    }
}

/// The order in which `pile` comes out of a shuffle with `rolls`.
pub open spec fn shuffled<T>(pile: Seq<T>, rolls: Seq<u64>) -> Seq<T> {
    shuffle_from(pile, rolls, 0)
}

/// An empty pile holds no card.
pub proof fn lemma_empty_pile<T>(pile: Seq<T>)
    requires
        pile.len() == 0,
    ensures
        pile.to_multiset() == Multiset::<T>::empty(),
{
    broadcast use vstd::multiset::group_multiset_axioms;

    to_multiset_len(pile);
    vstd::multiset::lemma_multiset_empty_len(pile.to_multiset());
}

/// Taking one card out of a pile leaves the other cards, each as often as
/// before.
pub proof fn lemma_without_keeps_the_rest<T>(pile: Seq<T>, j: int)
    requires
        0 <= j < pile.len(),
    ensures
        without(pile, j).len() == pile.len() - 1,
        without(pile, j).to_multiset().insert(pile[j]) == pile.to_multiset(),
{
    broadcast use vstd::multiset::group_multiset_axioms;

    let swapped = pile.update(j, pile.last());
    let rest = without(pile, j);
    assert(swapped =~= rest.push(pile.last()));
    to_multiset_build(rest, pile.last());
    to_multiset_update(pile, j, pile.last());
    to_multiset_len(pile);
    assert(rest.to_multiset().insert(pile[j]) =~= pile.to_multiset()) by {
        assert forall|c: T|
            rest.to_multiset().insert(pile[j]).count(c) == pile.to_multiset().count(c) by {
            assert(swapped.to_multiset().count(c) == rest.to_multiset().insert(pile.last()).count(
                c,
            ));
            assert(pile.to_multiset().count(pile[j]) > 0) by {
                vstd::seq_lib::to_multiset_contains(pile, pile[j]);
            }
        }
    }
}

/// A shuffle is a permutation: it returns the same cards, each as often as
/// before, whatever the rolls.
pub proof fn lemma_shuffle_is_permutation<T>(pile: Seq<T>, rolls: Seq<u64>, step: int)
    ensures
        shuffle_from(pile, rolls, step).len() == pile.len(),
        shuffle_from(pile, rolls, step).to_multiset() == pile.to_multiset(),
    decreases pile.len(),
{
    broadcast use vstd::multiset::group_multiset_axioms;

    if pile.len() == 0 {
        assert(shuffle_from(pile, rolls, step) =~= pile);
    } else {
        let j = roll_at(rolls, step) % (pile.len() as int);
        let rest = without(pile, j);
        let tail = shuffle_from(rest, rolls, step + 1);
        lemma_without_keeps_the_rest(pile, j);
        lemma_shuffle_is_permutation(rest, rolls, step + 1);
        assert(seq![pile[j]] + tail =~= tail.insert(0, pile[j]));
        to_multiset_insert(tail, 0, pile[j]);
    }
}

/// Shuffles `cards` in place with the given rolls.
pub fn shuffle<T>(cards: &mut Vec<T>, rolls: &Vec<u64>)
    ensures
        final(cards)@ == shuffled(old(cards)@, rolls@),
        final(cards)@.len() == old(cards)@.len(),
        final(cards)@.to_multiset() == old(cards)@.to_multiset(),
{
    let mut placed: Vec<T> = Vec::new();
    let total: usize = cards.len();
    let mut step: usize = 0;
    while cards.len() > 0
        invariant
            placed@ + shuffle_from(cards@, rolls@, step as int) == shuffled(old(cards)@, rolls@),
            step as int + cards@.len() == total,
        decreases cards@.len(),
    {
        let roll: u64 = if step < rolls.len() {
            rolls[step]
        } else {
            0
        };
        let j: usize = (roll % (cards.len() as u64)) as usize;
        let card = cards.swap_remove(j);
        placed.push(card);
        step = step + 1;
    }
    proof {
        lemma_shuffle_is_permutation(old(cards)@, rolls@, 0);
    }
    *cards = placed;
}

} // verus!
