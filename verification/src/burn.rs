//! The burn rule: which cards of the hand pay for a played card.
//!
//! Playing the card at `play` of a hand of `len` cards costs `cost` other
//! cards. They are taken from the top of the hand downwards, passing over the
//! played card itself. The played card and the burned cards then leave the
//! hand together, highest index first.

use vstd::prelude::*;
use vstd::seq_lib::{lemma_multiset_commutative, to_multiset_build, to_multiset_remove};

verus! {

/// How many cards are collected as payment: the cost, or every other card
/// of the hand if there are fewer than that.
pub open spec fn burn_count(len: int, cost: int) -> int {
    if cost <= len - 1 {
        cost
    } else {
        len - 1
    }
}

/// The `k`-th index collected: the `k`-th highest index of the hand that is
/// not `play`.
pub open spec fn burn_index(len: int, play: int, k: int) -> int {
    if len - 1 - k > play {
        len - 1 - k
    } else {
        len - 2 - k
    }
}

/// The indices burned to play the card at `play`, in the order in which they
/// are collected. Empty where `play` is no index of the hand.
pub open spec fn burn_indices(len: int, play: int, cost: int) -> Seq<usize> {
    if 0 <= play < len && 0 <= cost {
        Seq::new(burn_count(len, cost) as nat, |k: int| burn_index(len, play, k) as usize)
    } else {
        Seq::empty()
    }
}

/// Whether the hand holds enough other cards to pay `cost`.
pub open spec fn can_pay(len: int, cost: int) -> bool {
    cost <= len - 1
}

/// How many of the burned indices lie above the played card.
pub open spec fn burned_above(len: int, play: int, cost: int) -> int {
    if cost <= len - 1 - play {
        cost
    } else {
        len - 1 - play
    }
}

/// The `k`-th index to leave the hand when the card at `play` is played and
/// paid for: the burned indices and `play`, from the highest down.
pub open spec fn spent_index(len: int, play: int, cost: int, k: int) -> int {
    if k == burned_above(len, play, cost) {
        play
    } else {
        len - 1 - k
    }
}

/// All indices that leave the hand, highest first. Meant for a hand that can
/// pay the cost.
pub open spec fn spent_indices(len: int, play: int, cost: int) -> Seq<usize> {
    Seq::new((cost + 1) as nat, |k: int| spent_index(len, play, cost, k) as usize)
}

/// The hand after the cards at `spent_indices` have left it: the cards below
/// the burned ones, without the played card.
pub open spec fn hand_after<T>(hand: Seq<T>, play: int, cost: int) -> Seq<T> {
    if play < hand.len() - cost {
        hand.take(hand.len() - cost).remove(play)
    } else {
        hand.take(hand.len() - cost - 1)
    }
}

/// The cards that leave the hand, in the order in which they leave it.
pub open spec fn spent_cards<T>(hand: Seq<T>, play: int, cost: int) -> Seq<T> {
    Seq::new((cost + 1) as nat, |k: int| hand[spent_index(hand.len() as int, play, cost, k)])
}

/// Whether each element is greater than the next.
pub open spec fn descending(s: Seq<usize>) -> bool {
    forall|i: int, j: int| 0 <= i < j < s.len() ==> s[i] > s[j]
}

/// The length of the longest prefix of `s` whose elements are all above `x`.
pub open spec fn count_above(s: Seq<usize>, x: usize) -> int
    decreases s.len(),
{
    if s.len() == 0 || s[0] <= x {
        0
    } else {
        1 + count_above(s.drop_first(), x)
    }
}

/// `count_above` is the position at which the elements stop being above `x`.
pub proof fn lemma_count_above(s: Seq<usize>, x: usize, p: int)
    requires
        0 <= p <= s.len(),
        forall|i: int| 0 <= i < p ==> s[i] > x,
        p < s.len() ==> s[p] <= x,
    ensures
        count_above(s, x) == p,
    decreases s.len(),
{
    if p > 0 {
        lemma_count_above(s.drop_first(), x, p - 1);
    }
}

/// The elements before position `count_above` are above `x`, and the element
/// at that position, if there is one, is not.
pub proof fn lemma_count_above_splits(s: Seq<usize>, x: usize)
    ensures
        0 <= count_above(s, x) <= s.len(),
        forall|i: int| 0 <= i < count_above(s, x) ==> s[i] > x,
        count_above(s, x) < s.len() ==> s[count_above(s, x)] <= x,
    decreases s.len(),
{
    if s.len() > 0 && s[0] > x {
        let rest = s.drop_first();
        lemma_count_above_splits(rest, x);
        assert forall|i: int| 0 <= i < count_above(s, x) implies s[i] > x by {
            if i > 0 {
                assert(s[i] == rest[i - 1]);
            }
        }
        if count_above(s, x) < s.len() {
            assert(s[count_above(s, x)] == rest[count_above(rest, x)]);
        }
    }
}

/// Putting a new element into a descending sequence at `count_above` keeps
/// it descending, and adds that element and no other.
pub proof fn lemma_insert_keeps_descending(s: Seq<usize>, x: usize)
    requires
        descending(s),
        !s.contains(x),
    ensures
        descending(s.insert(count_above(s, x), x)),
        forall|v: usize|
            s.insert(count_above(s, x), x).contains(v) <==> v == x || s.contains(v),
{
    let p = count_above(s, x);
    let t = s.insert(p, x);
    lemma_count_above_splits(s, x);
    assert forall|j: int| p <= j < s.len() implies s[j] < x by {
        assert(s.contains(s[j]));
        assert(s[j] <= s[p]);
    }
    assert forall|v: usize| t.contains(v) <==> v == x || s.contains(v) by {
        if t.contains(v) {
            let i = choose|i: int| 0 <= i < t.len() && t[i] == v;
            if i < p {
                assert(s[i] == v);
            } else if i > p {
                assert(s[i - 1] == v);
            }
        }
        if v == x {
            assert(t[p] == v);
        }
        if s.contains(v) {
            let i = choose|i: int| 0 <= i < s.len() && s[i] == v;
            if i < p {
                assert(t[i] == v);
            } else {
                assert(t[i + 1] == v);
            }
        }
    }
}

/// The burned indices never hold the played card's own index; there are
/// `min(cost, len - 1)` of them; each is an index of the hand, and they come
/// in descending order.
pub proof fn lemma_burn_indices(len: int, play: int, cost: int)
    requires
        0 <= play < len <= usize::MAX,
        0 <= cost,
    ensures
        burn_indices(len, play, cost).len() == burn_count(len, cost),
        burn_count(len, cost) == vstd::math::min(cost, len - 1),
        forall|k: int|
            0 <= k < burn_count(len, cost) ==> {
                &&& (#[trigger] burn_indices(len, play, cost)[k]) == burn_index(len, play, k)
                &&& burn_indices(len, play, cost)[k] != play
                &&& 0 <= burn_indices(len, play, cost)[k] < len
            },
        !burn_indices(len, play, cost).contains(play as usize),
        descending(burn_indices(len, play, cost)),
{
}

/// Putting the played card's index into the burned indices at its place
/// gives the indices that leave the hand.
pub proof fn lemma_spent_is_burn_with_play(len: int, play: int, cost: int)
    requires
        0 <= play < len <= usize::MAX,
        0 <= cost,
        can_pay(len, cost),
    ensures
        count_above(burn_indices(len, play, cost), play as usize) == burned_above(len, play, cost),
        burn_indices(len, play, cost).insert(
            count_above(burn_indices(len, play, cost), play as usize),
            play as usize,
        ) == spent_indices(len, play, cost),
        descending(spent_indices(len, play, cost)),
        forall|k: int|
            0 <= k <= cost ==> 0 <= (#[trigger] spent_indices(len, play, cost)[k]) < len,
{
    let burn = burn_indices(len, play, cost);
    let p = burned_above(len, play, cost);
    lemma_count_above(burn, play as usize, p);
}

/// The cards that leave the hand in a play and the cards that stay are
/// together the cards of the hand.
pub proof fn lemma_spent_and_kept<T>(hand: Seq<T>, play: int, cost: int)
    requires
        0 <= play < hand.len(),
        0 <= cost <= hand.len() - 1,
    ensures
        hand_after(hand, play, cost).len() + spent_cards(hand, play, cost).len() == hand.len(),
        hand_after(hand, play, cost).to_multiset().add(
            spent_cards(hand, play, cost).to_multiset(),
        ) == hand.to_multiset(),
{
    broadcast use vstd::multiset::group_multiset_axioms;

    let len = hand.len() as int;
    let spent = spent_cards(hand, play, cost);
    if play < len - cost {
        let low = hand.take(len - cost);
        let top = hand.skip(len - cost);
        assert(spent =~= top.reverse().push(hand[play]));
        top.lemma_reverse_to_multiset();
        to_multiset_build(top.reverse(), hand[play]);
        to_multiset_remove(low, play);
        assert(hand =~= low + top);
        lemma_multiset_commutative(low, top);
        assert(low.to_multiset().count(low[play]) > 0) by {
            vstd::seq_lib::to_multiset_contains(low, low[play]);
        }
    } else {
        let low = hand.take(len - cost - 1);
        let top = hand.skip(len - cost - 1);
        assert(spent =~= top.reverse());
        top.lemma_reverse_to_multiset();
        assert(hand =~= low + top);
        lemma_multiset_commutative(low, top);
    }
}

/// The burned indices together with the played card's index, sorted from
/// the highest down: `play_idx` is put behind the indices above it. Given
/// indices in descending order without `play_idx` among them, as the burn
/// rule gives them, the result holds each of them and `play_idx`, in
/// descending order.
pub fn removal_order(burn: &Vec<usize>, play_idx: usize) -> (order: Vec<usize>)
    ensures
        order@ == burn@.insert(count_above(burn@, play_idx), play_idx),
        descending(burn@) && !burn@.contains(play_idx) ==> {
            &&& descending(order@)
            &&& forall|v: usize| order@.contains(v) <==> v == play_idx || burn@.contains(v)
        },
{
    let mut order: Vec<usize> = Vec::new();
    let mut i: usize = 0;
    while i < burn.len() && burn[i] > play_idx
        invariant
            0 <= i <= burn@.len(),
            order@ == burn@.take(i as int),
            forall|k: int| 0 <= k < i ==> burn@[k] > play_idx,
        decreases burn@.len() - i,
    {
        order.push(burn[i]);
        i = i + 1;
    }
    proof {
        lemma_count_above(burn@, play_idx, i as int);
        if descending(burn@) && !burn@.contains(play_idx) {
            lemma_insert_keeps_descending(burn@, play_idx);
        }
    }
    order.push(play_idx);
    let split: usize = i;
    while i < burn.len()
        invariant
            split <= i <= burn@.len(),
            order@ == burn@.insert(split as int, play_idx).take(i + 1),
        decreases burn@.len() - i,
    {
        order.push(burn[i]);
        i = i + 1;
    }
    order
}

} // verus!
