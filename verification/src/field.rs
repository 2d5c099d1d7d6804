//! The battle field: units on a grid, the card piles, and card play.

use std::collections::BTreeMap;
use vstd::prelude::*;
use crate::burn::{
    burn_index, burned_above, hand_after, lemma_burn_indices, lemma_spent_is_burn_with_play,
    removal_order, spent_cards, spent_index, spent_indices,
};
use crate::card::{Card, CardInstance};
use crate::data::{group_uid, GridIdx, UidCounter, UID};
use crate::deck::shuffle;
use crate::error::FieldError;
use crate::event::Notification;
use crate::model::FieldView;
use crate::unit::{Faction, Unit};

verus! {

/// The authoritative state of one battle. It owns every unit and every card
/// instance; the host refers to units by identifier and reads copies.
#[derive(Debug)]
pub struct Field {
    units: BTreeMap<u32, Unit>,
    grid_map: BTreeMap<i64, u32>,
    deck: Vec<CardInstance>,
    hand: Vec<CardInstance>,
    discard_pile: Vec<CardInstance>,
    uids: UidCounter,
    notifications: Vec<Notification>,
}

impl View for Field {
    type V = FieldView;

    closed spec fn view(&self) -> FieldView {
        FieldView {
            units: Map::new(
                |uid: UID| self.units@.contains_key(uid@),
                |uid: UID| self.units@[uid@],
            ),
            grid: Map::new(
                |cell: GridIdx| self.grid_map@.contains_key(cell.0),
                |cell: GridIdx| UID::spec_from(self.grid_map@[cell.0]),
            ),
            deck: self.deck@,
            hand: self.hand@,
            discard: self.discard_pile@,
            issued: self.uids.issued(),
            notifications: self.notifications@,
        }
    }
}

impl Field {
    /// Whether the field is in a state that its commands can leave it in.
    /// `new` gives such a field and every command keeps it so.
    pub open spec fn wf(&self) -> bool {
        self@.inv()
    }

    /// An empty field whose first unit gets the identifier 1.
    pub fn new() -> (field: Field)
        ensures
            field.wf(),
            field@ == FieldView::empty(),
    {
        Field::with_counter(UidCounter::new())
    }

    /// An empty field that takes its identifiers from `uids`. A host that
    /// runs one battle after another hands the counter of the last field to
    /// the next, so that no identifier comes back.
    pub fn with_counter(uids: UidCounter) -> (field: Field)
        ensures
            field.wf(),
            field@ == (FieldView { issued: uids.issued(), ..FieldView::empty() }),
    {
        let field = Field {
            units: BTreeMap::new(),
            grid_map: BTreeMap::new(),
            deck: Vec::new(),
            hand: Vec::new(),
            discard_pile: Vec::new(),
            uids,
            notifications: Vec::new(),
        };
        proof {
            uids.lemma_issued_bounded();
        }
        assert(field@.units =~= Map::<UID, Unit>::empty());
        assert(field@.grid =~= Map::<GridIdx, UID>::empty());
        field
    }

    /// The counter from which the field takes its identifiers, as it
    /// stands now.
    pub fn uid_counter(&self) -> (uids: UidCounter)
        ensures
            uids.issued() == self@.issued,
    {
        self.uids
    }

    /// Passes over identifiers, so that none up to `issued` is handed out
    /// from now on. A host that runs several fields side by side uses it to
    /// keep their identifiers apart.
    pub fn skip_uids(&mut self, issued: u32)
        ensures
            old(self).wf() ==> final(self).wf(),
            final(self)@ == old(self)@.after_skip(issued),
    {
        self.uids.skip_to(issued);
    }

    /// Puts a new unit at full health on `grid_pos` and returns its fresh
    /// identifier, which is never null. Fails with `AlreadyOccupied` if a
    /// unit stands there, and with `IdsExhausted` once every identifier has
    /// been handed out.
    pub fn spawn_unit(&mut self, max_hp: i64, faction: Faction, grid_pos: GridIdx) -> (res: Result<
        UID,
        FieldError,
    >)
        requires
            old(self).wf(),
            max_hp > 0,
        ensures
            final(self).wf(),
            res == old(self)@.spawn_result(grid_pos),
            final(self)@ == old(self)@.after_spawn(max_hp, faction, grid_pos),
            res matches Ok(uid) ==> !uid.is_null() && !old(self)@.units.contains_key(uid),
            res is Ok <==> !old(self)@.grid.contains_key(grid_pos) && old(self)@.issued < u32::MAX,
            res is Ok ==> final(self)@.units.len() == old(self)@.units.len() + 1,
            res is Err ==> final(self)@ == old(self)@,
    {
        broadcast use group_uid;

        if self.grid_map.contains_key(&grid_pos.0) {
            return Err(FieldError::AlreadyOccupied);
        }
        let uid = UID::new(&mut self.uids);
        if uid.get() == 0 {
            return Err(FieldError::IdsExhausted);
        }
        let unit = Unit::spawn(max_hp, faction, grid_pos, uid);
        self.units.insert(uid.get(), unit);
        self.grid_map.insert(grid_pos.0, uid.get());
        proof {
            let before = old(self)@;
            let after = before.after_spawn(max_hp, faction, grid_pos);
            assert(self@.units =~= after.units);
            assert(self@.grid =~= after.grid);
            FieldView::lemma_spawn_keeps_inv(before, max_hp, faction, grid_pos);
            FieldView::lemma_spawn_on_free_cell(before, max_hp, faction, grid_pos);
        }
        Ok(uid)
    }

    /// A copy of the unit `uid`, if it is alive.
    pub fn get_unit(&self, uid: UID) -> (unit: Option<Unit>)
        ensures
            unit == (if self@.units.contains_key(uid) {
                Some(self@.units[uid])
            } else {
                None
            }),
    {
        broadcast use group_uid;

        match self.units.get(&uid.get()) {
            Some(unit) => Some(*unit),
            None => None,
        }
    }

    /// The unit that stands on `cell`, if there is one.
    pub fn unit_at(&self, cell: GridIdx) -> (uid: Option<UID>)
        ensures
            uid == (if self@.grid.contains_key(cell) {
                Some(self@.grid[cell])
            } else {
                None
            }),
    {
        broadcast use group_uid;

        match self.grid_map.get(&cell.0) {
            Some(raw) => Some(UID::from(*raw)),
            None => None,
        }
    }

    /// Moves the unit `uid` to `new_idx` and reports its new position. Fails
    /// with `NotFound` if `uid` is no live unit, and with `AlreadyOccupied`
    /// if another unit stands on `new_idx`; a failed move changes nothing.
    /// Moving a unit to the cell on which it stands succeeds, changes
    /// nothing and reports nothing.
    pub fn move_unit(&mut self, uid: UID, new_idx: GridIdx) -> (res: Result<(), FieldError>)
        requires
            old(self).wf(),
        ensures
            final(self).wf(),
            res == old(self)@.move_result(uid, new_idx),
            final(self)@ == old(self)@.after_move(uid, new_idx),
            res is Err ==> final(self)@ == old(self)@,
    {
        broadcast use group_uid;

        let unit = match self.units.get(&uid.get()) {
            Some(unit) => *unit,
            None => {
                return Err(FieldError::NotFound);
            },
        };
        match self.grid_map.get(&new_idx.0) {
            Some(occupant) => {
                if *occupant != uid.get() {
                    return Err(FieldError::AlreadyOccupied);
                }
                return Ok(());
            },
            None => {},
        }
        let mut moved = unit;
        moved.grid_index = new_idx;
        self.units.insert(uid.get(), moved);
        self.grid_map.remove(&unit.grid_index.0);
        self.grid_map.insert(new_idx.0, uid.get());
        self.notifications.push(Notification::PositionChanged { uid, index: new_idx });
        proof {
            let after = old(self)@.after_move(uid, new_idx);
            assert(self@.units =~= after.units);
            assert(self@.grid =~= after.grid);
            FieldView::lemma_move_keeps_inv(old(self)@, uid, new_idx);
        }
        Ok(())
    }

    /// Changes the faction of the unit `uid`, and nothing else. Fails with
    /// `NotFound`, changing nothing, if `uid` is no live unit.
    pub fn update_faction(&mut self, uid: UID, faction: Faction) -> (res: Result<(), FieldError>)
        requires
            old(self).wf(),
        ensures
            final(self).wf(),
            res == old(self)@.faction_result(uid),
            final(self)@ == old(self)@.after_update_faction(uid, faction),
            res is Ok <==> old(self)@.units.contains_key(uid),
            res is Err ==> {
                &&& res == Err::<(), FieldError>(FieldError::NotFound)
                &&& final(self)@ == old(self)@
            },
    {
        broadcast use group_uid;

        let mut unit = match self.units.get(&uid.get()) {
            Some(unit) => *unit,
            None => {
                return Err(FieldError::NotFound);
            },
        };
        unit.update_faction(faction);
        self.units.insert(uid.get(), unit);
        proof {
            let after = old(self)@.after_update_faction(uid, faction);
            assert(self@.units =~= after.units);
            assert(self@.grid =~= after.grid);
            FieldView::lemma_update_faction_keeps_inv(old(self)@, uid, faction);
        }
        Ok(())
    }

    /// Removes the unit `uid` from both mappings. Removing a unit that is
    /// not there does nothing. This is also what happens to a unit whose
    /// death has been reported.
    pub fn remove_unit(&mut self, uid: UID)
        requires
            old(self).wf(),
        ensures
            final(self).wf(),
            final(self)@ == old(self)@.after_remove(uid),
            !final(self)@.units.contains_key(uid),
    {
        broadcast use group_uid;

        match self.units.remove(&uid.get()) {
            Some(unit) => {
                self.grid_map.remove(&unit.grid_index.0);
            },
            None => {},
        }
        proof {
            let after = old(self)@.after_remove(uid);
            assert(self@.units =~= after.units);
            assert(self@.grid =~= after.grid);
            FieldView::lemma_remove_keeps_inv(old(self)@, uid);
        }
    }

    /// Deals `amount` damage to the unit `uid`: its new health is reported;
    /// if that is zero or below, its death is reported once and the unit is
    /// removed from both mappings. Fails with `NotFound`, changing nothing,
    /// if `uid` is no live unit.
    pub fn damage_unit(&mut self, uid: UID, amount: i64) -> (res: Result<(), FieldError>)
        requires
            old(self).wf(),
            amount >= 0,
        ensures
            final(self).wf(),
            res == old(self)@.damage_result(uid),
            final(self)@ == old(self)@.after_damage(uid, amount as int),
    {
        broadcast use group_uid;

        let mut unit = match self.units.get(&uid.get()) {
            Some(unit) => *unit,
            None => {
                return Err(FieldError::NotFound);
            },
        };
        let mut notes = unit.take_damage(amount);
        self.notifications.append(&mut notes);
        if unit.is_alive() {
            self.units.insert(uid.get(), unit);
        } else {
            self.units.remove(&uid.get());
            self.grid_map.remove(&unit.grid_index.0);
        }
        proof {
            let after = old(self)@.after_damage(uid, amount as int);
            assert(self@.units =~= after.units);
            assert(self@.grid =~= after.grid);
            FieldView::lemma_damage_keeps_inv(old(self)@, uid, amount as int);
        }
        Ok(())
    }

    /// Drops every unit and every card. Pending notifications stay, and
    /// identifiers handed out before are not handed out again.
    pub fn clear(&mut self)
        ensures
            final(self).wf(),
            final(self)@ == old(self)@.after_clear(),
    {
        self.units.clear();
        self.grid_map.clear();
        self.deck.clear();
        self.hand.clear();
        self.discard_pile.clear();
        proof {
            let after = old(self)@.after_clear();
            self.uids.lemma_issued_bounded();
            assert(self@.units =~= after.units);
            assert(self@.grid =~= after.grid);
        }
    }

    /// Starts the battle's deck anew: whatever deck, hand and discard pile
    /// held is dropped, one instance is made of each definition for its
    /// owner, in the given order, and the deck made of them is shuffled with
    /// `rolls`.
    pub fn initialize_deck(&mut self, definitions: &Vec<(Card, UID)>, rolls: &Vec<u64>)
        ensures
            old(self).wf() ==> final(self).wf(),
            final(self)@ == old(self)@.after_initialize(definitions@, rolls@),
            final(self)@.deck.len() == definitions@.len(),
            final(self)@.hand.len() == 0,
            final(self)@.discard.len() == 0,
            final(self)@.all_cards() == FieldView::instances(definitions@).to_multiset(),
    {
        let mut built: Vec<CardInstance> = Vec::new();
        let mut i: usize = 0;
        while i < definitions.len()
            invariant
                0 <= i <= definitions@.len(),
                built@ == FieldView::instances(definitions@).take(i as int),
            decreases definitions@.len() - i,
        {
            let instance = CardInstance::from_definition(&definitions[i].0, definitions[i].1);
            built.push(instance);
            i = i + 1;
        }
        assert(built@ =~= FieldView::instances(definitions@));
        shuffle(&mut built, rolls);
        self.deck = built;
        self.hand.clear();
        self.discard_pile.clear();
        proof {
            FieldView::lemma_initialize_partition(old(self)@, definitions@, rolls@);
        }
    }

    /// Shuffles the deck with `rolls`. The deck holds the same cards
    /// afterwards.
    pub fn shuffle_deck(&mut self, rolls: &Vec<u64>)
        ensures
            old(self).wf() ==> final(self).wf(),
            final(self)@ == old(self)@.after_shuffle(rolls@),
            final(self)@.deck.to_multiset() == old(self)@.deck.to_multiset(),
            final(self)@.all_cards() == old(self)@.all_cards(),
    {
        shuffle(&mut self.deck, rolls);
    }

    /// Draws one card. With deck and discard pile both empty there is
    /// nothing to draw and nothing happens. With only the deck empty, the
    /// discard pile first becomes the deck and is shuffled with `rolls`.
    /// Then the last card of the deck goes to the end of the hand, and the
    /// change of the hand is reported.
    pub fn draw_card(&mut self, rolls: &Vec<u64>)
        ensures
            old(self).wf() ==> final(self).wf(),
            final(self)@ == old(self)@.after_draw(rolls@),
            final(self)@.all_cards() == old(self)@.all_cards(),
            final(self)@.card_count() == old(self)@.card_count(),
    {
        if self.deck.is_empty() {
            if self.discard_pile.is_empty() {
                return;
            }
            self.deck.append(&mut self.discard_pile);
            self.shuffle_deck(rolls);
        }
        proof {
            FieldView::lemma_draw_keeps_cards(old(self)@, rolls@);
        }
        if let Some(card) = self.deck.pop() {
            self.hand.push(card);
            self.notifications.push(Notification::HandUpdated);
        }
    }

    /// The hand indices that are burned to play the card at `play_idx`:
    /// as many as the card costs, taken from the highest index down and
    /// passing over `play_idx` itself, or every other index if the hand
    /// holds fewer other cards than that. Empty if `play_idx` is no index of
    /// the hand.
    pub fn get_burn_indices(&self, play_idx: usize) -> (burn: Vec<usize>)
        ensures
            burn@ == self@.burn_for(play_idx as int),
            play_idx >= self@.hand.len() ==> burn@.len() == 0,
            play_idx < self@.hand.len() ==> burn@.len() == vstd::math::min(
                self@.hand[play_idx as int].cost as int,
                self@.hand.len() - 1,
            ),
            !burn@.contains(play_idx),
    {
        let mut burn: Vec<usize> = Vec::new();
        let len: usize = self.hand.len();
        if play_idx >= len {
            return burn;
        }
        let cost: usize = self.hand[play_idx].cost as usize;
        let mut i: usize = len;
        while i > 0 && burn.len() < cost
            invariant
                0 <= i <= len,
                play_idx < len,
                burn@.len() <= cost,
                burn@.len() == (len - i) - (if i <= play_idx {
                    1int
                } else {
                    0int
                }),
                forall|k: int|
                    0 <= k < burn@.len() ==> burn@[k] == burn_index(
                        len as int,
                        play_idx as int,
                        k,
                    ),
            decreases i,
        {
            i = i - 1;
            if i != play_idx {
                burn.push(i);
            }
        }
        proof {
            lemma_burn_indices(len as int, play_idx as int, cost as int);
        }
        burn
    }

    /// Moves the cards at the indices of `order` from `hand` to the end of
    /// `discard`, one after the other.
    fn discard_spent(
        hand: &mut Vec<CardInstance>,
        discard: &mut Vec<CardInstance>,
        order: &Vec<usize>,
        play_idx: usize,
        cost: usize,
    )
        requires
            play_idx < old(hand)@.len(),
            cost <= old(hand)@.len() - 1,
            order@ == spent_indices(old(hand)@.len() as int, play_idx as int, cost as int),
        ensures
            final(hand)@ == hand_after(old(hand)@, play_idx as int, cost as int),
            final(discard)@ == old(discard)@ + spent_cards(
                old(hand)@,
                play_idx as int,
                cost as int,
            ),
    {
        let total: usize = hand.len();
        let ghost len = total as int;
        let ghost play = play_idx as int;
        let ghost above = burned_above(len, play, cost as int);
        let mut k: usize = 0;
        while k < order.len()
            invariant
                0 <= k <= cost + 1,
                len == old(hand)@.len(),
                len == total,
                play == play_idx,
                0 <= play < len,
                cost <= len - 1,
                above == burned_above(len, play, cost as int),
                order@ == spent_indices(len, play, cost as int),
                hand@ == (if k <= above || above < cost {
                    old(hand)@.take(len - k)
                } else {
                    old(hand)@.take(len - cost).remove(play)
                }),
                discard@ == old(discard)@ + Seq::new(
                    k as nat,
                    |i: int| old(hand)@[spent_index(len, play, cost as int, i)],
                ),
            decreases order@.len() - k,
        {
            let index: usize = order[k];
            let card = hand.remove(index);
            discard.push(card);
            k = k + 1;
        }
    }

    /// Plays the card at `card_idx` of the hand on the unit `target_uid`.
    ///
    /// It fails, changing nothing, with `InvalidIndex` if `card_idx` is no
    /// index of the hand; else with `InsufficientBurnFuel` if the hand holds
    /// fewer other cards than the card costs; else with `OwnerNotFound` if
    /// the card's owner is no live unit; else with `TargetNotFound` if the
    /// target is none; else with `OutOfRange` if the card has a range other
    /// than 0 and the target is farther from the owner than that.
    ///
    /// Otherwise the card's damage, if it has any, is dealt to the target,
    /// which is removed if it dies; the burned cards and the played card
    /// leave the hand for the discard pile, highest index first; and the
    /// change of the hand is reported.
    pub fn play_card(&mut self, card_idx: usize, target_uid: UID) -> (res: Result<(), FieldError>)
        requires
            old(self).wf(),
        ensures
            final(self).wf(),
            res == old(self)@.play_result(card_idx as int, target_uid),
            final(self)@ == old(self)@.after_play(card_idx as int, target_uid),
            res is Err ==> final(self)@ == old(self)@,
            final(self)@.all_cards() == old(self)@.all_cards(),
    {
        if card_idx >= self.hand.len() {
            return Err(FieldError::InvalidIndex);
        }
        let burn = self.get_burn_indices(card_idx);
        let cost: u32 = self.hand[card_idx].cost;
        let damage: u32 = self.hand[card_idx].damage;
        let range: u32 = self.hand[card_idx].range;
        let owner_uid: UID = self.hand[card_idx].owner_uid;
        if cost as usize > burn.len() {
            return Err(FieldError::InsufficientBurnFuel);
        }
        let owner = match self.get_unit(owner_uid) {
            Some(unit) => unit,
            None => {
                return Err(FieldError::OwnerNotFound);
            },
        };
        let target = match self.get_unit(target_uid) {
            Some(unit) => unit,
            None => {
                return Err(FieldError::TargetNotFound);
            },
        };
        let dist = GridIdx::dist(owner.grid_index, target.grid_index);
        if range != 0 && dist > range as u64 {
            return Err(FieldError::OutOfRange);
        }
        if damage > 0 {
            let _ = self.damage_unit(target_uid, damage as i64);
        }
        let order = removal_order(&burn, card_idx);
        proof {
            lemma_spent_is_burn_with_play(
                old(self)@.hand.len() as int,
                card_idx as int,
                cost as int,
            );
        }
        Field::discard_spent(
            &mut self.hand,
            &mut self.discard_pile,
            &order,
            card_idx,
            cost as usize,
        );
        self.notifications.push(Notification::HandUpdated);
        proof {
            FieldView::lemma_play_keeps_inv(old(self)@, card_idx as int, target_uid);
            FieldView::lemma_play_keeps_cards(old(self)@, card_idx as int, target_uid);
        }
        Ok(())
    }

    /// Hands over the notifications queued since the last call, oldest
    /// first, and empties the queue.
    pub fn take_notifications(&mut self) -> (notes: Vec<Notification>)
        ensures
            old(self).wf() ==> final(self).wf(),
            notes@ == old(self)@.notifications,
            final(self)@ == old(self)@.after_take(),
    {
        let mut notes: Vec<Notification> = Vec::new();
        core::mem::swap(&mut notes, &mut self.notifications);
        notes
    }

    /// The deck, bottom first. Cards are drawn from its end.
    pub fn deck(&self) -> (cards: &Vec<CardInstance>)
        ensures
            cards@ == self@.deck,
    {
        &self.deck
    }

    /// The hand, in the order that play and burn indices refer to.
    pub fn hand(&self) -> (cards: &Vec<CardInstance>)
        ensures
            cards@ == self@.hand,
    {
        &self.hand
    }

    /// The discard pile, oldest first.
    pub fn discard_pile(&self) -> (cards: &Vec<CardInstance>)
        ensures
            cards@ == self@.discard,
    {
        &self.discard_pile
    }

    /// The notifications that the host has not taken yet, oldest first.
    pub fn pending_notifications(&self) -> (notes: &Vec<Notification>)
        ensures
            notes@ == self@.notifications,
    {
        &self.notifications
    }
}

} // verus!
