//! The battle field as a mathematical value, and what each command does to it.
//!
//! [`FieldView`] is what a [`crate::field::Field`] stands for. Every command
//! of the field is described here twice over: by a function that gives its
//! result, and by a function that gives the state after it.

use vstd::prelude::*;
use vstd::multiset::Multiset;
use crate::burn::{burn_indices, can_pay, hand_after, spent_cards};
use crate::card::{Card, CardInstance};
use crate::data::{GridIdx, UID};
use crate::deck::shuffled;
use crate::error::FieldError;
use crate::event::Notification;
use crate::unit::{Faction, Unit};

verus! {

/// The state of a battle.
pub struct FieldView {
    /// The live units, by identifier.
    pub units: Map<UID, Unit>,
    /// The occupancy index: which unit stands on which cell.
    pub grid: Map<GridIdx, UID>,
    /// The deck. Cards are drawn from its end.
    pub deck: Seq<CardInstance>,
    pub hand: Seq<CardInstance>,
    pub discard: Seq<CardInstance>,
    /// How many identifiers have been handed out.
    pub issued: nat,
    /// The notifications not yet taken by the host, oldest first.
    pub notifications: Seq<Notification>,
}

/// One command of the field, with its arguments.
pub enum Command {
    Spawn { max_hp: i64, faction: Faction, cell: GridIdx },
    Move { uid: UID, cell: GridIdx },
    Remove { uid: UID },
    UpdateFaction { uid: UID, faction: Faction },
    Damage { uid: UID, amount: i64 },
    Clear,
    InitializeDeck { definitions: Seq<(Card, UID)>, rolls: Seq<u64> },
    ShuffleDeck { rolls: Seq<u64> },
    Draw { rolls: Seq<u64> },
    Play { index: int, target: UID },
    TakeNotifications,
    SkipUids { issued: u32 },
}

impl Command {
    /// Whether the command's arguments are ones that the field accepts: a
    /// unit is spawned with positive health, and damage is not negative.
    pub open spec fn accepted(self) -> bool {
        match self {
            Command::Spawn { max_hp, .. } => max_hp > 0,
            Command::Damage { amount, .. } => amount >= 0,
            _ => true,
        }
    }

    /// Whether the command is one that moves cards between the piles at
    /// most: every command but the two that drop the piles.
    pub open spec fn keeps_piles(self) -> bool {
        !(self is Clear) && !(self is InitializeDeck)
    }
}

impl FieldView {
    /// The field before anything has happened.
    pub open spec fn empty() -> FieldView {
        FieldView {
            units: Map::empty(),
            grid: Map::empty(),
            deck: Seq::empty(),
            hand: Seq::empty(),
            discard: Seq::empty(),
            issued: 0,
            notifications: Seq::empty(),
        }
    }

    /// What holds of every field at all times: each live unit is alive,
    /// carries the identifier it is filed under, an identifier that has been
    /// handed out, and is the occupant of its own cell; each occupied cell
    /// holds a live unit that stands there; and there are finitely many
    /// units, as many as occupied cells.
    pub open spec fn inv(self) -> bool {
        &&& self.issued <= u32::MAX
        &&& self.units.dom().finite()
        &&& self.grid.dom().finite()
        &&& self.units.len() == self.grid.len()
        &&& forall|uid: UID| #[trigger]
            self.units.contains_key(uid) ==> {
                &&& self.units[uid].uid == uid
                &&& 0 < uid@ <= self.issued
                &&& 0 < self.units[uid].hp <= self.units[uid].max_hp
                &&& self.grid.contains_key(self.units[uid].grid_index)
                &&& self.grid[self.units[uid].grid_index] == uid
            }
        &&& forall|cell: GridIdx| #[trigger]
            self.grid.contains_key(cell) ==> {
                &&& self.units.contains_key(self.grid[cell])
                &&& self.units[self.grid[cell]].grid_index == cell
            }
    }

    /// Every card instance of the battle, whichever pile holds it.
    pub open spec fn all_cards(self) -> Multiset<CardInstance> {
        self.deck.to_multiset().add(self.hand.to_multiset()).add(self.discard.to_multiset())
    }

    /// How many card instances the three piles hold together.
    pub open spec fn card_count(self) -> nat {
        self.deck.len() + self.hand.len() + self.discard.len()
    }

    /// The field after the identifiers up to `issued` have been passed
    /// over: none of them is handed out from now on.
    pub open spec fn after_skip(self, issued: u32) -> FieldView {
        if issued > self.issued {
            FieldView { issued: issued as nat, ..self }
        } else {
            self
        }
    }

    /// The result of spawning a unit on `cell`.
    pub open spec fn spawn_result(self, cell: GridIdx) -> Result<UID, FieldError> {
        if self.grid.contains_key(cell) {
            Err(FieldError::AlreadyOccupied)
        } else if self.issued >= u32::MAX {
            Err(FieldError::IdsExhausted)
        } else {
            Ok(UID::spec_from((self.issued + 1) as u32))
        }
    }

    /// The field after spawning a unit on `cell`.
    pub open spec fn after_spawn(self, max_hp: i64, faction: Faction, cell: GridIdx) -> FieldView {
        match self.spawn_result(cell) {
            Ok(uid) => FieldView {
                units: self.units.insert(uid, Unit::spawned(max_hp, faction, cell, uid)),
                grid: self.grid.insert(cell, uid),
                issued: self.issued + 1,
                ..self
            },
            Err(_) => self,
        }
    }

    /// The result of moving the unit `uid` to `cell`. Moving a unit to the
    /// cell on which it stands succeeds.
    pub open spec fn move_result(self, uid: UID, cell: GridIdx) -> Result<(), FieldError> {
        if !self.units.contains_key(uid) {
            Err(FieldError::NotFound)
        } else if self.grid.contains_key(cell) && self.grid[cell] != uid {
            Err(FieldError::AlreadyOccupied)
        } else {
            Ok(())
        }
    }

    /// The field after moving the unit `uid` to `cell`. A failed move
    /// changes nothing, and neither does a move to the unit's own cell.
    pub open spec fn after_move(self, uid: UID, cell: GridIdx) -> FieldView {
        if self.move_result(uid, cell) is Err || self.units[uid].grid_index == cell {
            self
        } else {
            FieldView {
                units: self.units.insert(uid, self.units[uid].moved_to(cell)),
                grid: self.grid.remove(self.units[uid].grid_index).insert(cell, uid),
                notifications: self.notifications.push(
                    Notification::PositionChanged { uid, index: cell },
                ),
                ..self
            }
        }
    }

    /// The result of changing the faction of the unit `uid`.
    pub open spec fn faction_result(self, uid: UID) -> Result<(), FieldError> {
        if self.units.contains_key(uid) {
            Ok(())
        } else {
            Err(FieldError::NotFound)
        }
    }

    /// The field after changing the faction of the unit `uid`: that unit is
    /// on the new side, and nothing else has changed. Without such a unit
    /// the field stays as it is.
    pub open spec fn after_update_faction(self, uid: UID, faction: Faction) -> FieldView {
        if self.units.contains_key(uid) {
            FieldView { units: self.units.insert(uid, self.units[uid].with_faction(faction)), ..self }
        } else {
            self
        }
    }

    /// The field after removing the unit `uid`, if there is one.
    pub open spec fn after_remove(self, uid: UID) -> FieldView {
        if self.units.contains_key(uid) {
            FieldView {
                units: self.units.remove(uid),
                grid: self.grid.remove(self.units[uid].grid_index),
                ..self
            }
        } else {
            self
        }
    }

    /// The result of dealing damage to the unit `uid`.
    pub open spec fn damage_result(self, uid: UID) -> Result<(), FieldError> {
        if self.units.contains_key(uid) {
            Ok(())
        } else {
            Err(FieldError::NotFound)
        }
    }

    /// The field after the unit `uid` has taken `amount` damage: its health
    /// is reported, and if it died, its death is reported and it is gone
    /// from both mappings.
    pub open spec fn after_damage(self, uid: UID, amount: int) -> FieldView {
        if self.units.contains_key(uid) {
            let hurt = self.units[uid].damaged_by(amount);
            let reported = FieldView {
                units: self.units.insert(uid, hurt),
                notifications: self.notifications + Unit::damage_report(uid, hurt.hp, hurt.max_hp),
                ..self
            };
            if hurt.alive() {
                reported
            } else {
                reported.after_remove(uid)
            }
        } else {
            self
        }
    }

    /// The field after everything but the pending notifications and the
    /// count of identifiers has been dropped.
    pub open spec fn after_clear(self) -> FieldView {
        FieldView { issued: self.issued, notifications: self.notifications, ..FieldView::empty() }
    }

    /// The instances that a list of definitions and owners gives, in order.
    pub open spec fn instances(definitions: Seq<(Card, UID)>) -> Seq<CardInstance> {
        Seq::new(
            definitions.len(),
            |i: int| CardInstance::of(definitions[i].0, definitions[i].1),
        )
    }

    /// The field after a new deck has been built from `definitions` and
    /// shuffled with `rolls`. Whatever the piles held before is gone.
    pub open spec fn after_initialize(
        self,
        definitions: Seq<(Card, UID)>,
        rolls: Seq<u64>,
    ) -> FieldView {
        FieldView {
            deck: shuffled(FieldView::instances(definitions), rolls),
            hand: Seq::empty(),
            discard: Seq::empty(),
            ..self
        }
    }

    /// The field after the deck has been shuffled with `rolls`.
    pub open spec fn after_shuffle(self, rolls: Seq<u64>) -> FieldView {
        FieldView { deck: shuffled(self.deck, rolls), ..self }
    }

    /// Whether a draw finds nothing: deck and discard pile are both empty.
    pub open spec fn nothing_to_draw(self) -> bool {
        self.deck.len() == 0 && self.discard.len() == 0
    }

    /// The field after an empty deck has been refilled from the discard
    /// pile and shuffled with `rolls`. A field whose deck holds a card stays
    /// as it is.
    pub open spec fn after_recycle(self, rolls: Seq<u64>) -> FieldView {
        if self.deck.len() == 0 {
            FieldView { deck: shuffled(self.discard, rolls), discard: Seq::empty(), ..self }
        } else {
            self
        }
    }

    /// The field after one draw. With nothing to draw it stays as it is.
    /// Otherwise an empty deck is first recycled with `rolls`; then the last
    /// card of the deck goes to the end of the hand.
    pub open spec fn after_draw(self, rolls: Seq<u64>) -> FieldView {
        if self.nothing_to_draw() {
            self
        } else {
            let ready = self.after_recycle(rolls);
            FieldView {
                deck: ready.deck.drop_last(),
                hand: ready.hand.push(ready.deck.last()),
                notifications: ready.notifications.push(Notification::HandUpdated),
                ..ready
            }
        }
    }

    /// The hand indices burned to play the card at `index`; none where
    /// `index` names no card of the hand.
    pub open spec fn burn_for(self, index: int) -> Seq<usize> {
        burn_indices(self.hand.len() as int, index, self.hand[index].cost as int)
    }

    /// Whether a card of the given range reaches from `from` to `to`. A
    /// range of 0 reaches everywhere.
    pub open spec fn in_range(range: u32, from: GridIdx, to: GridIdx) -> bool {
        range == 0 || GridIdx::spec_dist(from, to) <= range
    }

    /// The result of playing the card at `index` of the hand on `target`.
    /// The checks are made in this order, and the first that fails decides.
    pub open spec fn play_result(self, index: int, target: UID) -> Result<(), FieldError> {
        if !(0 <= index < self.hand.len()) {
            Err(FieldError::InvalidIndex)
        } else if !can_pay(self.hand.len() as int, self.hand[index].cost as int) {
            Err(FieldError::InsufficientBurnFuel)
        } else if !self.units.contains_key(self.hand[index].owner_uid) {
            Err(FieldError::OwnerNotFound)
        } else if !self.units.contains_key(target) {
            Err(FieldError::TargetNotFound)
        } else if !FieldView::in_range(
            self.hand[index].range,
            self.units[self.hand[index].owner_uid].grid_index,
            self.units[target].grid_index,
        ) {
            Err(FieldError::OutOfRange)
        } else {
            Ok(())
        }
    }

    /// The field after playing the card at `index` of the hand on `target`.
    /// A failed play changes nothing. A play that succeeds first deals the
    /// card's damage, if it has any; then the burned cards and the played
    /// card leave the hand for the end of the discard pile, highest index
    /// first; then the change of the hand is reported.
    pub open spec fn after_play(self, index: int, target: UID) -> FieldView {
        if self.play_result(index, target) is Err {
            self
        } else {
            let card = self.hand[index];
            let struck = if card.damage > 0 {
                self.after_damage(target, card.damage as int)
            } else {
                self
            };
            FieldView {
                hand: hand_after(self.hand, index, card.cost as int),
                discard: self.discard + spent_cards(self.hand, index, card.cost as int),
                notifications: struck.notifications.push(Notification::HandUpdated),
                ..struck
            }
        }
    }

    /// The field after the host has taken the pending notifications.
    pub open spec fn after_take(self) -> FieldView {
        FieldView { notifications: Seq::empty(), ..self }
    }

    /// The field after one command.
    pub open spec fn after(self, command: Command) -> FieldView {
        match command {
            Command::Spawn { max_hp, faction, cell } => self.after_spawn(max_hp, faction, cell),
            Command::Move { uid, cell } => self.after_move(uid, cell),
            Command::Remove { uid } => self.after_remove(uid),
            Command::UpdateFaction { uid, faction } => self.after_update_faction(uid, faction),
            Command::Damage { uid, amount } => self.after_damage(uid, amount as int),
            Command::Clear => self.after_clear(),
            Command::InitializeDeck { definitions, rolls } => self.after_initialize(
                definitions,
                rolls,
            ),
            Command::ShuffleDeck { rolls } => self.after_shuffle(rolls),
            Command::Draw { rolls } => self.after_draw(rolls),
            Command::Play { index, target } => self.after_play(index, target),
            Command::TakeNotifications => self.after_take(),
            Command::SkipUids { issued } => self.after_skip(issued),
        }
    }

    /// The field after a sequence of commands, the first of them first.
    pub open spec fn after_all(self, commands: Seq<Command>) -> FieldView
        decreases commands.len(),
    {
        if commands.len() == 0 {
            self
        } else {
            self.after_all(commands.drop_last()).after(commands.last())
        }
    }
}

} // verus!
