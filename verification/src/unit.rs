//! Units: battle entities with health, a faction and a position.

use vstd::prelude::*;
use crate::data::{GridIdx, UID};
use crate::event::{deaths_of, Notification};

verus! {

/// The side a unit fights on.
#[derive(Debug, Clone, Copy, PartialEq, Eq, Structural)]
pub enum Faction {
    Player,
    Enemy,
}

impl Default for Faction {
    fn default() -> (f: Faction)
        ensures
            f == Faction::Player,
    {
        Faction::Player
    }
}

/// A battle entity.
#[derive(Debug, Clone, Copy, PartialEq, Eq, Structural)]
pub struct Unit {
    /// Current health. The unit is alive while it is positive.
    pub hp: i64,
    /// Health at full strength.
    pub max_hp: i64,
    pub faction: Faction,
    pub uid: UID,
    pub grid_index: GridIdx,
}

impl Unit {
    /// A unit is alive while its health is positive. Damage never brings a
    /// dead unit back.
    pub open spec fn alive(self) -> bool {
        self.hp > 0
    }

    /// The unit as it is right after `spawn`.
    pub open spec fn spawned(max_hp: i64, faction: Faction, grid_index: GridIdx, uid: UID) -> Unit {
        Unit { hp: max_hp, max_hp, faction, uid, grid_index }
    }

    /// The unit standing on another cell, everything else unchanged.
    pub open spec fn moved_to(self, grid_index: GridIdx) -> Unit {
        Unit { grid_index, ..self }
    }

    /// The unit on another side, everything else unchanged.
    pub open spec fn with_faction(self, faction: Faction) -> Unit {
        Unit { faction, ..self }
    }

    /// The unit after losing `amount` health, everything else unchanged.
    pub open spec fn damaged_by(self, amount: int) -> Unit
        recommends
            i64::MIN <= self.hp - amount <= i64::MAX,
    {
        Unit { hp: (self.hp - amount) as i64, ..self }
    }

    /// What a unit reports when its health has just changed to `hp`: the new
    /// health, followed by its death if the health is zero or below.
    pub open spec fn damage_report(uid: UID, hp: i64, max_hp: i64) -> Seq<Notification> {
        if hp <= 0 {
            seq![Notification::HpChanged { uid, hp, max_hp }, Notification::Died { uid }]
        } else {
            seq![Notification::HpChanged { uid, hp, max_hp }]
        }
    }

    /// Creates a unit at full health.
    pub fn spawn(max_hp: i64, faction: Faction, grid_index: GridIdx, uid: UID) -> (unit: Unit)
        requires
            max_hp > 0,
        ensures
            unit == Unit::spawned(max_hp, faction, grid_index, uid),
            unit.hp == max_hp,
            unit.max_hp == max_hp,
            unit.faction == faction,
            unit.grid_index == grid_index,
            unit.uid == uid,
            unit.alive(),
    {
        Unit { hp: max_hp, max_hp, faction, uid, grid_index }
    }

    /// Sets the unit up on `grid_index` under the identifier `uid`: its
    /// health is brought to its full strength, and that health is reported.
    pub fn setup(&mut self, grid_index: GridIdx, uid: UID) -> (note: Notification)
        requires
            old(self).max_hp > 0,
        ensures
            final(self).grid_index == grid_index,
            final(self).uid == uid,
            final(self).hp == old(self).max_hp,
            final(self).max_hp == old(self).max_hp,
            final(self).faction == old(self).faction,
            final(self).alive(),
            note == (Notification::HpChanged {
                uid,
                hp: old(self).max_hp,
                max_hp: old(self).max_hp,
            }),
    {
        self.grid_index = grid_index;
        self.uid = uid;
        self.hp = self.max_hp;
        Notification::HpChanged { uid, hp: self.hp, max_hp: self.max_hp }
    }

    /// Subtracts `amount` from the unit's health, with no floor, and returns
    /// what there is to report: always the new health, and the unit's death,
    /// once, if the new health is zero or below. The unit does not remove
    /// itself from anything; that is up to whoever holds it.
    pub fn take_damage(&mut self, amount: i64) -> (notes: Vec<Notification>)
        requires
            amount >= 0,
            old(self).hp - amount >= i64::MIN,
        ensures
            *final(self) == old(self).damaged_by(amount as int),
            final(self).hp == old(self).hp - amount,
            final(self).max_hp == old(self).max_hp,
            final(self).faction == old(self).faction,
            final(self).grid_index == old(self).grid_index,
            final(self).uid == old(self).uid,
            !old(self).alive() ==> !final(self).alive(),
            notes@ == Unit::damage_report(old(self).uid, final(self).hp, old(self).max_hp),
            deaths_of(notes@, old(self).uid) == (if final(self).alive() {
                0nat
            } else {
                1nat
            }),
    {
        self.hp = self.hp - amount;
        let mut notes: Vec<Notification> = Vec::new();
        notes.push(Notification::HpChanged { uid: self.uid, hp: self.hp, max_hp: self.max_hp });
        if self.hp <= 0 {
            notes.push(Notification::Died { uid: self.uid });
        }
        proof {
            Unit::lemma_one_death_per_fatal_report(self.uid, self.hp, self.max_hp);
        }
        notes
    }

    /// Changes the unit's faction.
    pub fn update_faction(&mut self, faction: Faction)
        ensures
            *final(self) == old(self).with_faction(faction),
            final(self).faction == faction,
            final(self).hp == old(self).hp,
            final(self).max_hp == old(self).max_hp,
            final(self).grid_index == old(self).grid_index,
            final(self).uid == old(self).uid,
    {
        self.faction = faction;
    }

    pub fn get_uid(&self) -> (uid: UID)
        ensures
            uid == self.uid,
    {
        self.uid
    }

    pub fn get_grid_index(&self) -> (index: GridIdx)
        ensures
            index == self.grid_index,
    {
        self.grid_index
    }

    /// Whether the unit's health is positive.
    pub fn is_alive(&self) -> (b: bool)
        ensures
            b == self.alive(),
    {
        self.hp > 0
    }

    /// A damage report holds the unit's death exactly once if the new health
    /// is zero or below, and not at all otherwise.
    pub proof fn lemma_one_death_per_fatal_report(uid: UID, hp: i64, max_hp: i64)
        ensures
            deaths_of(Unit::damage_report(uid, hp, max_hp), uid) == (if hp <= 0 {
                1nat
            } else {
                0nat
            }),
    {
        let report = Unit::damage_report(uid, hp, max_hp);
        let first = seq![Notification::HpChanged { uid, hp, max_hp }];
        assert(deaths_of(first.drop_last(), uid) == 0);
        assert(deaths_of(first, uid) == 0);
        if hp <= 0 {
            assert(report.drop_last() =~= first);
        }
    }
}

} // verus!
