//! Card definitions and the per-battle instances made from them.

use vstd::prelude::*;
use crate::data::UID;

verus! {

/// The template of a card, as authored. A definition is never changed once
/// it exists; instances copy what they need from it.
#[derive(Debug, PartialEq, Eq)]
pub struct Card {
    pub name: String,
    /// How many other cards of the hand are burned to play this one.
    pub cost: u32,
    /// Damage dealt to the target; 0 for a card that deals none.
    pub damage: u32,
    /// Greatest distance between owner and target; 0 for unlimited reach.
    pub range: u32,
}

impl Clone for Card {
    fn clone(&self) -> (c: Card)
        ensures
            c == *self,
    {
        Card { name: self.name.clone(), cost: self.cost, damage: self.damage, range: self.range }
    }
}

impl Default for Card {
    /// The card a new definition starts from: it costs one card, deals no
    /// damage and reaches the neighbouring cell.
    fn default() -> (c: Card)
        ensures
            c.name@ == "New Card"@,
            c.cost == 1,
            c.damage == 0,
            c.range == 1,
    {
        Card { name: "New Card".to_owned(), cost: 1, damage: 0, range: 1 }
    }
}

/// A card in play: a snapshot of a definition, tagged with the unit that
/// owns it. The snapshot values decide the game; the definition is kept for
/// display only.
#[derive(Debug, PartialEq, Eq)]
pub struct CardInstance {
    pub owner_uid: UID,
    pub base_card: Option<Card>,
    pub cost: u32,
    pub damage: u32,
    pub range: u32,
    pub name: String,
}

impl CardInstance {
    /// The instance that `def` gives for the owner `owner`.
    pub open spec fn of(def: Card, owner: UID) -> CardInstance {
        CardInstance {
            owner_uid: owner,
            base_card: Some(def),
            cost: def.cost,
            damage: def.damage,
            range: def.range,
            name: def.name,
        }
    }

    /// Makes an instance of `def` for `owner`, copying cost, damage, range
    /// and name as they are now.
    pub fn from_definition(def: &Card, owner: UID) -> (inst: CardInstance)
        ensures
            inst == CardInstance::of(*def, owner),
    {
        CardInstance {
            owner_uid: owner,
            base_card: Some(def.clone()),
            cost: def.cost,
            damage: def.damage,
            range: def.range,
            name: def.name.clone(),
        }
    }

    /// Overwrites this instance with a snapshot of `card` for `owner`.
    pub fn init_state(&mut self, card: &Card, owner: UID)
        ensures
            *final(self) == CardInstance::of(*card, owner),
    {
        self.cost = card.cost;
        self.damage = card.damage;
        self.range = card.range;
        self.name = card.name.clone();
        self.base_card = Some(card.clone());
        self.owner_uid = owner;
    }

    /// The damage that the definition behind this instance states, 0 where
    /// the instance has none.
    pub fn get_final_damage(&self) -> (damage: u32)
        ensures
            damage == match self.base_card {
                Some(card) => card.damage,
                None => 0u32,
            },
    {
        match &self.base_card {
            Some(card) => card.damage,
            None => 0,
        }
    }

    pub fn cost(&self) -> (cost: u32)
        ensures
            cost == self.cost,
    {
        self.cost
    }

    pub fn damage(&self) -> (damage: u32)
        ensures
            damage == self.damage,
    {
        self.damage
    }

    pub fn range(&self) -> (range: u32)
        ensures
            range == self.range,
    {
        self.range
    }

    pub fn owner(&self) -> (owner: UID)
        ensures
            owner == self.owner_uid,
    {
        self.owner_uid
    }

    pub fn name(&self) -> (name: &String)
        ensures
            *name == self.name,
    {
        &self.name
    }
}

} // verus!
