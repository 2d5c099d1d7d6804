//! What holds of the battle field, whatever commands it has gone through.
//!
//! Each statement here is about [`FieldView`] and the functions that say what
//! a command does to it; the commands of [`crate::field::Field`] are proved to
//! do exactly that.

use vstd::prelude::*;
use vstd::seq_lib::{lemma_multiset_commutative, to_multiset_build};
use crate::burn::{lemma_burn_indices, lemma_spent_and_kept, spent_cards};
use crate::card::Card;
use crate::data::{GridIdx, UID};
use crate::deck::{lemma_empty_pile, lemma_shuffle_is_permutation, shuffled};
use crate::error::FieldError;
use crate::event::{deaths_of, Notification};
use crate::model::{Command, FieldView};
use crate::unit::{Faction, Unit};

verus! {

impl FieldView {
    /// Spawning keeps the field's invariant.
    pub proof fn lemma_spawn_keeps_inv(v: FieldView, max_hp: i64, faction: Faction, cell: GridIdx)
        requires
            v.inv(),
            max_hp > 0,
        ensures
            v.after_spawn(max_hp, faction, cell).inv(),
    {
        broadcast use crate::data::group_uid;

    }

    /// Moving a unit keeps the field's invariant.
    pub proof fn lemma_move_keeps_inv(v: FieldView, uid: UID, cell: GridIdx)
        requires
            v.inv(),
        ensures
            v.after_move(uid, cell).inv(),
    {
    }

    /// Changing a unit's faction keeps the field's invariant.
    pub proof fn lemma_update_faction_keeps_inv(v: FieldView, uid: UID, faction: Faction)
        requires
            v.inv(),
        ensures
            v.after_update_faction(uid, faction).inv(),
    {
    }

    /// Removing a unit keeps the field's invariant.
    pub proof fn lemma_remove_keeps_inv(v: FieldView, uid: UID)
        requires
            v.inv(),
        ensures
            v.after_remove(uid).inv(),
    {
    }

    /// Damage keeps the field's invariant.
    pub proof fn lemma_damage_keeps_inv(v: FieldView, uid: UID, amount: int)
        requires
            v.inv(),
            0 <= amount <= i64::MAX,
        ensures
            v.after_damage(uid, amount).inv(),
    {
    }

    /// Playing a card keeps the field's invariant.
    pub proof fn lemma_play_keeps_inv(v: FieldView, index: int, target: UID)
        requires
            v.inv(),
        ensures
            v.after_play(index, target).inv(),
    {
        if v.play_result(index, target) is Ok && v.hand[index].damage > 0 {
            FieldView::lemma_damage_keeps_inv(v, target, v.hand[index].damage as int);
        }
    }

    /// Every command keeps the field's invariant.
    pub proof fn lemma_command_keeps_inv(v: FieldView, command: Command)
        requires
            v.inv(),
            command.accepted(),
        ensures
            v.after(command).inv(),
    {
        match command {
            Command::Spawn { max_hp, faction, cell } => {
                FieldView::lemma_spawn_keeps_inv(v, max_hp, faction, cell);
            },
            Command::Move { uid, cell } => {
                FieldView::lemma_move_keeps_inv(v, uid, cell);
            },
            Command::Remove { uid } => {
                FieldView::lemma_remove_keeps_inv(v, uid);
            },
            Command::UpdateFaction { uid, faction } => {
                FieldView::lemma_update_faction_keeps_inv(v, uid, faction);
            },
            Command::Damage { uid, amount } => {
                FieldView::lemma_damage_keeps_inv(v, uid, amount as int);
            },
            Command::Play { index, target } => {
                FieldView::lemma_play_keeps_inv(v, index, target);
            },
            _ => {},
        }
    }

    /// Whatever commands a field has gone through, from an empty field or
    /// from any field that meets the invariant, it meets the invariant.
    pub proof fn lemma_commands_keep_inv(v: FieldView, commands: Seq<Command>)
        requires
            v.inv(),
            forall|i: int| 0 <= i < commands.len() ==> (#[trigger] commands[i]).accepted(),
        ensures
            v.after_all(commands).inv(),
        decreases commands.len(),
    {
        if commands.len() > 0 {
            FieldView::lemma_commands_keep_inv(v, commands.drop_last());
            FieldView::lemma_command_keeps_inv(
                v.after_all(commands.drop_last()),
                commands.last(),
            );
        }
    }

    /// No two live units stand on the same cell.
    pub proof fn lemma_cells_are_exclusive(v: FieldView, a: UID, b: UID)
        requires
            v.inv(),
            v.units.contains_key(a),
            v.units.contains_key(b),
            a != b,
        ensures
            v.units[a].grid_index != v.units[b].grid_index,
    {
    }

    /// The occupancy invariant: on a field that started empty, after any
    /// sequence of spawns and of any other commands, no two live units share
    /// a cell, and each unit is the occupant of the cell it stands on.
    pub proof fn lemma_occupancy(commands: Seq<Command>, a: UID, b: UID)
        requires
            forall|i: int| 0 <= i < commands.len() ==> (#[trigger] commands[i]).accepted(),
            FieldView::empty().after_all(commands).units.contains_key(a),
            FieldView::empty().after_all(commands).units.contains_key(b),
            a != b,
        ensures
            ({
                let v = FieldView::empty().after_all(commands);
                &&& v.units[a].grid_index != v.units[b].grid_index
                &&& v.grid.contains_key(v.units[a].grid_index)
                &&& v.grid[v.units[a].grid_index] == a
            }),
    {
        FieldView::lemma_commands_keep_inv(FieldView::empty(), commands);
    }

    /// A spawn on a free cell, while identifiers are left, succeeds and
    /// keeps the invariant. It adds exactly one unit and one cell: the new
    /// unit is alive, at full health, on the cell, under an identifier that
    /// no unit had; every other unit and cell is as before; and still no two
    /// units share a cell.
    pub proof fn lemma_spawn_on_free_cell(
        v: FieldView,
        max_hp: i64,
        faction: Faction,
        cell: GridIdx,
    )
        requires
            v.inv(),
            max_hp > 0,
            !v.grid.contains_key(cell),
            v.issued < u32::MAX,
        ensures
            v.spawn_result(cell) is Ok,
            v.after_spawn(max_hp, faction, cell).inv(),
            ({
                let uid = v.spawn_result(cell)->Ok_0;
                let after = v.after_spawn(max_hp, faction, cell);
                &&& !uid.is_null()
                &&& !v.units.contains_key(uid)
                &&& after.units == v.units.insert(uid, Unit::spawned(max_hp, faction, cell, uid))
                &&& after.grid == v.grid.insert(cell, uid)
                &&& after.units[uid].grid_index == cell
                &&& after.units[uid].hp == max_hp
                &&& after.units.len() == v.units.len() + 1
                &&& after.grid.len() == v.grid.len() + 1
                &&& after.grid.len() == after.units.len()
                &&& forall|a: UID, b: UID|
                    after.units.contains_key(a) && after.units.contains_key(b) && a != b
                        ==> #[trigger] after.units[a].grid_index
                        != #[trigger] after.units[b].grid_index
            }),
    {
        broadcast use crate::data::group_uid;

        FieldView::lemma_spawn_keeps_inv(v, max_hp, faction, cell);
    }

    /// A spawn on an occupied cell, or with every identifier used up, is
    /// refused and changes nothing.
    pub proof fn lemma_refused_spawn_changes_nothing(
        v: FieldView,
        max_hp: i64,
        faction: Faction,
        cell: GridIdx,
    )
        requires
            v.grid.contains_key(cell) || v.issued >= u32::MAX,
        ensures
            v.spawn_result(cell) is Err,
            v.grid.contains_key(cell) ==> v.spawn_result(cell) == Err::<UID, FieldError>(
                FieldError::AlreadyOccupied,
            ),
            v.after_spawn(max_hp, faction, cell) == v,
    {
    }

    /// There are as many live units as occupied cells.
    pub proof fn lemma_units_and_cells_match(v: FieldView)
        requires
            v.inv(),
        ensures
            v.units.len() == v.grid.len(),
            forall|uid: UID| #[trigger]
                v.units.contains_key(uid) ==> v.grid.contains_key(v.units[uid].grid_index)
                    && v.grid[v.units[uid].grid_index] == uid,
            forall|cell: GridIdx| #[trigger]
                v.grid.contains_key(cell) ==> v.units.contains_key(v.grid[cell])
                    && v.units[v.grid[cell]].grid_index == cell,
    {
    }

    /// A move onto a cell on which another unit stands is refused and moves
    /// neither unit: the field stays as it is.
    pub proof fn lemma_blocked_move_changes_nothing(v: FieldView, uid: UID, cell: GridIdx)
        requires
            v.inv(),
            v.units.contains_key(uid),
            v.grid.contains_key(cell),
            v.grid[cell] != uid,
        ensures
            v.move_result(uid, cell) == Err::<(), FieldError>(FieldError::AlreadyOccupied),
            v.after_move(uid, cell) == v,
            v.after_move(uid, cell).units[uid].grid_index == v.units[uid].grid_index,
            v.after_move(uid, cell).units[v.grid[cell]].grid_index == cell,
    {
    }

    /// Damage that brings a unit's health to zero or below reports its
    /// death exactly once and removes it: afterwards the unit is in neither
    /// mapping.
    pub proof fn lemma_fatal_damage_removes_unit(v: FieldView, uid: UID, amount: int)
        requires
            v.inv(),
            v.units.contains_key(uid),
            0 <= amount <= i64::MAX,
            v.units[uid].hp - amount <= 0,
        ensures
            v.after_damage(uid, amount).notifications == v.notifications + seq![
                Notification::HpChanged {
                    uid,
                    hp: (v.units[uid].hp - amount) as i64,
                    max_hp: v.units[uid].max_hp,
                },
                Notification::Died { uid },
            ],
            deaths_of(
                v.after_damage(uid, amount).notifications.skip(v.notifications.len() as int),
                uid,
            ) == 1,
            !v.after_damage(uid, amount).units.contains_key(uid),
            !v.after_damage(uid, amount).grid.contains_key(v.units[uid].grid_index),
            forall|cell: GridIdx| #[trigger]
                v.after_damage(uid, amount).grid.contains_key(cell) ==> v.after_damage(
                    uid,
                    amount,
                ).grid[cell] != uid,
    {
        let hurt = v.units[uid].damaged_by(amount);
        let report = Unit::damage_report(uid, hurt.hp, hurt.max_hp);
        let after = v.after_damage(uid, amount);
        Unit::lemma_one_death_per_fatal_report(uid, hurt.hp, hurt.max_hp);
        assert(after.notifications.skip(v.notifications.len() as int) =~= report);
        FieldView::lemma_damage_keeps_inv(v, uid, amount);
    }

    /// Damage that a unit survives reports its health only and leaves it
    /// where it stands.
    pub proof fn lemma_survived_damage_keeps_unit(v: FieldView, uid: UID, amount: int)
        requires
            v.inv(),
            v.units.contains_key(uid),
            0 <= amount < v.units[uid].hp,
        ensures
            v.after_damage(uid, amount).notifications == v.notifications.push(
                Notification::HpChanged {
                    uid,
                    hp: (v.units[uid].hp - amount) as i64,
                    max_hp: v.units[uid].max_hp,
                },
            ),
            v.after_damage(uid, amount).units.contains_key(uid),
            v.after_damage(uid, amount).units[uid].hp == v.units[uid].hp - amount,
            v.after_damage(uid, amount).grid == v.grid,
    {
    }

    /// A new deck holds one instance for each definition and nothing else;
    /// hand and discard pile are empty.
    pub proof fn lemma_initialize_partition(
        v: FieldView,
        definitions: Seq<(Card, UID)>,
        rolls: Seq<u64>,
    )
        ensures
            v.after_initialize(definitions, rolls).deck.len() == definitions.len(),
            v.after_initialize(definitions, rolls).hand.len() == 0,
            v.after_initialize(definitions, rolls).discard.len() == 0,
            v.after_initialize(definitions, rolls).card_count() == definitions.len(),
            v.after_initialize(definitions, rolls).all_cards() == FieldView::instances(
                definitions,
            ).to_multiset(),
    {
        broadcast use vstd::multiset::group_multiset_axioms;

        let after = v.after_initialize(definitions, rolls);
        lemma_shuffle_is_permutation(FieldView::instances(definitions), rolls, 0);
        lemma_empty_pile(after.hand);
        lemma_empty_pile(after.discard);
    }

    /// A draw loses no card and makes none: the three piles together hold
    /// the same instances before and after, also when the draw recycles the
    /// discard pile.
    pub proof fn lemma_draw_keeps_cards(v: FieldView, rolls: Seq<u64>)
        ensures
            v.after_draw(rolls).all_cards() == v.all_cards(),
            v.after_draw(rolls).card_count() == v.card_count(),
            v.after_recycle(rolls).all_cards() == v.all_cards(),
            v.after_recycle(rolls).card_count() == v.card_count(),
    {
        broadcast use vstd::multiset::group_multiset_axioms;

        let ready = v.after_recycle(rolls);
        if v.deck.len() == 0 {
            lemma_shuffle_is_permutation(v.discard, rolls, 0);
            lemma_empty_pile(v.deck);
            lemma_empty_pile(ready.discard);
        }
        if !v.nothing_to_draw() {
            assert(ready.deck =~= ready.deck.drop_last().push(ready.deck.last()));
            to_multiset_build(ready.deck.drop_last(), ready.deck.last());
            to_multiset_build(ready.hand, ready.deck.last());
        }
    }

    /// A draw from an empty deck with cards in the discard pile recycles
    /// them: the discard pile is empty afterwards, one of its cards is the
    /// new last card of the hand, and the others are the deck.
    pub proof fn lemma_draw_recycles(v: FieldView, rolls: Seq<u64>)
        requires
            v.deck.len() == 0,
            v.discard.len() > 0,
        ensures
            v.after_draw(rolls).discard.len() == 0,
            v.after_draw(rolls).hand.len() == v.hand.len() + 1,
            v.after_draw(rolls).deck.len() == v.discard.len() - 1,
            v.after_draw(rolls).deck.push(v.after_draw(rolls).hand.last()) == shuffled(
                v.discard,
                rolls,
            ),
            v.after_draw(rolls).deck.push(v.after_draw(rolls).hand.last()).to_multiset()
                == v.discard.to_multiset(),
    {
        lemma_shuffle_is_permutation(v.discard, rolls, 0);
    }

    /// A play loses no card and makes none: the three piles together hold
    /// the same instances before and after.
    pub proof fn lemma_play_keeps_cards(v: FieldView, index: int, target: UID)
        ensures
            v.after_play(index, target).all_cards() == v.all_cards(),
            v.after_play(index, target).card_count() == v.card_count(),
    {
        broadcast use vstd::multiset::group_multiset_axioms;

        if v.play_result(index, target) is Ok {
            let cost = v.hand[index].cost as int;
            lemma_spent_and_kept(v.hand, index, cost);
            lemma_multiset_commutative(v.discard, spent_cards(v.hand, index, cost));
        }
    }

    /// Across every command that does not drop the piles, no card is lost
    /// and none is made: deck, hand and discard pile together hold the same
    /// instances, each as often as before.
    pub proof fn lemma_command_keeps_cards(v: FieldView, command: Command)
        requires
            command.keeps_piles(),
        ensures
            v.after(command).all_cards() == v.all_cards(),
            v.after(command).card_count() == v.card_count(),
    {
        match command {
            Command::ShuffleDeck { rolls } => {
                lemma_shuffle_is_permutation(v.deck, rolls, 0);
            },
            Command::Draw { rolls } => {
                FieldView::lemma_draw_keeps_cards(v, rolls);
            },
            Command::Play { index, target } => {
                FieldView::lemma_play_keeps_cards(v, index, target);
            },
            _ => {},
        }
    }

    /// The same across any sequence of such commands: however often cards
    /// are drawn, played, burned and recycled, the battle holds the
    /// instances that it held at the start.
    pub proof fn lemma_commands_keep_cards(v: FieldView, commands: Seq<Command>)
        requires
            forall|i: int| 0 <= i < commands.len() ==> (#[trigger] commands[i]).keeps_piles(),
        ensures
            v.after_all(commands).all_cards() == v.all_cards(),
            v.after_all(commands).card_count() == v.card_count(),
        decreases commands.len(),
    {
        if commands.len() > 0 {
            FieldView::lemma_commands_keep_cards(v, commands.drop_last());
            FieldView::lemma_command_keeps_cards(
                v.after_all(commands.drop_last()),
                commands.last(),
            );
        }
    }

    /// The burned indices of a play never hold the played card's own index,
    /// and there are `min(cost, hand length - 1)` of them.
    pub proof fn lemma_burn_for(v: FieldView, index: int)
        requires
            0 <= index < v.hand.len() <= usize::MAX,
        ensures
            v.burn_for(index).len() == vstd::math::min(
                v.hand[index].cost as int,
                v.hand.len() - 1,
            ),
            !v.burn_for(index).contains(index as usize),
            forall|k: int|
                0 <= k < v.burn_for(index).len() ==> 0 <= (#[trigger] v.burn_for(index)[k])
                    < v.hand.len() && v.burn_for(index)[k] != index,
    {
        lemma_burn_indices(v.hand.len() as int, index, v.hand[index].cost as int);
    }

    /// A play that is refused changes nothing.
    pub proof fn lemma_refused_play_changes_nothing(v: FieldView, index: int, target: UID)
        requires
            v.play_result(index, target) is Err,
        ensures
            v.after_play(index, target) == v,
    {
    }
}

} // verus!
