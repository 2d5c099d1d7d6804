use battle_core::card::{Card, CardInstance};
use battle_core::data::{GridIdx, UID};
use battle_core::error::FieldError;
use battle_core::event::Notification;
use battle_core::field::Field;
use battle_core::unit::Faction;

fn card(name: &str, cost: u32, damage: u32, range: u32) -> Card {
    Card { name: String::from(name), cost, damage, range }
}

fn names(pile: &Vec<CardInstance>) -> Vec<String> {
    pile.iter().map(|c| c.name().clone()).collect()
}

/// A field with a player unit on cell 0, an enemy with 10 health on
/// `enemy_cell`, and the given cards in hand, in the given order, all owned
/// by the player unit. No notification is pending.
fn field_with_hand(cards: Vec<Card>, enemy_cell: i64) -> (Field, UID, UID) {
    let mut field = Field::new();
    let owner = field.spawn_unit(20, Faction::Player, GridIdx(0)).unwrap();
    let enemy = field.spawn_unit(10, Faction::Enemy, GridIdx(enemy_cell)).unwrap();
    let n = cards.len();
    let defs: Vec<(Card, UID)> = cards.into_iter().map(|c| (c, owner)).collect();
    let rolls: Vec<u64> = (0..n as u64).rev().collect();
    field.initialize_deck(&defs, &rolls);
    for _ in 0..n {
        field.draw_card(&Vec::new());
    }
    field.take_notifications();
    (field, owner, enemy)
}

#[test]
fn burn_indices_scan_down_and_skip_the_played_card() {
    let cards = vec![
        card("A", 2, 0, 0),
        card("B", 1, 0, 0),
        card("C", 0, 0, 0),
        card("D", 3, 0, 0),
        card("E", 9, 0, 0),
    ];
    let (field, _, _) = field_with_hand(cards, 1);
    assert_eq!(names(field.hand()), vec!["A", "B", "C", "D", "E"]);
    assert_eq!(field.get_burn_indices(0), vec![4, 3]);
    assert_eq!(field.get_burn_indices(1), vec![4]);
    assert_eq!(field.get_burn_indices(2), Vec::<usize>::new());
    assert_eq!(field.get_burn_indices(3), vec![4, 2, 1]);
    assert_eq!(field.get_burn_indices(4), vec![3, 2, 1, 0]);
}

#[test]
fn burn_indices_of_an_index_out_of_bounds_are_empty() {
    let (field, _, _) = field_with_hand(vec![card("A", 1, 0, 0), card("B", 1, 0, 0)], 1);
    assert!(field.get_burn_indices(2).is_empty());
    assert!(field.get_burn_indices(usize::MAX).is_empty());
    let empty = Field::new();
    assert!(empty.get_burn_indices(0).is_empty());
}

#[test]
fn burn_indices_never_hold_the_played_index() {
    let cards: Vec<Card> = (0..6).map(|i| card("X", i, 0, 0)).collect();
    let (field, _, _) = field_with_hand(cards, 1);
    for play in 0..6usize {
        let burn = field.get_burn_indices(play);
        let cost = field.hand()[play].cost() as usize;
        assert!(!burn.contains(&play));
        assert_eq!(burn.len(), cost.min(5));
        assert!(burn.iter().all(|i| *i < 6));
        assert!(burn.windows(2).all(|w| w[0] > w[1]));
    }
}

#[test]
fn burn_indices_may_be_fewer_than_the_cost() {
    let (field, _, _) = field_with_hand(vec![card("A", 5, 0, 0), card("B", 0, 0, 0)], 1);
    assert_eq!(field.get_burn_indices(0), vec![1]);
}

#[test]
fn play_first_of_three_burns_the_other_two() {
    let cards = vec![card("CardA", 2, 0, 0), card("CardB", 0, 0, 0), card("CardC", 0, 0, 0)];
    let (mut field, owner, _) = field_with_hand(cards, 1);
    assert_eq!(field.get_burn_indices(0), vec![2, 1]);
    assert_eq!(field.play_card(0, owner), Ok(()));
    assert!(field.hand().is_empty());
    assert_eq!(names(field.discard_pile()), vec!["CardC", "CardB", "CardA"]);
    assert_eq!(field.take_notifications(), vec![Notification::HandUpdated]);
}

#[test]
fn play_out_of_range_fails_and_changes_nothing() {
    let cards = vec![card("Bolt", 0, 4, 3), card("B", 0, 0, 0)];
    let (mut field, owner, enemy) = field_with_hand(cards, 5);
    assert_eq!(field.play_card(0, enemy), Err(FieldError::OutOfRange));
    assert_eq!(names(field.hand()), vec!["Bolt", "B"]);
    assert!(field.discard_pile().is_empty());
    assert_eq!(field.get_unit(enemy).unwrap().hp, 10);
    assert_eq!(field.get_unit(owner).unwrap().hp, 20);
    assert!(field.pending_notifications().is_empty());
}

#[test]
fn play_at_exactly_the_range_succeeds() {
    let cards = vec![card("Bolt", 0, 4, 5)];
    let (mut field, _, enemy) = field_with_hand(cards, 5);
    assert_eq!(field.play_card(0, enemy), Ok(()));
    assert_eq!(field.get_unit(enemy).unwrap().hp, 6);
}

#[test]
fn play_one_cell_beyond_the_range_fails() {
    let cards = vec![card("Bolt", 0, 4, 4)];
    let (mut field, _, enemy) = field_with_hand(cards, -5);
    assert_eq!(field.play_card(0, enemy), Err(FieldError::OutOfRange));
    assert_eq!(field.get_unit(enemy).unwrap().hp, 10);
}

#[test]
fn range_zero_reaches_everywhere() {
    let cards = vec![card("Comet", 0, 4, 0)];
    let (mut field, _, enemy) = field_with_hand(cards, i64::MAX);
    assert_eq!(field.play_card(0, enemy), Ok(()));
    assert_eq!(field.get_unit(enemy).unwrap().hp, 6);
}

#[test]
fn range_is_measured_from_where_the_units_stand_now() {
    let cards = vec![card("Bolt", 0, 1, 2), card("Bolt", 0, 1, 2)];
    let (mut field, owner, enemy) = field_with_hand(cards, 5);
    assert_eq!(field.play_card(0, enemy), Err(FieldError::OutOfRange));
    field.move_unit(owner, GridIdx(3)).unwrap();
    assert_eq!(field.play_card(0, enemy), Ok(()));
    field.move_unit(enemy, GridIdx(-40)).unwrap();
    assert_eq!(field.play_card(0, enemy), Err(FieldError::OutOfRange));
}

#[test]
fn play_with_an_index_out_of_bounds_fails() {
    let (mut field, owner, _) = field_with_hand(vec![card("A", 0, 0, 0)], 1);
    assert_eq!(field.play_card(1, owner), Err(FieldError::InvalidIndex));
    assert_eq!(field.play_card(usize::MAX, owner), Err(FieldError::InvalidIndex));
    assert_eq!(names(field.hand()), vec!["A"]);
    let mut empty = Field::new();
    assert_eq!(empty.play_card(0, UID::from(1)), Err(FieldError::InvalidIndex));
}

#[test]
fn play_without_enough_cards_to_burn_fails() {
    let cards = vec![card("A", 2, 5, 0), card("B", 0, 0, 0)];
    let (mut field, _, enemy) = field_with_hand(cards, 1);
    assert_eq!(field.play_card(0, enemy), Err(FieldError::InsufficientBurnFuel));
    assert_eq!(names(field.hand()), vec!["A", "B"]);
    assert!(field.discard_pile().is_empty());
    assert_eq!(field.get_unit(enemy).unwrap().hp, 10);
    assert!(field.pending_notifications().is_empty());
}

#[test]
fn play_of_a_card_whose_owner_is_gone_fails() {
    let cards = vec![card("A", 0, 5, 0)];
    let (mut field, owner, enemy) = field_with_hand(cards, 1);
    field.remove_unit(owner);
    assert_eq!(field.play_card(0, enemy), Err(FieldError::OwnerNotFound));
    assert_eq!(names(field.hand()), vec!["A"]);
    assert_eq!(field.get_unit(enemy).unwrap().hp, 10);
}

#[test]
fn play_on_a_target_that_is_gone_fails() {
    let cards = vec![card("A", 0, 5, 0)];
    let (mut field, _, enemy) = field_with_hand(cards, 1);
    field.remove_unit(enemy);
    assert_eq!(field.play_card(0, enemy), Err(FieldError::TargetNotFound));
    assert_eq!(field.play_card(0, UID::null()), Err(FieldError::TargetNotFound));
    assert_eq!(names(field.hand()), vec!["A"]);
    assert!(field.pending_notifications().is_empty());
}

#[test]
fn checks_are_made_in_order() {
    // Too few cards to burn, owner gone, target gone: the fuel decides.
    let cards = vec![card("A", 3, 5, 1), card("B", 0, 5, 1)];
    let (mut field, owner, enemy) = field_with_hand(cards, 9);
    field.remove_unit(owner);
    field.remove_unit(enemy);
    assert_eq!(field.play_card(0, enemy), Err(FieldError::InsufficientBurnFuel));
    // Owner and target both gone: the owner decides.
    assert_eq!(field.play_card(1, enemy), Err(FieldError::OwnerNotFound));
    // The index comes before everything.
    assert_eq!(field.play_card(2, enemy), Err(FieldError::InvalidIndex));
}

#[test]
fn play_deals_damage_then_reports_the_hand() {
    let cards = vec![card("Hit", 1, 4, 0), card("B", 0, 0, 0), card("C", 0, 0, 0)];
    let (mut field, _, enemy) = field_with_hand(cards, 2);
    assert_eq!(field.play_card(0, enemy), Ok(()));
    assert_eq!(field.get_unit(enemy).unwrap().hp, 6);
    assert_eq!(names(field.hand()), vec!["B"]);
    assert_eq!(names(field.discard_pile()), vec!["C", "Hit"]);
    assert_eq!(
        field.take_notifications(),
        vec![
            Notification::HpChanged { uid: enemy, hp: 6, max_hp: 10 },
            Notification::HandUpdated,
        ]
    );
}

#[test]
fn play_that_kills_removes_the_target() {
    let cards = vec![card("Smite", 0, 10, 0), card("B", 0, 0, 0)];
    let (mut field, owner, enemy) = field_with_hand(cards, 2);
    assert_eq!(field.play_card(0, enemy), Ok(()));
    assert_eq!(field.get_unit(enemy), None);
    assert_eq!(field.unit_at(GridIdx(2)), None);
    assert_eq!(field.unit_at(GridIdx(0)), Some(owner));
    assert_eq!(names(field.hand()), vec!["B"]);
    assert_eq!(names(field.discard_pile()), vec!["Smite"]);
    assert_eq!(
        field.take_notifications(),
        vec![
            Notification::HpChanged { uid: enemy, hp: 0, max_hp: 10 },
            Notification::Died { uid: enemy },
            Notification::HandUpdated,
        ]
    );
    assert_eq!(field.play_card(0, enemy), Err(FieldError::TargetNotFound));
}

#[test]
fn play_can_kill_the_owner_itself() {
    let cards = vec![card("Pact", 0, 50, 1)];
    let (mut field, owner, _) = field_with_hand(cards, 2);
    assert_eq!(field.play_card(0, owner), Ok(()));
    assert_eq!(field.get_unit(owner), None);
    assert_eq!(field.unit_at(GridIdx(0)), None);
    assert_eq!(names(field.discard_pile()), vec!["Pact"]);
}

#[test]
fn card_without_damage_reports_no_health() {
    let cards = vec![card("Ward", 0, 0, 0)];
    let (mut field, _, enemy) = field_with_hand(cards, 2);
    assert_eq!(field.play_card(0, enemy), Ok(()));
    assert_eq!(field.get_unit(enemy).unwrap().hp, 10);
    assert_eq!(field.take_notifications(), vec![Notification::HandUpdated]);
}

#[test]
fn play_uses_the_snapshot_not_the_definition() {
    let cards = vec![card("Hit", 0, 4, 0)];
    let (field, _, _) = field_with_hand(cards, 2);
    assert_eq!(field.hand()[0].damage(), 4);
    assert_eq!(field.hand()[0].get_final_damage(), 4);
}

#[test]
fn play_in_the_middle_burns_from_the_top() {
    let cards = vec![
        card("A", 0, 0, 0),
        card("B", 2, 0, 0),
        card("C", 0, 0, 0),
        card("D", 0, 0, 0),
        card("E", 0, 0, 0),
    ];
    let (mut field, owner, _) = field_with_hand(cards, 1);
    assert_eq!(field.play_card(1, owner), Ok(()));
    assert_eq!(names(field.hand()), vec!["A", "C"]);
    assert_eq!(names(field.discard_pile()), vec!["E", "D", "B"]);
}

#[test]
fn play_of_the_last_card_burns_the_ones_below() {
    let cards = vec![
        card("A", 0, 0, 0),
        card("B", 0, 0, 0),
        card("C", 0, 0, 0),
        card("D", 0, 0, 0),
        card("E", 2, 0, 0),
    ];
    let (mut field, owner, _) = field_with_hand(cards, 1);
    assert_eq!(field.play_card(4, owner), Ok(()));
    assert_eq!(names(field.hand()), vec!["A", "B"]);
    assert_eq!(names(field.discard_pile()), vec!["E", "D", "C"]);
}

#[test]
fn play_between_burned_cards_leaves_in_descending_order() {
    let cards = vec![
        card("A", 0, 0, 0),
        card("B", 0, 0, 0),
        card("C", 0, 0, 0),
        card("D", 3, 0, 0),
        card("E", 0, 0, 0),
    ];
    let (mut field, owner, _) = field_with_hand(cards, 1);
    assert_eq!(field.get_burn_indices(3), vec![4, 2, 1]);
    assert_eq!(field.play_card(3, owner), Ok(()));
    assert_eq!(names(field.hand()), vec!["A"]);
    assert_eq!(names(field.discard_pile()), vec!["E", "D", "C", "B"]);
}

#[test]
fn discard_grows_at_its_end() {
    let cards = vec![card("A", 0, 0, 0), card("B", 0, 0, 0), card("C", 1, 0, 0)];
    let (mut field, owner, _) = field_with_hand(cards, 1);
    assert_eq!(field.play_card(0, owner), Ok(()));
    assert_eq!(names(field.discard_pile()), vec!["A"]);
    assert_eq!(field.play_card(1, owner), Ok(()));
    assert_eq!(names(field.discard_pile()), vec!["A", "C", "B"]);
    assert!(field.hand().is_empty());
}

#[test]
fn cards_recycle_from_discard_through_deck_without_loss() {
    let cards = vec![
        card("A", 0, 0, 0),
        card("B", 1, 0, 0),
        card("C", 0, 0, 0),
        card("D", 0, 0, 0),
    ];
    let (mut field, owner, _) = field_with_hand(cards, 1);
    let total = |f: &Field| f.deck().len() + f.hand().len() + f.discard_pile().len();
    assert_eq!(total(&field), 4);
    // Play everything into the discard pile.
    assert_eq!(field.play_card(1, owner), Ok(()));
    assert_eq!(total(&field), 4);
    assert_eq!(field.play_card(0, owner), Ok(()));
    assert_eq!(field.play_card(0, owner), Ok(()));
    assert!(field.deck().is_empty());
    assert!(field.hand().is_empty());
    assert_eq!(names(field.discard_pile()), vec!["D", "B", "A", "C"]);
    field.take_notifications();
    // The next draw recycles: 2 % 4 = 2 takes A, leaving D B C; 0 takes D,
    // leaving C B; 1 % 2 = 1 takes B; then C. The deck is A D B C, and C is
    // drawn.
    field.draw_card(&vec![2, 0, 1]);
    assert!(field.discard_pile().is_empty());
    assert_eq!(names(field.deck()), vec!["A", "D", "B"]);
    assert_eq!(names(field.hand()), vec!["C"]);
    assert_eq!(total(&field), 4);
    assert_eq!(field.take_notifications(), vec![Notification::HandUpdated]);
    // Further draws take from the deck and do not shuffle again.
    field.draw_card(&vec![9, 9, 9]);
    field.draw_card(&vec![9, 9, 9]);
    field.draw_card(&vec![9, 9, 9]);
    assert_eq!(names(field.hand()), vec!["C", "B", "D", "A"]);
    assert_eq!(total(&field), 4);
    field.take_notifications();
    field.draw_card(&vec![9, 9, 9]);
    assert_eq!(total(&field), 4);
    assert!(field.pending_notifications().is_empty());
    let mut all = names(field.hand());
    all.sort();
    assert_eq!(all, vec!["A", "B", "C", "D"]);
}

#[test]
fn recycled_cards_keep_their_owner_and_values() {
    let cards = vec![card("Hit", 0, 4, 7)];
    let (mut field, owner, enemy) = field_with_hand(cards, 1);
    assert_eq!(field.play_card(0, enemy), Ok(()));
    field.draw_card(&Vec::new());
    let inst = &field.hand()[0];
    assert_eq!(inst.name(), "Hit");
    assert_eq!(inst.owner(), owner);
    assert_eq!(inst.damage(), 4);
    assert_eq!(inst.range(), 7);
    assert_eq!(field.play_card(0, enemy), Ok(()));
    assert_eq!(field.get_unit(enemy).unwrap().hp, 2);
}
