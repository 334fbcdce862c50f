use trade_advisor::enums::{Attribute, EquipmentEffectType, ItemType, Slot};
use trade_advisor::item::UnderstoodItem;
use trade_advisor::recommend::recommend;
use trade_advisor::records::{EquipmentEffect, Player, PlayerEquipment};
use trade_advisor::roster::RosterIndex;
use trade_advisor::trade::{inventory_substitutions, roster_swaps};

fn one_kind(label: &str) -> ItemType {
    ItemType { label: String::from(label) }
}

fn bonus(attribute: Attribute, value: i32) -> Option<EquipmentEffect> {
    Some(EquipmentEffect {
        attribute: Some(attribute),
        effect_type: Some(EquipmentEffectType::FlatBonus),
        value,
    })
}

fn piece(label: &str, prefix: &str, effects: Vec<Option<EquipmentEffect>>) -> PlayerEquipment {
    PlayerEquipment {
        name: Some(one_kind(label)),
        rare_name: None,
        prefixes: vec![Some(String::from(prefix))],
        suffixes: vec![],
        effects: Some(effects),
    }
}

fn understood(label: &str, prefix: &str, effects: Vec<Option<EquipmentEffect>>) -> UnderstoodItem {
    UnderstoodItem::try_from(piece(label, prefix, effects)).unwrap()
}

fn player(name: &str, equipment: Vec<PlayerEquipment>) -> Player {
    Player { first_name: String::from(name), equipment }
}

fn two_player_roster() -> RosterIndex {
    RosterIndex::new()
        .with_player(
            Slot::Catcher,
            player("Ann", vec![piece("Cap", "Fast", vec![bonus(Attribute::Velocity, 500)])]),
        )
        .unwrap()
        .with_player(
            Slot::Closer,
            player("Bo", vec![piece("Cap", "Keen", vec![bonus(Attribute::Contact, 300)])]),
        )
        .unwrap()
}

#[test]
fn a_better_inventory_item_is_proposed_with_its_gain() {
    let roster = RosterIndex::new()
        .with_player(
            Slot::Catcher,
            player("Ann", vec![piece("Cap", "Old", vec![bonus(Attribute::Contact, 100)])]),
        )
        .unwrap();
    let inventory = vec![understood("Cap", "New", vec![bonus(Attribute::Contact, 250)])];
    let proposed = inventory_substitutions(&inventory, &roster);
    assert_eq!(proposed.len(), 1);
    assert_eq!(proposed[0].description, "Inventory New Cap <-> Ann Old Cap");
    assert_eq!(proposed[0].gain, 1500);
}

#[test]
fn an_equal_or_worse_inventory_item_is_not_proposed() {
    let roster = RosterIndex::new()
        .with_player(
            Slot::Catcher,
            player("Ann", vec![piece("Cap", "Old", vec![bonus(Attribute::Contact, 100)])]),
        )
        .unwrap();
    let equal = vec![understood("Cap", "Same", vec![bonus(Attribute::Luck, 100)])];
    assert!(inventory_substitutions(&equal, &roster).is_empty());
    let worse = vec![understood("Cap", "Bad", vec![bonus(Attribute::Contact, 99)])];
    assert!(inventory_substitutions(&worse, &roster).is_empty());
    let barely = vec![understood("Cap", "Good", vec![bonus(Attribute::Contact, 101)])];
    let proposed = inventory_substitutions(&barely, &roster);
    assert_eq!(proposed.len(), 1);
    assert_eq!(proposed[0].gain, 10);
}

#[test]
fn an_inventory_item_of_a_kind_nobody_wears_stands_against_the_empty_slot() {
    let roster = RosterIndex::new()
        .with_player(
            Slot::Catcher,
            player("Ann", vec![piece("Cap", "Old", vec![bonus(Attribute::Contact, 100)])]),
        )
        .unwrap();
    let inventory = vec![
        understood("Ring", "Gold", vec![bonus(Attribute::Contact, 40)]),
        understood("Ring", "Dull", vec![]),
        understood("Ring", "Cursed", vec![bonus(Attribute::Contact, -40)]),
    ];
    let proposed = inventory_substitutions(&inventory, &roster);
    assert_eq!(proposed.len(), 1);
    assert_eq!(proposed[0].description, "Inventory Gold Ring <-> Ann [Empty Slot]");
    assert_eq!(proposed[0].gain, 400);
}

#[test]
fn every_inventory_item_meets_every_taken_slot_in_order() {
    let roster = two_player_roster();
    let inventory = vec![
        understood("Cap", "Lucky", vec![bonus(Attribute::Luck, 10)]),
        understood("Ring", "Lucky", vec![bonus(Attribute::Luck, 20)]),
    ];
    let proposed = inventory_substitutions(&inventory, &roster);
    // Both worn caps rate zero where they are, so the lucky cap gains at
    // both slots, and the ring finds both slots empty.
    let found: Vec<(String, i128)> =
        proposed.into_iter().map(|t| (t.description, t.gain)).collect();
    assert_eq!(
        found,
        vec![
            (String::from("Inventory Lucky Cap <-> Ann Fast Cap"), 100),
            (String::from("Inventory Lucky Cap <-> Bo Keen Cap"), 100),
            (String::from("Inventory Lucky Ring <-> Ann [Empty Slot]"), 200),
            (String::from("Inventory Lucky Ring <-> Bo [Empty Slot]"), 200),
        ]
    );
}

#[test]
fn nothing_is_proposed_without_inventory_or_without_players() {
    let roster = two_player_roster();
    assert!(inventory_substitutions(&vec![], &roster).is_empty());
    let inventory = vec![understood("Cap", "Lucky", vec![bonus(Attribute::Luck, 10)])];
    assert!(inventory_substitutions(&inventory, &RosterIndex::new()).is_empty());
    assert!(roster_swaps(&RosterIndex::new()).is_empty());
}

#[test]
fn an_item_is_never_swapped_with_itself() {
    let roster = RosterIndex::new()
        .with_player(
            Slot::Catcher,
            player(
                "Ann",
                vec![
                    piece("Cap", "Old", vec![bonus(Attribute::Contact, 100)]),
                    piece("Ring", "Gold", vec![bonus(Attribute::Velocity, 900)]),
                ],
            ),
        )
        .unwrap();
    assert!(roster_swaps(&roster).is_empty());
}

#[test]
fn misplaced_items_are_swapped_and_the_swap_is_seen_from_both_sides() {
    // The catcher wears a pitching cap and the closer a batting cap.
    let roster = two_player_roster();
    let proposed = roster_swaps(&roster);
    let found: Vec<(String, i128)> =
        proposed.into_iter().map(|t| (t.description, t.gain)).collect();
    assert_eq!(
        found,
        vec![
            (String::from("Ann Fast Cap <-> Bo Keen Cap"), 8000),
            (String::from("Bo Keen Cap <-> Ann Fast Cap"), 8000),
        ]
    );
}

#[test]
fn a_worn_item_may_move_to_a_player_who_has_none_of_its_kind() {
    let roster = RosterIndex::new()
        .with_player(
            Slot::Catcher,
            player("Ann", vec![piece("Cap", "Fast", vec![bonus(Attribute::Velocity, 500)])]),
        )
        .unwrap()
        .with_player(Slot::Closer, player("Bo", vec![]))
        .unwrap();
    let proposed = roster_swaps(&roster);
    assert_eq!(proposed.len(), 1);
    assert_eq!(proposed[0].description, "Ann Fast Cap <-> Bo [Empty Slot]");
    assert_eq!(proposed[0].gain, 5000);
}

#[test]
fn well_placed_items_are_not_swapped() {
    let roster = RosterIndex::new()
        .with_player(
            Slot::Catcher,
            player("Ann", vec![piece("Cap", "Keen", vec![bonus(Attribute::Contact, 300)])]),
        )
        .unwrap()
        .with_player(
            Slot::Closer,
            player("Bo", vec![piece("Cap", "Fast", vec![bonus(Attribute::Velocity, 500)])]),
        )
        .unwrap();
    assert!(roster_swaps(&roster).is_empty());
}

#[test]
fn one_slot_and_one_better_item_give_one_line() {
    let roster = RosterIndex::new()
        .with_player(
            Slot::FirstBaseman,
            player("Ann", vec![piece("Gloves", "Worn", vec![bonus(Attribute::Contact, 500)])]),
        )
        .unwrap();
    // The newcomer rates 0.65 where the worn gloves rate 0.50.
    let inventory = vec![piece("Gloves", "Fine", vec![bonus(Attribute::Contact, 650)])];
    let lines = recommend(inventory, &roster);
    assert_eq!(lines.len(), 1);
    assert!(lines[0].ends_with("+15.00"));
    assert_eq!(lines[0], "Inventory Fine Gloves <-> Ann Worn Gloves: +15.00");
}

#[test]
fn recommendations_come_by_ascending_gain() {
    let roster = two_player_roster();
    let mut unknown = piece("x", "y", vec![bonus(Attribute::Luck, 9000)]);
    unknown.name = None;
    let inventory = vec![
        piece("Ring", "Lucky", vec![bonus(Attribute::Luck, 20)]),
        unknown,
        piece("Cap", "Lucky", vec![bonus(Attribute::Luck, 10)]),
    ];
    let lines = recommend(inventory, &roster);
    assert_eq!(
        lines,
        vec![
            String::from("Inventory Lucky Cap <-> Ann Fast Cap: +1.00"),
            String::from("Inventory Lucky Cap <-> Bo Keen Cap: +1.00"),
            String::from("Inventory Lucky Ring <-> Ann [Empty Slot]: +2.00"),
            String::from("Inventory Lucky Ring <-> Bo [Empty Slot]: +2.00"),
            String::from("Ann Fast Cap <-> Bo Keen Cap: +80.00"),
            String::from("Bo Keen Cap <-> Ann Fast Cap: +80.00"),
        ]
    );
}

#[test]
fn a_team_with_nothing_to_gain_gets_no_line() {
    let roster = RosterIndex::new()
        .with_player(
            Slot::Catcher,
            player("Ann", vec![piece("Cap", "Keen", vec![bonus(Attribute::Contact, 300)])]),
        )
        .unwrap();
    let inventory = vec![piece("Cap", "Dull", vec![bonus(Attribute::Contact, 300)])];
    assert!(recommend(inventory, &roster).is_empty());
    assert!(recommend(vec![], &RosterIndex::new()).is_empty());
}
