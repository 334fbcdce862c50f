use trade_advisor::analysis::analyse;
use trade_advisor::enums::{Attribute, EquipmentEffectType, ItemType, Slot};
use trade_advisor::records::{EquipmentEffect, Player, PlayerEquipment};
use trade_advisor::roster::{resolve_slot, RosterError, RosterIndex};

fn a_kind(label: &str) -> ItemType {
    ItemType { label: String::from(label) }
}

fn a_piece(label: &str, attribute: Attribute, value: i32) -> PlayerEquipment {
    PlayerEquipment {
        name: Some(a_kind(label)),
        rare_name: None,
        prefixes: vec![],
        suffixes: vec![],
        effects: Some(vec![Some(EquipmentEffect {
            attribute: Some(attribute),
            effect_type: Some(EquipmentEffectType::FlatBonus),
            value,
        })]),
    }
}

fn a_player(name: &str, equipment: Vec<PlayerEquipment>) -> Player {
    Player { first_name: String::from(name), equipment }
}

#[test]
fn a_recognized_slot_resolves_to_itself() {
    assert_eq!(resolve_slot(Some(Slot::Closer)), Ok(Slot::Closer));
    assert_eq!(resolve_slot(Some(Slot::StartingPitcher(3))), Ok(Slot::StartingPitcher(3)));
}

#[test]
fn an_unrecognized_slot_is_an_error() {
    assert_eq!(resolve_slot(None), Err(RosterError::UnresolvedSlot));
}

#[test]
fn a_new_roster_is_empty() {
    let roster = RosterIndex::new();
    assert!(roster.entries().is_empty());
    assert!(roster.slots().is_empty());
    assert!(roster.lookup(&a_kind("Cap"), Slot::Catcher).is_none());
}

#[test]
fn a_player_puts_on_each_recognized_piece() {
    let mut unknown = a_piece("x", Attribute::Luck, 1);
    unknown.name = None;
    let roster = RosterIndex::new()
        .with_player(
            Slot::Catcher,
            a_player(
                "Ann",
                vec![
                    a_piece("Cap", Attribute::Contact, 50),
                    unknown,
                    a_piece("Ring", Attribute::Velocity, 70),
                ],
            ),
        )
        .unwrap();
    assert_eq!(roster.entries().len(), 2);
    assert_eq!(roster.slots().len(), 1);
    assert_eq!(roster.slots()[0].slot, Slot::Catcher);
    assert_eq!(roster.slots()[0].owner, "Ann");

    let cap = roster.lookup(&a_kind("Cap"), Slot::Catcher).unwrap();
    assert_eq!(cap.owner, "Ann");
    assert_eq!(cap.slot, Slot::Catcher);
    assert_eq!(cap.item.name, "Cap");
    assert_eq!(cap.rating, 500);

    // A catcher has no use for velocity.
    let ring = roster.lookup(&a_kind("Ring"), Slot::Catcher).unwrap();
    assert_eq!(ring.rating, 0);

    assert!(roster.lookup(&a_kind("Cap"), Slot::Closer).is_none());
    assert!(roster.lookup(&a_kind("Gloves"), Slot::Catcher).is_none());
}

#[test]
fn every_entry_carries_its_rating_at_its_slot() {
    let roster = RosterIndex::new()
        .with_player(Slot::Closer, a_player("Bo", vec![a_piece("Cap", Attribute::Reaction, 300)]))
        .unwrap()
        .with_player(Slot::LeftField, a_player("Cy", vec![a_piece("Cap", Attribute::Agility, 300)]))
        .unwrap();
    for entry in roster.entries() {
        assert_eq!(entry.rating, analyse(&entry.item, entry.slot));
        assert!(entry.item.item.is_some());
    }
    assert_eq!(roster.lookup(&a_kind("Cap"), Slot::Closer).unwrap().rating, 300);
    assert_eq!(roster.lookup(&a_kind("Cap"), Slot::LeftField).unwrap().rating, 3000);
}

#[test]
fn two_items_of_one_kind_on_one_player_are_an_error() {
    let result = RosterIndex::new().with_player(
        Slot::Catcher,
        a_player(
            "Ann",
            vec![a_piece("Cap", Attribute::Contact, 50), a_piece("Cap", Attribute::Luck, 10)],
        ),
    );
    assert_eq!(result.err(), Some(RosterError::DuplicateItem));
}

#[test]
fn two_items_of_one_kind_at_one_slot_are_an_error() {
    let roster = RosterIndex::new()
        .with_player(Slot::Catcher, a_player("Ann", vec![a_piece("Cap", Attribute::Contact, 50)]))
        .unwrap();
    let result = roster
        .with_player(Slot::Catcher, a_player("Bea", vec![a_piece("Cap", Attribute::Luck, 10)]));
    assert_eq!(result.err(), Some(RosterError::DuplicateItem));
}

#[test]
fn one_kind_at_two_slots_and_two_kinds_at_one_slot_are_fine() {
    let roster = RosterIndex::new()
        .with_player(
            Slot::Catcher,
            a_player(
                "Ann",
                vec![a_piece("Cap", Attribute::Contact, 50), a_piece("Ring", Attribute::Luck, 10)],
            ),
        )
        .unwrap()
        .with_player(Slot::ShortStop, a_player("Bea", vec![a_piece("Cap", Attribute::Luck, 10)]))
        .unwrap()
        .with_player(Slot::StartingPitcher(1), a_player("Cy", vec![]))
        .unwrap()
        .with_player(
            Slot::StartingPitcher(2),
            a_player("Di", vec![a_piece("Cap", Attribute::Luck, 10)]),
        )
        .unwrap();
    assert_eq!(roster.entries().len(), 4);
    let slots: Vec<Slot> = roster.slots().iter().map(|holder| holder.slot).collect();
    assert_eq!(
        slots,
        vec![Slot::Catcher, Slot::ShortStop, Slot::StartingPitcher(1), Slot::StartingPitcher(2)]
    );
    assert_eq!(roster.lookup(&a_kind("Cap"), Slot::ShortStop).unwrap().owner, "Bea");
    assert_eq!(roster.lookup(&a_kind("Cap"), Slot::StartingPitcher(2)).unwrap().owner, "Di");
    assert!(roster.lookup(&a_kind("Cap"), Slot::StartingPitcher(1)).is_none());
}

#[test]
fn a_slot_taken_again_is_listed_once_under_the_later_name() {
    let roster = RosterIndex::new()
        .with_player(Slot::Catcher, a_player("Ann", vec![a_piece("Cap", Attribute::Contact, 50)]))
        .unwrap()
        .with_player(Slot::Closer, a_player("Bo", vec![]))
        .unwrap()
        .with_player(Slot::Catcher, a_player("Bea", vec![a_piece("Ring", Attribute::Luck, 10)]))
        .unwrap();
    assert_eq!(roster.slots().len(), 2);
    assert_eq!(roster.slots()[0].slot, Slot::Catcher);
    assert_eq!(roster.slots()[0].owner, "Bea");
    assert_eq!(roster.slots()[1].slot, Slot::Closer);
    assert_eq!(roster.lookup(&a_kind("Cap"), Slot::Catcher).unwrap().owner, "Ann");
    assert_eq!(roster.lookup(&a_kind("Ring"), Slot::Catcher).unwrap().owner, "Bea");
}
