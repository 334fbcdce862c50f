use trade_advisor::enums::{Attribute, EquipmentEffectType, ItemType};
use trade_advisor::fetching::{record_url, Fetchable};
use trade_advisor::item::{understand_all, UnderstoodItem};
use trade_advisor::records::{EquipmentEffect, Player, PlayerEquipment, Team};

fn kind(label: &str) -> ItemType {
    ItemType { label: String::from(label) }
}

fn flat(attribute: Attribute, value: i32) -> Option<EquipmentEffect> {
    Some(EquipmentEffect {
        attribute: Some(attribute),
        effect_type: Some(EquipmentEffectType::FlatBonus),
        value,
    })
}

fn plain_piece(label: &str, effects: Vec<Option<EquipmentEffect>>) -> PlayerEquipment {
    PlayerEquipment {
        name: Some(kind(label)),
        rare_name: None,
        prefixes: vec![],
        suffixes: vec![],
        effects: Some(effects),
    }
}

#[test]
fn an_unrecognized_kind_fails() {
    let piece = PlayerEquipment {
        name: None,
        rare_name: Some(String::from("Lucky")),
        prefixes: vec![Some(String::from("Shiny"))],
        suffixes: vec![],
        effects: Some(vec![flat(Attribute::Luck, 50)]),
    };
    match UnderstoodItem::try_from(piece) {
        Ok(_) => panic!("a piece without a kind was understood"),
        Err(reason) => assert_eq!(reason, "Didn't recognize name"),
    }
}

#[test]
fn a_recognized_kind_succeeds_and_is_kept() {
    let item = UnderstoodItem::try_from(plain_piece("Cap", vec![])).unwrap();
    assert_eq!(item.item, Some(kind("Cap")));
    assert_eq!(item.name, "Cap");
    assert!(item.effects.is_empty());
}

#[test]
fn only_flat_bonuses_on_recognized_attributes_are_kept_in_order() {
    let piece = plain_piece(
        "Gloves",
        vec![
            flat(Attribute::Contact, 50),
            Some(EquipmentEffect {
                attribute: Some(Attribute::Muscle),
                effect_type: Some(EquipmentEffectType::Multiplier),
                value: 900,
            }),
            None,
            Some(EquipmentEffect {
                attribute: None,
                effect_type: Some(EquipmentEffectType::FlatBonus),
                value: 70,
            }),
            Some(EquipmentEffect {
                attribute: Some(Attribute::Speed),
                effect_type: None,
                value: 80,
            }),
            flat(Attribute::Luck, -20),
            flat(Attribute::Contact, 10),
        ],
    );
    let item = UnderstoodItem::try_from(piece).unwrap();
    assert_eq!(
        item.effects,
        vec![(Attribute::Contact, 50), (Attribute::Luck, -20), (Attribute::Contact, 10)]
    );
}

#[test]
fn missing_effects_are_no_effects() {
    let mut piece = plain_piece("Ring", vec![]);
    piece.effects = None;
    let item = UnderstoodItem::try_from(piece).unwrap();
    assert!(item.effects.is_empty());
    assert_eq!(item.name, "Ring");
}

#[test]
fn a_rare_name_goes_before_the_kind() {
    let piece = PlayerEquipment {
        name: Some(kind("Sneakers")),
        rare_name: Some(String::from("Moonwalkers")),
        prefixes: vec![Some(String::from("Sturdy"))],
        suffixes: vec![Some(String::from("of Haste"))],
        effects: None,
    };
    let item = UnderstoodItem::try_from(piece).unwrap();
    assert_eq!(item.name, "Moonwalkers Sneakers");
}

#[test]
fn prefixes_kind_and_suffixes_are_joined_by_spaces() {
    let piece = PlayerEquipment {
        name: Some(kind("Cap")),
        rare_name: None,
        prefixes: vec![Some(String::from("Sturdy")), Some(String::from("Shiny"))],
        suffixes: vec![Some(String::from("of Haste")), Some(String::from("of Luck"))],
        effects: None,
    };
    let item = UnderstoodItem::try_from(piece).unwrap();
    assert_eq!(item.name, "Sturdy Shiny Cap of Haste of Luck");
}

#[test]
fn only_prefixes_or_only_suffixes() {
    let piece = PlayerEquipment {
        name: Some(kind("Cap")),
        rare_name: None,
        prefixes: vec![Some(String::from("Sturdy"))],
        suffixes: vec![],
        effects: None,
    };
    assert_eq!(UnderstoodItem::try_from(piece).unwrap().name, "Sturdy Cap");
    let piece = PlayerEquipment {
        name: Some(kind("Cap")),
        rare_name: None,
        prefixes: vec![],
        suffixes: vec![Some(String::from("of Haste"))],
        effects: None,
    };
    assert_eq!(UnderstoodItem::try_from(piece).unwrap().name, "Cap of Haste");
}

#[test]
fn unrecognized_prefixes_and_suffixes_are_left_out() {
    let piece = PlayerEquipment {
        name: Some(kind("Cap")),
        rare_name: None,
        prefixes: vec![None, Some(String::from("Shiny")), None],
        suffixes: vec![None, Some(String::from("of Luck"))],
        effects: None,
    };
    assert_eq!(UnderstoodItem::try_from(piece).unwrap().name, "Shiny Cap of Luck");
    let piece = PlayerEquipment {
        name: Some(kind("Cap")),
        rare_name: None,
        prefixes: vec![None],
        suffixes: vec![None],
        effects: None,
    };
    assert_eq!(UnderstoodItem::try_from(piece).unwrap().name, "Cap");
}

#[test]
fn understanding_all_passes_over_unrecognized_kinds() {
    let mut unknown = plain_piece("x", vec![flat(Attribute::Luck, 5)]);
    unknown.name = None;
    let pieces = vec![
        plain_piece("Cap", vec![flat(Attribute::Luck, 1)]),
        unknown,
        plain_piece("Ring", vec![flat(Attribute::Luck, 2)]),
    ];
    let items = understand_all(pieces);
    assert_eq!(items.len(), 2);
    assert_eq!(items[0].name, "Cap");
    assert_eq!(items[0].effects, vec![(Attribute::Luck, 1)]);
    assert_eq!(items[1].name, "Ring");
    assert_eq!(items[1].effects, vec![(Attribute::Luck, 2)]);
    assert!(items.iter().all(|item| item.item.is_some()));
    assert!(understand_all(vec![]).is_empty());
}

#[test]
fn kinds_are_the_same_when_their_words_are() {
    assert!(kind("Cap").same_kind(&kind("Cap")));
    assert!(!kind("Cap").same_kind(&kind("Ring")));
    assert!(!kind("Cap").same_kind(&kind("cap")));
}

#[test]
fn records_are_found_under_their_own_addresses() {
    assert_eq!(<Team as Fetchable>::URL, "https://mmolb.com/api/team");
    assert_eq!(<Player as Fetchable>::URL, "https://mmolb.com/api/player");
    assert_eq!(record_url::<Team>("abc123"), "https://mmolb.com/api/team/abc123");
    assert_eq!(record_url::<Player>("p-9"), "https://mmolb.com/api/player/p-9");
    assert_eq!(record_url::<Player>(""), "https://mmolb.com/api/player/");
}
