//! Items in the normalized form that ratings are computed from.

use crate::enums::{Attribute, EquipmentEffectType, ItemType};
use crate::records::{
    equipment_views, words_view, EquipmentEffect, EquipmentView, PlayerEquipment,
};
use vstd::prelude::*;

verus! {

/// An item reduced to what a rating needs: its flat bonuses, in the order
/// the data source listed them, each magnitude in thousandths; its kind;
/// and the name to show for it.
#[derive(Debug, Clone)]
pub struct UnderstoodItem {
    pub effects: Vec<(Attribute, i32)>,
    pub item: Option<ItemType>,
    pub name: String,
}

/// What an [`UnderstoodItem`] holds, as mathematical values.
pub struct ItemView {
    pub effects: Seq<(Attribute, i32)>,
    pub item: Option<Seq<char>>,
    pub name: Seq<char>,
}

impl View for UnderstoodItem {
    type V = ItemView;

    open spec fn view(&self) -> ItemView {
        ItemView {
            effects: self.effects@,
            item: match self.item {
                Some(kind) => Some(kind@),
                None => None,
            },
            name: self.name@,
        }
    }
}

/// What a list of items holds, item by item.
pub open spec fn item_views(items: Seq<UnderstoodItem>) -> Seq<ItemView> {
    items.map_values(|item: UnderstoodItem| item@)
}

/// The stand-in for "nothing worn here": no effects and no kind.
pub open spec fn empty_slot() -> ItemView {
    ItemView { effects: Seq::empty(), item: None, name: "[Empty Slot]"@ }
}

impl Default for UnderstoodItem {
    /// The item that stands for an empty slot.
    fn default() -> (empty: Self)
        ensures
            empty@ == empty_slot(),
    {
        UnderstoodItem { effects: Vec::new(), item: None, name: String::from_str("[Empty Slot]") }
    }
}

/// What an effect adds to a rating: its attribute and magnitude if it is a
/// flat bonus on a recognized attribute, and nothing otherwise.
pub open spec fn retained(effect: Option<EquipmentEffect>) -> Option<(Attribute, i32)> {
    match effect {
        Some(e) => match (e.effect_type, e.attribute) {
            (Some(EquipmentEffectType::FlatBonus), Some(attribute)) => Some((attribute, e.value)),
            _ => None,
        },
        None => None,
    }
}

/// The retained effects of a list, in the order of the list.
pub open spec fn flat_bonuses(effects: Seq<Option<EquipmentEffect>>) -> Seq<(Attribute, i32)>
    decreases effects.len(),
{
    if effects.len() == 0 {
        Seq::empty()
    } else {
        match retained(effects.last()) {
            Some(bonus) => flat_bonuses(effects.drop_last()).push(bonus),
            None => flat_bonuses(effects.drop_last()),
        }
    }
}

/// The recognized words of a list, in the order of the list.
pub open spec fn recognized(words: Seq<Option<Seq<char>>>) -> Seq<Seq<char>>
    decreases words.len(),
{
    if words.len() == 0 {
        Seq::empty()
    } else {
        match words.last() {
            Some(word) => recognized(words.drop_last()).push(word),
            None => recognized(words.drop_last()),
        }
    }
}

/// The words of a list with one space between neighbours.
pub open spec fn joined(words: Seq<Seq<char>>) -> Seq<char>
    decreases words.len(),
{
    if words.len() == 0 {
        Seq::empty()
    } else if words.len() == 1 {
        words.last()
    } else {
        joined(words.drop_last()) + seq![' '] + words.last()
    }
}

/// The name shown for a piece of equipment of kind `kind`: its rare name
/// and its kind, where it has a rare name; otherwise its recognized
/// prefixes, its kind and its recognized suffixes.
pub open spec fn display_name(equipment: EquipmentView, kind: Seq<char>) -> Seq<char> {
    match equipment.rare_name {
        Some(rare) => rare + seq![' '] + kind,
        None => joined(
            recognized(equipment.prefixes) + seq![kind] + recognized(equipment.suffixes),
        ),
    }
}

/// The normalized form of a piece of equipment of kind `kind`.
pub open spec fn normalized(equipment: EquipmentView, kind: Seq<char>) -> ItemView {
    ItemView {
        effects: match equipment.effects {
            Some(list) => flat_bonuses(list),
            None => Seq::empty(),
        },
        item: Some(kind),
        name: display_name(equipment, kind),
    }
}

/// The normalized forms of the pieces whose kind was recognized, in the
/// order of the pieces.
pub open spec fn understood(pieces: Seq<EquipmentView>) -> Seq<ItemView>
    decreases pieces.len(),
{
    if pieces.len() == 0 {
        Seq::empty()
    } else {
        match pieces.last().name {
            Some(kind) => understood(pieces.drop_last()).push(normalized(pieces.last(), kind)),
            None => understood(pieces.drop_last()),
        }
    }
}

/// Appends `word` to `name` as one more word of a space-joined list.
fn append_word(name: &mut String, started: bool, word: &str, Ghost(words): Ghost<Seq<Seq<char>>>)
    requires
        old(name)@ == joined(words),
        started == (words.len() > 0),
    ensures
        final(name)@ == joined(words.push(word@)),
{
    proof {
        reveal_strlit(" ");
        assert(words.push(word@).drop_last() == words);
    }
    if started {
        name.append(" ");
    }
    name.append(word);
}

/// Appends the recognized words of `list` to `name`, and says whether the
/// name holds a word by then.
fn append_words(
    name: &mut String,
    started: bool,
    list: &Vec<Option<String>>,
    Ghost(before): Ghost<Seq<Seq<char>>>,
) -> (holds_word: bool)
    requires
        old(name)@ == joined(before),
        started == (before.len() > 0),
    ensures
        final(name)@ == joined(before + recognized(words_view(list@))),
        holds_word == ((before + recognized(words_view(list@))).len() > 0),
{
    let ghost all = words_view(list@);
    let mut holds_word = started;
    let mut i: usize = 0;
    while i < list.len()
        invariant
            i <= list.len(),
            all == words_view(list@),
            name@ == joined(before + recognized(all.take(i as int))),
            holds_word == ((before + recognized(all.take(i as int))).len() > 0),
        decreases list.len() - i,
    {
        proof {
            assert(all.take(i + 1).drop_last() == all.take(i as int));
        }
        match &list[i] {
            Some(word) => {
                let ghost so_far = before + recognized(all.take(i as int));
                append_word(name, holds_word, word.as_str(), Ghost(so_far));
                holds_word = true;
            },
            None => {},
        }
        i = i + 1;
    }
    proof {
        assert(all.take(i as int) == all);
    }
    holds_word
}

/// The flat bonuses on recognized attributes among `list`, in its order.
fn collect_flat_bonuses(list: &Vec<Option<EquipmentEffect>>) -> (bonuses: Vec<(Attribute, i32)>)
    ensures
        bonuses@ == flat_bonuses(list@),
{
    let mut bonuses: Vec<(Attribute, i32)> = Vec::new();
    let mut i: usize = 0;
    while i < list.len()
        invariant
            i <= list.len(),
            bonuses@ == flat_bonuses(list@.take(i as int)),
        decreases list.len() - i,
    {
        proof {
            assert(list@.take(i + 1).drop_last() == list@.take(i as int));
        }
        match list[i] {
            Some(effect) => match (effect.effect_type, effect.attribute) {
                (Some(EquipmentEffectType::FlatBonus), Some(attribute)) => {
                    bonuses.push((attribute, effect.value));
                },
                _ => {},
            },
            None => {},
        }
        i = i + 1;
    }
    proof {
        assert(list@.take(i as int) == list@);
    }
    bonuses
}

impl UnderstoodItem {
    /// Normalizes a piece of equipment. It fails exactly when the kind of
    /// the equipment was not recognized; effects that are no flat bonus or
    /// whose attribute was not recognized are left out, as are prefixes and
    /// suffixes that were not recognized.
    pub fn try_from(value: PlayerEquipment) -> (result: Result<Self, &'static str>)
        ensures
            match result {
                Ok(item) => value@.name is Some && item@ == normalized(value@, value@.name->0),
                Err(reason) => value@.name is None && reason@ == "Didn't recognize name"@,
            },
    {
        let ghost raw = value@;
        let kind = match value.name {
            Some(kind) => kind,
            None => {
                return Err("Didn't recognize name");
            },
        };
        let effects = match &value.effects {
            Some(list) => collect_flat_bonuses(list),
            None => Vec::new(),
        };
        let name = match value.rare_name {
            Some(rare) => {
                proof {
                    reveal_strlit(" ");
                }
                let mut name = rare;
                name.append(" ");
                name.append(kind.label.as_str());
                name
            },
            None => {
                let mut name = String::new();
                let started = append_words(&mut name, false, &value.prefixes, Ghost(Seq::empty()));
                let ghost front = Seq::<Seq<char>>::empty() + recognized(raw.prefixes);
                append_word(&mut name, started, kind.label.as_str(), Ghost(front));
                let ghost middle = front.push(kind@);
                append_words(&mut name, true, &value.suffixes, Ghost(middle));
                proof {
                    assert(middle + recognized(raw.suffixes) == recognized(raw.prefixes)
                        + seq![kind@] + recognized(raw.suffixes));
                }
                name
            },
        };
        let item = UnderstoodItem { effects, item: Some(kind), name };
        proof {
            assert(item@.name == display_name(raw, kind@));
        }
        Ok(item)
    }
}

/// Normalizes every piece, in order, and passes over those whose kind was
/// not recognized. Every item that comes out has a kind.
pub fn understand_all(pieces: Vec<PlayerEquipment>) -> (items: Vec<UnderstoodItem>)
    ensures
        item_views(items@) == understood(equipment_views(pieces@)),
        forall|i: int| 0 <= i < items@.len() ==> (#[trigger] items@[i]).item is Some,
{
    let ghost all = equipment_views(pieces@);
    let mut items: Vec<UnderstoodItem> = Vec::new();
    for piece in it: pieces
        invariant
            it.seq() == pieces@,
            all == equipment_views(pieces@),
            item_views(items@) == understood(all.take(it.index())),
            forall|i: int| 0 <= i < items@.len() ==> (#[trigger] items@[i]).item is Some,
    {
        proof {
            assert(all.take(it.index() + 1).drop_last() == all.take(it.index()));
        }
        match UnderstoodItem::try_from(piece) {
            Ok(item) => {
                items.push(item);
            },
            Err(_) => {},
        }
    }
    proof {
        assert(all.take(all.len() as int) == all);
    }
    items
}

} // verus!
