//! Teams, players and equipment as the data source reports them, before
//! any of it is judged. Whatever the source could not put a name to is
//! `None`.

use crate::enums::{Attribute, EquipmentEffectType, ItemType, Slot};
use vstd::prelude::*;

verus! {

/// One effect of a piece of equipment. The magnitude is in thousandths.
#[derive(Debug, Clone, Copy, PartialEq, Eq, Structural)]
pub struct EquipmentEffect {
    pub attribute: Option<Attribute>,
    pub effect_type: Option<EquipmentEffectType>,
    pub value: i32,
}

/// One piece of equipment: its kind, the words around it, and its effects.
#[derive(Debug, Clone)]
pub struct PlayerEquipment {
    pub name: Option<ItemType>,
    pub rare_name: Option<String>,
    pub prefixes: Vec<Option<String>>,
    pub suffixes: Vec<Option<String>>,
    pub effects: Option<Vec<Option<EquipmentEffect>>>,
}

/// A player's own record: the name to call the player by and what the
/// player wears.
#[derive(Debug, Clone)]
pub struct Player {
    pub first_name: String,
    pub equipment: Vec<PlayerEquipment>,
}

/// A place on a team's roster: the slot and who fills it.
#[derive(Debug, Clone)]
pub struct TeamPlayer {
    pub slot: Option<Slot>,
    pub player_id: String,
}

/// A team's record: the shared inventory and the roster.
#[derive(Debug, Clone)]
pub struct Team {
    pub inventory: Vec<PlayerEquipment>,
    pub players: Vec<TeamPlayer>,
}

/// What a [`PlayerEquipment`] holds, as mathematical values.
pub struct EquipmentView {
    pub name: Option<Seq<char>>,
    pub rare_name: Option<Seq<char>>,
    pub prefixes: Seq<Option<Seq<char>>>,
    pub suffixes: Seq<Option<Seq<char>>>,
    pub effects: Option<Seq<Option<EquipmentEffect>>>,
}

/// The text of an optional word.
pub open spec fn word_view(word: Option<String>) -> Option<Seq<char>> {
    match word {
        Some(text) => Some(text@),
        None => None,
    }
}

/// The texts of a list of optional words.
pub open spec fn words_view(words: Seq<Option<String>>) -> Seq<Option<Seq<char>>> {
    Seq::new(words.len(), |i: int| word_view(words[i]))
}

impl View for PlayerEquipment {
    type V = EquipmentView;

    open spec fn view(&self) -> EquipmentView {
        EquipmentView {
            name: match self.name {
                Some(kind) => Some(kind@),
                None => None,
            },
            rare_name: word_view(self.rare_name),
            prefixes: words_view(self.prefixes@),
            suffixes: words_view(self.suffixes@),
            effects: match self.effects {
                Some(list) => Some(list@),
                None => None,
            },
        }
    }
}

/// What a list of pieces holds, piece by piece.
pub open spec fn equipment_views(pieces: Seq<PlayerEquipment>) -> Seq<EquipmentView> {
    pieces.map_values(|piece: PlayerEquipment| piece@)
}

} // verus!
