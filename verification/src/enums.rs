//! The identifiers that the data source reports: attributes, roster slots
//! and the kinds of equipment effect.

use vstd::prelude::*;

verus! {

/// A raw performance statistic.
#[derive(Debug, Clone, Copy, PartialEq, Eq, Hash, Structural)]
pub enum Attribute {
    Priority,
    Luck,
    Aiming,
    Contact,
    Cunning,
    Discipline,
    Insight,
    Intimidation,
    Lift,
    Vision,
    Determination,
    Wisdom,
    Muscle,
    Selflessness,
    Accuracy,
    Rotation,
    Presence,
    Persuasion,
    Stamina,
    Velocity,
    Control,
    Stuff,
    Defiance,
    Acrobatics,
    Agility,
    Arm,
    Awareness,
    Composure,
    Dexterity,
    Patience,
    Reaction,
    Greed,
    Performance,
    Speed,
    Stealth,
    Guts,
}

/// A roster position. Starting and relief pitchers carry their number.
#[derive(Debug, Clone, Copy, PartialEq, Eq, Hash, Structural)]
pub enum Slot {
    Catcher,
    FirstBaseman,
    SecondBaseman,
    ThirdBaseman,
    ShortStop,
    LeftField,
    CenterField,
    RightField,
    DesignatedHitter,
    StartingPitcher(u8),
    ReliefPitcher(u8),
    Closer,
}

/// How an equipment effect acts on its attribute. Only a flat bonus adds a
/// fixed amount; every other kind is left out of a rating.
#[derive(Debug, Clone, Copy, PartialEq, Eq, Hash, Structural)]
pub enum EquipmentEffectType {
    FlatBonus,
    Multiplier,
}

/// The kind of an item (a cap, a ring, ...), known by the word that the data
/// source has for it. Two items are of one kind when the words are equal.
#[derive(Debug, Clone, PartialEq, Eq, Hash)]
pub struct ItemType {
    pub label: String,
}

impl View for ItemType {
    type V = Seq<char>;

    open spec fn view(&self) -> Seq<char> {
        self.label@
    }
}

impl ItemType {
    /// Whether `self` and `other` are the same kind.
    pub fn same_kind(&self, other: &ItemType) -> (same: bool)
        ensures
            same == (self@ == other@),
    {
        self.label == other.label
    }
}

impl Slot {
    /// Starting pitchers, relief pitchers and the closer.
    pub open spec fn is_pitcher(self) -> bool {
        self is StartingPitcher || self is ReliefPitcher || self is Closer
    }

    /// The catcher and the four basemen.
    pub open spec fn is_infield(self) -> bool {
        self is Catcher || self is FirstBaseman || self is SecondBaseman || self is ThirdBaseman
            || self is ShortStop
    }

    /// The three fielders behind the bases.
    pub open spec fn is_outfield(self) -> bool {
        self is LeftField || self is CenterField || self is RightField
    }

    /// Every slot that is not a pitcher's: infield, outfield and the
    /// designated hitter.
    pub open spec fn is_batter(self) -> bool {
        self.is_infield() || self.is_outfield() || self is DesignatedHitter
    }
}

} // verus!
