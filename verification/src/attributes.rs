//! The functional category of each attribute.

use crate::enums::Attribute;
use vstd::prelude::*;
use vstd::std_specs::convert::FromSpecImpl;

verus! {

/// An attribute tagged with the category it belongs to.
#[derive(Debug, Clone, Copy, PartialEq, Eq, Hash, Structural)]
pub enum DividedAttribute {
    Generic(GenericAttribute),
    Batter(BatterAttribute),
    Pitcher(PitcherAttribute),
    Defence(DefenceAttribute),
    Baserunning(BaserunningAttribute),
}

#[derive(Debug, Clone, Copy, PartialEq, Eq, Hash, Structural)]
pub enum GenericAttribute {
    Priority,
    Luck,
}

#[derive(Debug, Clone, Copy, PartialEq, Eq, Hash, Structural)]
pub enum BatterAttribute {
    Aiming,
    Contact,
    Cunning,
    Discipline,
    Insight,
    Intimidation,
    Lift,
    Vision,
    Determination,
    Wisdom,
    Muscle,
    Selflessness,
}

#[derive(Debug, Clone, Copy, PartialEq, Eq, Hash, Structural)]
pub enum PitcherAttribute {
    Accuracy,
    Rotation,
    Presence,
    Persuasion,
    Stamina,
    Velocity,
    Control,
    Stuff,
    Defiance,
    Guts,
}

#[derive(Debug, Clone, Copy, PartialEq, Eq, Hash, Structural)]
pub enum DefenceAttribute {
    Acrobatics,
    Agility,
    Arm,
    Awareness,
    Composure,
    Dexterity,
    Patience,
    Reaction,
}

#[derive(Debug, Clone, Copy, PartialEq, Eq, Hash, Structural)]
pub enum BaserunningAttribute {
    Greed,
    Performance,
    Speed,
    Stealth,
}

/// The category table: every attribute belongs to exactly one category, and
/// keeps its own name inside it.
pub open spec fn classify(attribute: Attribute) -> DividedAttribute {
    match attribute {
        Attribute::Priority => DividedAttribute::Generic(GenericAttribute::Priority),
        Attribute::Luck => DividedAttribute::Generic(GenericAttribute::Luck),
        Attribute::Aiming => DividedAttribute::Batter(BatterAttribute::Aiming),
        Attribute::Contact => DividedAttribute::Batter(BatterAttribute::Contact),
        Attribute::Cunning => DividedAttribute::Batter(BatterAttribute::Cunning),
        Attribute::Discipline => DividedAttribute::Batter(BatterAttribute::Discipline),
        Attribute::Insight => DividedAttribute::Batter(BatterAttribute::Insight),
        Attribute::Intimidation => DividedAttribute::Batter(BatterAttribute::Intimidation),
        Attribute::Lift => DividedAttribute::Batter(BatterAttribute::Lift),
        Attribute::Vision => DividedAttribute::Batter(BatterAttribute::Vision),
        Attribute::Determination => DividedAttribute::Batter(BatterAttribute::Determination),
        Attribute::Wisdom => DividedAttribute::Batter(BatterAttribute::Wisdom),
        Attribute::Muscle => DividedAttribute::Batter(BatterAttribute::Muscle),
        Attribute::Selflessness => DividedAttribute::Batter(BatterAttribute::Selflessness),
        Attribute::Accuracy => DividedAttribute::Pitcher(PitcherAttribute::Accuracy),
        Attribute::Rotation => DividedAttribute::Pitcher(PitcherAttribute::Rotation),
        Attribute::Presence => DividedAttribute::Pitcher(PitcherAttribute::Presence),
        Attribute::Persuasion => DividedAttribute::Pitcher(PitcherAttribute::Persuasion),
        Attribute::Stamina => DividedAttribute::Pitcher(PitcherAttribute::Stamina),
        Attribute::Velocity => DividedAttribute::Pitcher(PitcherAttribute::Velocity),
        Attribute::Control => DividedAttribute::Pitcher(PitcherAttribute::Control),
        Attribute::Stuff => DividedAttribute::Pitcher(PitcherAttribute::Stuff),
        Attribute::Defiance => DividedAttribute::Pitcher(PitcherAttribute::Defiance),
        Attribute::Guts => DividedAttribute::Pitcher(PitcherAttribute::Guts),
        Attribute::Acrobatics => DividedAttribute::Defence(DefenceAttribute::Acrobatics),
        Attribute::Agility => DividedAttribute::Defence(DefenceAttribute::Agility),
        Attribute::Arm => DividedAttribute::Defence(DefenceAttribute::Arm),
        Attribute::Awareness => DividedAttribute::Defence(DefenceAttribute::Awareness),
        Attribute::Composure => DividedAttribute::Defence(DefenceAttribute::Composure),
        Attribute::Dexterity => DividedAttribute::Defence(DefenceAttribute::Dexterity),
        Attribute::Patience => DividedAttribute::Defence(DefenceAttribute::Patience),
        Attribute::Reaction => DividedAttribute::Defence(DefenceAttribute::Reaction),
        Attribute::Greed => DividedAttribute::Baserunning(BaserunningAttribute::Greed),
        Attribute::Performance => DividedAttribute::Baserunning(BaserunningAttribute::Performance),
        Attribute::Speed => DividedAttribute::Baserunning(BaserunningAttribute::Speed),
        Attribute::Stealth => DividedAttribute::Baserunning(BaserunningAttribute::Stealth),
    }
}

impl DividedAttribute {
    /// The raw attribute that this categorized attribute stands for.
    pub open spec fn attribute(self) -> Attribute {
        match self {
            DividedAttribute::Generic(GenericAttribute::Priority) => Attribute::Priority,
            DividedAttribute::Generic(GenericAttribute::Luck) => Attribute::Luck,
            DividedAttribute::Batter(BatterAttribute::Aiming) => Attribute::Aiming,
            DividedAttribute::Batter(BatterAttribute::Contact) => Attribute::Contact,
            DividedAttribute::Batter(BatterAttribute::Cunning) => Attribute::Cunning,
            DividedAttribute::Batter(BatterAttribute::Discipline) => Attribute::Discipline,
            DividedAttribute::Batter(BatterAttribute::Insight) => Attribute::Insight,
            DividedAttribute::Batter(BatterAttribute::Intimidation) => Attribute::Intimidation,
            DividedAttribute::Batter(BatterAttribute::Lift) => Attribute::Lift,
            DividedAttribute::Batter(BatterAttribute::Vision) => Attribute::Vision,
            DividedAttribute::Batter(BatterAttribute::Determination) => Attribute::Determination,
            DividedAttribute::Batter(BatterAttribute::Wisdom) => Attribute::Wisdom,
            DividedAttribute::Batter(BatterAttribute::Muscle) => Attribute::Muscle,
            DividedAttribute::Batter(BatterAttribute::Selflessness) => Attribute::Selflessness,
            DividedAttribute::Pitcher(PitcherAttribute::Accuracy) => Attribute::Accuracy,
            DividedAttribute::Pitcher(PitcherAttribute::Rotation) => Attribute::Rotation,
            DividedAttribute::Pitcher(PitcherAttribute::Presence) => Attribute::Presence,
            DividedAttribute::Pitcher(PitcherAttribute::Persuasion) => Attribute::Persuasion,
            DividedAttribute::Pitcher(PitcherAttribute::Stamina) => Attribute::Stamina,
            DividedAttribute::Pitcher(PitcherAttribute::Velocity) => Attribute::Velocity,
            DividedAttribute::Pitcher(PitcherAttribute::Control) => Attribute::Control,
            DividedAttribute::Pitcher(PitcherAttribute::Stuff) => Attribute::Stuff,
            DividedAttribute::Pitcher(PitcherAttribute::Defiance) => Attribute::Defiance,
            DividedAttribute::Pitcher(PitcherAttribute::Guts) => Attribute::Guts,
            DividedAttribute::Defence(DefenceAttribute::Acrobatics) => Attribute::Acrobatics,
            DividedAttribute::Defence(DefenceAttribute::Agility) => Attribute::Agility,
            DividedAttribute::Defence(DefenceAttribute::Arm) => Attribute::Arm,
            DividedAttribute::Defence(DefenceAttribute::Awareness) => Attribute::Awareness,
            DividedAttribute::Defence(DefenceAttribute::Composure) => Attribute::Composure,
            DividedAttribute::Defence(DefenceAttribute::Dexterity) => Attribute::Dexterity,
            DividedAttribute::Defence(DefenceAttribute::Patience) => Attribute::Patience,
            DividedAttribute::Defence(DefenceAttribute::Reaction) => Attribute::Reaction,
            DividedAttribute::Baserunning(BaserunningAttribute::Greed) => Attribute::Greed,
            DividedAttribute::Baserunning(BaserunningAttribute::Performance) => {
                Attribute::Performance
            },
            DividedAttribute::Baserunning(BaserunningAttribute::Speed) => Attribute::Speed,
            DividedAttribute::Baserunning(BaserunningAttribute::Stealth) => Attribute::Stealth,
        }
    }

    /// Classifying is one-to-one and onto: each attribute is found again
    /// in its category, and each categorized attribute comes from the
    /// attribute it names.
    pub proof fn lemma_classify_is_bijection(attribute: Attribute, divided: DividedAttribute)
        ensures
            classify(attribute).attribute() == attribute,
            classify(divided.attribute()) == divided,
    {
    }
}

impl From<Attribute> for DividedAttribute {
    fn from(value: Attribute) -> (divided: Self) {
        match value {
            Attribute::Priority => DividedAttribute::Generic(GenericAttribute::Priority),
            Attribute::Luck => DividedAttribute::Generic(GenericAttribute::Luck),
            Attribute::Aiming => DividedAttribute::Batter(BatterAttribute::Aiming),
            Attribute::Contact => DividedAttribute::Batter(BatterAttribute::Contact),
            Attribute::Cunning => DividedAttribute::Batter(BatterAttribute::Cunning),
            Attribute::Discipline => DividedAttribute::Batter(BatterAttribute::Discipline),
            Attribute::Insight => DividedAttribute::Batter(BatterAttribute::Insight),
            Attribute::Intimidation => DividedAttribute::Batter(BatterAttribute::Intimidation),
            Attribute::Lift => DividedAttribute::Batter(BatterAttribute::Lift),
            Attribute::Vision => DividedAttribute::Batter(BatterAttribute::Vision),
            Attribute::Determination => DividedAttribute::Batter(BatterAttribute::Determination),
            Attribute::Wisdom => DividedAttribute::Batter(BatterAttribute::Wisdom),
            Attribute::Muscle => DividedAttribute::Batter(BatterAttribute::Muscle),
            Attribute::Selflessness => DividedAttribute::Batter(BatterAttribute::Selflessness),
            Attribute::Accuracy => DividedAttribute::Pitcher(PitcherAttribute::Accuracy),
            Attribute::Rotation => DividedAttribute::Pitcher(PitcherAttribute::Rotation),
            Attribute::Presence => DividedAttribute::Pitcher(PitcherAttribute::Presence),
            Attribute::Persuasion => DividedAttribute::Pitcher(PitcherAttribute::Persuasion),
            Attribute::Stamina => DividedAttribute::Pitcher(PitcherAttribute::Stamina),
            Attribute::Velocity => DividedAttribute::Pitcher(PitcherAttribute::Velocity),
            Attribute::Control => DividedAttribute::Pitcher(PitcherAttribute::Control),
            Attribute::Stuff => DividedAttribute::Pitcher(PitcherAttribute::Stuff),
            Attribute::Defiance => DividedAttribute::Pitcher(PitcherAttribute::Defiance),
            Attribute::Acrobatics => DividedAttribute::Defence(DefenceAttribute::Acrobatics),
            Attribute::Agility => DividedAttribute::Defence(DefenceAttribute::Agility),
            Attribute::Arm => DividedAttribute::Defence(DefenceAttribute::Arm),
            Attribute::Awareness => DividedAttribute::Defence(DefenceAttribute::Awareness),
            Attribute::Composure => DividedAttribute::Defence(DefenceAttribute::Composure),
            Attribute::Dexterity => DividedAttribute::Defence(DefenceAttribute::Dexterity),
            Attribute::Patience => DividedAttribute::Defence(DefenceAttribute::Patience),
            Attribute::Reaction => DividedAttribute::Defence(DefenceAttribute::Reaction),
            Attribute::Greed => DividedAttribute::Baserunning(BaserunningAttribute::Greed),
            Attribute::Performance => {
                DividedAttribute::Baserunning(BaserunningAttribute::Performance)
            },
            Attribute::Speed => DividedAttribute::Baserunning(BaserunningAttribute::Speed),
            Attribute::Stealth => DividedAttribute::Baserunning(BaserunningAttribute::Stealth),
            Attribute::Guts => DividedAttribute::Pitcher(PitcherAttribute::Guts),
        }
    }
}

impl FromSpecImpl<Attribute> for DividedAttribute {
    open spec fn obeys_from_spec() -> bool {
        true
    }

    open spec fn from_spec(value: Attribute) -> Self {
        classify(value)
    }
}

} // verus!
