//! The weight of an attribute at a slot, and the rating of an item there.

use crate::attributes::{classify, DefenceAttribute, DividedAttribute};
use crate::enums::{Attribute, Slot};
use crate::item::UnderstoodItem;
use vstd::prelude::*;

verus! {

/// The weight, in tenths, of a categorized attribute at a slot. The rules
/// are tried in this order and the first that applies decides; where none
/// does, the attribute counts in full.
pub open spec fn weight(slot: Slot, attribute: DividedAttribute) -> int {
    if slot.is_batter() && attribute is Pitcher {
        0
    } else if slot.is_pitcher() && (attribute is Batter || attribute is Baserunning) {
        0
    } else if slot is DesignatedHitter && attribute is Defence {
        0
    } else if slot.is_pitcher() && attribute == DividedAttribute::Defence(
        DefenceAttribute::Agility,
    ) {
        0
    } else if slot.is_pitcher() && (attribute == DividedAttribute::Defence(
        DefenceAttribute::Reaction,
    ) || attribute == DividedAttribute::Defence(DefenceAttribute::Acrobatics) || attribute
        == DividedAttribute::Defence(DefenceAttribute::Patience)) {
        1
    } else if slot.is_infield() && (attribute == DividedAttribute::Defence(
        DefenceAttribute::Agility,
    ) || attribute == DividedAttribute::Defence(DefenceAttribute::Acrobatics)) {
        1
    } else if slot.is_outfield() && attribute == DividedAttribute::Defence(
        DefenceAttribute::Patience,
    ) {
        0
    } else if slot.is_outfield() && attribute == DividedAttribute::Defence(
        DefenceAttribute::Reaction,
    ) {
        1
    } else {
        10
    }
}

/// The rating, in ten-thousandths, of a list of flat bonuses at a slot: the
/// sum over the list of each magnitude times the weight of its attribute.
pub open spec fn rating(effects: Seq<(Attribute, i32)>, slot: Slot) -> int
    decreases effects.len(),
{
    if effects.len() == 0 {
        0
    } else {
        rating(effects.drop_last(), slot) + weight(slot, classify(effects.last().0))
            * effects.last().1
    }
}

/// A ghost bound: no rating of `n` effects is further from zero than this.
pub open spec fn rating_bound(n: nat) -> int {
    (n as int) * 0x5_0000_0000
}

/// A rating is bounded by the number of effects alone, so any sum of a few
/// ratings fits in 128 bits.
pub proof fn lemma_rating_bounded(effects: Seq<(Attribute, i32)>, slot: Slot)
    ensures
        -rating_bound(effects.len()) <= rating(effects, slot) <= rating_bound(effects.len()),
    decreases effects.len(),
{
    if effects.len() > 0 {
        lemma_rating_bounded(effects.drop_last(), slot);
        let w = weight(slot, classify(effects.last().0));
        let m = effects.last().1;
        assert(-0x5_0000_0000 <= w * m <= 0x5_0000_0000) by (nonlinear_arith)
            requires
                0 <= w <= 10,
                -0x8000_0000 <= m < 0x8000_0000,
        ;
    }
}

/// The rating of as many effects as a vector can hold stays below 2^99 in
/// size, so sums and differences of a few ratings fit in 128 bits.
pub proof fn lemma_rating_fits(effects: Seq<(Attribute, i32)>, slot: Slot)
    requires
        effects.len() <= usize::MAX,
    ensures
        -0x8_0000_0000_0000_0000_0000_0000 < rating(effects, slot)
            < 0x8_0000_0000_0000_0000_0000_0000,
{
    lemma_rating_bounded(effects, slot);
    let n = effects.len() as int;
    assert(n * 0x5_0000_0000 < 0x8_0000_0000_0000_0000_0000_0000) by (nonlinear_arith)
        requires
            0 <= n <= 0xffff_ffff_ffff_ffff,
    ;
}

/// Every attribute has a weight at every slot, and it is none, a tenth or
/// the whole.
pub proof fn lemma_weight_values(slot: Slot, attribute: DividedAttribute)
    ensures
        weight(slot, attribute) == 0 || weight(slot, attribute) == 1 || weight(slot, attribute)
            == 10,
{
}

/// An item without effects is worth nothing at any slot.
pub proof fn lemma_rating_of_nothing(effects: Seq<(Attribute, i32)>, slot: Slot)
    requires
        effects.len() == 0,
    ensures
        rating(effects, slot) == 0,
{
}

/// One effect is worth its magnitude times the weight of its attribute.
pub proof fn lemma_rating_of_one(attribute: Attribute, magnitude: i32, slot: Slot)
    ensures
        rating(seq![(attribute, magnitude)], slot) == weight(slot, classify(attribute))
            * magnitude,
{
    let one = seq![(attribute, magnitude)];
    assert(rating(one.drop_last(), slot) == 0);
}

/// Effects add up: two lists put together are worth what the two are
/// worth apart.
pub proof fn lemma_rating_adds(
    first: Seq<(Attribute, i32)>,
    second: Seq<(Attribute, i32)>,
    slot: Slot,
)
    ensures
        rating(first + second, slot) == rating(first, slot) + rating(second, slot),
    decreases second.len(),
{
    if second.len() > 0 {
        lemma_rating_adds(first, second.drop_last(), slot);
        assert((first + second).drop_last() == first + second.drop_last());
    }
}

/// How much a categorized attribute counts at a slot, in tenths: 0, 1 or 10.
pub fn slot_multiplier(slot: Slot, attribute: DividedAttribute) -> (tenths: u8)
    ensures
        tenths == weight(slot, attribute),
        tenths == 0 || tenths == 1 || tenths == 10,
{
    match (slot, attribute) {
        (
            Slot::Catcher
            | Slot::FirstBaseman
            | Slot::SecondBaseman
            | Slot::ThirdBaseman
            | Slot::ShortStop
            | Slot::LeftField
            | Slot::CenterField
            | Slot::RightField
            | Slot::DesignatedHitter,
            DividedAttribute::Pitcher(_),
        ) => 0,
        (
            Slot::StartingPitcher(_) | Slot::ReliefPitcher(_) | Slot::Closer,
            DividedAttribute::Batter(_) | DividedAttribute::Baserunning(_),
        ) => 0,
        (Slot::DesignatedHitter, DividedAttribute::Defence(_)) => 0,
        (
            Slot::StartingPitcher(_) | Slot::ReliefPitcher(_) | Slot::Closer,
            DividedAttribute::Defence(DefenceAttribute::Agility),
        ) => 0,
        (
            Slot::StartingPitcher(_) | Slot::ReliefPitcher(_) | Slot::Closer,
            DividedAttribute::Defence(
                DefenceAttribute::Reaction
                | DefenceAttribute::Acrobatics
                | DefenceAttribute::Patience,
            ),
        ) => 1,
        (
            Slot::Catcher
            | Slot::FirstBaseman
            | Slot::SecondBaseman
            | Slot::ThirdBaseman
            | Slot::ShortStop,
            DividedAttribute::Defence(DefenceAttribute::Agility | DefenceAttribute::Acrobatics),
        ) => 1,
        (
            Slot::LeftField | Slot::CenterField | Slot::RightField,
            DividedAttribute::Defence(DefenceAttribute::Patience),
        ) => 0,
        (
            Slot::LeftField | Slot::CenterField | Slot::RightField,
            DividedAttribute::Defence(DefenceAttribute::Reaction),
        ) => 1,
        _ => 10,
    }
}

/// The rating of `item` at `slot`, in ten-thousandths.
pub fn analyse(item: &UnderstoodItem, slot: Slot) -> (total: i128)
    ensures
        total == rating(item@.effects, slot),
        -0x8_0000_0000_0000_0000_0000_0000 < total < 0x8_0000_0000_0000_0000_0000_0000,
{
    let mut total: i128 = 0;
    let mut i: usize = 0;
    while i < item.effects.len()
        invariant
            i <= item.effects.len(),
            total == rating(item.effects@.take(i as int), slot),
            -rating_bound(i as nat) <= total <= rating_bound(i as nat),
        decreases item.effects.len() - i,
    {
        let (attribute, magnitude) = item.effects[i];
        let tenths = slot_multiplier(slot, DividedAttribute::from(attribute));
        proof {
            let next = item.effects@.take(i + 1);
            assert(next.drop_last() == item.effects@.take(i as int));
            lemma_rating_bounded(next, slot);
        }
        total = total + (tenths as i128) * (magnitude as i128);
        i = i + 1;
    }
    proof {
        assert(item.effects@.take(i as int) == item.effects@);
        lemma_rating_fits(item.effects@, slot);
    }
    total
}

} // verus!
