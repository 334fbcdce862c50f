//! The search for exchanges that raise the total rating: an inventory item
//! for a worn one, and two worn items for each other.

use crate::analysis::{analyse, lemma_rating_fits, rating};
use crate::enums::ItemType;
use crate::item::{empty_slot, item_views, ItemView, UnderstoodItem};
use crate::roster::{
    entry_views, found, holder_views, lemma_entry_is_found, lemma_found, well_formed, EntryView,
    HolderView, RosterIndex, RosterView, SlotHolder,
};
use vstd::prelude::*;

verus! {

/// A proposed exchange and what it gains, in ten-thousandths.
#[derive(Debug)]
pub struct Transition {
    pub description: String,
    pub gain: i128,
}

/// What a [`Transition`] holds, as mathematical values.
pub struct TransitionView {
    pub description: Seq<char>,
    pub gain: int,
}

impl View for Transition {
    type V = TransitionView;

    open spec fn view(&self) -> TransitionView {
        TransitionView { description: self.description@, gain: self.gain as int }
    }
}

/// What a list of transitions holds, transition by transition.
pub open spec fn transition_views(transitions: Seq<Transition>) -> Seq<TransitionView> {
    transitions.map_values(|transition: Transition| transition@)
}

/// What stands against a newcomer at a slot: an item, whose it is, and its
/// rating there.
pub struct Incumbent {
    pub owner: Seq<char>,
    pub item: ItemView,
    pub rating: int,
}

/// The incumbent of kind `kind` at the slot of `holder`: the entry of that
/// kind and slot where the roster has one; otherwise the empty slot of the
/// holder, rated zero.
pub open spec fn incumbent(roster: RosterView, kind: Seq<char>, holder: HolderView) -> Incumbent {
    match found(roster.entries, kind, holder.slot) {
        Some(place) => Incumbent {
            owner: roster.entries[place].owner,
            item: roster.entries[place].item,
            rating: roster.entries[place].rating,
        },
        None => Incumbent { owner: holder.owner, item: empty_slot(), rating: 0 },
    }
}

/// The words for an exchange: on each side whose the item is and what it
/// is called, and an arrow between the sides.
pub open spec fn exchange(
    left_owner: Seq<char>,
    left_item: Seq<char>,
    right_owner: Seq<char>,
    right_item: Seq<char>,
) -> Seq<char> {
    left_owner + " "@ + left_item + " <-> "@ + right_owner + " "@ + right_item
}

/// What the team gains when the holder's incumbent gives way to the
/// inventory item `item`.
pub open spec fn substitution_gain(roster: RosterView, item: ItemView, holder: HolderView) -> int {
    rating(item.effects, holder.slot) - incumbent(roster, item.item->0, holder).rating
}

/// The transition that proposes `item` from the inventory for the holder's
/// incumbent.
pub open spec fn substitution(
    roster: RosterView,
    item: ItemView,
    holder: HolderView,
) -> TransitionView {
    let against = incumbent(roster, item.item->0, holder);
    TransitionView {
        description: exchange("Inventory"@, item.name, against.owner, against.item.name),
        gain: substitution_gain(roster, item, holder),
    }
}

/// The substitutions of `item` that gain, over `holders` in their order.
pub open spec fn substitutions_at(
    roster: RosterView,
    item: ItemView,
    holders: Seq<HolderView>,
) -> Seq<TransitionView>
    decreases holders.len(),
{
    if holders.len() == 0 {
        Seq::empty()
    } else if substitution_gain(roster, item, holders.last()) > 0 {
        substitutions_at(roster, item, holders.drop_last()).push(
            substitution(roster, item, holders.last()),
        )
    } else {
        substitutions_at(roster, item, holders.drop_last())
    }
}

/// The substitutions that gain, for each item of `inventory` in turn over
/// every taken slot.
pub open spec fn substitutions(roster: RosterView, inventory: Seq<ItemView>) -> Seq<
    TransitionView,
>
    decreases inventory.len(),
{
    if inventory.len() == 0 {
        Seq::empty()
    } else {
        substitutions(roster, inventory.drop_last()) + substitutions_at(
            roster,
            inventory.last(),
            roster.slots,
        )
    }
}

/// What the team gains when the worn item `entry` and the holder's
/// incumbent of the same kind change places.
pub open spec fn swap_gain(roster: RosterView, entry: EntryView, holder: HolderView) -> int {
    let other = incumbent(roster, entry.item.item->0, holder);
    (rating(entry.item.effects, holder.slot) + rating(other.item.effects, entry.slot)) - (
    entry.rating + other.rating)
}

/// The transition that proposes the worn item `entry` for the holder's
/// incumbent of the same kind.
pub open spec fn swap(roster: RosterView, entry: EntryView, holder: HolderView) -> TransitionView {
    let other = incumbent(roster, entry.item.item->0, holder);
    TransitionView {
        description: exchange(entry.owner, entry.item.name, other.owner, other.item.name),
        gain: swap_gain(roster, entry, holder),
    }
}

/// The swaps of `entry` that gain, over `holders` in their order.
pub open spec fn swaps_at(roster: RosterView, entry: EntryView, holders: Seq<HolderView>) -> Seq<
    TransitionView,
>
    decreases holders.len(),
{
    if holders.len() == 0 {
        Seq::empty()
    } else if swap_gain(roster, entry, holders.last()) > 0 {
        swaps_at(roster, entry, holders.drop_last()).push(swap(roster, entry, holders.last()))
    } else {
        swaps_at(roster, entry, holders.drop_last())
    }
}

/// The swaps that gain, for each of `entries` in turn over every taken
/// slot.
pub open spec fn swaps(roster: RosterView, entries: Seq<EntryView>) -> Seq<TransitionView>
    decreases entries.len(),
{
    if entries.len() == 0 {
        Seq::empty()
    } else {
        swaps(roster, entries.drop_last()) + swaps_at(roster, entries.last(), roster.slots)
    }
}

/// An item changed for itself gains nothing, so it is never proposed:
/// against the holder of its own slot the swap gain of a worn item is zero,
/// and the swaps of the item there are none.
pub proof fn lemma_self_swap_gains_nothing(roster: RosterView, place: int, holder: HolderView)
    requires
        well_formed(roster),
        0 <= place < roster.entries.len(),
        holder.slot == roster.entries[place].slot,
    ensures
        swap_gain(roster, roster.entries[place], holder) == 0,
        swaps_at(roster, roster.entries[place], seq![holder]) == Seq::<TransitionView>::empty(),
{
    let entry = roster.entries[place];
    lemma_entry_is_found(roster, place);
    let one = seq![holder];
    assert(swaps_at(roster, entry, one.drop_last()) =~= Seq::<TransitionView>::empty());
}

/// A swap gains the same seen from either side: for two worn items of one
/// kind, each proposed for the other at the other's slot.
pub proof fn lemma_swap_gain_is_mutual(
    roster: RosterView,
    first: int,
    second: int,
    first_holder: HolderView,
    second_holder: HolderView,
)
    requires
        well_formed(roster),
        0 <= first < roster.entries.len(),
        0 <= second < roster.entries.len(),
        roster.entries[first].item.item == roster.entries[second].item.item,
        first_holder.slot == roster.entries[first].slot,
        second_holder.slot == roster.entries[second].slot,
    ensures
        swap_gain(roster, roster.entries[first], second_holder) == swap_gain(
            roster,
            roster.entries[second],
            first_holder,
        ),
{
    lemma_entry_is_found(roster, first);
    lemma_entry_is_found(roster, second);
}

/// Whether every transition of the list gains.
pub open spec fn all_gain(transitions: Seq<TransitionView>) -> bool {
    forall|i: int| 0 <= i < transitions.len() ==> (#[trigger] transitions[i]).gain > 0
}

/// Only what gains is proposed, by substitution as by swap.
pub proof fn lemma_proposals_gain(
    roster: RosterView,
    inventory: Seq<ItemView>,
    entries: Seq<EntryView>,
)
    ensures
        all_gain(substitutions(roster, inventory)),
        all_gain(swaps(roster, entries)),
{
    lemma_substitutions_gain(roster, inventory);
    lemma_swaps_gain(roster, entries);
}

proof fn lemma_substitutions_at_gain(roster: RosterView, item: ItemView, holders: Seq<HolderView>)
    ensures
        all_gain(substitutions_at(roster, item, holders)),
    decreases holders.len(),
{
    if holders.len() > 0 {
        lemma_substitutions_at_gain(roster, item, holders.drop_last());
    }
}

proof fn lemma_substitutions_gain(roster: RosterView, inventory: Seq<ItemView>)
    ensures
        all_gain(substitutions(roster, inventory)),
    decreases inventory.len(),
{
    if inventory.len() > 0 {
        lemma_substitutions_gain(roster, inventory.drop_last());
        lemma_substitutions_at_gain(roster, inventory.last(), roster.slots);
    }
}

proof fn lemma_swaps_at_gain(roster: RosterView, entry: EntryView, holders: Seq<HolderView>)
    ensures
        all_gain(swaps_at(roster, entry, holders)),
    decreases holders.len(),
{
    if holders.len() > 0 {
        lemma_swaps_at_gain(roster, entry, holders.drop_last());
    }
}

proof fn lemma_swaps_gain(roster: RosterView, entries: Seq<EntryView>)
    ensures
        all_gain(swaps(roster, entries)),
    decreases entries.len(),
{
    if entries.len() > 0 {
        lemma_swaps_gain(roster, entries.drop_last());
        lemma_swaps_at_gain(roster, entries.last(), roster.slots);
    }
}

/// One inventory item against one holder is proposed exactly when it
/// rates strictly higher at the slot than the incumbent does; at equal
/// ratings nothing is proposed.
pub proof fn lemma_substitution_needs_strict_gain(
    roster: RosterView,
    item: ItemView,
    holder: HolderView,
)
    ensures
        substitutions_at(roster, item, seq![holder]) == if rating(item.effects, holder.slot)
            > incumbent(roster, item.item->0, holder).rating {
            seq![substitution(roster, item, holder)]
        } else {
            Seq::empty()
        },
{
    let one = seq![holder];
    assert(substitutions_at(roster, item, one.drop_last()) =~= Seq::<TransitionView>::empty());
}

/// The words for an exchange, as text.
fn exchange_text(left_owner: &str, left_item: &str, right_owner: &str, right_item: &str) -> (text:
    String)
    ensures
        text@ == exchange(left_owner@, left_item@, right_owner@, right_item@),
{
    let mut text = String::from_str(left_owner);
    text.append(" ");
    text.append(left_item);
    text.append(" <-> ");
    text.append(right_owner);
    text.append(" ");
    text.append(right_item);
    text
}

/// The incumbent of kind `kind` at the slot of `holder`, with `nothing`
/// standing for the empty slot.
fn incumbent_at<'a>(
    roster: &'a RosterIndex,
    kind: &ItemType,
    holder: &'a SlotHolder,
    nothing: &'a UnderstoodItem,
) -> (against: (&'a String, &'a UnderstoodItem, i128))
    requires
        nothing@ == empty_slot(),
    ensures
        against.0@ == incumbent(roster@, kind@, holder@).owner,
        against.1@ == incumbent(roster@, kind@, holder@).item,
        against.2 == incumbent(roster@, kind@, holder@).rating,
        against.2 == rating(against.1@.effects, holder.slot),
        -0x8_0000_0000_0000_0000_0000_0000 < against.2 < 0x8_0000_0000_0000_0000_0000_0000,
{
    proof {
        use_type_invariant(roster);
        lemma_found(roster@.entries, kind@, holder.slot);
    }
    let against = match roster.lookup(kind, holder.slot) {
        Some(entry) => (&entry.owner, &entry.item, entry.rating),
        None => (&holder.owner, nothing, 0),
    };
    proof {
        assert(against.1.effects.len() == against.1@.effects.len());
        lemma_rating_fits(against.1@.effects, holder.slot);
    }
    against
}

/// Every inventory item against every taken slot: the substitutions that
/// raise the rating at the slot, item by item and, for each item, in the
/// order of the taken slots. Each inventory item must have a kind.
pub fn inventory_substitutions(inventory: &Vec<UnderstoodItem>, roster: &RosterIndex) -> (proposed:
    Vec<Transition>)
    requires
        forall|i: int| 0 <= i < inventory@.len() ==> (#[trigger] inventory@[i]).item is Some,
    ensures
        transition_views(proposed@) == substitutions(roster@, item_views(inventory@)),
        all_gain(transition_views(proposed@)),
{
    proof {
        lemma_substitutions_gain(roster@, item_views(inventory@));
    }
    let nothing = UnderstoodItem::default();
    let slots = roster.slots();
    let ghost items = item_views(inventory@);
    let ghost holders = holder_views(slots@);
    let mut proposed: Vec<Transition> = Vec::new();
    let mut i: usize = 0;
    while i < inventory.len()
        invariant
            i <= inventory.len(),
            nothing@ == empty_slot(),
            items == item_views(inventory@),
            holders == holder_views(slots@),
            holders == roster@.slots,
            forall|i: int| 0 <= i < inventory@.len() ==> (#[trigger] inventory@[i]).item is Some,
            transition_views(proposed@) == substitutions(roster@, items.take(i as int)),
        decreases inventory.len() - i,
    {
        let item = &inventory[i];
        let ghost earlier = substitutions(roster@, items.take(i as int));
        proof {
            assert(items.take(i + 1).drop_last() == items.take(i as int));
        }
        match &item.item {
            Some(kind) => {
                let mut h: usize = 0;
                while h < slots.len()
                    invariant
                        h <= slots.len(),
                        nothing@ == empty_slot(),
                        holders == holder_views(slots@),
                        item@.item == Some(kind@),
                        transition_views(proposed@) == earlier + substitutions_at(
                            roster@,
                            item@,
                            holders.take(h as int),
                        ),
                    decreases slots.len() - h,
                {
                    let holder = &slots[h];
                    let (owner, worn, worn_rating) = incumbent_at(roster, kind, holder, &nothing);
                    proof {
                        assert(holders.take(h + 1).drop_last() == holders.take(h as int));
                    }
                    let inventory_rating = analyse(item, holder.slot);
                    if worn_rating < inventory_rating {
                        let ghost before = transition_views(proposed@);
                        let transition = Transition {
                            description: exchange_text(
                                "Inventory",
                                item.name.as_str(),
                                owner.as_str(),
                                worn.name.as_str(),
                            ),
                            gain: inventory_rating - worn_rating,
                        };
                        proposed.push(transition);
                        proof {
                            assert(before.push(transition@) =~= earlier + substitutions_at(
                                roster@,
                                item@,
                                holders.take(h + 1),
                            ));
                        }
                    }
                    h = h + 1;
                }
                proof {
                    assert(holders.take(h as int) == holders);
                }
            },
            None => {},
        }
        i = i + 1;
    }
    proof {
        assert(items.take(i as int) == items);
    }
    proposed
}

/// Every worn item against every taken slot: the swaps with the
/// incumbent of the same kind that raise the two ratings together, entry
/// by entry and, for each entry, in the order of the taken slots.
pub fn roster_swaps(roster: &RosterIndex) -> (proposed: Vec<Transition>)
    ensures
        transition_views(proposed@) == swaps(roster@, roster@.entries),
        all_gain(transition_views(proposed@)),
{
    proof {
        lemma_swaps_gain(roster@, roster@.entries);
    }
    let nothing = UnderstoodItem::default();
    let entries = roster.entries();
    let slots = roster.slots();
    let ghost worn = entry_views(entries@);
    let ghost holders = holder_views(slots@);
    let mut proposed: Vec<Transition> = Vec::new();
    let mut i: usize = 0;
    while i < entries.len()
        invariant
            i <= entries.len(),
            nothing@ == empty_slot(),
            worn == entry_views(entries@),
            worn == roster@.entries,
            holders == holder_views(slots@),
            holders == roster@.slots,
            well_formed(roster@),
            transition_views(proposed@) == swaps(roster@, worn.take(i as int)),
        decreases entries.len() - i,
    {
        let entry = &entries[i];
        let ghost earlier = swaps(roster@, worn.take(i as int));
        proof {
            assert(worn.take(i + 1).drop_last() == worn.take(i as int));
            assert(worn[i as int] == entry@);
            assert(entry.item.effects.len() == entry@.item.effects.len());
            lemma_rating_fits(entry@.item.effects, entry.slot);
        }
        match &entry.item.item {
            Some(kind) => {
                let mut h: usize = 0;
                while h < slots.len()
                    invariant
                        h <= slots.len(),
                        nothing@ == empty_slot(),
                        holders == holder_views(slots@),
                        entry@.item.item == Some(kind@),
                        entry.rating == rating(entry@.item.effects, entry.slot),
                        -0x8_0000_0000_0000_0000_0000_0000 < entry.rating
                            < 0x8_0000_0000_0000_0000_0000_0000,
                        transition_views(proposed@) == earlier + swaps_at(
                            roster@,
                            entry@,
                            holders.take(h as int),
                        ),
                    decreases slots.len() - h,
                {
                    let holder = &slots[h];
                    let (other_owner, other, other_rating) = incumbent_at(
                        roster,
                        kind,
                        holder,
                        &nothing,
                    );
                    proof {
                        assert(holders.take(h + 1).drop_last() == holders.take(h as int));
                    }
                    let swapped = analyse(&entry.item, holder.slot) + analyse(other, entry.slot);
                    let diff = swapped - (entry.rating + other_rating);
                    if diff > 0 {
                        let ghost before = transition_views(proposed@);
                        let transition = Transition {
                            description: exchange_text(
                                entry.owner.as_str(),
                                entry.item.name.as_str(),
                                other_owner.as_str(),
                                other.name.as_str(),
                            ),
                            gain: diff,
                        };
                        proposed.push(transition);
                        proof {
                            assert(before.push(transition@) =~= earlier + swaps_at(
                                roster@,
                                entry@,
                                holders.take(h + 1),
                            ));
                        }
                    }
                    h = h + 1;
                }
                proof {
                    assert(holders.take(h as int) == holders);
                }
            },
            None => {},
        }
        i = i + 1;
    }
    proof {
        assert(worn.take(i as int) == worn);
    }
    proposed
}

} // verus!
