//! From a team's inventory and roster to the lines that propose exchanges.

use crate::records::{equipment_views, PlayerEquipment};
use crate::item::{understand_all, understood};
use crate::report::{line_views, printed, ranked, report};
use crate::roster::RosterIndex;
use crate::trade::{inventory_substitutions, roster_swaps, substitutions, swaps, transition_views};
use vstd::prelude::*;

verus! {

/// The lines that propose exchanges for a team: every substitution from
/// the inventory and every swap on the roster that gains, by ascending
/// gain. Inventory pieces of unrecognized kind are passed over.
pub fn recommend(inventory: Vec<PlayerEquipment>, roster: &RosterIndex) -> (lines: Vec<String>)
    ensures
        line_views(lines@) == printed(
            ranked(
                substitutions(roster@, understood(equipment_views(inventory@))) + swaps(
                    roster@,
                    roster@.entries,
                ),
            ),
        ),
{
    let items = understand_all(inventory);
    let mut proposed = inventory_substitutions(&items, roster);
    let mut swapped = roster_swaps(roster);
    let ghost first = transition_views(proposed@);
    let ghost second = transition_views(swapped@);
    proposed.append(&mut swapped);
    proof {
        assert(transition_views(proposed@) =~= first + second);
    }
    report(proposed)
}

} // verus!
