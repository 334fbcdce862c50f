//! The roster: which item of which kind is worn at which slot, by whom and
//! at what rating, and which slots are taken.

use crate::analysis::{analyse, rating};
use crate::enums::{ItemType, Slot};
use crate::records::{equipment_views, EquipmentView, Player};
use crate::item::{normalized, ItemView, UnderstoodItem};
use vstd::prelude::*;

verus! {

/// Why a roster could not be built.
#[derive(Debug, Clone, Copy, PartialEq, Eq, Structural)]
pub enum RosterError {
    /// A player's slot was not recognized.
    UnresolvedSlot,
    /// Two items of one kind were worn at one slot.
    DuplicateItem,
}

/// An item worn at a slot, with its owner's name and its rating there.
#[derive(Debug)]
pub struct RosterEntry {
    pub slot: Slot,
    pub owner: String,
    pub item: UnderstoodItem,
    pub rating: i128,
}

/// What a [`RosterEntry`] holds, as mathematical values.
pub struct EntryView {
    pub slot: Slot,
    pub owner: Seq<char>,
    pub item: ItemView,
    pub rating: int,
}

impl View for RosterEntry {
    type V = EntryView;

    open spec fn view(&self) -> EntryView {
        EntryView {
            slot: self.slot,
            owner: self.owner@,
            item: self.item@,
            rating: self.rating as int,
        }
    }
}

/// A taken slot and the name of the player in it.
#[derive(Debug)]
pub struct SlotHolder {
    pub slot: Slot,
    pub owner: String,
}

/// What a [`SlotHolder`] holds, as mathematical values.
pub struct HolderView {
    pub slot: Slot,
    pub owner: Seq<char>,
}

impl View for SlotHolder {
    type V = HolderView;

    open spec fn view(&self) -> HolderView {
        HolderView { slot: self.slot, owner: self.owner@ }
    }
}

/// The worn items of a team, at most one for each kind and slot, and its
/// taken slots, each once, in the order in which they were first taken.
#[derive(Debug)]
pub struct RosterIndex {
    entries: Vec<RosterEntry>,
    slots: Vec<SlotHolder>,
}

/// What a [`RosterIndex`] holds, as mathematical values.
pub struct RosterView {
    pub entries: Seq<EntryView>,
    pub slots: Seq<HolderView>,
}

/// What a list of entries holds, entry by entry.
pub open spec fn entry_views(entries: Seq<RosterEntry>) -> Seq<EntryView> {
    entries.map_values(|entry: RosterEntry| entry@)
}

/// What a list of holders holds, holder by holder.
pub open spec fn holder_views(slots: Seq<SlotHolder>) -> Seq<HolderView> {
    slots.map_values(|holder: SlotHolder| holder@)
}

impl View for RosterIndex {
    type V = RosterView;

    closed spec fn view(&self) -> RosterView {
        RosterView { entries: entry_views(self.entries@), slots: holder_views(self.slots@) }
    }
}

/// Whether `entry` is the item of kind `kind` at `slot`.
pub open spec fn keyed(entry: EntryView, kind: Seq<char>, slot: Slot) -> bool {
    entry.item.item == Some(kind) && entry.slot == slot
}

/// The place of the first entry of kind `kind` at `slot`, if there is one.
pub open spec fn found(entries: Seq<EntryView>, kind: Seq<char>, slot: Slot) -> Option<int>
    decreases entries.len(),
{
    if entries.len() == 0 {
        None
    } else {
        match found(entries.drop_last(), kind, slot) {
            Some(place) => Some(place),
            None => if keyed(entries.last(), kind, slot) {
                Some(entries.len() - 1)
            } else {
                None
            },
        }
    }
}

/// The place of `slot` among the taken slots, if it is taken.
pub open spec fn taken(slots: Seq<HolderView>, slot: Slot) -> Option<int>
    decreases slots.len(),
{
    if slots.len() == 0 {
        None
    } else {
        match taken(slots.drop_last(), slot) {
            Some(place) => Some(place),
            None => if slots.last().slot == slot {
                Some(slots.len() - 1)
            } else {
                None
            },
        }
    }
}

/// `found` gives the first matching place, and none only where no entry
/// matches.
pub proof fn lemma_found(entries: Seq<EntryView>, kind: Seq<char>, slot: Slot)
    ensures
        match found(entries, kind, slot) {
            Some(place) => 0 <= place < entries.len() && keyed(entries[place], kind, slot)
                && forall|j: int| 0 <= j < place ==> !keyed(#[trigger] entries[j], kind, slot),
            None => forall|j: int|
                0 <= j < entries.len() ==> !keyed(#[trigger] entries[j], kind, slot),
        },
    decreases entries.len(),
{
    if entries.len() > 0 {
        lemma_found(entries.drop_last(), kind, slot);
        assert forall|j: int| 0 <= j < entries.len() - 1 implies entries[j]
            == entries.drop_last()[j] by {}
    }
}

/// `taken` gives the first place of the slot, and none only where no
/// holder has it.
pub proof fn lemma_taken(slots: Seq<HolderView>, slot: Slot)
    ensures
        match taken(slots, slot) {
            Some(place) => 0 <= place < slots.len() && slots[place].slot == slot
                && forall|j: int| 0 <= j < place ==> (#[trigger] slots[j]).slot != slot,
            None => forall|j: int| 0 <= j < slots.len() ==> (#[trigger] slots[j]).slot != slot,
        },
    decreases slots.len(),
{
    if slots.len() > 0 {
        lemma_taken(slots.drop_last(), slot);
        assert forall|j: int| 0 <= j < slots.len() - 1 implies slots[j]
            == slots.drop_last()[j] by {}
    }
}

/// The entry that a recognized piece of equipment makes at `slot` for the
/// player `owner`.
pub open spec fn entry_of(slot: Slot, owner: Seq<char>, piece: EquipmentView) -> EntryView {
    let item = normalized(piece, piece.name->0);
    EntryView { slot, owner, item, rating: rating(item.effects, slot) }
}

/// The entries after the player `owner` at `slot` has put on `pieces` one
/// by one: a piece of unrecognized kind is passed over, and there is no
/// result once a piece meets an entry of its kind at that slot.
pub open spec fn equipped(
    entries: Seq<EntryView>,
    slot: Slot,
    owner: Seq<char>,
    pieces: Seq<EquipmentView>,
) -> Option<Seq<EntryView>>
    decreases pieces.len(),
{
    if pieces.len() == 0 {
        Some(entries)
    } else {
        match equipped(entries, slot, owner, pieces.drop_last()) {
            None => None,
            Some(before) => match pieces.last().name {
                None => Some(before),
                Some(kind) => if found(before, kind, slot) is Some {
                    None
                } else {
                    Some(before.push(entry_of(slot, owner, pieces.last())))
                },
            },
        }
    }
}

/// The entries that the recognized pieces make, in the order of the
/// pieces.
pub open spec fn fresh(slot: Slot, owner: Seq<char>, pieces: Seq<EquipmentView>) -> Seq<EntryView>
    decreases pieces.len(),
{
    if pieces.len() == 0 {
        Seq::empty()
    } else {
        match pieces.last().name {
            Some(_) => fresh(slot, owner, pieces.drop_last()).push(
                entry_of(slot, owner, pieces.last()),
            ),
            None => fresh(slot, owner, pieces.drop_last()),
        }
    }
}

/// Whether piece `i` is of a recognized kind that is worn at `slot`
/// already: by an entry, or as an earlier piece.
pub open spec fn clashes_at(
    entries: Seq<EntryView>,
    slot: Slot,
    pieces: Seq<EquipmentView>,
    i: int,
) -> bool {
    &&& pieces[i].name is Some
    &&& (found(entries, pieces[i].name->0, slot) is Some || exists|j: int|
        0 <= j < i && #[trigger] pieces[j].name == pieces[i].name)
}

/// Whether some piece clashes.
pub open spec fn clashes(entries: Seq<EntryView>, slot: Slot, pieces: Seq<EquipmentView>) -> bool {
    exists|i: int| 0 <= i < pieces.len() && #[trigger] clashes_at(entries, slot, pieces, i)
}

/// An entry of a kind is found exactly where some entry has that kind and
/// slot.
pub proof fn lemma_found_some(entries: Seq<EntryView>, kind: Seq<char>, slot: Slot)
    ensures
        found(entries, kind, slot) is Some <==> exists|i: int|
            0 <= i < entries.len() && keyed(#[trigger] entries[i], kind, slot),
{
    lemma_found(entries, kind, slot);
}

/// The fresh entries hold a kind exactly when a piece is of that kind.
proof fn lemma_fresh_kinds(
    slot: Slot,
    owner: Seq<char>,
    pieces: Seq<EquipmentView>,
    kind: Seq<char>,
)
    ensures
        (exists|k: int|
            0 <= k < fresh(slot, owner, pieces).len() && keyed(
                #[trigger] fresh(slot, owner, pieces)[k],
                kind,
                slot,
            )) <==> (exists|j: int|
            0 <= j < pieces.len() && (#[trigger] pieces[j]).name == Some(kind)),
    decreases pieces.len(),
{
    if pieces.len() > 0 {
        let front = pieces.drop_last();
        let made = fresh(slot, owner, pieces);
        let earlier = fresh(slot, owner, front);
        lemma_fresh_kinds(slot, owner, front, kind);
        if exists|k: int| 0 <= k < made.len() && keyed(#[trigger] made[k], kind, slot) {
            let k = choose|k: int| 0 <= k < made.len() && keyed(#[trigger] made[k], kind, slot);
            if k < earlier.len() {
                let j = choose|j: int|
                    0 <= j < front.len() && (#[trigger] front[j]).name == Some(kind);
                assert(pieces[j].name == Some(kind));
            } else {
                assert(pieces[pieces.len() - 1].name == Some(kind));
            }
        }
        if exists|j: int| 0 <= j < pieces.len() && (#[trigger] pieces[j]).name == Some(kind) {
            let j = choose|j: int|
                0 <= j < pieces.len() && (#[trigger] pieces[j]).name == Some(kind);
            if j < front.len() {
                assert(front[j].name == Some(kind));
                let k = choose|k: int|
                    0 <= k < earlier.len() && keyed(#[trigger] earlier[k], kind, slot);
                assert(made[k] == earlier[k]);
            } else {
                assert(keyed(made[made.len() - 1], kind, slot));
            }
        }
    }
}

/// Putting on equipment fails exactly when a piece clashes; otherwise the
/// recognized pieces are added to the entries, each as the entry it makes.
pub proof fn lemma_equipped(
    entries: Seq<EntryView>,
    slot: Slot,
    owner: Seq<char>,
    pieces: Seq<EquipmentView>,
)
    ensures
        equipped(entries, slot, owner, pieces) == if clashes(entries, slot, pieces) {
            None
        } else {
            Some(entries + fresh(slot, owner, pieces))
        },
    decreases pieces.len(),
{
    if pieces.len() > 0 {
        let n = pieces.len() - 1;
        let front = pieces.drop_last();
        let kind = pieces[n].name->0;
        let before = entries + fresh(slot, owner, front);
        lemma_equipped(entries, slot, owner, front);
        assert forall|i: int| 0 <= i < n implies clashes_at(entries, slot, front, i) == clashes_at(
            entries,
            slot,
            pieces,
            i,
        ) by {
            if clashes_at(entries, slot, front, i) && found(entries, front[i].name->0, slot)
                is None {
                let j = choose|j: int| 0 <= j < i && #[trigger] front[j].name == front[i].name;
                assert(pieces[j].name == pieces[i].name);
            }
            if clashes_at(entries, slot, pieces, i) && found(entries, pieces[i].name->0, slot)
                is None {
                let j = choose|j: int| 0 <= j < i && #[trigger] pieces[j].name == pieces[i].name;
                assert(front[j].name == front[i].name);
            }
        }
        // The last piece clashes exactly when its kind is found among the
        // entries as they stand before it.
        if pieces[n].name is Some {
            lemma_found_some(before, kind, slot);
            lemma_found_some(entries, kind, slot);
            lemma_fresh_kinds(slot, owner, front, kind);
            if clashes_at(entries, slot, pieces, n) {
                if found(entries, kind, slot) is Some {
                    let k = choose|k: int|
                        0 <= k < entries.len() && keyed(#[trigger] entries[k], kind, slot);
                    assert(keyed(before[k], kind, slot));
                } else {
                    let j = choose|j: int|
                        0 <= j < n && #[trigger] pieces[j].name == pieces[n].name;
                    assert(front[j].name == Some(kind));
                    let k = choose|k: int|
                        0 <= k < fresh(slot, owner, front).len() && keyed(
                            #[trigger] fresh(slot, owner, front)[k],
                            kind,
                            slot,
                        );
                    assert(keyed(before[entries.len() + k], kind, slot));
                }
            }
            if found(before, kind, slot) is Some {
                let k = choose|k: int|
                    0 <= k < before.len() && keyed(#[trigger] before[k], kind, slot);
                if k >= entries.len() {
                    assert(keyed(fresh(slot, owner, front)[k - entries.len()], kind, slot));
                    let j = choose|j: int|
                        0 <= j < front.len() && (#[trigger] front[j]).name == Some(kind);
                    assert(pieces[j].name == pieces[n].name);
                }
                assert(clashes_at(entries, slot, pieces, n));
            }
        }
        assert(clashes(entries, slot, pieces) == (clashes(entries, slot, front) || clashes_at(
            entries,
            slot,
            pieces,
            n,
        ))) by {
            if clashes(entries, slot, front) {
                let i = choose|i: int|
                    0 <= i < front.len() && #[trigger] clashes_at(entries, slot, front, i);
                assert(clashes_at(entries, slot, pieces, i));
            }
            if clashes(entries, slot, pieces) {
                let i = choose|i: int|
                    0 <= i < pieces.len() && #[trigger] clashes_at(entries, slot, pieces, i);
                if i < n {
                    assert(clashes_at(entries, slot, front, i));
                }
            }
        }
        if pieces[n].name is Some && !clashes(entries, slot, pieces) {
            assert(before.push(entry_of(slot, owner, pieces[n])) == entries + fresh(
                slot,
                owner,
                pieces,
            ));
        }
    }
}

/// The taken slots after the player `owner` has taken `slot`: a slot that
/// was taken before keeps its place and gets the new name.
pub open spec fn occupied(slots: Seq<HolderView>, slot: Slot, owner: Seq<char>) -> Seq<HolderView> {
    match taken(slots, slot) {
        Some(place) => slots.update(place, HolderView { slot, owner }),
        None => slots.push(HolderView { slot, owner }),
    }
}

/// What holds of every roster: each entry has a kind, carries its rating
/// at its slot, and sits at a taken slot; no two entries share kind and
/// slot; no slot is listed twice.
pub open spec fn well_formed(roster: RosterView) -> bool {
    &&& forall|i: int|
        0 <= i < roster.entries.len() ==> {
            let entry = #[trigger] roster.entries[i];
            &&& entry.item.item is Some
            &&& entry.rating == rating(entry.item.effects, entry.slot)
            &&& taken(roster.slots, entry.slot) is Some
        }
    &&& forall|i: int, j: int|
        0 <= i < j < roster.entries.len() ==> !keyed(
            #[trigger] roster.entries[j],
            (#[trigger] roster.entries[i]).item.item->0,
            roster.entries[i].slot,
        )
    &&& forall|i: int, j: int|
        0 <= i < j < roster.slots.len() ==> (#[trigger] roster.slots[i]).slot
            != (#[trigger] roster.slots[j]).slot
}

/// In a well-formed roster an entry is the only one of its kind and slot:
/// looking for that kind at that slot finds the entry itself.
pub proof fn lemma_entry_is_found(roster: RosterView, place: int)
    requires
        well_formed(roster),
        0 <= place < roster.entries.len(),
    ensures
        found(roster.entries, roster.entries[place].item.item->0, roster.entries[place].slot)
            == Some(place),
{
    let entry = roster.entries[place];
    lemma_found(roster.entries, entry.item.item->0, entry.slot);
}

/// Once a piece has met an entry of its kind, no further piece mends it.
pub proof fn lemma_equipped_fails_on(
    entries: Seq<EntryView>,
    slot: Slot,
    owner: Seq<char>,
    pieces: Seq<EquipmentView>,
    n: int,
)
    requires
        0 <= n <= pieces.len(),
        equipped(entries, slot, owner, pieces.take(n)) is None,
    ensures
        equipped(entries, slot, owner, pieces) is None,
    decreases pieces.len(),
{
    if n < pieces.len() {
        assert(pieces.drop_last().take(n) == pieces.take(n));
        lemma_equipped_fails_on(entries, slot, owner, pieces.drop_last(), n);
    } else {
        assert(pieces.take(n) == pieces);
    }
}

/// The slot of a roster player, or the error for a slot that was not
/// recognized.
pub fn resolve_slot(slot: Option<Slot>) -> (result: Result<Slot, RosterError>)
    ensures
        match slot {
            Some(known) => result == Ok::<Slot, RosterError>(known),
            None => result == Err::<Slot, RosterError>(RosterError::UnresolvedSlot),
        },
{
    match slot {
        Some(known) => Ok(known),
        None => Err(RosterError::UnresolvedSlot),
    }
}

/// The place of the first entry of kind `kind` at `slot`.
fn find_entry(entries: &Vec<RosterEntry>, kind: &ItemType, slot: Slot) -> (place: Option<usize>)
    ensures
        found(entry_views(entries@), kind@, slot) == match place {
            Some(i) => Some(i as int),
            None => None,
        },
        place is Some ==> place->0 < entries.len(),
{
    let ghost views = entry_views(entries@);
    let mut i: usize = 0;
    while i < entries.len()
        invariant
            i <= entries.len(),
            views == entry_views(entries@),
            forall|j: int| 0 <= j < i ==> !keyed(#[trigger] views[j], kind@, slot),
        decreases entries.len() - i,
    {
        let entry = &entries[i];
        let same = match &entry.item.item {
            Some(worn) => worn.same_kind(kind),
            None => false,
        };
        if same && entry.slot == slot {
            proof {
                lemma_found(views, kind@, slot);
                assert(keyed(views[i as int], kind@, slot));
            }
            return Some(i);
        }
        i = i + 1;
    }
    proof {
        lemma_found(views, kind@, slot);
    }
    None
}

/// The place of `slot` among the taken slots.
fn find_holder(slots: &Vec<SlotHolder>, slot: Slot) -> (place: Option<usize>)
    ensures
        taken(holder_views(slots@), slot) == match place {
            Some(i) => Some(i as int),
            None => None,
        },
        place is Some ==> place->0 < slots.len(),
{
    let ghost views = holder_views(slots@);
    let mut i: usize = 0;
    while i < slots.len()
        invariant
            i <= slots.len(),
            views == holder_views(slots@),
            forall|j: int| 0 <= j < i ==> (#[trigger] views[j]).slot != slot,
        decreases slots.len() - i,
    {
        if slots[i].slot == slot {
            proof {
                lemma_taken(views, slot);
                assert(views[i as int].slot == slot);
            }
            return Some(i);
        }
        i = i + 1;
    }
    proof {
        lemma_taken(views, slot);
    }
    None
}

impl RosterIndex {
    /// Every roster that exists is well formed.
    #[verifier::type_invariant]
    pub open spec fn inv(self) -> bool {
        well_formed(self@)
    }

    /// The roster of a team without players.
    pub fn new() -> (roster: Self)
        ensures
            roster@.entries == Seq::<EntryView>::empty(),
            roster@.slots == Seq::<HolderView>::empty(),
            well_formed(roster@),
    {
        let roster = RosterIndex { entries: Vec::new(), slots: Vec::new() };
        roster
    }

    /// The roster after one more player has taken `slot` and put on the
    /// equipment piece by piece. Pieces of unrecognized kind are passed
    /// over. It fails exactly when a piece clashes: when its kind is worn at
    /// that slot already, be it by an earlier player or as an earlier piece
    /// of this one.
    pub fn with_player(self, slot: Slot, player: Player) -> (result: Result<
        RosterIndex,
        RosterError,
    >)
        ensures
            match result {
                Ok(roster) => {
                    &&& !clashes(self@.entries, slot, equipment_views(player.equipment@))
                    &&& roster@.entries == self@.entries + fresh(
                        slot,
                        player.first_name@,
                        equipment_views(player.equipment@),
                    )
                    &&& roster@.slots == occupied(self@.slots, slot, player.first_name@)
                    &&& well_formed(roster@)
                },
                Err(error) => {
                    &&& error == RosterError::DuplicateItem
                    &&& clashes(self@.entries, slot, equipment_views(player.equipment@))
                },
            },
    {
        let first_name = player.first_name;
        let equipment = player.equipment;
        proof {
            use_type_invariant(&self);
        }
        let ghost before = self@;
        let ghost pieces = equipment_views(equipment@);
        let mut entries = self.entries;
        let mut slots = self.slots;
        proof {
            lemma_taken(before.slots, slot);
        }
        match find_holder(&slots, slot) {
            Some(place) => {
                slots.set(place, SlotHolder { slot, owner: first_name.clone() });
            },
            None => {
                slots.push(SlotHolder { slot, owner: first_name.clone() });
            },
        }
        proof {
            let after = holder_views(slots@);
            assert forall|j: int| 0 <= j < before.slots.len() implies (#[trigger] after[j]).slot
                == before.slots[j].slot by {}
            assert forall|other: Slot| taken(before.slots, other) is Some || other == slot implies
                taken(after, other) is Some by {
                lemma_taken(before.slots, other);
                lemma_taken(after, other);
                if taken(before.slots, other) is Some {
                    assert(after[taken(before.slots, other)->0].slot == other);
                }
            }
        }
        for piece in it: equipment
            invariant
                it.seq() == equipment@,
                before == self@,
                first_name == player.first_name,
                equipment == player.equipment,
                pieces == equipment_views(equipment@),
                equipped(before.entries, slot, first_name@, pieces.take(it.index())) == Some(
                    entry_views(entries@),
                ),
                holder_views(slots@) == occupied(before.slots, slot, first_name@),
                well_formed(
                    RosterView { entries: entry_views(entries@), slots: holder_views(slots@) },
                ),
                taken(holder_views(slots@), slot) is Some,
        {
            let ghost i = it.index();
            proof {
                assert(pieces.take(i + 1).drop_last() == pieces.take(i));
            }
            match UnderstoodItem::try_from(piece) {
                Ok(item) => {
                    let worn = match &item.item {
                        Some(kind) => find_entry(&entries, kind, slot).is_some(),
                        None => false,
                    };
                    if worn {
                        proof {
                            lemma_equipped_fails_on(
                                before.entries,
                                slot,
                                first_name@,
                                pieces,
                                i + 1,
                            );
                            lemma_equipped(before.entries, slot, first_name@, pieces);
                        }
                        return Err(RosterError::DuplicateItem);
                    }
                    let rating = analyse(&item, slot);
                    let ghost earlier = entry_views(entries@);
                    let entry = RosterEntry { slot, owner: first_name.clone(), item, rating };
                    proof {
                        lemma_found(earlier, piece@.name->0, slot);
                    }
                    entries.push(entry);
                    proof {
                        assert(entry_views(entries@) =~= earlier.push(entry@));
                    }
                },
                Err(_) => {},
            }
        }
        proof {
            assert(pieces.take(pieces.len() as int) == pieces);
            lemma_equipped(before.entries, slot, first_name@, pieces);
        }
        Ok(RosterIndex { entries, slots })
    }

    /// The worn items, in the order in which they were put on.
    pub fn entries(&self) -> (entries: &Vec<RosterEntry>)
        ensures
            entry_views(entries@) == self@.entries,
            well_formed(self@),
    {
        proof {
            use_type_invariant(self);
        }
        &self.entries
    }

    /// The taken slots, in the order in which they were first taken.
    pub fn slots(&self) -> (slots: &Vec<SlotHolder>)
        ensures
            holder_views(slots@) == self@.slots,
            well_formed(self@),
    {
        proof {
            use_type_invariant(self);
        }
        &self.slots
    }

    /// The item of kind `kind` worn at `slot`, if there is one.
    pub fn lookup(&self, kind: &ItemType, slot: Slot) -> (entry: Option<&RosterEntry>)
        ensures
            match found(self@.entries, kind@, slot) {
                Some(place) => entry is Some && entry->0@ == self@.entries[place],
                None => entry is None,
            },
    {
        proof {
            lemma_found(self@.entries, kind@, slot);
        }
        match find_entry(&self.entries, kind, slot) {
            Some(i) => Some(&self.entries[i]),
            None => None,
        }
    }
}

} // verus!
