//! The registry as a mathematical value, and how an update and a removal
//! change it.

use vstd::prelude::*;
use crate::block::BlockState;
use crate::block::BlockUpdate;
use crate::crop::classify;
use crate::crop::Crop;
use crate::crop::CropSpecies;
use crate::position::BlockPos;

verus! {

/// The number of crops of the table that have a harvest position, by a scan
/// of the table.
pub open spec fn ready_in(crops: Map<u32, Crop>) -> nat {
    crops.dom().filter(|id: u32| crops[id].harvest_position is Some).len()
}

/// What became of a block update.
#[derive(Clone, Copy, Debug, PartialEq, Eq, Structural)]
pub enum UpdateOutcome {
    /// The cell is empty now: handled as the removal of its block.
    Removal,
    /// The update describes a crop, which was filed.
    Filed,
    /// The update describes no crop.
    Ignored,
}

/// What the registry knows: the crop table, the position map and the next
/// identifier to hand out.
pub struct Ledger {
    pub crops: Map<u32, Crop>,
    pub identifiers: Map<BlockPos, u32>,
    pub next_identifier: u32,
}

impl Ledger {
    /// The number of ripe crops, by a scan of the table.
    pub open spec fn ready_count(self) -> nat {
        ready_in(self.crops)
    }

    /// The table and the position map name each other's entries, one crop
    /// for each position, and every identifier in use was handed out.
    pub open spec fn consistent(self) -> bool {
        &&& self.crops.dom().finite()
        &&& forall|id: u32| #[trigger]
            self.crops.contains_key(id) ==> {
                &&& self.crops[id].identifier == id
                &&& id < self.next_identifier
                &&& self.identifiers.contains_key(self.crops[id].pos)
                &&& self.identifiers[self.crops[id].pos] == id
            }
        &&& forall|pos: BlockPos| #[trigger]
            self.identifiers.contains_key(pos) ==> {
                &&& self.crops.contains_key(self.identifiers[pos])
                &&& self.crops[self.identifiers[pos]].pos == pos
            }
    }

    /// The identifier under which a crop at `pos` is filed: the one the
    /// position has, or else the next one.
    pub open spec fn name_for(self, pos: BlockPos) -> u32 {
        if self.identifiers.contains_key(pos) {
            self.identifiers[pos]
        } else {
            self.next_identifier
        }
    }

    /// Whether a crop at `pos` can be filed: the position is known, or an
    /// identifier is left for it.
    pub open spec fn accepts(self, pos: BlockPos) -> bool {
        self.identifiers.contains_key(pos) || self.next_identifier < u32::MAX
    }

    /// The ledger after `crop` was filed under the identifier of its
    /// position.
    pub open spec fn updated(self, crop: Crop) -> Ledger {
        let id = self.name_for(crop.pos);
        Ledger {
            crops: self.crops.insert(id, crop.named(id)),
            identifiers: self.identifiers.insert(crop.pos, id),
            next_identifier: if self.identifiers.contains_key(crop.pos) {
                self.next_identifier
            } else {
                (self.next_identifier + 1) as u32
            },
        }
    }

    /// The tracked sugar cane that stands directly below `position`, if
    /// `position` itself is not tracked.
    pub open spec fn cane_below(self, position: BlockPos) -> Option<u32> {
        match position.below(1) {
            Some(base) if !self.identifiers.contains_key(position) && self.identifiers.contains_key(
                base,
            ) && self.crops[self.identifiers[base]].species == CropSpecies::SugarCane => Some(
                self.identifiers[base],
            ),
            _ => None,
        }
    }

    /// The ledger after the block at `position` was removed. A tracked crop
    /// there is forgotten. Else sugar cane tracked in the cell below lost
    /// its top and is no longer ripe. Else nothing changes.
    pub open spec fn removed(self, position: BlockPos) -> Ledger {
        if self.identifiers.contains_key(position) {
            Ledger {
                crops: self.crops.remove(self.identifiers[position]),
                identifiers: self.identifiers.remove(position),
                next_identifier: self.next_identifier,
            }
        } else if let Some(id) = self.cane_below(position) {
            Ledger {
                crops: self.crops.insert(id, Crop { harvest_position: None, ..self.crops[id] }),
                identifiers: self.identifiers,
                next_identifier: self.next_identifier,
            }
        } else {
            self
        }
    }

    /// What becomes of a block update: an empty cell is a removal, a crop
    /// is filed, anything else is ignored.
    pub open spec fn outcome(
        update: BlockUpdate,
        below_one: Option<BlockState>,
        below_two: Option<BlockState>,
    ) -> UpdateOutcome {
        if update.block_state.air {
            UpdateOutcome::Removal
        } else if classify(update, below_one, below_two) is Some {
            UpdateOutcome::Filed
        } else {
            UpdateOutcome::Ignored
        }
    }

    /// Whether the ledger can take a block update: it does not describe a
    /// crop at a new position when no identifier is left.
    pub open spec fn admits(
        self,
        update: BlockUpdate,
        below_one: Option<BlockState>,
        below_two: Option<BlockState>,
    ) -> bool {
        match Ledger::outcome(update, below_one, below_two) {
            UpdateOutcome::Filed => self.accepts(classify(update, below_one, below_two).unwrap().pos),
            _ => true,
        }
    }

    /// The ledger after a block update.
    pub open spec fn ingested(
        self,
        update: BlockUpdate,
        below_one: Option<BlockState>,
        below_two: Option<BlockState>,
    ) -> Ledger {
        match Ledger::outcome(update, below_one, below_two) {
            UpdateOutcome::Removal => self.removed(update.pos),
            UpdateOutcome::Filed => self.updated(
                classify(update, below_one, below_two).unwrap(),
            ),
            UpdateOutcome::Ignored => self,
        }
    }

    /// The crop that is tracked at `pos`.
    pub open spec fn crop_at(self, pos: BlockPos) -> Option<Crop> {
        if self.identifiers.contains_key(pos) {
            Some(self.crops[self.identifiers[pos]])
        } else {
            None
        }
    }

    /// Whether the crop `id` may be handed out by a search from `origin`
    /// with `radius`: it is ripe, its harvest position is not withheld, and
    /// it stands within the radius.
    pub open spec fn candidate(
        self,
        id: u32,
        origin: BlockPos,
        radius: int,
        withheld: Set<BlockPos>,
    ) -> bool {
        &&& self.crops.contains_key(id)
        &&& self.crops[id].harvest_position is Some
        &&& !withheld.contains(self.crops[id].harvest_position.unwrap())
        &&& origin.reach(self.crops[id].pos) <= radius
    }

    /// Whether the crop `id` is a candidate and no candidate stands nearer
    /// to `origin`.
    pub open spec fn nearest(
        self,
        id: u32,
        origin: BlockPos,
        radius: int,
        withheld: Set<BlockPos>,
    ) -> bool {
        &&& self.candidate(id, origin, radius, withheld)
        &&& forall|other: u32| #[trigger]
            self.candidate(other, origin, radius, withheld) ==> origin.reach(self.crops[id].pos)
                <= origin.reach(self.crops[other].pos)
    }
}

/// Filing one crop changes the ripe count by what the crop was before and
/// what it is now.
pub proof fn lemma_ready_insert(crops: Map<u32, Crop>, id: u32, crop: Crop)
    requires
        crops.dom().finite(),
    ensures
        ready_in(crops.insert(id, crop)) == ready_in(crops) - (if crops.contains_key(id)
            && crops[id].harvest_position is Some {
            1int
        } else {
            0int
        }) + (if crop.harvest_position is Some {
            1int
        } else {
            0int
        }),
{
    let after = crops.insert(id, crop);
    let before_set = crops.dom().filter(|i: u32| crops[i].harvest_position is Some);
    let after_set = after.dom().filter(|i: u32| after[i].harvest_position is Some);
    crops.dom().lemma_len_filter(|i: u32| crops[i].harvest_position is Some);
    if crop.harvest_position is Some {
        assert(after_set =~= before_set.insert(id));
    } else {
        assert(after_set =~= before_set.remove(id));
    }
}

/// Forgetting one crop lowers the ripe count by one if the crop was ripe.
pub proof fn lemma_ready_remove(crops: Map<u32, Crop>, id: u32)
    requires
        crops.dom().finite(),
    ensures
        ready_in(crops.remove(id)) == ready_in(crops) - (if crops.contains_key(id)
            && crops[id].harvest_position is Some {
            1int
        } else {
            0int
        }),
{
    let after = crops.remove(id);
    let before_set = crops.dom().filter(|i: u32| crops[i].harvest_position is Some);
    let after_set = after.dom().filter(|i: u32| after[i].harvest_position is Some);
    crops.dom().lemma_len_filter(|i: u32| crops[i].harvest_position is Some);
    assert(after_set =~= before_set.remove(id));
}

/// The ripe crops are no more than the crops.
pub proof fn lemma_ready_bound(crops: Map<u32, Crop>)
    requires
        crops.dom().finite(),
    ensures
        ready_in(crops) <= crops.dom().len(),
{
    crops.dom().lemma_len_filter(|i: u32| crops[i].harvest_position is Some);
}

/// A ledger made from a consistent one by dropping crops, or by changing
/// crops in what is neither their position nor their identifier, is
/// consistent, if the position map lost exactly the dropped crops.
proof fn lemma_kept_entries_consistent(before: Ledger, after: Ledger)
    requires
        before.consistent(),
        after.crops.dom().finite(),
        after.next_identifier == before.next_identifier,
        forall|id: u32| #[trigger]
            after.crops.contains_key(id) ==> {
                &&& before.crops.contains_key(id)
                &&& after.crops[id].pos == before.crops[id].pos
                &&& after.crops[id].identifier == before.crops[id].identifier
            },
        forall|pos: BlockPos| #[trigger]
            after.identifiers.contains_key(pos) <==> before.identifiers.contains_key(pos)
                && after.crops.contains_key(before.identifiers[pos]),
        forall|pos: BlockPos| #[trigger]
            after.identifiers.contains_key(pos) ==> after.identifiers[pos]
                == before.identifiers[pos],
    ensures
        after.consistent(),
{
    assert forall|id: u32| #[trigger] after.crops.contains_key(id) implies {
        &&& after.crops[id].identifier == id
        &&& id < after.next_identifier
        &&& after.identifiers.contains_key(after.crops[id].pos)
        &&& after.identifiers[after.crops[id].pos] == id
    } by {
        assert(before.crops.contains_key(id));
        assert(before.identifiers.contains_key(before.crops[id].pos));
    }
    assert forall|pos: BlockPos| #[trigger] after.identifiers.contains_key(pos) implies {
        &&& after.crops.contains_key(after.identifiers[pos])
        &&& after.crops[after.identifiers[pos]].pos == pos
    } by {
        assert(before.identifiers.contains_key(pos));
    }
}

/// Filing a crop that the ledger accepts keeps the ledger consistent, and
/// the ripe count moves by the change in ripeness of that one crop.
pub proof fn lemma_updated_consistent(ledger: Ledger, crop: Crop)
    requires
        ledger.consistent(),
        ledger.accepts(crop.pos),
    ensures
        ledger.updated(crop).consistent(),
        ledger.updated(crop).ready_count() == ledger.ready_count() - (if ledger.identifiers.contains_key(
            crop.pos,
        ) && ledger.crops[ledger.identifiers[crop.pos]].harvest_position is Some {
            1int
        } else {
            0int
        }) + (if crop.harvest_position is Some {
            1int
        } else {
            0int
        }),
{
    let id = ledger.name_for(crop.pos);
    let after = ledger.updated(crop);
    if !ledger.identifiers.contains_key(crop.pos) {
        assert(!ledger.crops.contains_key(id));
    }
    lemma_ready_insert(ledger.crops, id, crop.named(id));
    assert forall|other: u32| #[trigger] after.crops.contains_key(other) implies {
        &&& after.crops[other].identifier == other
        &&& other < after.next_identifier
        &&& after.identifiers.contains_key(after.crops[other].pos)
        &&& after.identifiers[after.crops[other].pos] == other
    } by {
        if other != id {
            assert(ledger.crops.contains_key(other));
        }
    }
    assert forall|pos: BlockPos| #[trigger] after.identifiers.contains_key(pos) implies {
        &&& after.crops.contains_key(after.identifiers[pos])
        &&& after.crops[after.identifiers[pos]].pos == pos
    } by {
        if pos != crop.pos {
            assert(ledger.identifiers.contains_key(pos));
        }
    }
}

/// Removing a block keeps the ledger consistent. The ripe count drops by
/// one exactly when the crop that was forgotten, or the cane that lost its
/// top, was ripe.
pub proof fn lemma_removed_consistent(ledger: Ledger, position: BlockPos)
    requires
        ledger.consistent(),
    ensures
        ledger.removed(position).consistent(),
        ledger.removed(position).ready_count() == ledger.ready_count() - (if ledger.identifiers.contains_key(
            position,
        ) {
            if ledger.crops[ledger.identifiers[position]].harvest_position is Some {
                1int
            } else {
                0int
            }
        } else if ledger.cane_below(position) is Some && ledger.crops[ledger.cane_below(
            position,
        ).unwrap()].harvest_position is Some {
            1int
        } else {
            0int
        }),
{
    let after = ledger.removed(position);
    if ledger.identifiers.contains_key(position) {
        lemma_ready_remove(ledger.crops, ledger.identifiers[position]);
        lemma_kept_entries_consistent(ledger, after);
    } else if let Some(id) = ledger.cane_below(position) {
        assert(ledger.crops.contains_key(id));
        lemma_ready_insert(ledger.crops, id, Crop { harvest_position: None, ..ledger.crops[id] });
        lemma_kept_entries_consistent(ledger, after);
    }
}

/// In a consistent ledger no two crops stand at one position, and the
/// position map is the inverse of the table: a position names the crop that
/// stands there, and a crop stands at the position that names it.
pub proof fn lemma_one_crop_per_position(ledger: Ledger)
    requires
        ledger.consistent(),
    ensures
        forall|a: u32, b: u32|
            ledger.crops.contains_key(a) && ledger.crops.contains_key(b) && ledger.crops[a].pos
                == ledger.crops[b].pos ==> a == b,
        forall|id: u32| #[trigger]
            ledger.crops.contains_key(id) ==> ledger.identifiers.contains_key(ledger.crops[id].pos)
                && ledger.identifiers[ledger.crops[id].pos] == id,
        forall|pos: BlockPos| #[trigger]
            ledger.identifiers.contains_key(pos) ==> ledger.crops.contains_key(
                ledger.identifiers[pos],
            ) && ledger.crops[ledger.identifiers[pos]].pos == pos,
{
}

/// The first sight of a position adds one crop under the next identifier,
/// which no crop had before, and touches no other crop.
pub proof fn lemma_first_sight_adds_one_crop(ledger: Ledger, crop: Crop)
    requires
        ledger.consistent(),
        !ledger.identifiers.contains_key(crop.pos),
        ledger.next_identifier < u32::MAX,
    ensures
        !ledger.crops.contains_key(ledger.next_identifier),
        ledger.updated(crop).crops.dom().len() == ledger.crops.dom().len() + 1,
        ledger.updated(crop).crop_at(crop.pos) == Some(crop.named(ledger.next_identifier)),
        ledger.updated(crop).next_identifier == ledger.next_identifier + 1,
        forall|id: u32| #[trigger]
            ledger.crops.contains_key(id) ==> ledger.updated(crop).crops.contains_key(id)
                && ledger.updated(crop).crops[id] == ledger.crops[id],
        forall|id: u32| #[trigger]
            ledger.updated(crop).crops.contains_key(id) ==> id == ledger.next_identifier
                || ledger.crops.contains_key(id),
        ledger.updated(crop).removed(crop.pos).crops == ledger.crops,
        ledger.updated(crop).removed(crop.pos).identifiers == ledger.identifiers,
{
    let id = ledger.next_identifier;
    assert(!ledger.crops.contains_key(id));
    assert(ledger.updated(crop).removed(crop.pos).crops =~= ledger.crops);
    assert(ledger.updated(crop).removed(crop.pos).identifiers =~= ledger.identifiers);
}

/// A block update that names a known position keeps the identifier of the
/// crop there, and touches no other crop.
pub proof fn lemma_identifier_is_kept(ledger: Ledger, crop: Crop)
    requires
        ledger.consistent(),
        ledger.identifiers.contains_key(crop.pos),
    ensures
        ledger.accepts(crop.pos),
        ledger.updated(crop).crop_at(crop.pos) == Some(
            crop.named(ledger.crop_at(crop.pos).unwrap().identifier),
        ),
        ledger.updated(crop).identifiers == ledger.identifiers,
        ledger.updated(crop).next_identifier == ledger.next_identifier,
        ledger.updated(crop).crops.dom() == ledger.crops.dom(),
        forall|id: u32| #[trigger]
            ledger.crops.contains_key(id) && id != ledger.identifiers[crop.pos]
                ==> ledger.updated(crop).crops[id] == ledger.crops[id],
{
    assert(ledger.updated(crop).identifiers =~= ledger.identifiers);
    assert(ledger.updated(crop).crops.dom() =~= ledger.crops.dom());
}

/// Ripe sugar cane that loses its top stays tracked under its identifier
/// and is no longer ripe, and the ripe count drops by one. When the block at
/// its own position goes as well, the crop is forgotten.
pub proof fn lemma_cut_cane_stays_until_its_base_goes(ledger: Ledger, top: BlockPos, base: BlockPos)
    requires
        ledger.consistent(),
        top.below(1) == Some(base),
        !ledger.identifiers.contains_key(top),
        ledger.identifiers.contains_key(base),
        ledger.crops[ledger.identifiers[base]].species == CropSpecies::SugarCane,
        ledger.crops[ledger.identifiers[base]].harvest_position is Some,
    ensures
        ledger.removed(top).identifiers == ledger.identifiers,
        ledger.removed(top).crop_at(base) == Some(
            Crop { harvest_position: None, ..ledger.crop_at(base).unwrap() },
        ),
        ledger.removed(top).ready_count() == ledger.ready_count() - 1,
        ledger.removed(top).removed(base).crop_at(base) is None,
        !ledger.removed(top).removed(base).crops.contains_key(ledger.identifiers[base]),
        ledger.removed(top).removed(base).ready_count() == ledger.ready_count() - 1,
{
    lemma_removed_consistent(ledger, top);
    lemma_removed_consistent(ledger.removed(top), base);
}

} // verus!
