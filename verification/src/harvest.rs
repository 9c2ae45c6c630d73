//! The cells that were just broken. A cell stays in the set for a short
//! delay, so that the same target is not chosen again before the world has
//! reported what the break did.

use vstd::prelude::*;
use std::collections::HashSet;
use crate::position::cells_of;
use crate::position::lemma_cells_follow_keys;
use crate::position::BlockPos;

verus! {

broadcast use vstd::std_specs::hash::group_hash_axioms;

/// How long a broken cell is withheld, in milliseconds.
pub const SETTLE_MILLIS: u64 = 200;

/// The set of cells that are withheld from harvesting.
pub struct HarvestRegistry {
    blocks: HashSet<u128>,
}

impl View for HarvestRegistry {
    type V = Set<BlockPos>;

    /// The withheld cells.
    closed spec fn view(&self) -> Set<BlockPos> {
        cells_of(self.blocks@)
    }
}

impl HarvestRegistry {
    pub fn new() -> (r: HarvestRegistry)
        ensures
            r@ == Set::<BlockPos>::empty(),
    {
        let r = HarvestRegistry { blocks: HashSet::new() };
        assert(r@ =~= Set::<BlockPos>::empty());
        r
    }

    /// Withholds `pos`, and returns the delay in milliseconds after which
    /// the caller is to report it with `block_settled`.
    pub fn block_broken(&mut self, pos: BlockPos) -> (delay: u64)
        ensures
            final(self)@ == old(self)@.insert(pos),
            delay == SETTLE_MILLIS,
    {
        proof {
            lemma_cells_follow_keys(self.blocks@, pos);
        }
        self.blocks.insert(pos.key());
        SETTLE_MILLIS
    }

    /// Releases `pos` when its delay has run out.
    pub fn block_settled(&mut self, pos: BlockPos)
        ensures
            final(self)@ == old(self)@.remove(pos),
    {
        proof {
            lemma_cells_follow_keys(self.blocks@, pos);
        }
        self.blocks.remove(&pos.key());
    }

    /// Whether `pos` is withheld.
    pub fn contains(&self, pos: BlockPos) -> (r: bool)
        ensures
            r == self@.contains(pos),
    {
        self.blocks.contains(&pos.key())
    }
}

} // verus!
