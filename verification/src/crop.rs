//! Crops, and the rules that tell from a block update whether a cell holds
//! one and whether it can be harvested.

use vstd::prelude::*;
use crate::block::BlockState;
use crate::block::BlockUpdate;
use crate::block::BEETROOT_MAX_AGE;
use crate::block::CARROT_MAX_AGE;
use crate::block::POTATO_MAX_AGE;
use crate::block::STEM_MAX_AGE;
use crate::block::WHEAT_MAX_AGE;
use crate::position::adjacent_position;
use crate::position::BlockPos;
use crate::position::FacingCardinal;

verus! {

/// The species of crop that are tracked.
#[derive(Clone, Copy, Debug, PartialEq, Eq, Structural)]
pub enum CropSpecies {
    Wheat,
    Beetroot,
    Potato,
    Carrot,
    PumpkinStem,
    MelonStem,
    SugarCane,
}

/// One tracked crop.
///
/// `harvest_position` is present exactly while the crop is ripe, and names
/// the cell to break. `identifier` is the registry's name for the crop; the
/// classifier leaves it at zero.
#[derive(Clone, Copy, Debug, PartialEq, Eq, Structural)]
pub struct Crop {
    pub pos: BlockPos,
    pub species: CropSpecies,
    pub harvest_position: Option<BlockPos>,
    pub identifier: u32,
}

/// A crop that ripens in its own cell: ripe at `max_age`, harvested where
/// it stands.
pub open spec fn ground_crop(pos: BlockPos, species: CropSpecies, age: u8, max_age: u8) -> Crop {
    Crop {
        pos,
        species,
        harvest_position: if age == max_age {
            Some(pos)
        } else {
            None
        },
        identifier: 0,
    }
}

/// A stem: it bears fruit at `STEM_MAX_AGE` in the neighbouring cell that it
/// faces. Without a facing, or with no cell on that side, there is nothing
/// to harvest.
pub open spec fn stem_crop(
    pos: BlockPos,
    species: CropSpecies,
    age: u8,
    facing: Option<FacingCardinal>,
) -> Crop {
    Crop {
        pos,
        species,
        harvest_position: match facing {
            Some(side) if age == STEM_MAX_AGE => pos.neighbour(side),
            _ => None,
        },
        identifier: 0,
    }
}

/// What is known of the cell `n` below `pos`: nothing where the coordinate
/// space has no such cell.
pub open spec fn support(pos: BlockPos, n: int, state: Option<BlockState>) -> Option<BlockState> {
    if pos.below(n) is Some {
        state
    } else {
        None
    }
}

/// Sugar cane at `pos`, judged by the two cells below it.
///
/// With nothing known of the cell below, no crop. On a block that is not
/// cane, a crop anchored in the cell below, not ripe. On cane: ripe only with
/// cane two below as well, anchored one below and harvested at `pos`; else
/// no crop.
pub open spec fn cane_crop(
    pos: BlockPos,
    below_one: Option<BlockState>,
    below_two: Option<BlockState>,
) -> Option<Crop> {
    match (pos.below(1), support(pos, 1, below_one)) {
        (Some(anchor), Some(one)) => {
            if !one.is_sugar_cane() {
                Some(
                    Crop {
                        pos: anchor,
                        species: CropSpecies::SugarCane,
                        harvest_position: None,
                        identifier: 0,
                    },
                )
            } else {
                match support(pos, 2, below_two) {
                    Some(two) if two.is_sugar_cane() => Some(
                        Crop {
                            pos: anchor,
                            species: CropSpecies::SugarCane,
                            harvest_position: Some(pos),
                            identifier: 0,
                        },
                    ),
                    _ => None,
                }
            }
        },
        _ => None,
    }
}

/// The crop that an update describes, if any. The species are tried in a
/// fixed order and the first whose growth property the state carries wins.
pub open spec fn classify(
    update: BlockUpdate,
    below_one: Option<BlockState>,
    below_two: Option<BlockState>,
) -> Option<Crop> {
    let pos = update.pos;
    let state = update.block_state;
    if let Some(age) = state.wheat_age {
        Some(ground_crop(pos, CropSpecies::Wheat, age, WHEAT_MAX_AGE))
    } else if let Some(age) = state.beetroots_age {
        Some(ground_crop(pos, CropSpecies::Beetroot, age, BEETROOT_MAX_AGE))
    } else if let Some(age) = state.potatoes_age {
        Some(ground_crop(pos, CropSpecies::Potato, age, POTATO_MAX_AGE))
    } else if let Some(age) = state.carrots_age {
        Some(ground_crop(pos, CropSpecies::Carrot, age, CARROT_MAX_AGE))
    } else if let Some(age) = state.pumpkin_stem_age {
        Some(stem_crop(pos, CropSpecies::PumpkinStem, age, state.facing))
    } else if let Some(age) = state.melon_stem_age {
        Some(stem_crop(pos, CropSpecies::MelonStem, age, state.facing))
    } else if state.sugar_cane_age is Some {
        cane_crop(pos, below_one, below_two)
    } else {
        None
    }
}

impl Crop {
    /// Whether the crop can be harvested now.
    pub open spec fn spec_is_ready(&self) -> bool {
        self.harvest_position is Some
    }

    /// This crop under the name `identifier`.
    pub open spec fn named(self, identifier: u32) -> Crop {
        Crop { identifier, ..self }
    }

    /// Classifies one block update. `below_one` and `below_two` are what the
    /// world holds one and two cells below the updated cell, `None` where it
    /// holds nothing there; they are read for sugar cane only.
    pub fn from_block_update(
        update: &BlockUpdate,
        below_one: Option<BlockState>,
        below_two: Option<BlockState>,
    ) -> (r: Option<Crop>)
        ensures
            r == classify(*update, below_one, below_two),
    {
        let pos = update.pos;
        let state = update.block_state;
        if let Some(age) = state.wheat_age {
            Some(grown_in_place(pos, CropSpecies::Wheat, age, WHEAT_MAX_AGE))
        } else if let Some(age) = state.beetroots_age {
            Some(grown_in_place(pos, CropSpecies::Beetroot, age, BEETROOT_MAX_AGE))
        } else if let Some(age) = state.potatoes_age {
            Some(grown_in_place(pos, CropSpecies::Potato, age, POTATO_MAX_AGE))
        } else if let Some(age) = state.carrots_age {
            Some(grown_in_place(pos, CropSpecies::Carrot, age, CARROT_MAX_AGE))
        } else if let Some(age) = state.pumpkin_stem_age {
            Some(grown_on_stem(pos, CropSpecies::PumpkinStem, age, state.facing))
        } else if let Some(age) = state.melon_stem_age {
            Some(grown_on_stem(pos, CropSpecies::MelonStem, age, state.facing))
        } else if state.sugar_cane_age.is_some() {
            let anchor = match pos.checked_down(1) {
                Some(cell) => cell,
                None => { return None; },
            };
            let one = match below_one {
                Some(state) => state,
                None => { return None; },
            };
            if !one.is_sugar_cane() {
                return Some(
                    Crop {
                        pos: anchor,
                        species: CropSpecies::SugarCane,
                        harvest_position: None,
                        identifier: 0,
                    },
                );
            }
            if pos.checked_down(2).is_none() {
                return None;
            }
            match below_two {
                Some(two) if two.is_sugar_cane() => Some(
                    Crop {
                        pos: anchor,
                        species: CropSpecies::SugarCane,
                        harvest_position: Some(pos),
                        identifier: 0,
                    },
                ),
                _ => None,
            }
        } else {
            None
        }
    }

    #[verifier::when_used_as_spec(spec_is_ready)]
    pub fn is_ready(&self) -> (r: bool)
        ensures
            r == self.spec_is_ready(),
    {
        self.harvest_position.is_some()
    }
}

fn grown_in_place(pos: BlockPos, species: CropSpecies, age: u8, max_age: u8) -> (r: Crop)
    ensures
        r == ground_crop(pos, species, age, max_age),
{
    Crop {
        pos,
        species,
        harvest_position: if age == max_age {
            Some(pos)
        } else {
            None
        },
        identifier: 0,
    }
}

fn grown_on_stem(
    pos: BlockPos,
    species: CropSpecies,
    age: u8,
    facing: Option<FacingCardinal>,
) -> (r: Crop)
    ensures
        r == stem_crop(pos, species, age, facing),
{
    let harvest_position = match facing {
        Some(side) => if age == STEM_MAX_AGE {
            adjacent_position(pos, side)
        } else {
            None
        },
        None => None,
    };
    Crop { pos, species, harvest_position, identifier: 0 }
}

/// Wheat is ripe at its full age of seven and at no lower age, and is
/// harvested where it stands.
pub proof fn lemma_wheat_ripe_at_full_age(
    pos: BlockPos,
    state: BlockState,
    age: u8,
    below_one: Option<BlockState>,
    below_two: Option<BlockState>,
)
    requires
        state.wheat_age == Some(age),
    ensures
        classify(BlockUpdate { pos, block_state: state }, below_one, below_two) == Some(
            Crop {
                pos,
                species: CropSpecies::Wheat,
                harvest_position: if age == 7 {
                    Some(pos)
                } else {
                    None
                },
                identifier: 0,
            },
        ),
{
}

/// A pumpkin stem of full age that faces south is harvested one cell to the
/// south of where it stands.
pub proof fn lemma_pumpkin_stem_faces_south(
    pos: BlockPos,
    state: BlockState,
    below_one: Option<BlockState>,
    below_two: Option<BlockState>,
)
    requires
        state.wheat_age is None,
        state.beetroots_age is None,
        state.potatoes_age is None,
        state.carrots_age is None,
        state.pumpkin_stem_age == Some(STEM_MAX_AGE),
        state.facing == Some(FacingCardinal::South),
        pos.z < i32::MAX,
    ensures
        classify(BlockUpdate { pos, block_state: state }, below_one, below_two) == Some(
            Crop {
                pos,
                species: CropSpecies::PumpkinStem,
                harvest_position: Some(BlockPos { x: pos.x, y: pos.y, z: (pos.z + 1) as i32 }),
                identifier: 0,
            },
        ),
{
}

/// A pumpkin stem without a facing is a crop that is not ripe, whatever its
/// age.
pub proof fn lemma_pumpkin_stem_without_facing(
    pos: BlockPos,
    state: BlockState,
    below_one: Option<BlockState>,
    below_two: Option<BlockState>,
)
    requires
        state.wheat_age is None,
        state.beetroots_age is None,
        state.potatoes_age is None,
        state.carrots_age is None,
        state.pumpkin_stem_age is Some,
        state.facing is None,
    ensures
        classify(BlockUpdate { pos, block_state: state }, below_one, below_two) == Some(
            Crop {
                pos,
                species: CropSpecies::PumpkinStem,
                harvest_position: None,
                identifier: 0,
            },
        ),
{
}

} // verus!
