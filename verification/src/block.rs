//! What a block update says about a cell, as far as the crop rules read it.

use vstd::prelude::*;
use crate::position::BlockPos;
use crate::position::FacingCardinal;

verus! {

/// The age at which wheat is ripe.
pub const WHEAT_MAX_AGE: u8 = 7;

/// The age at which beetroot is ripe.
pub const BEETROOT_MAX_AGE: u8 = 3;

/// The age at which potatoes are ripe.
pub const POTATO_MAX_AGE: u8 = 7;

/// The age at which carrots are ripe.
pub const CARROT_MAX_AGE: u8 = 7;

/// The age at which a pumpkin or melon stem bears fruit.
pub const STEM_MAX_AGE: u8 = 7;

/// The properties of a block state that decide whether it is a crop. Each
/// growth property is present only on blocks of its own kind.
#[derive(Clone, Copy, Debug, PartialEq, Eq, Structural)]
pub struct BlockState {
    pub air: bool,
    pub wheat_age: Option<u8>,
    pub beetroots_age: Option<u8>,
    pub potatoes_age: Option<u8>,
    pub carrots_age: Option<u8>,
    pub pumpkin_stem_age: Option<u8>,
    pub melon_stem_age: Option<u8>,
    pub sugar_cane_age: Option<u8>,
    pub facing: Option<FacingCardinal>,
}

/// The new state of one cell.
#[derive(Clone, Copy, Debug, PartialEq, Eq, Structural)]
pub struct BlockUpdate {
    pub pos: BlockPos,
    pub block_state: BlockState,
}

impl BlockState {
    /// A solid block that carries none of the properties.
    pub open spec fn plain() -> BlockState {
        BlockState {
            air: false,
            wheat_age: None,
            beetroots_age: None,
            potatoes_age: None,
            carrots_age: None,
            pumpkin_stem_age: None,
            melon_stem_age: None,
            sugar_cane_age: None,
            facing: None,
        }
    }

    /// Whether this is a segment of sugar cane.
    pub open spec fn spec_is_sugar_cane(&self) -> bool {
        self.sugar_cane_age is Some
    }

    pub fn new() -> (r: BlockState)
        ensures
            r == BlockState::plain(),
    {
        BlockState {
            air: false,
            wheat_age: None,
            beetroots_age: None,
            potatoes_age: None,
            carrots_age: None,
            pumpkin_stem_age: None,
            melon_stem_age: None,
            sugar_cane_age: None,
            facing: None,
        }
    }

    /// The state of an empty cell.
    pub fn empty() -> (r: BlockState)
        ensures
            r == (BlockState { air: true, ..BlockState::plain() }),
    {
        BlockState {
            air: true,
            wheat_age: None,
            beetroots_age: None,
            potatoes_age: None,
            carrots_age: None,
            pumpkin_stem_age: None,
            melon_stem_age: None,
            sugar_cane_age: None,
            facing: None,
        }
    }

    pub fn is_air(&self) -> (r: bool)
        ensures
            r == self.air,
    {
        self.air
    }

    #[verifier::when_used_as_spec(spec_is_sugar_cane)]
    pub fn is_sugar_cane(&self) -> (r: bool)
        ensures
            r == self.spec_is_sugar_cane(),
    {
        self.sugar_cane_age.is_some()
    }
}

} // verus!
