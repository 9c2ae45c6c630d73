//! Tracks the crops seen in a stream of block updates and finds the nearest
//! one that is ripe.
//!
//! `crop` tells from a block update whether a cell holds a crop. `registry`
//! keeps the crops under stable identifiers, with a spatial index and a
//! count of the ripe ones; `ledger` says what it holds and how it changes.
//! `harvest` holds the cells that were just broken.

pub mod block;
pub mod crop;
pub mod harvest;
pub mod index;
pub mod ledger;
pub mod position;
pub mod registry;
mod tally;

pub use crate::block::BlockState;
pub use crate::block::BlockUpdate;
pub use crate::crop::Crop;
pub use crate::crop::CropSpecies;
pub use crate::harvest::HarvestRegistry;
pub use crate::ledger::UpdateOutcome;
pub use crate::position::BlockPos;
pub use crate::position::FacingCardinal;
pub use crate::registry::CropRegistry;
