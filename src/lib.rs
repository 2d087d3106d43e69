//! A solar-system idle game's core: orbits, the sun's activity cycle, flare
//! particles meeting planets, tiered resources gated by technology, and the
//! two-phase economy tick. Quantities are fixed-point integers; each module
//! says its units.

use vstd::prelude::*;

pub mod flare;
pub mod geometry;
pub mod orbit;
pub mod resources;
pub mod structures;
pub mod sun;
pub mod system;
pub mod unlocks;
pub mod utils;

verus! {

} // verus!
