//! The clock of the simulation.
//!
//! Time is counted in units of a sixty-thousandth of a second, so that a fixed tick and a
//! millisecond are both whole numbers of them.

use vstd::prelude::*;

verus! {

/// Time units in a second.
pub const SECOND: u64 = 60_000;

/// Fixed ticks in a second.
pub const TICKS_PER_SECOND: u64 = 60;

/// Time units in a fixed tick.
pub const TIMESTEP: u64 = 1_000;

} // verus!
