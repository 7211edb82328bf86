//! The core of a toroidal particle sandbox: charged particles that push and pull each
//! other on a plane whose opposite edges meet, that cancel in pairs, and that the gizmos
//! which the user places emit, delete, attract, push and eat.
//!
//! Everything is computed in whole numbers. Lengths are counted in steps,
//! [`vector::UNIT`] steps to one world unit; time is counted in units of
//! [`time::SECOND`] to the second, [`time::TIMESTEP`] of them to a fixed tick. Vector
//! arithmetic saturates at the limits of `i64` instead of wrapping round, so no input
//! lets a function panic.
//!
//! [`world::World`] holds the whole sandbox. [`world::World::fixed_tick`] advances the
//! physics by one tick, [`world::World::frame_update`] takes the input of one frame;
//! both are made of the functions of the other modules, which can be called one by one
//! on the particles and the gizmos as well.

pub mod annihilation;
pub mod draw_properties;
pub mod filter;
pub mod force;
pub mod gizmos;
pub mod heading;
pub mod input;
pub mod movement;
pub mod particle;
pub mod repulsion;
pub mod time;
pub mod topology;
pub mod vector;
pub mod world;
