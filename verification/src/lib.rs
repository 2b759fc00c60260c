//! Combat-projectile subsystem: turning a player's "release bow" intent into
//! an arrow spawn, and resolving an arrow's collision with another entity into
//! an attack order and counter updates.
//!
//! All geometry is carried in fixed-point integers so that every computation
//! is exact: positions, directions and charges come in thousandths of a world
//! unit ("milli"), spawn positions and velocities go out in millionths
//! ("micro"). The embedding converts at the edge.

use vstd::prelude::*;

pub mod bow;
pub mod events;
pub mod item;
pub mod motion;
pub mod store;

verus! {

/// Identity of an entity in the surrounding world: a plain handle, never a
/// controlling reference.
pub type EntityId = u64;

} // verus!
