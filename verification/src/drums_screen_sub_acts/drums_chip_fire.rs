//! Chip-strike particles.

use vstd::prelude::*;

verus! {

/// Particles per strike.
pub const PARTICLES_PER_STRIKE: usize = 8;

/// Particle lifetime frames.
pub const LIFETIME_FRAMES: u32 = 60;

} // verus!
