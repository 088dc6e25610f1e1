//! Note strike particles.

use vstd::prelude::*;

verus! {

/// Particles per strike.
pub const PARTICLE_COUNT: usize = 16;

/// Particle lifetime frames.
pub const LIFETIME_FRAMES: u32 = 30;

} // verus!
