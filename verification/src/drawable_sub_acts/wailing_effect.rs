//! Wailing bonus visual.

use vstd::prelude::*;

verus! {

/// Wailing duration frames.
pub const DURATION_FRAMES: u32 = 60;

} // verus!
