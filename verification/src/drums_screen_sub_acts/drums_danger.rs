//! Full-screen danger overlay.

use vstd::prelude::*;

verus! {

/// Overlay origin.
pub const OVERLAY_X: i32 = 0;

/// Overlay origin.
pub const OVERLAY_Y: i32 = 0;

/// Overlay width.
pub const OVERLAY_W: i32 = 1280;

/// Overlay height.
pub const OVERLAY_H: i32 = 720;

/// Counter max.
pub const COUNTER_MAX: u32 = 0x7f;

} // verus!
