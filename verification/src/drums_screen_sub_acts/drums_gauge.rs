//! Gauge display.

use vstd::prelude::*;

verus! {

/// Gauge position.
pub const GAUGE_X: i32 = 294;

/// Gauge y in normal scroll.
pub const GAUGE_Y_NORMAL: i32 = 626;

/// Gauge y in reverse scroll.
pub const GAUGE_Y_REVERSE: i32 = 28;

} // verus!
