//! Lane flush positions.

use vstd::prelude::*;

verus! {

/// 10 drums lanes (LC, HH, SD, BD, HT, LT, FT, CY, LP, RD).
pub const LANE_COUNT: usize = 10;

/// Lane X positions.
pub const LANE_X: [i32; 10] = [298, 370, 470, 582, 528, 645, 694, 748, 419, 815];

/// Lane widths.
pub const LANE_W: [i32; 10] = [64, 46, 54, 60, 46, 46, 46, 64, 48, 38];

} // verus!
