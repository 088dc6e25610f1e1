//! Score display.

use vstd::prelude::*;

verus! {

/// Score position.
pub const SCORE_X: i32 = 40;

/// Score position.
pub const SCORE_Y: i32 = 13;

/// Score digits.
pub const SCORE_DIGITS: usize = 7;

} // verus!
