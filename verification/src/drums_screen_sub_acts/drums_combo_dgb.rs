//! Combo display.

use vstd::prelude::*;

verus! {

/// Combo position.
pub const COMBO_X: i32 = 1245;

/// Combo position.
pub const COMBO_Y: i32 = 60;

/// Bomb position.
pub const BOMB_X: i32 = 845;

/// Bomb position.
pub const BOMB_Y: i32 = -130;

} // verus!
