//! Status panel.

use vstd::prelude::*;

verus! {

/// Panel position.
pub const X: i32 = 22;

/// Panel position.
pub const Y: i32 = 250;

/// Row spacing.
pub const ROW_DY: i32 = 30;

/// First row.
pub const ROW0_Y: i32 = 72;

/// Achievement row.
pub const ACHIEVE_Y: i32 = 277;

/// Skill row.
pub const SKILL_Y: i32 = 363;

} // verus!
