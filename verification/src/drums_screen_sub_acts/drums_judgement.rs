//! Judgment string placement.

use vstd::prelude::*;

verus! {

/// Y in forward scroll.
pub const Y_FORWARD: i32 = 348;

/// Y in reverse scroll.
pub const Y_REVERSE: i32 = 583;

/// Y at the top in reverse scroll.
pub const Y_TOP_REVERSE: i32 = 80;

/// Horizontal step.
pub const VERT_DX: i32 = 32;

} // verus!
