//! Pad positions.

use vstd::prelude::*;

verus! {

/// Pad X positions.
pub const PAD_X: [i32; 10] = [263, 336, 446, 565, 510, 622, 672, 735, 791, 396];

/// Pad Y positions.
pub const PAD_Y: [i32; 10] = [10, 10, 10, 10, 10, 10, 10, 10, 10, 10];

/// Pad tile size.
pub const PAD_SIZE: i32 = 96;

} // verus!
