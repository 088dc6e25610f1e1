//! Judgment string display.

use vstd::prelude::*;

verus! {

/// 5 judgment kinds (Perfect/Great/Good/Poor/Miss).
pub const JUDGMENT_KINDS: usize = 5;

/// Display duration in ms.
pub const DISPLAY_MS: u32 = 600;

/// Vertical offset (pixels) between consecutive judgments.
pub const VERT_OFFSET: i32 = 32;

} // verus!
