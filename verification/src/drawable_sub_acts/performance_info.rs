//! Extended performance statistics.

use vstd::prelude::*;

verus! {

/// Default BPM (a whole number of beats per minute).
pub const DEFAULT_BPM: u32 = 120;

/// 5 judgment count fields (PERFECT/GREAT/GOOD/POOR/MISS).
pub const JUDGMENT_FIELDS: usize = 5;

} // verus!
