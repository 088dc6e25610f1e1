//! Wailing bonus orchestrator.

use vstd::prelude::*;

verus! {

/// Min notes between wailings.
pub const WAILING_NOTE_INTERVAL: u32 = 32;

/// Wailing bonus base value.
pub const WAILING_BONUS_BASE: u32 = 1000;

} // verus!
