//! Drums performance screen orchestrator.

use vstd::prelude::*;

verus! {

/// Default for being called from outside a performance.
pub const DEFAULT_FROM_OUTSIDE: bool = false;

} // verus!
