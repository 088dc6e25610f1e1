//! Fill-in effect.

use vstd::prelude::*;

verus! {

/// Fill-in effect active flag default.
pub const FILLIN_EFFECT_DEFAULT: bool = false;

} // verus!
