//! Keyboard cycling of the widget selection in sidebar list order.

use vstd::prelude::*;

use crate::editor::picking::{first_index, position_of, wrap_step};
use crate::editor::profile_state::value_semantics;

verus! {

/// The widget after (or before, with `reverse`) `current` in `all`,
/// wrapping; `None` or an unlisted widget starts at the first entry.
pub open spec fn spec_cycle_widget<K>(all: Seq<K>, current: Option<K>, reverse: bool, r: K) -> bool {
    match current {
        Some(c) => if exists|i: int| 0 <= i < all.len() && all[i] == c {
            exists|i: int| #[trigger] first_index(all, c, i) && r == all[if reverse {
                (i + all.len() - 1) % (all.len() as int)
            } else {
                (i + 1) % (all.len() as int)
            }]
        } else {
            r == all[0]
        },
        None => r == all[0],
    }
}

/// Next/previous widget in the sidebar list order `all` (the order the
/// sidebar renders). Wraps; `None` starts at the first entry.
pub fn cycle_widget<K: Clone + PartialEq>(all: &[K], current: Option<K>, reverse: bool) -> (r: K)
    requires
        value_semantics::<K>(),
        all@.len() > 0,
    ensures
        spec_cycle_widget(all@, current, reverse, r),
{
    let n = all.len();
    let found = match &current {
        Some(c) => position_of(all, c),
        None => None,
    };
    let idx = match found {
        None => 0,
        Some(i) => {
            if reverse {
                let p = if i == 0 { n - 1 } else { i - 1 };
                proof {
                    wrap_step(i as int, n as int, true);
                }
                p
            } else {
                let p = if i + 1 < n { i + 1 } else { 0 };
                proof {
                    wrap_step(i as int, n as int, false);
                }
                p
            }
        },
    };
    let k = all[idx].clone();
    assert(cloned(all@[idx as int], k));
    k
}

} // verus!
