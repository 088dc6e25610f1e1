//! Alt+click cycling through the widgets stacked under the cursor.

use vstd::prelude::*;

use crate::editor::profile_state::value_semantics;

verus! {

/// Position of the first candidate equal to `k`.
pub open spec fn first_index<K>(s: Seq<K>, k: K, i: int) -> bool {
    0 <= i < s.len() && s[i] == k && forall|j: int| 0 <= j < i ==> s[j] != k
}

/// The candidate after `current` in priority order (wrapping), or the
/// topmost when `current` is not among them.
pub open spec fn spec_cycle_pick<K>(candidates: Seq<K>, current: Option<K>, r: Option<K>) -> bool {
    if candidates.len() == 0 {
        r is None
    } else {
        match current {
            Some(c) => if exists|i: int| 0 <= i < candidates.len() && candidates[i] == c {
                exists|i: int| #[trigger] first_index(candidates, c, i) && r == Some(candidates[(i + 1) % (candidates.len() as int)])
            } else {
                r == Some(candidates[0])
            },
            None => r == Some(candidates[0]),
        }
    }
}

/// One step around a ring of `n` positions.
pub(crate) proof fn wrap_step(i: int, n: int, reverse: bool)
    requires
        0 <= i < n,
    ensures
        reverse ==> (if i == 0 { n - 1 } else { i - 1 }) == (i + n - 1) % n,
        !reverse ==> (if i + 1 < n { i + 1 } else { 0 }) == (i + 1) % n,
{
    if i + 1 < n {
        vstd::arithmetic::div_mod::lemma_small_mod((i + 1) as nat, n as nat);
    } else {
        vstd::arithmetic::div_mod::lemma_mod_self_0(n);
    }
    if i == 0 {
        vstd::arithmetic::div_mod::lemma_small_mod((n - 1) as nat, n as nat);
    } else {
        vstd::arithmetic::div_mod::lemma_mod_adds(i - 1, n, n);
        vstd::arithmetic::div_mod::lemma_mod_self_0(n);
        vstd::arithmetic::div_mod::lemma_small_mod((i - 1) as nat, n as nat);
    }
}

pub(crate) fn position_of<K: Clone + PartialEq>(s: &[K], k: &K) -> (r: Option<usize>)
    requires
        value_semantics::<K>(),
    ensures
        r matches Some(i) ==> first_index(s@, *k, i as int),
        r is None ==> forall|j: int| 0 <= j < s@.len() ==> s@[j] != *k,
{
    let n = s.len();
    for i in 0..n
        invariant
            n == s@.len(),
            value_semantics::<K>(),
            forall|j: int| 0 <= j < i ==> s@[j] != *k,
    {
        if s[i] == *k {
            return Some(i);
        }
    }
    None
}

/// Alt+click cycling: the next candidate after `current` in priority order
/// (wraps). If `current` is not among the candidates, behaves like topmost.
pub fn cycle_pick<K: Clone + PartialEq>(candidates: &[K], current: Option<K>) -> (r: Option<K>)
    requires
        value_semantics::<K>(),
    ensures
        spec_cycle_pick(candidates@, current, r),
{
    let n = candidates.len();
    if n == 0 {
        return None;
    }
    let found = match &current {
        Some(c) => position_of(candidates, c),
        None => None,
    };
    match found {
        Some(i) => {
            let next = if i + 1 < n { i + 1 } else { 0 };
            proof {
                wrap_step(i as int, n as int, false);
            }
            let k = candidates[next].clone();
            assert(cloned(candidates@[next as int], k));
            Some(k)
        },
        None => {
            let k = candidates[0].clone();
            assert(cloned(candidates@[0], k));
            Some(k)
        },
    }
}

/// `cands` without the entries listed in `hidden`, order kept.
pub open spec fn keep_visible<K>(cands: Seq<K>, hidden: Seq<K>) -> Seq<K>
    decreases cands.len(),
{
    if cands.len() == 0 {
        Seq::empty()
    } else {
        let rest = keep_visible(cands.drop_last(), hidden);
        if hidden.contains(cands.last()) {
            rest
        } else {
            rest.push(cands.last())
        }
    }
}

fn listed<K: Clone + PartialEq>(s: &[K], k: &K) -> (b: bool)
    requires
        value_semantics::<K>(),
    ensures
        b == s@.contains(*k),
{
    let n = s.len();
    for i in 0..n
        invariant
            n == s@.len(),
            value_semantics::<K>(),
            forall|j: int| 0 <= j < i ==> s@[j] != *k,
    {
        if s[i] == *k {
            assert(s@[i as int] == *k);
            return true;
        }
    }
    false
}

/// The widget a canvas press selects. Widgets hidden in the current preview
/// mode are not pickable on the canvas; among the rest (best-first) Alt
/// cycles past the current selection, otherwise the topmost wins, and an
/// empty spot selects nothing.
pub fn press_pick<K: Clone + PartialEq>(candidates: &[K], hidden: &[K], alt: bool, current: Option<K>) -> (r: Option<K>)
    requires
        value_semantics::<K>(),
    ensures
        ({
            let visible = keep_visible(candidates@, hidden@);
            if alt {
                spec_cycle_pick(visible, current, r)
            } else {
                r == if visible.len() > 0 { Some(visible[0]) } else { None::<K> }
            }
        }),
{
    let mut visible: Vec<K> = Vec::new();
    let n = candidates.len();
    assert(candidates@.subrange(0, 0) =~= Seq::<K>::empty());
    for i in 0..n
        invariant
            n == candidates@.len(),
            value_semantics::<K>(),
            visible@ == keep_visible(candidates@.subrange(0, i as int), hidden@),
    {
        assert(candidates@.subrange(0, i + 1).drop_last() =~= candidates@.subrange(0, i as int));
        if !listed(hidden, &candidates[i]) {
            let k = candidates[i].clone();
            assert(cloned(candidates@[i as int], k));
            visible.push(k);
        }
    }
    assert(candidates@.subrange(0, n as int) =~= candidates@);
    if alt {
        cycle_pick(visible.as_slice(), current)
    } else if visible.len() > 0 {
        let k = visible[0].clone();
        assert(cloned(visible@[0], k));
        Some(k)
    } else {
        None
    }
}

} // verus!
