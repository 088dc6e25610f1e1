//! Scrolling bar/beat timing lines: which lines are on screen, which leave
//! it, and the metronome click each line gives once as the clock crosses it.
//! Line times are chart times in ms, resolved by the chart's timing.

use std::collections::HashSet;

use vstd::prelude::*;

verus! {

broadcast use vstd::std_specs::hash::group_hash_axioms;

/// Lines stay spawned this long after they pass the judge line.
pub const BACKFILL_MS: i64 = 500;
/// Extra slack before a spawned line is removed.
pub const DESPAWN_MARGIN_MS: i64 = 200;

/// A bar line (measure start) or a beat line.
#[derive(Debug, Clone, Copy, PartialEq, Eq, Structural)]
pub enum TimingLineKind {
    Bar,
    Beat,
}

/// One timing line of the chart.
#[derive(Debug, Clone, Copy, PartialEq, Eq, Structural)]
pub struct TimingLine {
    /// Chart time of the line, in ms.
    pub target_ms: i64,
    /// Hidden lines (chart-disabled) are neither drawn nor clicked.
    pub visible: bool,
    pub kind: TimingLineKind,
}

/// A line at `target` is inside the spawn window at `now`: at most the
/// backfill behind the clock and at most `window` ahead of it.
pub open spec fn spec_in_spawn_window(target: int, now: int, window: int) -> bool {
    now - BACKFILL_MS <= target <= now + window
}

/// Whether a line at `target_ms` belongs on screen at `now_ms`, given the
/// scroll lookahead `window_ms`.
pub fn in_spawn_window(target_ms: i64, now_ms: i64, window_ms: i64) -> (b: bool)
    ensures
        b == spec_in_spawn_window(target_ms as int, now_ms as int, window_ms as int),
{
    let t = target_ms as i128;
    let now = now_ms as i128;
    !(t < now - BACKFILL_MS as i128 || t > now + window_ms as i128)
}

/// A spawned line at `target` has left the keep window (spawn window plus
/// the despawn margin on both sides) at `now`.
pub open spec fn spec_past_keep_window(target: int, now: int, window: int) -> bool {
    target < now - BACKFILL_MS - DESPAWN_MARGIN_MS || target > now + window + DESPAWN_MARGIN_MS
}

/// Whether a spawned line at `target_ms` is to be removed at `now_ms`.
pub fn past_keep_window(target_ms: i64, now_ms: i64, window_ms: i64) -> (b: bool)
    ensures
        b == spec_past_keep_window(target_ms as int, now_ms as int, window_ms as int),
{
    let t = target_ms as i128;
    let now = now_ms as i128;
    t < now - BACKFILL_MS as i128 - DESPAWN_MARGIN_MS as i128 || t > now + window_ms as i128
        + DESPAWN_MARGIN_MS as i128
}

/// A line that is spawned is never removed in the same frame: the keep
/// window contains the spawn window.
pub proof fn lemma_spawned_lines_are_kept(target: int, now: int, window: int)
    requires
        spec_in_spawn_window(target, now, window),
    ensures
        !spec_past_keep_window(target, now, window),
{
}

/// The indices (in order, among the first `n` lines) of the visible lines
/// not yet drawn whose time is inside the spawn window.
pub open spec fn spec_to_spawn(lines: Seq<TimingLine>, existing: Set<usize>, now: int, window: int, n: int) -> Seq<usize>
    decreases n,
{
    if n <= 0 {
        Seq::empty()
    } else {
        let rest = spec_to_spawn(lines, existing, now, window, n - 1);
        let l = lines[n - 1];
        if l.visible && !existing.contains((n - 1) as usize) && spec_in_spawn_window(l.target_ms as int, now, window) {
            rest.push((n - 1) as usize)
        } else {
            rest
        }
    }
}

/// The lines to draw this frame: visible, not already drawn, and inside
/// the spawn window.
pub fn lines_to_spawn(lines: &[TimingLine], existing: &HashSet<usize>, now_ms: i64, window_ms: i64) -> (r: Vec<usize>)
    ensures
        r@ == spec_to_spawn(lines@, existing@, now_ms as int, window_ms as int, lines@.len() as int),
{
    let mut out: Vec<usize> = Vec::new();
    let n = lines.len();
    for k in 0..n
        invariant
            n == lines@.len(),
            out@ == spec_to_spawn(lines@, existing@, now_ms as int, window_ms as int, k as int),
    {
        let l = lines[k];
        if l.visible && !existing.contains(&k) && in_spawn_window(l.target_ms, now_ms, window_ms) {
            out.push(k);
        }
    }
    out
}

/// Line `i` gives its metronome click at `now`: visible, not clicked yet,
/// and its time has come.
pub open spec fn crosses(lines: Seq<TimingLine>, crossed: Set<usize>, now: int, i: int) -> bool {
    &&& lines[i].visible
    &&& !crossed.contains(i as usize)
    &&& lines[i].target_ms <= now
}

/// The indices (in order, among the first `n` lines) that click at `now`.
pub open spec fn spec_crossings(lines: Seq<TimingLine>, crossed: Set<usize>, now: int, n: int) -> Seq<usize>
    decreases n,
{
    if n <= 0 {
        Seq::empty()
    } else {
        let rest = spec_crossings(lines, crossed, now, n - 1);
        if crosses(lines, crossed, now, n - 1) {
            rest.push((n - 1) as usize)
        } else {
            rest
        }
    }
}

/// The lines whose metronome click is due at `now_ms`, in chart order;
/// each joins `crossed`, so it clicks once. The caller plays a bar click at
/// full volume and a beat click quieter.
pub fn metronome_crossings(lines: &[TimingLine], crossed: &mut HashSet<usize>, now_ms: i64) -> (r: Vec<usize>)
    ensures
        r@ == spec_crossings(lines@, old(crossed)@, now_ms as int, lines@.len() as int),
        final(crossed)@ == old(crossed)@.union(
            Set::new(|i: usize| 0 <= i < lines@.len() && crosses(lines@, old(crossed)@, now_ms as int, i as int)),
        ),
{
    let ghost c0 = crossed@;
    let mut out: Vec<usize> = Vec::new();
    let n = lines.len();
    for k in 0..n
        invariant
            n == lines@.len(),
            out@ == spec_crossings(lines@, c0, now_ms as int, k as int),
            crossed@ == c0.union(Set::new(|i: usize| 0 <= i < k && crosses(lines@, c0, now_ms as int, i as int))),
    {
        let ghost before = crossed@;
        assert(before.contains(k) == c0.contains(k));
        let l = lines[k];
        if l.visible && !crossed.contains(&k) && l.target_ms <= now_ms {
            crossed.insert(k);
            out.push(k);
        }
        assert(crossed@ =~= c0.union(Set::new(|i: usize| 0 <= i < k + 1 && crosses(lines@, c0, now_ms as int, i as int))));
    }
    assert(crossed@ =~= c0.union(Set::new(|i: usize| 0 <= i < n && crosses(lines@, c0, now_ms as int, i as int))));
    out
}

/// After a step, no line that clicked can click again.
pub proof fn lemma_click_once(lines: Seq<TimingLine>, crossed: Set<usize>, now: int, later: int, i: int)
    requires
        0 <= i < lines.len() <= usize::MAX,
        crosses(lines, crossed, now, i),
    ensures
        !crosses(
            lines,
            crossed.union(Set::new(|j: usize| 0 <= j < lines.len() && crosses(lines, crossed, now, j as int))),
            later,
            i,
        ),
{
    let s = Set::new(|j: usize| 0 <= j < lines.len() && crosses(lines, crossed, now, j as int));
    assert(s.contains(i as usize));
}

/// The metronome ticks only in drums mode, with a ready clock, timing
/// lines shown, the metronome on, and lines to cross.
pub fn metronome_active(drums_mode: bool, clock_ready: bool, show_lines: bool, metronome_on: bool, line_count: usize) -> (b: bool)
    ensures
        b == (drums_mode && clock_ready && show_lines && metronome_on && line_count > 0),
{
    drums_mode && clock_ready && show_lines && metronome_on && line_count > 0
}

} // verus!
