//! Auto-play bot.
//!
//! For each unjudged chip whose target time has passed, the bot plays the
//! chip's lane exactly at the target time (so the judge grades it Perfect).
//! Chips on channels that are not judged on a lane are marked judged so
//! they never block later logic. While the Customize surface is open the
//! judge is gated off, so the bot marks the chips it plays judged itself:
//! one hit per chip.

use std::collections::HashSet;

use vstd::prelude::*;

use crate::drum_groups::{Chart, Chip};
use crate::lane_map::{lane_of, spec_lane_of, LaneId};

verus! {

broadcast use vstd::std_specs::hash::group_hash_axioms;

/// Whether the bot plays; off unless the player turns it on.
#[derive(Debug, Clone, Copy, PartialEq, Eq, Structural)]
pub struct AutoplayEnabled(pub bool);

impl Default for AutoplayEnabled {
    fn default() -> (a: Self)
        ensures
            !a.0,
    {
        AutoplayEnabled(false)
    }
}

/// The bot runs only while autoplay is enabled.
pub fn autoplay_active(flag: AutoplayEnabled) -> (b: bool)
    ensures
        b == flag.0,
{
    flag.0
}

/// A lane press at an audio time.
#[derive(Debug, Clone, Copy, PartialEq, Eq, Structural)]
pub struct LaneHit {
    pub lane: LaneId,
    pub audio_ms: i64,
}

/// Chip `i` is played by the bot at `now`.
pub open spec fn plays(chips: Seq<Chip>, judged: Set<usize>, now: int, i: int) -> bool {
    &&& !judged.contains(i as usize)
    &&& spec_lane_of(chips[i].channel) is Some
    &&& chips[i].target_ms <= now
}

/// The hits the bot emits for the first `chips.len()` chips, in chart order.
pub open spec fn spec_hits(chips: Seq<Chip>, judged: Set<usize>, now: int) -> Seq<LaneHit>
    decreases chips.len(),
{
    if chips.len() == 0 {
        Seq::empty()
    } else {
        let i = chips.len() - 1;
        let rest = spec_hits(chips.drop_last(), judged, now);
        if plays(chips, judged, now, i) {
            rest.push(LaneHit { lane: spec_lane_of(chips[i].channel).unwrap() as usize, audio_ms: chips[i].target_ms })
        } else {
            rest
        }
    }
}

/// The judged set after one bot step.
pub open spec fn spec_judged_after(chips: Seq<Chip>, judged: Set<usize>, now: int, editor_open: bool) -> Set<usize> {
    judged.union(Set::new(|i: usize| {
        &&& 0 <= i < chips.len()
        &&& !judged.contains(i)
        &&& (spec_lane_of(chips[i as int].channel) is None || (editor_open && plays(chips, judged, now, i as int)))
    }))
}

proof fn lemma_hits_prefix(chips: Seq<Chip>, judged: Set<usize>, now: int, k: int)
    requires
        0 <= k < chips.len(),
    ensures
        spec_hits(chips.take(k + 1), judged, now) == if plays(chips, judged, now, k) {
            spec_hits(chips.take(k), judged, now).push(
                LaneHit { lane: spec_lane_of(chips[k].channel).unwrap() as usize, audio_ms: chips[k].target_ms },
            )
        } else {
            spec_hits(chips.take(k), judged, now)
        },
{
    let t = chips.take(k + 1);
    assert(t.drop_last() =~= chips.take(k));
    assert(t[k] == chips[k]);
    assert(plays(t, judged, now, k) == plays(chips, judged, now, k));
}

/// One bot step at `now_ms`; nothing happens until the gameplay clock is
/// ready (a waiting clock reads a stale 0 ms). The lane hits to emit, in chart order; chips
/// on unjudged channels, and (while the editor is open) the chips played,
/// join `judged`.
pub fn autoplay_step(
    chart: &Chart,
    judged: &mut HashSet<usize>,
    clock_ready: bool,
    now_ms: i64,
    editor_open: bool,
) -> (hits: Vec<LaneHit>)
    ensures
        !clock_ready ==> hits@ == Seq::<LaneHit>::empty() && final(judged)@ == old(judged)@,
        clock_ready ==> hits@ == spec_hits(chart.chips@, old(judged)@, now_ms as int),
        clock_ready ==> final(judged)@ == spec_judged_after(chart.chips@, old(judged)@, now_ms as int, editor_open),
{
    if !clock_ready {
        return Vec::new();
    }
    let ghost j0 = judged@;
    let ghost chips = chart.chips@;
    let mut hits: Vec<LaneHit> = Vec::new();
    let n = chart.chips.len();
    for idx in 0..n
        invariant
            n == chips.len(),
            chips == chart.chips@,
            hits@ == spec_hits(chips.take(idx as int), j0, now_ms as int),
            judged@ == j0.union(Set::new(|i: usize| {
                &&& 0 <= i < idx
                &&& !j0.contains(i)
                &&& (spec_lane_of(chips[i as int].channel) is None || (editor_open && plays(chips, j0, now_ms as int, i as int)))
            })),
    {
        proof {
            lemma_hits_prefix(chips, j0, now_ms as int, idx as int);
        }
        let ghost before = judged@;
        assert(before.contains(idx) == j0.contains(idx));
        if !judged.contains(&idx) {
            let chip = chart.chips[idx];
            match lane_of(chip.channel) {
                None => {
                    judged.insert(idx);
                },
                Some(lane) => {
                    if chip.target_ms <= now_ms {
                        hits.push(LaneHit { lane, audio_ms: chip.target_ms });
                        if editor_open {
                            judged.insert(idx);
                        }
                    }
                },
            }
        }
        assert(judged@ =~= j0.union(Set::new(|i: usize| {
            &&& 0 <= i < idx + 1
            &&& !j0.contains(i)
            &&& (spec_lane_of(chips[i as int].channel) is None || (editor_open && plays(chips, j0, now_ms as int, i as int)))
        })));
    }
    assert(chips.take(n as int) =~= chips);
    assert(judged@ =~= spec_judged_after(chips, j0, now_ms as int, editor_open));
    hits
}

/// `h` is the bot's hit for chip `i`, which it plays at `now`.
pub open spec fn hit_for(chips: Seq<Chip>, judged: Set<usize>, now: int, i: int, h: LaneHit) -> bool {
    &&& 0 <= i < chips.len()
    &&& plays(chips, judged, now, i)
    &&& h == (LaneHit { lane: spec_lane_of(chips[i].channel).unwrap() as usize, audio_ms: chips[i].target_ms })
}

/// Every hit the bot emits is for a chip that was unjudged, on a judged
/// lane, at exactly its (already passed) target time.
pub proof fn lemma_hits_are_due_chips(chips: Seq<Chip>, judged: Set<usize>, now: int, k: int)
    requires
        0 <= k < spec_hits(chips, judged, now).len(),
    ensures
        exists|i: int| #[trigger] hit_for(chips, judged, now, i, spec_hits(chips, judged, now)[k]),
    decreases chips.len(),
{
    let c = chips.drop_last();
    let rest = spec_hits(c, judged, now);
    let h = spec_hits(chips, judged, now);
    if k < rest.len() {
        lemma_hits_are_due_chips(c, judged, now, k);
        assert(h[k] == rest[k]);
        let i = choose|i: int| #[trigger] hit_for(c, judged, now, i, rest[k]);
        assert(c[i] == chips[i]);
        assert(hit_for(chips, judged, now, i, h[k]));
    } else {
        let i = chips.len() - 1;
        assert(hit_for(chips, judged, now, i, h[k]));
    }
}

/// With the editor open, every chip the bot plays is judged afterwards, so
/// the next step cannot play it again.
pub proof fn lemma_editor_plays_once(chips: Seq<Chip>, judged: Set<usize>, now: int, later: int)
    requires
        chips.len() <= usize::MAX,
    ensures
        forall|i: int| 0 <= i < chips.len() && plays(chips, judged, now, i) ==> #[trigger] spec_judged_after(chips, judged, now, true).contains(i as usize)
            && !plays(chips, spec_judged_after(chips, judged, now, true), later, i),
{
}

} // verus!
