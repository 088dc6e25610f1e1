//! Drum pad grouping, cymbal-free judgment, and hit-sound priority.
//!
//! A pad press is judged against the chips of one or more channels,
//! depending on the player's grouping options (which pads share chips) and
//! on which channels the loaded chart actually uses (missing channels
//! downgrade a separate grouping to a shared one). Within one channel the
//! closest unjudged chip inside the judgment window wins; across channels
//! the earliest chip wins, and chips due at the same instant are all hit.

use std::collections::HashSet;

use vstd::prelude::*;

use crate::lane_map::{lane_channel, lane_of, spec_lane_channel, spec_lane_of, EChannel, LaneId, LANE_COUNT};

verus! {

broadcast use vstd::std_specs::hash::group_hash_axioms;

/// Largest |hit time - chip time| (ms) that can judge a chip.
pub const MAX_JUDGE_WINDOW_MS: i64 = 117;

/// Drum pads, in lane order (pad `i` is lane `i`).
#[derive(Debug, Clone, Copy, PartialEq, Eq, Hash, Structural)]
pub enum DrumPad {
    Hh,
    Sd,
    Bd,
    Ht,
    Lt,
    Ft,
    Cy,
    Hho,
    Rd,
    Lc,
    Lp,
    Lbd,
}

/// Lane of a pad.
pub open spec fn spec_pad_lane(pad: DrumPad) -> int {
    match pad {
        DrumPad::Hh => 0,
        DrumPad::Sd => 1,
        DrumPad::Bd => 2,
        DrumPad::Ht => 3,
        DrumPad::Lt => 4,
        DrumPad::Ft => 5,
        DrumPad::Cy => 6,
        DrumPad::Hho => 7,
        DrumPad::Rd => 8,
        DrumPad::Lc => 9,
        DrumPad::Lp => 10,
        DrumPad::Lbd => 11,
    }
}

/// The channel a pad plays by itself (its lane's channel).
pub open spec fn spec_pad_channel(pad: DrumPad) -> EChannel {
    spec_lane_channel(spec_pad_lane(pad))
}

impl DrumPad {
    /// The pad of a lane; `None` past the last lane.
    pub fn from_lane(lane: LaneId) -> (p: Option<Self>)
        ensures
            p matches Some(pad) ==> spec_pad_lane(pad) == lane,
            p is None <==> lane >= LANE_COUNT,
    {
        match lane {
            0 => Some(Self::Hh),
            1 => Some(Self::Sd),
            2 => Some(Self::Bd),
            3 => Some(Self::Ht),
            4 => Some(Self::Lt),
            5 => Some(Self::Ft),
            6 => Some(Self::Cy),
            7 => Some(Self::Hho),
            8 => Some(Self::Rd),
            9 => Some(Self::Lc),
            10 => Some(Self::Lp),
            11 => Some(Self::Lbd),
            _ => None,
        }
    }

    /// The lane of this pad.
    pub fn lane(self) -> (l: LaneId)
        ensures
            l == spec_pad_lane(self),
            l < LANE_COUNT,
    {
        match self {
            DrumPad::Hh => 0,
            DrumPad::Sd => 1,
            DrumPad::Bd => 2,
            DrumPad::Ht => 3,
            DrumPad::Lt => 4,
            DrumPad::Ft => 5,
            DrumPad::Cy => 6,
            DrumPad::Hho => 7,
            DrumPad::Rd => 8,
            DrumPad::Lc => 9,
            DrumPad::Lp => 10,
            DrumPad::Lbd => 11,
        }
    }
}

/// Cymbal grouping: does the CY pad share chips with the ride?
#[derive(Debug, Clone, Copy, PartialEq, Eq, Structural)]
pub enum CyGroup {
    Separate,
    Common,
}

/// Hi-hat grouping among closed hi-hat, open hi-hat and left cymbal.
#[derive(Debug, Clone, Copy, PartialEq, Eq, Structural)]
pub enum HhGroup {
    SeparateAll,
    HhAndLc,
    HhAndHo,
    CommonAll,
}

/// Tom grouping: do low and floor tom share chips?
#[derive(Debug, Clone, Copy, PartialEq, Eq, Structural)]
pub enum FtGroup {
    Separate,
    Common,
}

/// Bass-drum / pedal grouping.
#[derive(Debug, Clone, Copy, PartialEq, Eq, Structural)]
pub enum BdGroup {
    Separate,
    BdAndLbd,
    PedalsOnly,
    AllBd,
}

/// Which sound a pad press plays when chip and pad differ.
#[derive(Debug, Clone, Copy, PartialEq, Eq, Structural)]
pub enum HitSoundPriority {
    ChipOverPad,
    PadOverChip,
}

/// The player's drum grouping options.
#[derive(Debug, Clone, Copy, PartialEq, Eq, Structural)]
pub struct DrumsConfig {
    pub cy_group: CyGroup,
    pub hh_group: HhGroup,
    pub ft_group: FtGroup,
    pub bd_group: BdGroup,
    pub cymbal_free: bool,
    pub hit_sound_priority_hh: HitSoundPriority,
    pub hit_sound_priority_ft: HitSoundPriority,
    pub hit_sound_priority_cy: HitSoundPriority,
    pub hit_sound_priority_lp: HitSoundPriority,
}

/// One chart chip as the judge sees it: its channel, its sound slot
/// (0 = silent), and its playback time in ms from the chart's tempo map.
#[derive(Debug, Clone, Copy, PartialEq, Eq, Structural)]
pub struct Chip {
    pub channel: EChannel,
    pub wav_slot: u32,
    pub target_ms: i64,
}

/// The chips of the loaded chart, in chart order.
#[derive(Debug, Clone)]
pub struct Chart {
    pub chips: Vec<Chip>,
}

/// Whether some chip is on channel `ch`.
pub open spec fn has_channel(chips: Seq<Chip>, ch: EChannel) -> bool {
    exists|i: int| 0 <= i < chips.len() && (#[trigger] chips[i]).channel == ch
}

/// Which drum channels appear in the loaded chart.
#[derive(Debug, Clone, Copy, PartialEq, Eq, Structural)]
pub struct ChartChipPresence {
    pub hh_close: bool,
    pub hh_open: bool,
    pub left_cymbal: bool,
    pub cymbal: bool,
    pub ride: bool,
    pub bass_drum: bool,
    pub left_pedal: bool,
    pub left_bass_drum: bool,
}

/// Presence flags of a chip sequence.
pub open spec fn spec_presence(chips: Seq<Chip>) -> ChartChipPresence {
    ChartChipPresence {
        hh_close: has_channel(chips, EChannel::HiHatClose),
        hh_open: has_channel(chips, EChannel::HiHatOpen),
        left_cymbal: has_channel(chips, EChannel::LeftCymbal),
        cymbal: has_channel(chips, EChannel::Cymbal),
        ride: has_channel(chips, EChannel::RideCymbal),
        bass_drum: has_channel(chips, EChannel::BassDrum),
        left_pedal: has_channel(chips, EChannel::LeftPedal),
        left_bass_drum: has_channel(chips, EChannel::LeftBassDrum),
    }
}

impl Default for ChartChipPresence {
    fn default() -> (p: Self)
        ensures
            p == spec_presence(Seq::empty()),
    {
        ChartChipPresence {
            hh_close: false,
            hh_open: false,
            left_cymbal: false,
            cymbal: false,
            ride: false,
            bass_drum: false,
            left_pedal: false,
            left_bass_drum: false,
        }
    }
}

impl ChartChipPresence {
    /// Which drum channels the chart uses.
    pub fn from_chart(chart: &Chart) -> (p: Self)
        ensures
            p == spec_presence(chart.chips@),
    {
        let mut p = ChartChipPresence {
            hh_close: false,
            hh_open: false,
            left_cymbal: false,
            cymbal: false,
            ride: false,
            bass_drum: false,
            left_pedal: false,
            left_bass_drum: false,
        };
        let n = chart.chips.len();
        for k in 0..n
            invariant
                n == chart.chips@.len(),
                p == spec_presence(chart.chips@.take(k as int)),
        {
            let ghost before = chart.chips@.take(k as int);
            let ghost after = chart.chips@.take(k + 1);
            assert(after =~= before.push(chart.chips@[k as int]));
            assert forall|ch: EChannel| has_channel(after, ch) == (has_channel(before, ch)
                || chart.chips@[k as int].channel == ch) by {
                if has_channel(after, ch) {
                    let i = choose|i: int| 0 <= i < after.len() && (#[trigger] after[i]).channel == ch;
                    if i < k {
                        assert(before[i] == after[i]);
                    }
                }
                if has_channel(before, ch) {
                    let i = choose|i: int| 0 <= i < before.len() && (#[trigger] before[i]).channel == ch;
                    assert(after[i] == before[i]);
                }
                if chart.chips@[k as int].channel == ch {
                    assert(after[k as int] == chart.chips@[k as int]);
                }
            }
            match chart.chips[k].channel {
                EChannel::HiHatClose => p.hh_close = true,
                EChannel::HiHatOpen => p.hh_open = true,
                EChannel::LeftCymbal => p.left_cymbal = true,
                EChannel::Cymbal => p.cymbal = true,
                EChannel::RideCymbal => p.ride = true,
                EChannel::BassDrum => p.bass_drum = true,
                EChannel::LeftPedal => p.left_pedal = true,
                EChannel::LeftBassDrum => p.left_bass_drum = true,
                _ => {},
            }
        }
        assert(chart.chips@.take(n as int) =~= chart.chips@);
        p
    }
}

/// Runtime grouping after the chart-aware downgrade.
#[derive(Debug, Clone, Copy, PartialEq, Eq, Structural)]
pub struct EffectiveGroups {
    pub cy: CyGroup,
    pub hh: HhGroup,
    pub ft: FtGroup,
    pub bd: BdGroup,
    pub cymbal_free: bool,
}

/// Cymbal grouping after the downgrade: no ride chips merges CY and RD.
pub open spec fn spec_effective_cy(cy: CyGroup, presence: ChartChipPresence) -> CyGroup {
    if !presence.ride && cy == CyGroup::Separate {
        CyGroup::Common
    } else {
        cy
    }
}

/// Hi-hat grouping after the downgrade. A missing open hi-hat merges it
/// away first, then a missing left cymbal.
pub open spec fn spec_effective_hh(hh: HhGroup, presence: ChartChipPresence) -> HhGroup {
    let h1 = if !presence.hh_open && hh == HhGroup::SeparateAll {
        HhGroup::HhAndHo
    } else {
        hh
    };
    let h2 = if !presence.hh_open && h1 == HhGroup::HhAndLc {
        HhGroup::CommonAll
    } else {
        h1
    };
    let h3 = if !presence.left_cymbal && h2 == HhGroup::SeparateAll {
        HhGroup::HhAndLc
    } else {
        h2
    };
    if !presence.left_cymbal && h3 == HhGroup::HhAndHo {
        HhGroup::CommonAll
    } else {
        h3
    }
}

impl EffectiveGroups {
    /// Apply the chart-aware downgrade to the configured grouping.
    pub fn from_config(config: &DrumsConfig, presence: &ChartChipPresence) -> (g: Self)
        ensures
            g.cy == spec_effective_cy(config.cy_group, *presence),
            g.hh == spec_effective_hh(config.hh_group, *presence),
            g.ft == config.ft_group,
            g.bd == config.bd_group,
            g.cymbal_free == config.cymbal_free,
    {
        let mut cy = config.cy_group;
        let mut hh = config.hh_group;

        if !presence.ride && cy == CyGroup::Separate {
            cy = CyGroup::Common;
        }
        if !presence.hh_open && hh == HhGroup::SeparateAll {
            hh = HhGroup::HhAndHo;
        }
        if !presence.hh_open && hh == HhGroup::HhAndLc {
            hh = HhGroup::CommonAll;
        }
        if !presence.left_cymbal && hh == HhGroup::SeparateAll {
            hh = HhGroup::HhAndLc;
        }
        if !presence.left_cymbal && hh == HhGroup::HhAndHo {
            hh = HhGroup::CommonAll;
        }

        EffectiveGroups {
            cy,
            hh,
            ft: config.ft_group,
            bd: config.bd_group,
            cymbal_free: config.cymbal_free,
        }
    }
}

/// The downgrade only merges groups, and a separate group survives only
/// when the chart has the chips it separates.
pub proof fn lemma_downgrade_only_merges(config: DrumsConfig, presence: ChartChipPresence)
    ensures
        spec_effective_cy(config.cy_group, presence) == CyGroup::Separate ==> config.cy_group
            == CyGroup::Separate && presence.ride,
        spec_effective_hh(config.hh_group, presence) == HhGroup::SeparateAll ==> config.hh_group
            == HhGroup::SeparateAll && presence.hh_open && presence.left_cymbal,
        spec_effective_hh(config.hh_group, presence) == HhGroup::HhAndLc ==> presence.hh_open,
        spec_effective_hh(config.hh_group, presence) == HhGroup::HhAndHo ==> presence.left_cymbal,
        config.hh_group == HhGroup::CommonAll ==> spec_effective_hh(config.hh_group, presence)
            == HhGroup::CommonAll,
        config.cy_group == CyGroup::Common ==> spec_effective_cy(config.cy_group, presence)
            == CyGroup::Common,
{
}

/// A chart with every channel present keeps the configured grouping.
pub proof fn lemma_full_chart_keeps_config(config: DrumsConfig, presence: ChartChipPresence)
    requires
        presence.ride,
        presence.hh_open,
        presence.left_cymbal,
    ensures
        spec_effective_cy(config.cy_group, presence) == config.cy_group,
        spec_effective_hh(config.hh_group, presence) == config.hh_group,
{
}

/// One judgment candidate: a chip, its time, and the signed hit error.
#[derive(Debug, Clone, Copy, PartialEq, Eq, Structural)]
pub struct Candidate {
    pub idx: usize,
    pub target_ms: i64,
    pub delta: i64,
    pub channel: EChannel,
}

pub open spec fn abs(x: int) -> int {
    if x < 0 { -x } else { x }
}

/// Every hit error against the chart fits in an `i64` with a negation.
pub open spec fn deltas_fit(chips: Seq<Chip>, audio_ms: int) -> bool {
    forall|i: int| 0 <= i < chips.len() ==> i64::MIN < audio_ms - (#[trigger] chips[i]).target_ms
        <= i64::MAX
}

/// Chip `i` can be judged on channel `ch` at `audio_ms`.
pub open spec fn eligible(chips: Seq<Chip>, judged: Set<usize>, ch: EChannel, audio_ms: int, i: int) -> bool {
    &&& 0 <= i < chips.len()
    &&& chips[i].channel == ch
    &&& !judged.contains(i as usize)
    &&& abs(audio_ms - chips[i].target_ms) <= MAX_JUDGE_WINDOW_MS
}

/// Chip `i` is at least as good a target as chip `j`: smaller error, then
/// earlier time, then earlier in the chart.
pub open spec fn at_least_as_close(chips: Seq<Chip>, audio_ms: int, i: int, j: int) -> bool {
    let di = abs(audio_ms - chips[i].target_ms);
    let dj = abs(audio_ms - chips[j].target_ms);
    ||| di < dj
    ||| di == dj && chips[i].target_ms < chips[j].target_ms
    ||| di == dj && chips[i].target_ms == chips[j].target_ms && i <= j
}

/// Chip `i` is the best target on channel `ch`.
pub open spec fn is_closest(chips: Seq<Chip>, judged: Set<usize>, ch: EChannel, audio_ms: int, i: int) -> bool {
    &&& eligible(chips, judged, ch, audio_ms, i)
    &&& forall|j: int| #[trigger] eligible(chips, judged, ch, audio_ms, j) ==> at_least_as_close(chips, audio_ms, i, j)
}

/// The candidate for chip `i`.
pub open spec fn cand_of(chips: Seq<Chip>, audio_ms: int, i: int) -> Candidate {
    Candidate {
        idx: i as usize,
        target_ms: chips[i].target_ms,
        delta: (audio_ms - chips[i].target_ms) as i64,
        channel: chips[i].channel,
    }
}

/// The closest judgeable chip on one channel, if any.
pub open spec fn spec_closest(chips: Seq<Chip>, judged: Set<usize>, ch: EChannel, audio_ms: int) -> Option<Candidate> {
    if exists|i: int| is_closest(chips, judged, ch, audio_ms, i) {
        Some(cand_of(chips, audio_ms, choose|i: int| is_closest(chips, judged, ch, audio_ms, i)))
    } else {
        None
    }
}

/// There is at most one closest chip.
pub proof fn lemma_closest_unique(chips: Seq<Chip>, judged: Set<usize>, ch: EChannel, audio_ms: int, i: int, j: int)
    requires
        is_closest(chips, judged, ch, audio_ms, i),
        is_closest(chips, judged, ch, audio_ms, j),
    ensures
        i == j,
{
    assert(eligible(chips, judged, ch, audio_ms, j));
    assert(eligible(chips, judged, ch, audio_ms, i));
}

/// Closest unjudged chip on `channel` within the judgment window: smallest
/// error, then earliest time, then first in the chart.
fn closest_candidate(channel: EChannel, audio_ms: i64, chart: &Chart, judged: &HashSet<usize>) -> (r: Option<Candidate>)
    requires
        deltas_fit(chart.chips@, audio_ms as int),
    ensures
        r == spec_closest(chart.chips@, judged@, channel, audio_ms as int),
        r is None <==> !exists|i: int| eligible(chart.chips@, judged@, channel, audio_ms as int, i),
{
    let ghost chips = chart.chips@;
    let ghost a = audio_ms as int;
    let mut best: Option<Candidate> = None;
    let n = chart.chips.len();
    for idx in 0..n
        invariant
            n == chips.len(),
            chips == chart.chips@,
            a == audio_ms as int,
            deltas_fit(chips, a),
            best is None ==> forall|j: int| 0 <= j < idx ==> !eligible(chips, judged@, channel, a, j),
            best matches Some(b) ==> {
                &&& 0 <= b.idx < idx
                &&& b == cand_of(chips, a, b.idx as int)
                &&& eligible(chips, judged@, channel, a, b.idx as int)
                &&& forall|j: int| 0 <= j < idx && #[trigger] eligible(chips, judged@, channel, a, j)
                    ==> at_least_as_close(chips, a, b.idx as int, j)
            },
    {
        let chip = chart.chips[idx];
        if chip.channel == channel && !judged.contains(&idx) {
            let target_ms = chip.target_ms;
            assert(i64::MIN < a - chips[idx as int].target_ms);
            let delta = audio_ms - target_ms;
            let d = if delta < 0 { -delta } else { delta };
            if d <= MAX_JUDGE_WINDOW_MS {
                match best {
                    Some(b) => {
                        let bd = if b.delta < 0 { -b.delta } else { b.delta };
                        if d < bd || (d == bd && target_ms < b.target_ms) {
                            best = Some(Candidate { idx, target_ms, delta, channel });
                        }
                    },
                    None => {
                        best = Some(Candidate { idx, target_ms, delta, channel });
                    },
                }
            }
        }
    }
    match best {
        Some(b) => {
            assert(is_closest(chips, judged@, channel, a, b.idx as int));
            let ghost k = choose|i: int| is_closest(chips, judged@, channel, a, i);
            proof {
                lemma_closest_unique(chips, judged@, channel, a, b.idx as int, k);
            }
        },
        None => {},
    }
    best
}

/// An optional candidate as a sequence of zero or one.
pub open spec fn os(o: Option<Candidate>) -> Seq<Candidate> {
    match o {
        Some(c) => seq![c],
        None => Seq::empty(),
    }
}

/// Earliest target time of a non-empty candidate list.
pub open spec fn min_target(s: Seq<Candidate>) -> int
    decreases s.len(),
{
    if s.len() <= 1 {
        if s.len() == 1 { s[0].target_ms as int } else { 0 }
    } else {
        let m = min_target(s.drop_last());
        if s.last().target_ms < m { s.last().target_ms as int } else { m }
    }
}

/// The candidates of `s` whose target time is `t`, in order.
pub open spec fn keep_target(s: Seq<Candidate>, t: int) -> Seq<Candidate>
    decreases s.len(),
{
    if s.len() == 0 {
        s
    } else {
        let rest = keep_target(s.drop_last(), t);
        if s.last().target_ms == t { rest.push(s.last()) } else { rest }
    }
}

/// All candidates due at the earliest time, in order.
pub open spec fn spec_pick_earliest(s: Seq<Candidate>) -> Seq<Candidate> {
    keep_target(s, min_target(s))
}

/// Of two optional candidates: the earlier, or both when due together.
pub open spec fn spec_pick_pair(a: Option<Candidate>, b: Option<Candidate>) -> Seq<Candidate> {
    match (a, b) {
        (None, None) => Seq::empty(),
        (Some(x), None) => seq![x],
        (None, Some(y)) => seq![y],
        (Some(x), Some(y)) => if x.target_ms == y.target_ms {
            seq![x, y]
        } else if x.target_ms < y.target_ms {
            seq![x]
        } else {
            seq![y]
        },
    }
}

/// The first candidate of a list, if any.
pub open spec fn first_of(s: Seq<Candidate>) -> Seq<Candidate> {
    if s.len() > 0 { seq![s[0]] } else { Seq::empty() }
}

fn push_opt(pool: &mut Vec<Candidate>, c: Option<Candidate>)
    ensures
        final(pool)@ == old(pool)@ + os(c),
{
    match c {
        Some(x) => {
            pool.push(x);
        },
        None => {},
    }
    assert(final(pool)@ =~= old(pool)@ + os(c));
}

/// All candidates due at the earliest time; on a tie, all of them.
fn pick_earliest(candidates: Vec<Candidate>) -> (r: Vec<Candidate>)
    ensures
        r@ == spec_pick_earliest(candidates@),
{
    let n = candidates.len();
    if n == 0 {
        return candidates;
    }
    let mut m = candidates[0].target_ms;
    let mut i: usize = 1;
    assert(candidates@.take(1).drop_last().len() == 0);
    while i < n
        invariant
            1 <= i <= n,
            n == candidates@.len(),
            m as int == min_target(candidates@.take(i as int)),
        decreases n - i,
    {
        assert(candidates@.take(i + 1).drop_last() =~= candidates@.take(i as int));
        if candidates[i].target_ms < m {
            m = candidates[i].target_ms;
        }
        i = i + 1;
    }
    assert(candidates@.take(n as int) =~= candidates@);
    let mut out: Vec<Candidate> = Vec::new();
    let mut k: usize = 0;
    while k < n
        invariant
            k <= n,
            n == candidates@.len(),
            m as int == min_target(candidates@),
            out@ == keep_target(candidates@.take(k as int), m as int),
        decreases n - k,
    {
        assert(candidates@.take(k + 1).drop_last() =~= candidates@.take(k as int));
        if candidates[k].target_ms == m {
            out.push(candidates[k]);
        }
        k = k + 1;
    }
    out
}

fn pick_pair_earliest(a: Option<Candidate>, b: Option<Candidate>) -> (r: Vec<Candidate>)
    ensures
        r@ == spec_pick_pair(a, b),
{
    let r = match (a, b) {
        (None, None) => Vec::new(),
        (Some(x), None) => vec![x],
        (None, Some(y)) => vec![y],
        (Some(x), Some(y)) => if x.target_ms == y.target_ms {
            vec![x, y]
        } else if x.target_ms < y.target_ms {
            vec![x]
        } else {
            vec![y]
        },
    };
    assert(r@ =~= spec_pick_pair(a, b));
    r
}

fn first_only(s: Vec<Candidate>) -> (r: Vec<Candidate>)
    ensures
        r@ == first_of(s@),
{
    let mut r: Vec<Candidate> = Vec::new();
    if s.len() > 0 {
        r.push(s[0]);
    }
    assert(r@ =~= first_of(s@));
    r
}

/// Closest candidate on `ch` in the spec (abbreviation).
pub open spec fn cl(chips: Seq<Chip>, judged: Set<usize>, audio_ms: int, ch: EChannel) -> Option<Candidate> {
    spec_closest(chips, judged, ch, audio_ms)
}

/// Candidates a cymbal-pad press hits.
pub open spec fn spec_cy_pad(chips: Seq<Chip>, judged: Set<usize>, a: int, groups: EffectiveGroups) -> Seq<Candidate> {
    let cy = cl(chips, judged, a, EChannel::Cymbal);
    let rd = cl(chips, judged, a, EChannel::RideCymbal);
    let lc = if groups.cymbal_free { cl(chips, judged, a, EChannel::LeftCymbal) } else { None };
    match (groups.cy, groups.cymbal_free) {
        (CyGroup::Separate, false) => os(cy),
        (CyGroup::Separate, true) => spec_pick_earliest(os(cy) + os(lc)),
        (CyGroup::Common, false) => spec_pick_earliest(os(cy) + os(rd)),
        (CyGroup::Common, true) => spec_pick_earliest(os(cy) + os(rd) + os(lc)),
    }
}

/// Candidates a bass-drum / pedal pad hits when every pedal is shared.
pub open spec fn spec_all_bd(chips: Seq<Chip>, judged: Set<usize>, a: int) -> Seq<Candidate> {
    spec_pick_earliest(
        os(cl(chips, judged, a, EChannel::BassDrum)) + os(cl(chips, judged, a, EChannel::LeftPedal))
            + os(cl(chips, judged, a, EChannel::LeftBassDrum)),
    )
}

/// Ride candidates that a left-cymbal press may take (shared ride only).
pub open spec fn ride_if_common(rd: Option<Candidate>, groups: EffectiveGroups) -> Seq<Candidate> {
    if groups.cy == CyGroup::Common { os(rd) } else { Seq::empty() }
}

/// The candidates a pad press hits, by pad and effective grouping.
pub open spec fn spec_resolve(pad: DrumPad, chips: Seq<Chip>, judged: Set<usize>, a: int, groups: EffectiveGroups) -> Seq<Candidate> {
    let hc = cl(chips, judged, a, EChannel::HiHatClose);
    let ho = cl(chips, judged, a, EChannel::HiHatOpen);
    let lc = cl(chips, judged, a, EChannel::LeftCymbal);
    let cy = cl(chips, judged, a, EChannel::Cymbal);
    let rd = cl(chips, judged, a, EChannel::RideCymbal);
    let lt = cl(chips, judged, a, EChannel::LowTom);
    let ft = cl(chips, judged, a, EChannel::FloorTom);
    let bd = cl(chips, judged, a, EChannel::BassDrum);
    let lp = cl(chips, judged, a, EChannel::LeftPedal);
    let lbd = cl(chips, judged, a, EChannel::LeftBassDrum);
    match pad {
        DrumPad::Sd => os(cl(chips, judged, a, EChannel::Snare)),
        DrumPad::Ht => os(cl(chips, judged, a, EChannel::HighTom)),
        DrumPad::Lt => match groups.ft {
            FtGroup::Separate => os(lt),
            FtGroup::Common => spec_pick_pair(lt, ft),
        },
        DrumPad::Ft => match groups.ft {
            FtGroup::Separate => os(ft),
            FtGroup::Common => spec_pick_pair(ft, lt),
        },
        DrumPad::Hh => match groups.hh {
            HhGroup::SeparateAll => os(hc),
            HhGroup::HhAndLc => spec_pick_pair(hc, lc),
            HhGroup::HhAndHo => spec_pick_pair(hc, ho),
            HhGroup::CommonAll => spec_pick_earliest(os(hc) + os(ho) + os(lc)),
        },
        DrumPad::Hho => match groups.hh {
            HhGroup::SeparateAll => os(ho),
            HhGroup::HhAndLc => spec_pick_pair(ho, lc),
            HhGroup::HhAndHo => spec_pick_pair(hc, ho),
            HhGroup::CommonAll => spec_pick_earliest(os(hc) + os(ho) + os(lc)),
        },
        DrumPad::Cy => spec_cy_pad(chips, judged, a, groups),
        DrumPad::Rd => match (groups.cy, groups.cymbal_free) {
            (CyGroup::Separate, false) => os(rd),
            (CyGroup::Separate, true) => spec_pick_pair(rd, lc),
            (CyGroup::Common, _) => spec_cy_pad(chips, judged, a, groups),
        },
        DrumPad::Lc => if !groups.cymbal_free {
            match groups.hh {
                HhGroup::SeparateAll | HhGroup::HhAndHo => os(lc),
                HhGroup::HhAndLc | HhGroup::CommonAll => spec_pick_earliest(os(lc) + os(hc) + os(ho)),
            }
        } else {
            match groups.hh {
                HhGroup::SeparateAll | HhGroup::HhAndHo => first_of(
                    spec_pick_earliest(os(lc) + os(cy) + ride_if_common(rd, groups)),
                ),
                HhGroup::HhAndLc | HhGroup::CommonAll => first_of(
                    spec_pick_earliest(os(hc) + os(ho) + os(lc) + os(cy) + ride_if_common(rd, groups)),
                ),
            }
        },
        DrumPad::Bd => match groups.bd {
            BdGroup::Separate => os(bd),
            BdGroup::BdAndLbd => spec_pick_pair(bd, lbd),
            BdGroup::PedalsOnly => os(bd),
            BdGroup::AllBd => spec_all_bd(chips, judged, a),
        },
        DrumPad::Lp => match groups.bd {
            BdGroup::Separate => os(lp),
            BdGroup::BdAndLbd | BdGroup::PedalsOnly => spec_pick_pair(lp, lbd),
            BdGroup::AllBd => spec_all_bd(chips, judged, a),
        },
        DrumPad::Lbd => match groups.bd {
            BdGroup::Separate => os(lbd),
            BdGroup::BdAndLbd => spec_pick_pair(bd, lbd),
            BdGroup::PedalsOnly => spec_pick_pair(lbd, lp),
            BdGroup::AllBd => spec_all_bd(chips, judged, a),
        },
    }
}

fn resolve_cy_pad(audio_ms: i64, chart: &Chart, judged: &HashSet<usize>, groups: &EffectiveGroups) -> (r: Vec<Candidate>)
    requires
        deltas_fit(chart.chips@, audio_ms as int),
    ensures
        r@ == spec_cy_pad(chart.chips@, judged@, audio_ms as int, *groups),
{
    let cy = closest_candidate(EChannel::Cymbal, audio_ms, chart, judged);
    let rd = closest_candidate(EChannel::RideCymbal, audio_ms, chart, judged);
    let lc = if groups.cymbal_free {
        closest_candidate(EChannel::LeftCymbal, audio_ms, chart, judged)
    } else {
        None
    };
    // The pool is ordered cy, rd, lc. Keeping the chips of the allowed
    // channels and then all those due earliest gives, in pool order, the
    // same chips a stable sort by time followed by the same selection does.
    let mut pool: Vec<Candidate> = Vec::new();
    match (groups.cy, groups.cymbal_free) {
        (CyGroup::Separate, false) => {
            push_opt(&mut pool, cy);
            pool
        },
        (CyGroup::Separate, true) => {
            push_opt(&mut pool, cy);
            push_opt(&mut pool, lc);
            pick_earliest(pool)
        },
        (CyGroup::Common, false) => {
            push_opt(&mut pool, cy);
            push_opt(&mut pool, rd);
            pick_earliest(pool)
        },
        (CyGroup::Common, true) => {
            push_opt(&mut pool, cy);
            push_opt(&mut pool, rd);
            push_opt(&mut pool, lc);
            pick_earliest(pool)
        },
    }
}

/// The channel a single-channel pad judges.
fn pad_channel(pad: DrumPad) -> (ch: EChannel)
    requires
        pad == DrumPad::Sd || pad == DrumPad::Ht,
    ensures
        ch == (if pad == DrumPad::Sd { EChannel::Snare } else { EChannel::HighTom }),
{
    if pad == DrumPad::Sd { EChannel::Snare } else { EChannel::HighTom }
}

/// A snare or high-tom press: the closest chip of its own channel.
fn single_channel_hit(pad: DrumPad, audio_ms: i64, chart: &Chart, judged: &HashSet<usize>, groups: &EffectiveGroups) -> (r: Vec<Candidate>)
    requires
        pad == DrumPad::Sd || pad == DrumPad::Ht,
        deltas_fit(chart.chips@, audio_ms as int),
    ensures
        r@ == spec_resolve(pad, chart.chips@, judged@, audio_ms as int, *groups),
{
    let mut pool: Vec<Candidate> = Vec::new();
    push_opt(&mut pool, closest_candidate(pad_channel(pad), audio_ms, chart, judged));
    pool
}

/// A low-tom or floor-tom press: its own tom, or (shared toms) whichever
/// of the two is due earlier.
fn resolve_ft_group(pad: DrumPad, audio_ms: i64, chart: &Chart, judged: &HashSet<usize>, groups: &EffectiveGroups) -> (r: Vec<Candidate>)
    requires
        pad == DrumPad::Lt || pad == DrumPad::Ft,
        deltas_fit(chart.chips@, audio_ms as int),
    ensures
        r@ == spec_resolve(pad, chart.chips@, judged@, audio_ms as int, *groups),
{
    let mut pool: Vec<Candidate> = Vec::new();
    let lt = closest_candidate(EChannel::LowTom, audio_ms, chart, judged);
    let ft = closest_candidate(EChannel::FloorTom, audio_ms, chart, judged);
    match groups.ft {
        FtGroup::Separate => {
            if pad == DrumPad::Lt {
                push_opt(&mut pool, lt);
            } else {
                push_opt(&mut pool, ft);
            }
            pool
        },
        FtGroup::Common => {
            if pad == DrumPad::Lt {
                pick_pair_earliest(lt, ft)
            } else {
                pick_pair_earliest(ft, lt)
            }
        },
    }
}

/// A hi-hat (closed) press, by hi-hat grouping.
fn resolve_hh_pad(audio_ms: i64, chart: &Chart, judged: &HashSet<usize>, groups: &EffectiveGroups) -> (r: Vec<Candidate>)
    requires
        deltas_fit(chart.chips@, audio_ms as int),
    ensures
        r@ == spec_resolve(DrumPad::Hh, chart.chips@, judged@, audio_ms as int, *groups),
{
    let mut pool: Vec<Candidate> = Vec::new();
    let hc = closest_candidate(EChannel::HiHatClose, audio_ms, chart, judged);
    let ho = closest_candidate(EChannel::HiHatOpen, audio_ms, chart, judged);
    let lc = closest_candidate(EChannel::LeftCymbal, audio_ms, chart, judged);
    match groups.hh {
        HhGroup::SeparateAll => {
            push_opt(&mut pool, hc);
            pool
        },
        HhGroup::HhAndLc => pick_pair_earliest(hc, lc),
        HhGroup::HhAndHo => pick_pair_earliest(hc, ho),
        HhGroup::CommonAll => {
            push_opt(&mut pool, hc);
            push_opt(&mut pool, ho);
            push_opt(&mut pool, lc);
            pick_earliest(pool)
        },
    }
}

/// An open hi-hat press, by hi-hat grouping.
fn resolve_hho_pad(audio_ms: i64, chart: &Chart, judged: &HashSet<usize>, groups: &EffectiveGroups) -> (r: Vec<Candidate>)
    requires
        deltas_fit(chart.chips@, audio_ms as int),
    ensures
        r@ == spec_resolve(DrumPad::Hho, chart.chips@, judged@, audio_ms as int, *groups),
{
    let mut pool: Vec<Candidate> = Vec::new();
    let hc = closest_candidate(EChannel::HiHatClose, audio_ms, chart, judged);
    let ho = closest_candidate(EChannel::HiHatOpen, audio_ms, chart, judged);
    let lc = closest_candidate(EChannel::LeftCymbal, audio_ms, chart, judged);
    match groups.hh {
        HhGroup::SeparateAll => {
            push_opt(&mut pool, ho);
            pool
        },
        HhGroup::HhAndLc => pick_pair_earliest(ho, lc),
        HhGroup::HhAndHo => pick_pair_earliest(hc, ho),
        HhGroup::CommonAll => {
            push_opt(&mut pool, hc);
            push_opt(&mut pool, ho);
            push_opt(&mut pool, lc);
            pick_earliest(pool)
        },
    }
}

/// A ride press: its own ride, the earlier of ride and left cymbal with
/// cymbal-free play, or the shared cymbal group.
fn resolve_rd_pad(audio_ms: i64, chart: &Chart, judged: &HashSet<usize>, groups: &EffectiveGroups) -> (r: Vec<Candidate>)
    requires
        deltas_fit(chart.chips@, audio_ms as int),
    ensures
        r@ == spec_resolve(DrumPad::Rd, chart.chips@, judged@, audio_ms as int, *groups),
{
    let mut pool: Vec<Candidate> = Vec::new();
    match (groups.cy, groups.cymbal_free) {
        (CyGroup::Separate, false) => {
            push_opt(&mut pool, closest_candidate(EChannel::RideCymbal, audio_ms, chart, judged));
            pool
        },
        (CyGroup::Separate, true) => {
            let lc = closest_candidate(EChannel::LeftCymbal, audio_ms, chart, judged);
            let rd = closest_candidate(EChannel::RideCymbal, audio_ms, chart, judged);
            pick_pair_earliest(rd, lc)
        },
        (CyGroup::Common, _) => resolve_cy_pad(audio_ms, chart, judged, groups),
    }
}

/// A left-cymbal press. Without cymbal-free play it takes its own chip, or
/// with a shared hi-hat the earliest of left cymbal and hi-hats; with
/// cymbal-free play it takes the single earliest chip among the cymbals it
/// may stand for.
fn resolve_lc_pad(audio_ms: i64, chart: &Chart, judged: &HashSet<usize>, groups: &EffectiveGroups) -> (r: Vec<Candidate>)
    requires
        deltas_fit(chart.chips@, audio_ms as int),
    ensures
        r@ == spec_resolve(DrumPad::Lc, chart.chips@, judged@, audio_ms as int, *groups),
{
    let mut pool: Vec<Candidate> = Vec::new();
    let hc = closest_candidate(EChannel::HiHatClose, audio_ms, chart, judged);
    let ho = closest_candidate(EChannel::HiHatOpen, audio_ms, chart, judged);
    let lc = closest_candidate(EChannel::LeftCymbal, audio_ms, chart, judged);
    if !groups.cymbal_free {
        match groups.hh {
            HhGroup::SeparateAll | HhGroup::HhAndHo => {
                push_opt(&mut pool, lc);
                pool
            },
            HhGroup::HhAndLc | HhGroup::CommonAll => {
                push_opt(&mut pool, lc);
                push_opt(&mut pool, hc);
                push_opt(&mut pool, ho);
                pick_earliest(pool)
            },
        }
    } else {
        let cy = closest_candidate(EChannel::Cymbal, audio_ms, chart, judged);
        let rd = closest_candidate(EChannel::RideCymbal, audio_ms, chart, judged);
        // The first chip of the time-sorted pool (stable sort) that the
        // grouping allows is the first, in pool order, of the allowed
        // chips due earliest.
        match groups.hh {
            HhGroup::SeparateAll | HhGroup::HhAndHo => {
                push_opt(&mut pool, lc);
                push_opt(&mut pool, cy);
            },
            HhGroup::HhAndLc | HhGroup::CommonAll => {
                push_opt(&mut pool, hc);
                push_opt(&mut pool, ho);
                push_opt(&mut pool, lc);
                push_opt(&mut pool, cy);
            },
        }
        if groups.cy == CyGroup::Common {
            push_opt(&mut pool, rd);
        } else {
            assert(pool@ =~= pool@ + ride_if_common(rd, *groups));
        }
        first_only(pick_earliest(pool))
    }
}

/// A press that every pedal shares (all pedals grouped): the earliest of
/// bass drum, left pedal and left bass drum.
fn resolve_bd_pedal_group(audio_ms: i64, chart: &Chart, judged: &HashSet<usize>) -> (r: Vec<Candidate>)
    requires
        deltas_fit(chart.chips@, audio_ms as int),
    ensures
        r@ == spec_all_bd(chart.chips@, judged@, audio_ms as int),
{
    let mut pool: Vec<Candidate> = Vec::new();
    push_opt(&mut pool, closest_candidate(EChannel::BassDrum, audio_ms, chart, judged));
    push_opt(&mut pool, closest_candidate(EChannel::LeftPedal, audio_ms, chart, judged));
    push_opt(&mut pool, closest_candidate(EChannel::LeftBassDrum, audio_ms, chart, judged));
    pick_earliest(pool)
}

/// A bass-drum press, by pedal grouping.
fn resolve_bd_pad(audio_ms: i64, chart: &Chart, judged: &HashSet<usize>, groups: &EffectiveGroups) -> (r: Vec<Candidate>)
    requires
        deltas_fit(chart.chips@, audio_ms as int),
    ensures
        r@ == spec_resolve(DrumPad::Bd, chart.chips@, judged@, audio_ms as int, *groups),
{
    let mut pool: Vec<Candidate> = Vec::new();
    match groups.bd {
        BdGroup::AllBd => resolve_bd_pedal_group(audio_ms, chart, judged),
        BdGroup::BdAndLbd => {
            let bd = closest_candidate(EChannel::BassDrum, audio_ms, chart, judged);
            let lbd = closest_candidate(EChannel::LeftBassDrum, audio_ms, chart, judged);
            pick_pair_earliest(bd, lbd)
        },
        BdGroup::Separate | BdGroup::PedalsOnly => {
            push_opt(&mut pool, closest_candidate(EChannel::BassDrum, audio_ms, chart, judged));
            pool
        },
    }
}

/// A left-pedal press, by pedal grouping.
fn resolve_lp_pad(audio_ms: i64, chart: &Chart, judged: &HashSet<usize>, groups: &EffectiveGroups) -> (r: Vec<Candidate>)
    requires
        deltas_fit(chart.chips@, audio_ms as int),
    ensures
        r@ == spec_resolve(DrumPad::Lp, chart.chips@, judged@, audio_ms as int, *groups),
{
    let mut pool: Vec<Candidate> = Vec::new();
    match groups.bd {
        BdGroup::AllBd => resolve_bd_pedal_group(audio_ms, chart, judged),
        BdGroup::Separate => {
            push_opt(&mut pool, closest_candidate(EChannel::LeftPedal, audio_ms, chart, judged));
            pool
        },
        BdGroup::BdAndLbd | BdGroup::PedalsOnly => {
            let lp = closest_candidate(EChannel::LeftPedal, audio_ms, chart, judged);
            let lbd = closest_candidate(EChannel::LeftBassDrum, audio_ms, chart, judged);
            pick_pair_earliest(lp, lbd)
        },
    }
}

/// A left-bass-drum press, by pedal grouping.
fn resolve_lbd_pad(audio_ms: i64, chart: &Chart, judged: &HashSet<usize>, groups: &EffectiveGroups) -> (r: Vec<Candidate>)
    requires
        deltas_fit(chart.chips@, audio_ms as int),
    ensures
        r@ == spec_resolve(DrumPad::Lbd, chart.chips@, judged@, audio_ms as int, *groups),
{
    let mut pool: Vec<Candidate> = Vec::new();
    match groups.bd {
        BdGroup::AllBd => resolve_bd_pedal_group(audio_ms, chart, judged),
        BdGroup::Separate => {
            push_opt(&mut pool, closest_candidate(EChannel::LeftBassDrum, audio_ms, chart, judged));
            pool
        },
        BdGroup::BdAndLbd => {
            let bd = closest_candidate(EChannel::BassDrum, audio_ms, chart, judged);
            let lbd = closest_candidate(EChannel::LeftBassDrum, audio_ms, chart, judged);
            pick_pair_earliest(bd, lbd)
        },
        BdGroup::PedalsOnly => {
            let lp = closest_candidate(EChannel::LeftPedal, audio_ms, chart, judged);
            let lbd = closest_candidate(EChannel::LeftBassDrum, audio_ms, chart, judged);
            pick_pair_earliest(lbd, lp)
        },
    }
}

/// The candidates a pad press hits, dispatched by pad.
fn resolve_candidates(pad: DrumPad, audio_ms: i64, chart: &Chart, judged: &HashSet<usize>, groups: &EffectiveGroups) -> (r: Vec<Candidate>)
    requires
        deltas_fit(chart.chips@, audio_ms as int),
    ensures
        r@ == spec_resolve(pad, chart.chips@, judged@, audio_ms as int, *groups),
{
    match pad {
        DrumPad::Sd | DrumPad::Ht => single_channel_hit(pad, audio_ms, chart, judged, groups),
        DrumPad::Lt | DrumPad::Ft => resolve_ft_group(pad, audio_ms, chart, judged, groups),
        DrumPad::Hh => resolve_hh_pad(audio_ms, chart, judged, groups),
        DrumPad::Hho => resolve_hho_pad(audio_ms, chart, judged, groups),
        DrumPad::Cy => resolve_cy_pad(audio_ms, chart, judged, groups),
        DrumPad::Rd => resolve_rd_pad(audio_ms, chart, judged, groups),
        DrumPad::Lc => resolve_lc_pad(audio_ms, chart, judged, groups),
        DrumPad::Bd => resolve_bd_pad(audio_ms, chart, judged, groups),
        DrumPad::Lp => resolve_lp_pad(audio_ms, chart, judged, groups),
        DrumPad::Lbd => resolve_lbd_pad(audio_ms, chart, judged, groups),
    }
}

/// Judged hits as (chip index, signed error ms) pairs.
pub open spec fn hits_of(s: Seq<Candidate>) -> Seq<(usize, i64)> {
    s.map_values(|c: Candidate| (c.idx, c.delta))
}

/// Resolve judgment targets for a pad press at `audio_ms`. May return
/// several hits when chips on grouped channels are due at the same time.
pub fn resolve_judgments(
    pad: DrumPad,
    audio_ms: i64,
    chart: &Chart,
    judged: &HashSet<usize>,
    groups: &EffectiveGroups,
) -> (hits: Vec<(usize, i64)>)
    requires
        deltas_fit(chart.chips@, audio_ms as int),
    ensures
        hits@ == hits_of(spec_resolve(pad, chart.chips@, judged@, audio_ms as int, *groups)),
        forall|k: int, l: int| 0 <= k < l < hits@.len() ==> (#[trigger] hits@[k]).0 != (#[trigger] hits@[l]).0,
{
    // Reading the length brings in that the chip count fits a `usize`.
    let _chip_count: usize = chart.chips.len();
    proof {
        lemma_resolve_distinct(pad, chart.chips@, judged@, audio_ms as int, *groups);
    }
    let cands = resolve_candidates(pad, audio_ms, chart, judged, groups);
    let mut hits: Vec<(usize, i64)> = Vec::new();
    let n = cands.len();
    for k in 0..n
        invariant
            n == cands@.len(),
            hits@ == hits_of(cands@.take(k as int)),
    {
        assert(cands@.take(k + 1) =~= cands@.take(k as int).push(cands@[k as int]));
        hits.push((cands[k].idx, cands[k].delta));
        assert(hits@ =~= hits_of(cands@.take(k + 1)));
    }
    assert(cands@.take(n as int) =~= cands@);
    hits
}

// ---------------------------------------------------------------------------
// Laws of judgment resolution

/// A candidate that names a judgeable chip correctly.
pub open spec fn sound_cand(chips: Seq<Chip>, judged: Set<usize>, a: int, c: Candidate) -> bool {
    &&& eligible(chips, judged, c.channel, a, c.idx as int)
    &&& c == cand_of(chips, a, c.idx as int)
}

pub open spec fn all_sound(chips: Seq<Chip>, judged: Set<usize>, a: int, s: Seq<Candidate>) -> bool {
    forall|k: int| 0 <= k < s.len() ==> sound_cand(chips, judged, a, #[trigger] s[k])
}

/// Every candidate of `s` has target time `t`.
pub open spec fn all_at(s: Seq<Candidate>, t: int) -> bool {
    forall|k: int| 0 <= k < s.len() ==> (#[trigger] s[k]).target_ms == t
}

/// All candidates of `s` share one target time.
pub open spec fn simultaneous(s: Seq<Candidate>) -> bool {
    forall|k: int, l: int| 0 <= k < s.len() && 0 <= l < s.len() ==> (#[trigger] s[k]).target_ms
        == (#[trigger] s[l]).target_ms
}

proof fn lemma_closest_sound(chips: Seq<Chip>, judged: Set<usize>, a: int, ch: EChannel)
    requires
        chips.len() <= usize::MAX,
    ensures
        all_sound(chips, judged, a, os(cl(chips, judged, a, ch))),
{
    if exists|i: int| is_closest(chips, judged, ch, a, i) {
        let i = choose|i: int| is_closest(chips, judged, ch, a, i);
        let c = cand_of(chips, a, i);
        assert(c.idx as int == i);
        assert(c.channel == ch);
        assert(sound_cand(chips, judged, a, c));
        assert(os(cl(chips, judged, a, ch)) == seq![c]);
        assert(os(cl(chips, judged, a, ch))[0] == c);
    }
}

proof fn lemma_keep_target(s: Seq<Candidate>, t: int, chips: Seq<Chip>, judged: Set<usize>, a: int)
    ensures
        all_sound(chips, judged, a, s) ==> all_sound(chips, judged, a, keep_target(s, t)),
        all_at(keep_target(s, t), t),
    decreases s.len(),
{
    if s.len() > 0 {
        lemma_keep_target(s.drop_last(), t, chips, judged, a);
        let rest = keep_target(s.drop_last(), t);
        if all_sound(chips, judged, a, s) {
            assert forall|k: int| 0 <= k < s.drop_last().len() implies sound_cand(chips, judged, a, #[trigger] s.drop_last()[k]) by {
                assert(s.drop_last()[k] == s[k]);
            }
            if s.last().target_ms == t {
                assert forall|k: int| 0 <= k < rest.push(s.last()).len() implies sound_cand(chips, judged, a, #[trigger] rest.push(s.last())[k]) by {
                    if k < rest.len() {
                        assert(rest.push(s.last())[k] == rest[k]);
                    }
                }
            }
        }
        if s.last().target_ms == t {
            assert forall|k: int| 0 <= k < rest.push(s.last()).len() implies (#[trigger] rest.push(s.last())[k]).target_ms == t by {
                if k < rest.len() {
                    assert(rest.push(s.last())[k] == rest[k]);
                }
            }
        }
    }
}

proof fn lemma_pick_earliest(s: Seq<Candidate>, chips: Seq<Chip>, judged: Set<usize>, a: int)
    ensures
        all_sound(chips, judged, a, s) ==> all_sound(chips, judged, a, spec_pick_earliest(s)),
        simultaneous(spec_pick_earliest(s)),
{
    lemma_keep_target(s, min_target(s), chips, judged, a);
}

proof fn lemma_concat_sound(x: Seq<Candidate>, y: Seq<Candidate>, chips: Seq<Chip>, judged: Set<usize>, a: int)
    requires
        all_sound(chips, judged, a, x),
        all_sound(chips, judged, a, y),
    ensures
        all_sound(chips, judged, a, x + y),
{
    assert forall|k: int| 0 <= k < (x + y).len() implies sound_cand(chips, judged, a, #[trigger] (x + y)[k]) by {
        if k < x.len() {
            assert((x + y)[k] == x[k]);
        } else {
            assert((x + y)[k] == y[k - x.len()]);
        }
    }
}

proof fn lemma_pair(p: Option<Candidate>, q: Option<Candidate>, chips: Seq<Chip>, judged: Set<usize>, a: int)
    requires
        all_sound(chips, judged, a, os(p)),
        all_sound(chips, judged, a, os(q)),
    ensures
        all_sound(chips, judged, a, spec_pick_pair(p, q)),
        simultaneous(spec_pick_pair(p, q)),
{
    if p is Some {
        assert(sound_cand(chips, judged, a, os(p)[0]));
    }
    if q is Some {
        assert(sound_cand(chips, judged, a, os(q)[0]));
    }
}

proof fn lemma_first(s: Seq<Candidate>, chips: Seq<Chip>, judged: Set<usize>, a: int)
    ensures
        all_sound(chips, judged, a, s) ==> all_sound(chips, judged, a, first_of(s)),
        simultaneous(first_of(s)),
{
    if s.len() > 0 && all_sound(chips, judged, a, s) {
        assert(sound_cand(chips, judged, a, s[0]));
    }
}

proof fn lemma_pick3(
    x: Seq<Candidate>,
    y: Seq<Candidate>,
    z: Seq<Candidate>,
    chips: Seq<Chip>,
    judged: Set<usize>,
    a: int,
)
    requires
        all_sound(chips, judged, a, x),
        all_sound(chips, judged, a, y),
        all_sound(chips, judged, a, z),
    ensures
        all_sound(chips, judged, a, spec_pick_earliest(x + y + z)),
        simultaneous(spec_pick_earliest(x + y + z)),
{
    lemma_concat_sound(x, y, chips, judged, a);
    lemma_concat_sound(x + y, z, chips, judged, a);
    lemma_pick_earliest(x + y + z, chips, judged, a);
}

/// Judgment soundness: every hit a pad press reports is an unjudged chip
/// of the chart, on the channel it claims, inside the judgment window,
/// with its true signed error; and all hits of one press are due at the
/// same time.
pub proof fn lemma_resolve_sound(
    pad: DrumPad,
    chips: Seq<Chip>,
    judged: Set<usize>,
    a: int,
    groups: EffectiveGroups,
)
    requires
        chips.len() <= usize::MAX,
    ensures
        all_sound(chips, judged, a, spec_resolve(pad, chips, judged, a, groups)),
        simultaneous(spec_resolve(pad, chips, judged, a, groups)),
{
    let hc = cl(chips, judged, a, EChannel::HiHatClose);
    let ho = cl(chips, judged, a, EChannel::HiHatOpen);
    let lc = cl(chips, judged, a, EChannel::LeftCymbal);
    let cy = cl(chips, judged, a, EChannel::Cymbal);
    let rd = cl(chips, judged, a, EChannel::RideCymbal);
    let lt = cl(chips, judged, a, EChannel::LowTom);
    let ft = cl(chips, judged, a, EChannel::FloorTom);
    let bd = cl(chips, judged, a, EChannel::BassDrum);
    let lp = cl(chips, judged, a, EChannel::LeftPedal);
    let lbd = cl(chips, judged, a, EChannel::LeftBassDrum);
    lemma_closest_sound(chips, judged, a, EChannel::HiHatClose);
    lemma_closest_sound(chips, judged, a, EChannel::HiHatOpen);
    lemma_closest_sound(chips, judged, a, EChannel::LeftCymbal);
    lemma_closest_sound(chips, judged, a, EChannel::Cymbal);
    lemma_closest_sound(chips, judged, a, EChannel::RideCymbal);
    lemma_closest_sound(chips, judged, a, EChannel::LowTom);
    lemma_closest_sound(chips, judged, a, EChannel::FloorTom);
    lemma_closest_sound(chips, judged, a, EChannel::BassDrum);
    lemma_closest_sound(chips, judged, a, EChannel::LeftPedal);
    lemma_closest_sound(chips, judged, a, EChannel::LeftBassDrum);
    lemma_closest_sound(chips, judged, a, EChannel::Snare);
    lemma_closest_sound(chips, judged, a, EChannel::HighTom);
    let empty = Seq::<Candidate>::empty();
    let lcf = if groups.cymbal_free { lc } else { None };
    let rdc = ride_if_common(rd, groups);
    assert(all_sound(chips, judged, a, os(lcf)));
    assert(all_sound(chips, judged, a, rdc));
    match pad {
        DrumPad::Sd | DrumPad::Ht => {},
        DrumPad::Lt | DrumPad::Ft => {
            lemma_pair(lt, ft, chips, judged, a);
            lemma_pair(ft, lt, chips, judged, a);
        },
        DrumPad::Hh | DrumPad::Hho => {
            lemma_pair(hc, lc, chips, judged, a);
            lemma_pair(ho, lc, chips, judged, a);
            lemma_pair(hc, ho, chips, judged, a);
            lemma_pick3(os(hc), os(ho), os(lc), chips, judged, a);
        },
        DrumPad::Cy | DrumPad::Rd => {
            lemma_pair(rd, lc, chips, judged, a);
            lemma_pick3(os(cy), os(lcf), empty, chips, judged, a);
            assert(os(cy) + os(lcf) + empty =~= os(cy) + os(lcf));
            lemma_pick3(os(cy), os(rd), empty, chips, judged, a);
            assert(os(cy) + os(rd) + empty =~= os(cy) + os(rd));
            lemma_pick3(os(cy), os(rd), os(lcf), chips, judged, a);
        },
        DrumPad::Lc => {
            lemma_pick3(os(lc), os(hc), os(ho), chips, judged, a);
            lemma_pick3(os(lc), os(cy), rdc, chips, judged, a);
            lemma_first(spec_pick_earliest(os(lc) + os(cy) + rdc), chips, judged, a);
            lemma_concat_sound(os(hc), os(ho), chips, judged, a);
            lemma_pick3(os(hc) + os(ho), os(lc), os(cy), chips, judged, a);
            lemma_concat_sound(os(hc) + os(ho) + os(lc), os(cy), chips, judged, a);
            lemma_concat_sound(os(hc) + os(ho) + os(lc) + os(cy), rdc, chips, judged, a);
            lemma_pick_earliest(os(hc) + os(ho) + os(lc) + os(cy) + rdc, chips, judged, a);
            lemma_first(spec_pick_earliest(os(hc) + os(ho) + os(lc) + os(cy) + rdc), chips, judged, a);
        },
        DrumPad::Bd | DrumPad::Lp | DrumPad::Lbd => {
            lemma_pair(bd, lbd, chips, judged, a);
            lemma_pair(lp, lbd, chips, judged, a);
            lemma_pair(lbd, lp, chips, judged, a);
            lemma_pick3(os(bd), os(lp), os(lbd), chips, judged, a);
        },
    }
}

/// No two candidates of `s` are on the same channel.
pub open spec fn distinct_channels(s: Seq<Candidate>) -> bool {
    forall|k: int, l: int| 0 <= k < l < s.len() ==> (#[trigger] s[k]).channel != (#[trigger] s[l]).channel
}

/// Every candidate of `s` is on a channel of `cs`.
pub open spec fn channels_in(s: Seq<Candidate>, cs: Set<EChannel>) -> bool {
    forall|k: int| 0 <= k < s.len() ==> cs.contains(#[trigger] s[k].channel)
}

/// No two hits of `s` name the same chip.
pub open spec fn distinct_chips(s: Seq<Candidate>) -> bool {
    forall|k: int, l: int| 0 <= k < l < s.len() ==> (#[trigger] s[k]).idx != (#[trigger] s[l]).idx
}

proof fn lemma_os_channel(chips: Seq<Chip>, judged: Set<usize>, a: int, ch: EChannel)
    ensures
        distinct_channels(os(cl(chips, judged, a, ch))),
        channels_in(os(cl(chips, judged, a, ch)), set![ch]),
{
    if exists|i: int| is_closest(chips, judged, ch, a, i) {
        let i = choose|i: int| is_closest(chips, judged, ch, a, i);
        assert(cand_of(chips, a, i).channel == ch);
        assert(os(cl(chips, judged, a, ch))[0].channel == ch);
    }
}

proof fn lemma_concat_distinct(x: Seq<Candidate>, y: Seq<Candidate>, xs: Set<EChannel>, ys: Set<EChannel>)
    requires
        distinct_channels(x),
        distinct_channels(y),
        channels_in(x, xs),
        channels_in(y, ys),
        xs.disjoint(ys),
    ensures
        distinct_channels(x + y),
        channels_in(x + y, xs + ys),
{
    let z = x + y;
    assert forall|k: int, l: int| 0 <= k < l < z.len() implies (#[trigger] z[k]).channel != (#[trigger] z[l]).channel by {
        if l < x.len() {
            assert(z[k] == x[k] && z[l] == x[l]);
        } else if k >= x.len() {
            assert(z[k] == y[k - x.len()] && z[l] == y[l - x.len()]);
        } else {
            assert(z[k] == x[k] && z[l] == y[l - x.len()]);
            assert(xs.contains(z[k].channel) && ys.contains(z[l].channel));
        }
    }
    assert forall|k: int| 0 <= k < z.len() implies (xs + ys).contains(#[trigger] z[k].channel) by {
        if k < x.len() {
            assert(z[k] == x[k]);
        } else {
            assert(z[k] == y[k - x.len()]);
        }
    }
}

proof fn lemma_keep_target_distinct(s: Seq<Candidate>, t: int, cs: Set<EChannel>)
    requires
        distinct_channels(s),
        channels_in(s, cs),
    ensures
        distinct_channels(keep_target(s, t)),
        channels_in(keep_target(s, t), cs),
        forall|k: int| 0 <= k < keep_target(s, t).len() ==> s.contains(#[trigger] keep_target(s, t)[k]),
    decreases s.len(),
{
    if s.len() > 0 {
        let d = s.drop_last();
        assert forall|k: int, l: int| 0 <= k < l < d.len() implies (#[trigger] d[k]).channel != (#[trigger] d[l]).channel by {
            assert(d[k] == s[k] && d[l] == s[l]);
        }
        assert forall|k: int| 0 <= k < d.len() implies cs.contains(#[trigger] d[k].channel) by {
            assert(d[k] == s[k]);
        }
        lemma_keep_target_distinct(d, t, cs);
        let r = keep_target(d, t);
        assert forall|k: int| 0 <= k < r.len() implies s.contains(#[trigger] r[k]) by {
            let j = choose|j: int| 0 <= j < d.len() && d[j] == r[k];
            assert(s[j] == d[j]);
        }
        if s.last().target_ms == t {
            let r2 = r.push(s.last());
            assert forall|k: int, l: int| 0 <= k < l < r2.len() implies (#[trigger] r2[k]).channel != (#[trigger] r2[l]).channel by {
                if l < r.len() {
                    assert(r2[k] == r[k] && r2[l] == r[l]);
                } else {
                    assert(r2[k] == r[k]);
                    let j = choose|j: int| 0 <= j < d.len() && d[j] == r[k];
                    assert(s[j] == d[j]);
                    assert(s[j].channel != s[s.len() - 1].channel);
                }
            }
            assert forall|k: int| 0 <= k < r2.len() implies s.contains(#[trigger] r2[k]) by {
                if k < r.len() {
                    assert(r2[k] == r[k]);
                } else {
                    assert(r2[k] == s[s.len() - 1]);
                }
            }
            assert forall|k: int| 0 <= k < r2.len() implies cs.contains(#[trigger] r2[k].channel) by {
                if k < r.len() {
                    assert(r2[k] == r[k]);
                } else {
                    assert(r2[k] == s[s.len() - 1]);
                }
            }
        }
    }
}

proof fn lemma_distinct_chips(s: Seq<Candidate>, chips: Seq<Chip>, judged: Set<usize>, a: int)
    requires
        distinct_channels(s),
        all_sound(chips, judged, a, s),
    ensures
        distinct_chips(s),
{
    assert forall|k: int, l: int| 0 <= k < l < s.len() implies (#[trigger] s[k]).idx != (#[trigger] s[l]).idx by {
        assert(sound_cand(chips, judged, a, s[k]));
        assert(sound_cand(chips, judged, a, s[l]));
    }
}

proof fn lemma_pick3_distinct(
    x: Seq<Candidate>,
    y: Seq<Candidate>,
    z: Seq<Candidate>,
    sx: Set<EChannel>,
    sy: Set<EChannel>,
    sz: Set<EChannel>,
)
    requires
        distinct_channels(x) && channels_in(x, sx),
        distinct_channels(y) && channels_in(y, sy),
        distinct_channels(z) && channels_in(z, sz),
        sx.disjoint(sy),
        (sx + sy).disjoint(sz),
    ensures
        distinct_channels(spec_pick_earliest(x + y + z)),
{
    lemma_concat_distinct(x, y, sx, sy);
    lemma_concat_distinct(x + y, z, sx + sy, sz);
    lemma_keep_target_distinct(x + y + z, min_target(x + y + z), sx + sy + sz);
}

proof fn lemma_pair_distinct(p: Option<Candidate>, q: Option<Candidate>)
    requires
        p is Some && q is Some ==> p->0.channel != q->0.channel,
    ensures
        distinct_channels(spec_pick_pair(p, q)),
{
}

proof fn lemma_some_channel(chips: Seq<Chip>, judged: Set<usize>, a: int, ch: EChannel)
    ensures
        cl(chips, judged, a, ch) is Some ==> cl(chips, judged, a, ch)->0.channel == ch,
{
    lemma_os_channel(chips, judged, a, ch);
    let o = cl(chips, judged, a, ch);
    if o is Some {
        assert(os(o)[0] == o->0);
    }
}

proof fn lemma_resolve_distinct_channels(
    pad: DrumPad,
    chips: Seq<Chip>,
    judged: Set<usize>,
    a: int,
    groups: EffectiveGroups,
)
    ensures
        distinct_channels(spec_resolve(pad, chips, judged, a, groups)),
{
    let hc = cl(chips, judged, a, EChannel::HiHatClose);
    let ho = cl(chips, judged, a, EChannel::HiHatOpen);
    let lc = cl(chips, judged, a, EChannel::LeftCymbal);
    let cy = cl(chips, judged, a, EChannel::Cymbal);
    let rd = cl(chips, judged, a, EChannel::RideCymbal);
    let lt = cl(chips, judged, a, EChannel::LowTom);
    let ft = cl(chips, judged, a, EChannel::FloorTom);
    let bd = cl(chips, judged, a, EChannel::BassDrum);
    let lp = cl(chips, judged, a, EChannel::LeftPedal);
    let lbd = cl(chips, judged, a, EChannel::LeftBassDrum);
    let empty = Seq::<Candidate>::empty();
    let none = Set::<EChannel>::empty();
    let s_hc = set![EChannel::HiHatClose];
    let s_ho = set![EChannel::HiHatOpen];
    let s_lc = set![EChannel::LeftCymbal];
    let s_cy = set![EChannel::Cymbal];
    let s_rd = set![EChannel::RideCymbal];
    match pad {
        DrumPad::Sd => lemma_os_channel(chips, judged, a, EChannel::Snare),
        DrumPad::Ht => lemma_os_channel(chips, judged, a, EChannel::HighTom),
        DrumPad::Lt | DrumPad::Ft => {
            lemma_os_channel(chips, judged, a, EChannel::LowTom);
            lemma_os_channel(chips, judged, a, EChannel::FloorTom);
            lemma_some_channel(chips, judged, a, EChannel::LowTom);
            lemma_some_channel(chips, judged, a, EChannel::FloorTom);
            lemma_pair_distinct(lt, ft);
            lemma_pair_distinct(ft, lt);
        },
        DrumPad::Hh | DrumPad::Hho => {
            lemma_os_channel(chips, judged, a, EChannel::HiHatClose);
            lemma_os_channel(chips, judged, a, EChannel::HiHatOpen);
            lemma_os_channel(chips, judged, a, EChannel::LeftCymbal);
            lemma_some_channel(chips, judged, a, EChannel::HiHatClose);
            lemma_some_channel(chips, judged, a, EChannel::HiHatOpen);
            lemma_some_channel(chips, judged, a, EChannel::LeftCymbal);
            lemma_pair_distinct(hc, lc);
            lemma_pair_distinct(ho, lc);
            lemma_pair_distinct(hc, ho);
            lemma_pick3_distinct(os(hc), os(ho), os(lc), s_hc, s_ho, s_lc);
        },
        DrumPad::Cy | DrumPad::Rd => {
            lemma_os_channel(chips, judged, a, EChannel::Cymbal);
            lemma_os_channel(chips, judged, a, EChannel::RideCymbal);
            lemma_os_channel(chips, judged, a, EChannel::LeftCymbal);
            lemma_some_channel(chips, judged, a, EChannel::RideCymbal);
            lemma_some_channel(chips, judged, a, EChannel::LeftCymbal);
            lemma_pair_distinct(rd, lc);
            let lcf = if groups.cymbal_free { lc } else { None };
            assert(distinct_channels(os(lcf)) && channels_in(os(lcf), s_lc));
            lemma_pick3_distinct(os(cy), os(lcf), empty, s_cy, s_lc, none);
            assert(os(cy) + os(lcf) + empty =~= os(cy) + os(lcf));
            lemma_pick3_distinct(os(cy), os(rd), empty, s_cy, s_rd, none);
            assert(os(cy) + os(rd) + empty =~= os(cy) + os(rd));
            lemma_pick3_distinct(os(cy), os(rd), os(lcf), s_cy, s_rd, s_lc);
        },
        DrumPad::Lc => {
            lemma_os_channel(chips, judged, a, EChannel::HiHatClose);
            lemma_os_channel(chips, judged, a, EChannel::HiHatOpen);
            lemma_os_channel(chips, judged, a, EChannel::LeftCymbal);
            lemma_os_channel(chips, judged, a, EChannel::Cymbal);
            lemma_os_channel(chips, judged, a, EChannel::RideCymbal);
            let rdc = ride_if_common(rd, groups);
            assert(distinct_channels(rdc) && channels_in(rdc, s_rd));
            lemma_pick3_distinct(os(lc), os(hc), os(ho), s_lc, s_hc, s_ho);
            lemma_pick3_distinct(os(lc), os(cy), rdc, s_lc, s_cy, s_rd);
            lemma_concat_distinct(os(hc), os(ho), s_hc, s_ho);
            lemma_pick3_distinct(os(hc) + os(ho), os(lc), os(cy), s_hc + s_ho, s_lc, s_cy);
            lemma_concat_distinct(os(hc) + os(ho), os(lc), s_hc + s_ho, s_lc);
            lemma_concat_distinct(os(hc) + os(ho) + os(lc), os(cy), s_hc + s_ho + s_lc, s_cy);
            lemma_concat_distinct(os(hc) + os(ho) + os(lc) + os(cy), rdc, s_hc + s_ho + s_lc + s_cy, s_rd);
            let all5 = os(hc) + os(ho) + os(lc) + os(cy) + rdc;
            lemma_keep_target_distinct(all5, min_target(all5), s_hc + s_ho + s_lc + s_cy + s_rd);
        },
        DrumPad::Bd | DrumPad::Lp | DrumPad::Lbd => {
            lemma_os_channel(chips, judged, a, EChannel::BassDrum);
            lemma_os_channel(chips, judged, a, EChannel::LeftPedal);
            lemma_os_channel(chips, judged, a, EChannel::LeftBassDrum);
            lemma_some_channel(chips, judged, a, EChannel::BassDrum);
            lemma_some_channel(chips, judged, a, EChannel::LeftPedal);
            lemma_some_channel(chips, judged, a, EChannel::LeftBassDrum);
            lemma_pair_distinct(bd, lbd);
            lemma_pair_distinct(lp, lbd);
            lemma_pair_distinct(lbd, lp);
            lemma_pick3_distinct(
                os(bd),
                os(lp),
                os(lbd),
                set![EChannel::BassDrum],
                set![EChannel::LeftPedal],
                set![EChannel::LeftBassDrum],
            );
        },
    }
}

/// One press never reports the same chip twice: all the hits of a press
/// are on different channels, hence different chips.
pub proof fn lemma_resolve_distinct(
    pad: DrumPad,
    chips: Seq<Chip>,
    judged: Set<usize>,
    a: int,
    groups: EffectiveGroups,
)
    requires
        chips.len() <= usize::MAX,
    ensures
        distinct_channels(spec_resolve(pad, chips, judged, a, groups)),
        distinct_chips(spec_resolve(pad, chips, judged, a, groups)),
{
    lemma_resolve_distinct_channels(pad, chips, judged, a, groups);
    lemma_resolve_sound(pad, chips, judged, a, groups);
    lemma_distinct_chips(spec_resolve(pad, chips, judged, a, groups), chips, judged, a);
}

// ---------------------------------------------------------------------------
// Completeness of judgment resolution

/// The channels whose chips a press on `pad` can judge under the effective
/// grouping: its own, plus every channel its group shares with it.
pub open spec fn pad_group(pad: DrumPad, groups: EffectiveGroups) -> Set<EChannel> {
    let hats = set![EChannel::HiHatClose, EChannel::HiHatOpen];
    let hats_with_lc = groups.hh == HhGroup::HhAndLc || groups.hh == HhGroup::CommonAll;
    let cymbals = set![EChannel::Cymbal]
        + (if groups.cy == CyGroup::Common { set![EChannel::RideCymbal] } else { Set::empty() })
        + (if groups.cymbal_free { set![EChannel::LeftCymbal] } else { Set::empty() });
    let pedals = set![EChannel::BassDrum, EChannel::LeftPedal, EChannel::LeftBassDrum];
    match pad {
        DrumPad::Sd => set![EChannel::Snare],
        DrumPad::Ht => set![EChannel::HighTom],
        DrumPad::Lt => if groups.ft == FtGroup::Common {
            set![EChannel::LowTom, EChannel::FloorTom]
        } else {
            set![EChannel::LowTom]
        },
        DrumPad::Ft => if groups.ft == FtGroup::Common {
            set![EChannel::LowTom, EChannel::FloorTom]
        } else {
            set![EChannel::FloorTom]
        },
        DrumPad::Hh | DrumPad::Hho => {
            let own = if pad == DrumPad::Hh { EChannel::HiHatClose } else { EChannel::HiHatOpen };
            set![own] + (if groups.hh == HhGroup::HhAndHo || groups.hh == HhGroup::CommonAll {
                hats
            } else {
                Set::empty()
            }) + (if hats_with_lc { set![EChannel::LeftCymbal] } else { Set::empty() })
        },
        DrumPad::Cy => cymbals,
        DrumPad::Rd => if groups.cy == CyGroup::Common {
            cymbals
        } else {
            set![EChannel::RideCymbal] + (if groups.cymbal_free { set![EChannel::LeftCymbal] } else { Set::empty() })
        },
        DrumPad::Lc => set![EChannel::LeftCymbal] + (if hats_with_lc { hats } else { Set::empty() }) + (if groups.cymbal_free {
            set![EChannel::Cymbal] + (if groups.cy == CyGroup::Common { set![EChannel::RideCymbal] } else { Set::empty() })
        } else {
            Set::empty()
        }),
        DrumPad::Bd => match groups.bd {
            BdGroup::Separate | BdGroup::PedalsOnly => set![EChannel::BassDrum],
            BdGroup::BdAndLbd => set![EChannel::BassDrum, EChannel::LeftBassDrum],
            BdGroup::AllBd => pedals,
        },
        DrumPad::Lp => match groups.bd {
            BdGroup::Separate => set![EChannel::LeftPedal],
            BdGroup::BdAndLbd | BdGroup::PedalsOnly => set![EChannel::LeftPedal, EChannel::LeftBassDrum],
            BdGroup::AllBd => pedals,
        },
        DrumPad::Lbd => match groups.bd {
            BdGroup::Separate => set![EChannel::LeftBassDrum],
            BdGroup::BdAndLbd => set![EChannel::BassDrum, EChannel::LeftBassDrum],
            BdGroup::PedalsOnly => set![EChannel::LeftPedal, EChannel::LeftBassDrum],
            BdGroup::AllBd => pedals,
        },
    }
}

/// `c` is the closest judgeable chip of some channel of `g`.
pub open spec fn closest_in(chips: Seq<Chip>, judged: Set<usize>, a: int, g: Set<EChannel>, c: Candidate) -> bool {
    exists|ch: EChannel| g.contains(ch) && #[trigger] cl(chips, judged, a, ch) == Some(c)
}

/// Time `t` is no later than the closest chip of any channel of `g`.
pub open spec fn no_later_than_group(chips: Seq<Chip>, judged: Set<usize>, a: int, g: Set<EChannel>, t: int) -> bool {
    forall|ch: EChannel| g.contains(ch) && (#[trigger] cl(chips, judged, a, ch)) is Some ==> t <= cl(
        chips,
        judged,
        a,
        ch,
    )->0.target_ms
}

/// `s` holds exactly the closest judgeable chips of the channels of `g`.
pub open spec fn members_exactly(s: Seq<Candidate>, chips: Seq<Chip>, judged: Set<usize>, a: int, g: Set<EChannel>) -> bool {
    &&& forall|k: int| 0 <= k < s.len() ==> closest_in(chips, judged, a, g, #[trigger] s[k])
    &&& forall|ch: EChannel| g.contains(ch) && (#[trigger] cl(chips, judged, a, ch)) is Some ==> s.contains(
        cl(chips, judged, a, ch)->0,
    )
}

/// `r` is what a press on group `g` judges: each hit is the closest chip of
/// a channel of the group, due no later than any other channel's closest
/// chip, and every channel whose closest chip is due that earliest is hit.
pub open spec fn earliest_of_group(r: Seq<Candidate>, chips: Seq<Chip>, judged: Set<usize>, a: int, g: Set<EChannel>) -> bool {
    &&& forall|k: int| 0 <= k < r.len() ==> closest_in(chips, judged, a, g, #[trigger] r[k])
        && no_later_than_group(chips, judged, a, g, r[k].target_ms as int)
    &&& forall|ch: EChannel| g.contains(ch) && (#[trigger] cl(chips, judged, a, ch)) is Some
        && no_later_than_group(chips, judged, a, g, cl(chips, judged, a, ch)->0.target_ms as int) ==> r.contains(
        cl(chips, judged, a, ch)->0,
    )
}

/// A channel has a judgeable chip within the window.
pub open spec fn has_eligible(chips: Seq<Chip>, judged: Set<usize>, a: int, ch: EChannel) -> bool {
    exists|i: int| eligible(chips, judged, ch, a, i)
}

proof fn lemma_closest_exists_upto(chips: Seq<Chip>, judged: Set<usize>, ch: EChannel, a: int, n: int)
    requires
        0 <= n <= chips.len(),
        exists|i: int| 0 <= i < n && eligible(chips, judged, ch, a, i),
    ensures
        exists|b: int| 0 <= b < n && eligible(chips, judged, ch, a, b) && forall|j: int| 0 <= j < n && #[trigger] eligible(chips, judged, ch, a, j) ==> at_least_as_close(chips, a, b, j),
    decreases n,
{
    if exists|i: int| 0 <= i < n - 1 && eligible(chips, judged, ch, a, i) {
        lemma_closest_exists_upto(chips, judged, ch, a, n - 1);
        let b = choose|b: int| 0 <= b < n - 1 && eligible(chips, judged, ch, a, b) && forall|j: int| 0 <= j < n - 1 && #[trigger] eligible(chips, judged, ch, a, j) ==> at_least_as_close(chips, a, b, j);
        if eligible(chips, judged, ch, a, n - 1) && !at_least_as_close(chips, a, b, n - 1) {
            assert forall|j: int| 0 <= j < n && #[trigger] eligible(chips, judged, ch, a, j) implies at_least_as_close(chips, a, n - 1, j) by {
                if j < n - 1 {
                    assert(at_least_as_close(chips, a, b, j));
                }
            }
        } else {
            assert forall|j: int| 0 <= j < n && #[trigger] eligible(chips, judged, ch, a, j) implies at_least_as_close(chips, a, b, j) by {
                if j < n - 1 {
                    assert(at_least_as_close(chips, a, b, j));
                }
            }
        }
    } else {
        assert forall|j: int| 0 <= j < n && #[trigger] eligible(chips, judged, ch, a, j) implies at_least_as_close(chips, a, n - 1, j) by {
            if j < n - 1 {
                assert(!eligible(chips, judged, ch, a, j));
            }
        }
    }
}

/// A channel has a closest judgeable chip exactly when it has any.
proof fn lemma_closest_iff_eligible(chips: Seq<Chip>, judged: Set<usize>, a: int, ch: EChannel)
    ensures
        cl(chips, judged, a, ch) is Some <==> has_eligible(chips, judged, a, ch),
{
    if has_eligible(chips, judged, a, ch) {
        let i = choose|i: int| eligible(chips, judged, ch, a, i);
        lemma_closest_exists_upto(chips, judged, ch, a, chips.len() as int);
        let b = choose|b: int| 0 <= b < chips.len() && eligible(chips, judged, ch, a, b) && forall|j: int| 0 <= j < chips.len() && #[trigger] eligible(chips, judged, ch, a, j) ==> at_least_as_close(chips, a, b, j);
        assert(is_closest(chips, judged, ch, a, b));
    }
    if cl(chips, judged, a, ch) is Some {
        let i = choose|i: int| is_closest(chips, judged, ch, a, i);
        assert(eligible(chips, judged, ch, a, i));
    }
}

proof fn lemma_os_members(chips: Seq<Chip>, judged: Set<usize>, a: int, ch: EChannel)
    ensures
        members_exactly(os(cl(chips, judged, a, ch)), chips, judged, a, set![ch]),
{
    let o = os(cl(chips, judged, a, ch));
    assert forall|k: int| 0 <= k < o.len() implies closest_in(chips, judged, a, set![ch], #[trigger] o[k]) by {
        assert(set![ch].contains(ch));
    }
    assert forall|c: EChannel| set![ch].contains(c) && (#[trigger] cl(chips, judged, a, c)) is Some implies o.contains(
        cl(chips, judged, a, c)->0,
    ) by {
        assert(c == ch);
        assert(o[0] == cl(chips, judged, a, c)->0);
    }
}

proof fn lemma_concat_members(
    x: Seq<Candidate>,
    y: Seq<Candidate>,
    chips: Seq<Chip>,
    judged: Set<usize>,
    a: int,
    gx: Set<EChannel>,
    gy: Set<EChannel>,
)
    requires
        members_exactly(x, chips, judged, a, gx),
        members_exactly(y, chips, judged, a, gy),
    ensures
        members_exactly(x + y, chips, judged, a, gx + gy),
{
    let z = x + y;
    assert forall|k: int| 0 <= k < z.len() implies closest_in(chips, judged, a, gx + gy, #[trigger] z[k]) by {
        if k < x.len() {
            assert(z[k] == x[k]);
            assert(closest_in(chips, judged, a, gx, x[k]));
            let ch = choose|ch: EChannel| gx.contains(ch) && #[trigger] cl(chips, judged, a, ch) == Some(x[k]);
            assert((gx + gy).contains(ch));
        } else {
            assert(z[k] == y[k - x.len()]);
            assert(closest_in(chips, judged, a, gy, y[k - x.len()]));
            let ch = choose|ch: EChannel| gy.contains(ch) && #[trigger] cl(chips, judged, a, ch) == Some(y[k - x.len()]);
            assert((gx + gy).contains(ch));
        }
    }
    assert forall|ch: EChannel| (gx + gy).contains(ch) && (#[trigger] cl(chips, judged, a, ch)) is Some implies z.contains(
        cl(chips, judged, a, ch)->0,
    ) by {
        let c = cl(chips, judged, a, ch)->0;
        if gx.contains(ch) {
            let k = choose|k: int| 0 <= k < x.len() && x[k] == c;
            assert(z[k] == x[k]);
        } else {
            let k = choose|k: int| 0 <= k < y.len() && y[k] == c;
            assert(z[k + x.len()] == y[k]);
        }
    }
}

proof fn lemma_min_target(s: Seq<Candidate>)
    requires
        s.len() > 0,
    ensures
        forall|k: int| 0 <= k < s.len() ==> min_target(s) <= (#[trigger] s[k]).target_ms,
        exists|k: int| 0 <= k < s.len() && (#[trigger] s[k]).target_ms == min_target(s),
    decreases s.len(),
{
    if s.len() > 1 {
        let d = s.drop_last();
        lemma_min_target(d);
        assert forall|k: int| 0 <= k < s.len() implies min_target(s) <= (#[trigger] s[k]).target_ms by {
            if k < d.len() {
                assert(s[k] == d[k]);
            }
        }
        if s.last().target_ms < min_target(d) {
            assert(s[s.len() - 1].target_ms == min_target(s));
        } else {
            let k = choose|k: int| 0 <= k < d.len() && (#[trigger] d[k]).target_ms == min_target(d);
            assert(s[k] == d[k]);
        }
    } else {
        assert(s[0].target_ms == min_target(s));
    }
}

proof fn lemma_keep_target_members(s: Seq<Candidate>, t: int)
    ensures
        forall|k: int| 0 <= k < keep_target(s, t).len() ==> (#[trigger] keep_target(s, t)[k]).target_ms == t && s.contains(
            keep_target(s, t)[k],
        ),
        forall|k: int| 0 <= k < s.len() && (#[trigger] s[k]).target_ms == t ==> keep_target(s, t).contains(s[k]),
    decreases s.len(),
{
    if s.len() > 0 {
        let d = s.drop_last();
        lemma_keep_target_members(d, t);
        let r = keep_target(d, t);
        let r2 = keep_target(s, t);
        assert forall|k: int| 0 <= k < r2.len() implies (#[trigger] r2[k]).target_ms == t && s.contains(r2[k]) by {
            if k < r.len() {
                assert(r2[k] == r[k]);
                let j = choose|j: int| 0 <= j < d.len() && d[j] == r[k];
                assert(s[j] == d[j]);
            } else {
                assert(r2[k] == s[s.len() - 1]);
            }
        }
        assert forall|k: int| 0 <= k < s.len() && (#[trigger] s[k]).target_ms == t implies r2.contains(s[k]) by {
            if k < d.len() {
                assert(s[k] == d[k]);
                let j = choose|j: int| 0 <= j < r.len() && r[j] == d[k];
                assert(r2[j] == r[j]);
            } else {
                assert(r2[r2.len() - 1] == s[k]);
            }
        }
    }
}

proof fn lemma_earliest_members(s: Seq<Candidate>, chips: Seq<Chip>, judged: Set<usize>, a: int, g: Set<EChannel>)
    requires
        members_exactly(s, chips, judged, a, g),
    ensures
        earliest_of_group(spec_pick_earliest(s), chips, judged, a, g),
        spec_pick_earliest(s).len() > 0 <==> s.len() > 0,
{
    let r = spec_pick_earliest(s);
    let m = min_target(s);
    lemma_keep_target_members(s, m);
    if s.len() > 0 {
        lemma_min_target(s);
        // every closest chip of the group is in `s`, so `m` is no later than any
        assert(no_later_than_group(chips, judged, a, g, m)) by {
            assert forall|ch: EChannel| g.contains(ch) && (#[trigger] cl(chips, judged, a, ch)) is Some implies m <= cl(
                chips,
                judged,
                a,
                ch,
            )->0.target_ms by {
                let j = choose|j: int| 0 <= j < s.len() && s[j] == cl(chips, judged, a, ch)->0;
                assert(m <= s[j].target_ms);
            }
        }
        assert forall|k: int| 0 <= k < r.len() implies closest_in(chips, judged, a, g, #[trigger] r[k])
            && no_later_than_group(chips, judged, a, g, r[k].target_ms as int) by {
            let j = choose|j: int| 0 <= j < s.len() && s[j] == r[k];
            assert(closest_in(chips, judged, a, g, s[j]));
        }
        assert forall|ch: EChannel| g.contains(ch) && (#[trigger] cl(chips, judged, a, ch)) is Some
            && no_later_than_group(chips, judged, a, g, cl(chips, judged, a, ch)->0.target_ms as int) implies r.contains(
            cl(chips, judged, a, ch)->0,
        ) by {
            let c = cl(chips, judged, a, ch)->0;
            let j = choose|j: int| 0 <= j < s.len() && s[j] == c;
            let k = choose|k: int| 0 <= k < s.len() && (#[trigger] s[k]).target_ms == m;
            assert(closest_in(chips, judged, a, g, s[k]));
            let ch2 = choose|ch2: EChannel| g.contains(ch2) && #[trigger] cl(chips, judged, a, ch2) == Some(s[k]);
            assert(c.target_ms <= cl(chips, judged, a, ch2)->0.target_ms);
            assert(m <= s[j].target_ms);
            assert(s[j].target_ms == m);
        }
        let k = choose|k: int| 0 <= k < s.len() && (#[trigger] s[k]).target_ms == m;
        assert(r.contains(s[k]));
    } else {
        assert(forall|ch: EChannel| g.contains(ch) ==> !((#[trigger] cl(chips, judged, a, ch)) is Some)) by {
            assert forall|ch: EChannel| g.contains(ch) implies !((#[trigger] cl(chips, judged, a, ch)) is Some) by {
                if cl(chips, judged, a, ch) is Some {
                    assert(s.contains(cl(chips, judged, a, ch)->0));
                }
            }
        }
    }
}

proof fn lemma_os_is_earliest(o: Option<Candidate>)
    ensures
        os(o) == spec_pick_earliest(os(o)),
{
    let s = os(o);
    if s.len() == 1 {
        let e = s.drop_last();
        assert(e =~= Seq::<Candidate>::empty());
        assert(min_target(s) == s[0].target_ms);
        assert(keep_target(e, min_target(s)) == e);
        assert(keep_target(s, min_target(s)) == e.push(s[0]));
        assert(e.push(s[0]) =~= s);
    }
}

proof fn lemma_pair_is_earliest(p: Option<Candidate>, q: Option<Candidate>)
    ensures
        spec_pick_pair(p, q) == spec_pick_earliest(os(p) + os(q)),
{
    let s = os(p) + os(q);
    reveal_with_fuel(keep_target, 3);
    if s.len() == 2 {
        let x = p->0;
        let y = q->0;
        let d = s.drop_last();
        let e = d.drop_last();
        assert(d =~= seq![x]);
        assert(e =~= Seq::<Candidate>::empty());
        assert(min_target(d) == x.target_ms);
        let m = min_target(s);
        assert(m == if y.target_ms < x.target_ms { y.target_ms as int } else { x.target_ms as int });
        assert(keep_target(e, m) == e);
        assert(keep_target(d, m) == if x.target_ms == m { e.push(x) } else { e });
        assert(keep_target(s, m) == if y.target_ms == m { keep_target(d, m).push(y) } else { keep_target(d, m) });
        assert(spec_pick_pair(p, q) =~= spec_pick_earliest(s));
    } else if s.len() == 1 {
        assert(s.drop_last() =~= Seq::<Candidate>::empty());
        assert(spec_pick_pair(p, q) =~= spec_pick_earliest(s));
    } else {
        assert(spec_pick_pair(p, q) =~= spec_pick_earliest(s));
    }
}

proof fn lemma_group_law(s: Seq<Candidate>, chips: Seq<Chip>, judged: Set<usize>, a: int, g: Set<EChannel>)
    requires
        members_exactly(s, chips, judged, a, g),
    ensures
        earliest_of_group(spec_pick_earliest(s), chips, judged, a, g),
        spec_pick_earliest(s).len() > 0 <==> exists|ch: EChannel| g.contains(ch) && #[trigger] has_eligible(chips, judged, a, ch),
        first_of(spec_pick_earliest(s)).len() <= 1,
        first_of(spec_pick_earliest(s)).len() > 0 <==> exists|ch: EChannel| g.contains(ch) && #[trigger] has_eligible(chips, judged, a, ch),
        forall|k: int| 0 <= k < first_of(spec_pick_earliest(s)).len() ==> closest_in(chips, judged, a, g, #[trigger] first_of(spec_pick_earliest(s))[k])
            && no_later_than_group(chips, judged, a, g, first_of(spec_pick_earliest(s))[k].target_ms as int),
{
    lemma_earliest_members(s, chips, judged, a, g);
    let r = spec_pick_earliest(s);
    if exists|ch: EChannel| g.contains(ch) && #[trigger] has_eligible(chips, judged, a, ch) {
        let ch = choose|ch: EChannel| g.contains(ch) && #[trigger] has_eligible(chips, judged, a, ch);
        lemma_closest_iff_eligible(chips, judged, a, ch);
        assert(s.contains(cl(chips, judged, a, ch)->0));
    }
    if s.len() > 0 {
        assert(closest_in(chips, judged, a, g, s[0]));
        let ch = choose|ch: EChannel| g.contains(ch) && #[trigger] cl(chips, judged, a, ch) == Some(s[0]);
        lemma_closest_iff_eligible(chips, judged, a, ch);
    }
    let f = first_of(r);
    if r.len() > 0 {
        assert(f[0] == r[0]);
    }
}

/// What a pad press judges, stated over the closest chip of each channel
/// of the pad's group: a hit exactly when the group has a judgeable chip;
/// every hit is the closest chip of a group channel, due no later than any
/// other; and every group channel whose closest chip is due that earliest
/// is hit (a left-cymbal press on free cymbals takes only the first such).
pub open spec fn resolve_law(pad: DrumPad, chips: Seq<Chip>, judged: Set<usize>, a: int, groups: EffectiveGroups) -> bool {
    let r = spec_resolve(pad, chips, judged, a, groups);
    let g = pad_group(pad, groups);
    &&& r.len() > 0 <==> exists|ch: EChannel| g.contains(ch) && #[trigger] has_eligible(chips, judged, a, ch)
    &&& forall|k: int| 0 <= k < r.len() ==> closest_in(chips, judged, a, g, #[trigger] r[k])
        && no_later_than_group(chips, judged, a, g, r[k].target_ms as int)
    &&& if pad == DrumPad::Lc && groups.cymbal_free {
        r.len() <= 1
    } else {
        earliest_of_group(r, chips, judged, a, g)
    }
}

proof fn lemma_law_from(
    pad: DrumPad,
    chips: Seq<Chip>,
    judged: Set<usize>,
    a: int,
    groups: EffectiveGroups,
    s: Seq<Candidate>,
    g: Set<EChannel>,
)
    requires
        members_exactly(s, chips, judged, a, g),
        g == pad_group(pad, groups),
        if pad == DrumPad::Lc && groups.cymbal_free {
            spec_resolve(pad, chips, judged, a, groups) == first_of(spec_pick_earliest(s))
        } else {
            spec_resolve(pad, chips, judged, a, groups) == spec_pick_earliest(s)
        },
    ensures
        resolve_law(pad, chips, judged, a, groups),
{
    lemma_group_law(s, chips, judged, a, g);
}

proof fn lemma_law_single(pad: DrumPad, chips: Seq<Chip>, judged: Set<usize>, a: int, groups: EffectiveGroups, ch: EChannel)
    requires
        !(pad == DrumPad::Lc && groups.cymbal_free),
        set![ch] == pad_group(pad, groups),
        spec_resolve(pad, chips, judged, a, groups) == os(cl(chips, judged, a, ch)),
    ensures
        resolve_law(pad, chips, judged, a, groups),
{
    lemma_os_members(chips, judged, a, ch);
    lemma_os_is_earliest(cl(chips, judged, a, ch));
    lemma_law_from(pad, chips, judged, a, groups, os(cl(chips, judged, a, ch)), set![ch]);
}

proof fn lemma_law_pair(
    pad: DrumPad,
    chips: Seq<Chip>,
    judged: Set<usize>,
    a: int,
    groups: EffectiveGroups,
    c1: EChannel,
    c2: EChannel,
)
    requires
        !(pad == DrumPad::Lc && groups.cymbal_free),
        set![c1] + set![c2] == pad_group(pad, groups),
        spec_resolve(pad, chips, judged, a, groups) == spec_pick_pair(cl(chips, judged, a, c1), cl(chips, judged, a, c2)),
    ensures
        resolve_law(pad, chips, judged, a, groups),
{
    lemma_os_members(chips, judged, a, c1);
    lemma_os_members(chips, judged, a, c2);
    lemma_concat_members(os(cl(chips, judged, a, c1)), os(cl(chips, judged, a, c2)), chips, judged, a, set![c1], set![c2]);
    lemma_pair_is_earliest(cl(chips, judged, a, c1), cl(chips, judged, a, c2));
    lemma_law_from(
        pad,
        chips,
        judged,
        a,
        groups,
        os(cl(chips, judged, a, c1)) + os(cl(chips, judged, a, c2)),
        set![c1] + set![c2],
    );
}

proof fn lemma_law_three(
    pad: DrumPad,
    chips: Seq<Chip>,
    judged: Set<usize>,
    a: int,
    groups: EffectiveGroups,
    c1: EChannel,
    c2: EChannel,
    c3: EChannel,
)
    requires
        !(pad == DrumPad::Lc && groups.cymbal_free),
        set![c1] + set![c2] + set![c3] == pad_group(pad, groups),
        spec_resolve(pad, chips, judged, a, groups) == spec_pick_earliest(
            os(cl(chips, judged, a, c1)) + os(cl(chips, judged, a, c2)) + os(cl(chips, judged, a, c3)),
        ),
    ensures
        resolve_law(pad, chips, judged, a, groups),
{
    let x = os(cl(chips, judged, a, c1));
    let y = os(cl(chips, judged, a, c2));
    let z = os(cl(chips, judged, a, c3));
    lemma_os_members(chips, judged, a, c1);
    lemma_os_members(chips, judged, a, c2);
    lemma_os_members(chips, judged, a, c3);
    lemma_concat_members(x, y, chips, judged, a, set![c1], set![c2]);
    lemma_concat_members(x + y, z, chips, judged, a, set![c1] + set![c2], set![c3]);
    lemma_law_from(pad, chips, judged, a, groups, x + y + z, set![c1] + set![c2] + set![c3]);
}

proof fn lemma_law_toms_hats(pad: DrumPad, chips: Seq<Chip>, judged: Set<usize>, a: int, groups: EffectiveGroups)
    requires
        pad == DrumPad::Sd || pad == DrumPad::Ht || pad == DrumPad::Lt || pad == DrumPad::Ft || pad == DrumPad::Hh
            || pad == DrumPad::Hho,
    ensures
        resolve_law(pad, chips, judged, a, groups),
{
    let g = pad_group(pad, groups);
    match pad {
        DrumPad::Sd => {
            assert(set![EChannel::Snare] =~= g);
            lemma_law_single(pad, chips, judged, a, groups, EChannel::Snare);
        },
        DrumPad::Ht => {
            assert(set![EChannel::HighTom] =~= g);
            lemma_law_single(pad, chips, judged, a, groups, EChannel::HighTom);
        },
        DrumPad::Lt => if groups.ft == FtGroup::Common {
            assert(set![EChannel::LowTom] + set![EChannel::FloorTom] =~= g);
            lemma_law_pair(pad, chips, judged, a, groups, EChannel::LowTom, EChannel::FloorTom);
        } else {
            assert(set![EChannel::LowTom] =~= g);
            lemma_law_single(pad, chips, judged, a, groups, EChannel::LowTom);
        },
        DrumPad::Ft => if groups.ft == FtGroup::Common {
            assert(set![EChannel::FloorTom] + set![EChannel::LowTom] =~= g);
            lemma_law_pair(pad, chips, judged, a, groups, EChannel::FloorTom, EChannel::LowTom);
        } else {
            assert(set![EChannel::FloorTom] =~= g);
            lemma_law_single(pad, chips, judged, a, groups, EChannel::FloorTom);
        },
        DrumPad::Hh => match groups.hh {
            HhGroup::SeparateAll => {
                assert(set![EChannel::HiHatClose] =~= g);
                lemma_law_single(pad, chips, judged, a, groups, EChannel::HiHatClose);
            },
            HhGroup::HhAndLc => {
                assert(set![EChannel::HiHatClose] + set![EChannel::LeftCymbal] =~= g);
                lemma_law_pair(pad, chips, judged, a, groups, EChannel::HiHatClose, EChannel::LeftCymbal);
            },
            HhGroup::HhAndHo => {
                assert(set![EChannel::HiHatClose] + set![EChannel::HiHatOpen] =~= g);
                lemma_law_pair(pad, chips, judged, a, groups, EChannel::HiHatClose, EChannel::HiHatOpen);
            },
            HhGroup::CommonAll => {
                assert(set![EChannel::HiHatClose] + set![EChannel::HiHatOpen] + set![EChannel::LeftCymbal] =~= g);
                lemma_law_three(pad, chips, judged, a, groups, EChannel::HiHatClose, EChannel::HiHatOpen, EChannel::LeftCymbal);
            },
        },
        _ => match groups.hh {
            HhGroup::SeparateAll => {
                assert(set![EChannel::HiHatOpen] =~= g);
                lemma_law_single(pad, chips, judged, a, groups, EChannel::HiHatOpen);
            },
            HhGroup::HhAndLc => {
                assert(set![EChannel::HiHatOpen] + set![EChannel::LeftCymbal] =~= g);
                lemma_law_pair(pad, chips, judged, a, groups, EChannel::HiHatOpen, EChannel::LeftCymbal);
            },
            HhGroup::HhAndHo => {
                assert(set![EChannel::HiHatClose] + set![EChannel::HiHatOpen] =~= g);
                lemma_law_pair(pad, chips, judged, a, groups, EChannel::HiHatClose, EChannel::HiHatOpen);
            },
            HhGroup::CommonAll => {
                assert(set![EChannel::HiHatClose] + set![EChannel::HiHatOpen] + set![EChannel::LeftCymbal] =~= g);
                lemma_law_three(pad, chips, judged, a, groups, EChannel::HiHatClose, EChannel::HiHatOpen, EChannel::LeftCymbal);
            },
        },
    }
}

proof fn lemma_law_pedals(pad: DrumPad, chips: Seq<Chip>, judged: Set<usize>, a: int, groups: EffectiveGroups)
    requires
        pad == DrumPad::Bd || pad == DrumPad::Lp || pad == DrumPad::Lbd,
    ensures
        resolve_law(pad, chips, judged, a, groups),
{
    let g = pad_group(pad, groups);
    let all3 = set![EChannel::BassDrum] + set![EChannel::LeftPedal] + set![EChannel::LeftBassDrum];
    if groups.bd == BdGroup::AllBd {
        assert(all3 =~= g);
        lemma_law_three(pad, chips, judged, a, groups, EChannel::BassDrum, EChannel::LeftPedal, EChannel::LeftBassDrum);
    } else {
        match pad {
            DrumPad::Bd => if groups.bd == BdGroup::BdAndLbd {
                assert(set![EChannel::BassDrum] + set![EChannel::LeftBassDrum] =~= g);
                lemma_law_pair(pad, chips, judged, a, groups, EChannel::BassDrum, EChannel::LeftBassDrum);
            } else {
                assert(set![EChannel::BassDrum] =~= g);
                lemma_law_single(pad, chips, judged, a, groups, EChannel::BassDrum);
            },
            DrumPad::Lp => if groups.bd == BdGroup::Separate {
                assert(set![EChannel::LeftPedal] =~= g);
                lemma_law_single(pad, chips, judged, a, groups, EChannel::LeftPedal);
            } else {
                assert(set![EChannel::LeftPedal] + set![EChannel::LeftBassDrum] =~= g);
                lemma_law_pair(pad, chips, judged, a, groups, EChannel::LeftPedal, EChannel::LeftBassDrum);
            },
            _ => match groups.bd {
                BdGroup::Separate => {
                    assert(set![EChannel::LeftBassDrum] =~= g);
                    lemma_law_single(pad, chips, judged, a, groups, EChannel::LeftBassDrum);
                },
                BdGroup::BdAndLbd => {
                    assert(set![EChannel::BassDrum] + set![EChannel::LeftBassDrum] =~= g);
                    lemma_law_pair(pad, chips, judged, a, groups, EChannel::BassDrum, EChannel::LeftBassDrum);
                },
                _ => {
                    assert(set![EChannel::LeftBassDrum] + set![EChannel::LeftPedal] =~= g);
                    lemma_law_pair(pad, chips, judged, a, groups, EChannel::LeftBassDrum, EChannel::LeftPedal);
                },
            },
        }
    }
}

proof fn lemma_law_cymbal_group(pad: DrumPad, chips: Seq<Chip>, judged: Set<usize>, a: int, groups: EffectiveGroups)
    requires
        pad == DrumPad::Cy || (pad == DrumPad::Rd && groups.cy == CyGroup::Common),
    ensures
        resolve_law(pad, chips, judged, a, groups),
{
    let g = pad_group(pad, groups);
    let cy = cl(chips, judged, a, EChannel::Cymbal);
    let rd = cl(chips, judged, a, EChannel::RideCymbal);
    let lc = cl(chips, judged, a, EChannel::LeftCymbal);
    match (groups.cy, groups.cymbal_free) {
        (CyGroup::Separate, false) => {
            assert(set![EChannel::Cymbal] =~= g);
            lemma_law_single(pad, chips, judged, a, groups, EChannel::Cymbal);
        },
        (CyGroup::Separate, true) => {
            assert(set![EChannel::Cymbal] + set![EChannel::LeftCymbal] =~= g);
            lemma_pair_is_earliest(cy, lc);
            lemma_law_pair(pad, chips, judged, a, groups, EChannel::Cymbal, EChannel::LeftCymbal);
        },
        (CyGroup::Common, false) => {
            assert(set![EChannel::Cymbal] + set![EChannel::RideCymbal] =~= g);
            lemma_pair_is_earliest(cy, rd);
            lemma_law_pair(pad, chips, judged, a, groups, EChannel::Cymbal, EChannel::RideCymbal);
        },
        (CyGroup::Common, true) => {
            assert(set![EChannel::Cymbal] + set![EChannel::RideCymbal] + set![EChannel::LeftCymbal] =~= g);
            lemma_law_three(pad, chips, judged, a, groups, EChannel::Cymbal, EChannel::RideCymbal, EChannel::LeftCymbal);
        },
    }
}

proof fn lemma_law_ride(pad: DrumPad, chips: Seq<Chip>, judged: Set<usize>, a: int, groups: EffectiveGroups)
    requires
        pad == DrumPad::Rd,
    ensures
        resolve_law(pad, chips, judged, a, groups),
{
    let g = pad_group(pad, groups);
    if groups.cy == CyGroup::Common {
        lemma_law_cymbal_group(pad, chips, judged, a, groups);
    } else if groups.cymbal_free {
        assert(set![EChannel::RideCymbal] + set![EChannel::LeftCymbal] =~= g);
        lemma_law_pair(pad, chips, judged, a, groups, EChannel::RideCymbal, EChannel::LeftCymbal);
    } else {
        assert(set![EChannel::RideCymbal] =~= g);
        lemma_law_single(pad, chips, judged, a, groups, EChannel::RideCymbal);
    }
}

proof fn lemma_law_left_cymbal(pad: DrumPad, chips: Seq<Chip>, judged: Set<usize>, a: int, groups: EffectiveGroups)
    requires
        pad == DrumPad::Lc,
    ensures
        resolve_law(pad, chips, judged, a, groups),
{
    let g = pad_group(pad, groups);
    let hats_with_lc = groups.hh == HhGroup::HhAndLc || groups.hh == HhGroup::CommonAll;
    if !groups.cymbal_free {
        if hats_with_lc {
            assert(set![EChannel::LeftCymbal] + set![EChannel::HiHatClose] + set![EChannel::HiHatOpen] =~= g);
            lemma_law_three(pad, chips, judged, a, groups, EChannel::LeftCymbal, EChannel::HiHatClose, EChannel::HiHatOpen);
        } else {
            assert(set![EChannel::LeftCymbal] =~= g);
            lemma_law_single(pad, chips, judged, a, groups, EChannel::LeftCymbal);
        }
    } else {
        let hc = os(cl(chips, judged, a, EChannel::HiHatClose));
        let ho = os(cl(chips, judged, a, EChannel::HiHatOpen));
        let lc = os(cl(chips, judged, a, EChannel::LeftCymbal));
        let cy = os(cl(chips, judged, a, EChannel::Cymbal));
        let rdc = ride_if_common(cl(chips, judged, a, EChannel::RideCymbal), groups);
        let rds: Set<EChannel> = if groups.cy == CyGroup::Common { set![EChannel::RideCymbal] } else { Set::empty() };
        lemma_os_members(chips, judged, a, EChannel::HiHatClose);
        lemma_os_members(chips, judged, a, EChannel::HiHatOpen);
        lemma_os_members(chips, judged, a, EChannel::LeftCymbal);
        lemma_os_members(chips, judged, a, EChannel::Cymbal);
        lemma_os_members(chips, judged, a, EChannel::RideCymbal);
        assert(members_exactly(rdc, chips, judged, a, rds));
        if hats_with_lc {
            let s1 = set![EChannel::HiHatClose];
            let s2 = s1 + set![EChannel::HiHatOpen];
            let s3 = s2 + set![EChannel::LeftCymbal];
            let s4 = s3 + set![EChannel::Cymbal];
            lemma_concat_members(hc, ho, chips, judged, a, s1, set![EChannel::HiHatOpen]);
            lemma_concat_members(hc + ho, lc, chips, judged, a, s2, set![EChannel::LeftCymbal]);
            lemma_concat_members(hc + ho + lc, cy, chips, judged, a, s3, set![EChannel::Cymbal]);
            lemma_concat_members(hc + ho + lc + cy, rdc, chips, judged, a, s4, rds);
            assert(s4 + rds =~= g);
            lemma_law_from(pad, chips, judged, a, groups, hc + ho + lc + cy + rdc, s4 + rds);
        } else {
            let s1 = set![EChannel::LeftCymbal];
            let s2 = s1 + set![EChannel::Cymbal];
            lemma_concat_members(lc, cy, chips, judged, a, s1, set![EChannel::Cymbal]);
            lemma_concat_members(lc + cy, rdc, chips, judged, a, s2, rds);
            assert(s2 + rds =~= g);
            lemma_law_from(pad, chips, judged, a, groups, lc + cy + rdc, s2 + rds);
        }
    }
}

/// Completeness and exactness of judgment resolution, for every pad and
/// every effective grouping: a press judges something exactly when a
/// channel of its group has a judgeable chip in the window; it judges only
/// closest chips of its group's channels, the ones due earliest; and it
/// judges every such earliest chip (a left-cymbal press with free cymbals
/// takes just one of them).
pub proof fn lemma_resolve_complete(pad: DrumPad, chips: Seq<Chip>, judged: Set<usize>, a: int, groups: EffectiveGroups)
    ensures
        resolve_law(pad, chips, judged, a, groups),
{
    match pad {
        DrumPad::Bd | DrumPad::Lp | DrumPad::Lbd => lemma_law_pedals(pad, chips, judged, a, groups),
        DrumPad::Cy => lemma_law_cymbal_group(pad, chips, judged, a, groups),
        DrumPad::Rd => lemma_law_ride(pad, chips, judged, a, groups),
        DrumPad::Lc => lemma_law_left_cymbal(pad, chips, judged, a, groups),
        _ => lemma_law_toms_hats(pad, chips, judged, a, groups),
    }
}

/// Lanes shared with a pad by its grouping, tried after its own lane for
/// the empty-hit sound.
pub open spec fn spec_fallback_rest(pad: DrumPad, groups: EffectiveGroups) -> Seq<LaneId> {
    match pad {
        DrumPad::Hh => match groups.hh {
            HhGroup::SeparateAll => Seq::empty(),
            HhGroup::HhAndLc => seq![9],
            HhGroup::HhAndHo => seq![7],
            HhGroup::CommonAll => seq![7, 9],
        },
        DrumPad::Hho => match groups.hh {
            HhGroup::SeparateAll => Seq::empty(),
            HhGroup::HhAndLc => seq![9],
            HhGroup::HhAndHo => seq![0],
            HhGroup::CommonAll => seq![0, 9],
        },
        DrumPad::Lt => match groups.ft {
            FtGroup::Separate => Seq::empty(),
            FtGroup::Common => seq![5],
        },
        DrumPad::Ft => match groups.ft {
            FtGroup::Separate => Seq::empty(),
            FtGroup::Common => seq![4],
        },
        DrumPad::Cy => match groups.cy {
            CyGroup::Separate => Seq::empty(),
            CyGroup::Common => seq![8],
        },
        DrumPad::Rd => match (groups.cy, groups.cymbal_free) {
            (CyGroup::Separate, false) => Seq::empty(),
            (CyGroup::Separate, true) => seq![9],
            (CyGroup::Common, _) => seq![8],
        },
        DrumPad::Lc => if groups.cymbal_free {
            seq![6, 8]
        } else {
            seq![0, 7]
        },
        DrumPad::Lp => match groups.bd {
            BdGroup::Separate => Seq::empty(),
            BdGroup::BdAndLbd | BdGroup::PedalsOnly => seq![11],
            BdGroup::AllBd => seq![11, 2],
        },
        DrumPad::Lbd => match groups.bd {
            BdGroup::Separate => Seq::empty(),
            BdGroup::BdAndLbd | BdGroup::PedalsOnly => seq![10],
            BdGroup::AllBd => seq![10, 2],
        },
        DrumPad::Bd => match groups.bd {
            BdGroup::Separate => Seq::empty(),
            BdGroup::BdAndLbd => seq![11],
            BdGroup::PedalsOnly => Seq::empty(),
            BdGroup::AllBd => seq![10, 11],
        },
        DrumPad::Sd => Seq::empty(),
        DrumPad::Ht => Seq::empty(),
    }
}

/// Lanes to try for the empty-hit sound (no chip hit), in order: the pad's
/// own lane, then the lanes its grouping shares with it.
pub open spec fn spec_fallback_lanes(pad: DrumPad, groups: EffectiveGroups) -> Seq<LaneId> {
    seq![spec_pad_lane(pad) as usize] + spec_fallback_rest(pad, groups)
}

/// Lanes to try for empty-hit sound lookup (no-chip templates, then
/// nearest chip), starting with the pad's own lane.
pub fn empty_hit_fallback_lanes(pad: DrumPad, groups: &EffectiveGroups) -> (lanes: Vec<LaneId>)
    ensures
        lanes@ == spec_fallback_lanes(pad, *groups),
{
    let rest: Vec<LaneId> = match pad {
        DrumPad::Hh => match groups.hh {
            HhGroup::SeparateAll => Vec::new(),
            HhGroup::HhAndLc => { let v: Vec<LaneId> = vec![9]; assert(v@ =~= seq![9usize]); v },
            HhGroup::HhAndHo => { let v: Vec<LaneId> = vec![7]; assert(v@ =~= seq![7usize]); v },
            HhGroup::CommonAll => { let v: Vec<LaneId> = vec![7, 9]; assert(v@ =~= seq![7usize, 9usize]); v },
        },
        DrumPad::Hho => match groups.hh {
            HhGroup::SeparateAll => Vec::new(),
            HhGroup::HhAndLc => { let v: Vec<LaneId> = vec![9]; assert(v@ =~= seq![9usize]); v },
            HhGroup::HhAndHo => { let v: Vec<LaneId> = vec![0]; assert(v@ =~= seq![0usize]); v },
            HhGroup::CommonAll => { let v: Vec<LaneId> = vec![0, 9]; assert(v@ =~= seq![0usize, 9usize]); v },
        },
        DrumPad::Lt => match groups.ft {
            FtGroup::Separate => Vec::new(),
            FtGroup::Common => { let v: Vec<LaneId> = vec![5]; assert(v@ =~= seq![5usize]); v },
        },
        DrumPad::Ft => match groups.ft {
            FtGroup::Separate => Vec::new(),
            FtGroup::Common => { let v: Vec<LaneId> = vec![4]; assert(v@ =~= seq![4usize]); v },
        },
        DrumPad::Cy => match groups.cy {
            CyGroup::Separate => Vec::new(),
            CyGroup::Common => { let v: Vec<LaneId> = vec![8]; assert(v@ =~= seq![8usize]); v },
        },
        DrumPad::Rd => match (groups.cy, groups.cymbal_free) {
            (CyGroup::Separate, false) => Vec::new(),
            (CyGroup::Separate, true) => { let v: Vec<LaneId> = vec![9]; assert(v@ =~= seq![9usize]); v },
            (CyGroup::Common, _) => { let v: Vec<LaneId> = vec![8]; assert(v@ =~= seq![8usize]); v },
        },
        DrumPad::Lc => if groups.cymbal_free {
            { let v: Vec<LaneId> = vec![6, 8]; assert(v@ =~= seq![6usize, 8usize]); v }
        } else {
            { let v: Vec<LaneId> = vec![0, 7]; assert(v@ =~= seq![0usize, 7usize]); v }
        },
        DrumPad::Lp => match groups.bd {
            BdGroup::Separate => Vec::new(),
            BdGroup::BdAndLbd | BdGroup::PedalsOnly => { let v: Vec<LaneId> = vec![11]; assert(v@ =~= seq![11usize]); v },
            BdGroup::AllBd => { let v: Vec<LaneId> = vec![11, 2]; assert(v@ =~= seq![11usize, 2usize]); v },
        },
        DrumPad::Lbd => match groups.bd {
            BdGroup::Separate => Vec::new(),
            BdGroup::BdAndLbd | BdGroup::PedalsOnly => { let v: Vec<LaneId> = vec![10]; assert(v@ =~= seq![10usize]); v },
            BdGroup::AllBd => { let v: Vec<LaneId> = vec![10, 2]; assert(v@ =~= seq![10usize, 2usize]); v },
        },
        DrumPad::Bd => match groups.bd {
            BdGroup::Separate => Vec::new(),
            BdGroup::BdAndLbd => { let v: Vec<LaneId> = vec![11]; assert(v@ =~= seq![11usize]); v },
            BdGroup::PedalsOnly => Vec::new(),
            BdGroup::AllBd => { let v: Vec<LaneId> = vec![10, 11]; assert(v@ =~= seq![10usize, 11usize]); v },
        },
        DrumPad::Sd => Vec::new(),
        DrumPad::Ht => Vec::new(),
    };
    assert(rest@ == spec_fallback_rest(pad, *groups));
    let mut lanes: Vec<LaneId> = Vec::new();
    lanes.push(pad.lane());
    let n = rest.len();
    for k in 0..n
        invariant
            n == rest@.len(),
            lanes@ == seq![spec_pad_lane(pad) as usize] + rest@.take(k as int),
    {
        assert(rest@.take(k + 1) =~= rest@.take(k as int).push(rest@[k as int]));
        lanes.push(rest[k]);
        assert(lanes@ =~= seq![spec_pad_lane(pad) as usize] + rest@.take(k + 1));
    }
    assert(rest@.take(n as int) =~= rest@);
    lanes
}

/// The empty-hit fallback always starts at the pad's own lane and only
/// names real lanes.
pub proof fn lemma_fallback_starts_with_own_lane(pad: DrumPad, groups: EffectiveGroups)
    ensures
        spec_fallback_lanes(pad, groups).len() >= 1,
        spec_fallback_lanes(pad, groups)[0] == spec_pad_lane(pad),
        forall|k: int| 0 <= k < spec_fallback_lanes(pad, groups).len() ==> (#[trigger] spec_fallback_lanes(pad, groups)[k]) < LANE_COUNT,
{
    let s = spec_fallback_lanes(pad, groups);
    let r = spec_fallback_rest(pad, groups);
    assert(s[0] == spec_pad_lane(pad));
    assert forall|k: int| 0 <= k < s.len() implies (#[trigger] s[k]) < LANE_COUNT by {
        if k > 0 {
            assert(s[k] == r[k - 1]);
        }
    }
}

/// The empty-hit fallback only tries lanes whose channel the pad's press
/// can judge under its grouping: a pad never borrows the sound of a lane
/// outside its group. Two fixed lists are the exceptions: the left-cymbal
/// pad tries its own lane then the cymbal and ride lanes (free cymbals) or
/// the hi-hat lanes, and the left bass drum under the BD+LBD grouping also
/// tries the left pedal lane.
pub proof fn lemma_fallback_shares_group(pad: DrumPad, groups: EffectiveGroups)
    ensures
        pad != DrumPad::Lc && !(pad == DrumPad::Lbd && groups.bd == BdGroup::BdAndLbd) ==> forall|k: int|
            0 <= k < spec_fallback_lanes(pad, groups).len() ==> pad_group(pad, groups).contains(
                spec_lane_channel(#[trigger] spec_fallback_lanes(pad, groups)[k] as int),
            ),
        pad == DrumPad::Lc ==> spec_fallback_lanes(pad, groups).map_values(|l: LaneId| spec_lane_channel(l as int))
            == if groups.cymbal_free {
            seq![EChannel::LeftCymbal, EChannel::Cymbal, EChannel::RideCymbal]
        } else {
            seq![EChannel::LeftCymbal, EChannel::HiHatClose, EChannel::HiHatOpen]
        },
{
    let s = spec_fallback_lanes(pad, groups);
    let r = spec_fallback_rest(pad, groups);
    assert forall|k: int| 0 < k < s.len() implies s[k] == r[k - 1] by {}
    if pad == DrumPad::Lc {
        assert(s.map_values(|l: LaneId| spec_lane_channel(l as int)) =~= if groups.cymbal_free {
            seq![EChannel::LeftCymbal, EChannel::Cymbal, EChannel::RideCymbal]
        } else {
            seq![EChannel::LeftCymbal, EChannel::HiHatClose, EChannel::HiHatOpen]
        });
    }
}

/// Pad channel for pad-over-chip sound lookup, with missing-channel remap.
pub open spec fn spec_sound_pad_channel(pad: DrumPad, presence: ChartChipPresence) -> EChannel {
    if pad == DrumPad::Hho && !presence.hh_open {
        EChannel::HiHatClose
    } else if pad == DrumPad::Rd && !presence.ride {
        EChannel::Cymbal
    } else if pad == DrumPad::Lc && !presence.left_cymbal {
        EChannel::HiHatClose
    } else {
        spec_pad_channel(pad)
    }
}

/// Pad channel for pad-over-chip sound lookup, with missing-lane remap.
pub fn sound_pad_channel(pad: DrumPad, presence: &ChartChipPresence) -> (ch: EChannel)
    ensures
        ch == spec_sound_pad_channel(pad, *presence),
{
    match pad {
        DrumPad::Hho if !presence.hh_open => EChannel::HiHatClose,
        DrumPad::Rd if !presence.ride => EChannel::Cymbal,
        DrumPad::Lc if !presence.left_cymbal => EChannel::HiHatClose,
        _ => lane_channel(pad.lane()),
    }
}

/// The configured hit-sound priority that governs a pad.
pub open spec fn spec_pad_priority(pad: DrumPad, config: DrumsConfig) -> HitSoundPriority {
    match pad {
        DrumPad::Hh | DrumPad::Hho | DrumPad::Lc => config.hit_sound_priority_hh,
        DrumPad::Lt | DrumPad::Ft => config.hit_sound_priority_ft,
        DrumPad::Cy | DrumPad::Rd => config.hit_sound_priority_cy,
        DrumPad::Bd | DrumPad::Lp | DrumPad::Lbd => config.hit_sound_priority_lp,
        DrumPad::Sd | DrumPad::Ht => HitSoundPriority::ChipOverPad,
    }
}

/// Each grouped pad follows its own group's hit-sound setting: the hi-hat
/// pads (HH, HHO, LC) the hi-hat setting, the toms (LT, FT) the floor-tom
/// setting, the cymbals (CY, RD) the cymbal setting, the pedals (BD, LP,
/// LBD) the pedal setting; snare and high tom always play the chip. Changing
/// one group's setting changes the answer of that group's pads and no other.
pub proof fn lemma_priority_follows_group_setting(pad: DrumPad, config: DrumsConfig, p: HitSoundPriority)
    ensures
        (pad == DrumPad::Hh || pad == DrumPad::Hho || pad == DrumPad::Lc) ==> spec_pad_priority(pad, config)
            == config.hit_sound_priority_hh,
        (pad == DrumPad::Lt || pad == DrumPad::Ft) ==> spec_pad_priority(pad, config) == config.hit_sound_priority_ft,
        (pad == DrumPad::Cy || pad == DrumPad::Rd) ==> spec_pad_priority(pad, config) == config.hit_sound_priority_cy,
        (pad == DrumPad::Bd || pad == DrumPad::Lp || pad == DrumPad::Lbd) ==> spec_pad_priority(pad, config)
            == config.hit_sound_priority_lp,
        (pad == DrumPad::Sd || pad == DrumPad::Ht) ==> spec_pad_priority(pad, config) == HitSoundPriority::ChipOverPad,
        spec_pad_priority(pad, DrumsConfig { hit_sound_priority_ft: p, ..config }) == if pad == DrumPad::Lt || pad
            == DrumPad::Ft {
            p
        } else {
            spec_pad_priority(pad, config)
        },
        spec_pad_priority(pad, DrumsConfig { hit_sound_priority_hh: p, ..config }) == if pad == DrumPad::Hh || pad
            == DrumPad::Hho || pad == DrumPad::Lc {
            p
        } else {
            spec_pad_priority(pad, config)
        },
        spec_pad_priority(pad, DrumsConfig { hit_sound_priority_cy: p, ..config }) == if pad == DrumPad::Cy || pad
            == DrumPad::Rd {
            p
        } else {
            spec_pad_priority(pad, config)
        },
        spec_pad_priority(pad, DrumsConfig { hit_sound_priority_lp: p, ..config }) == if pad == DrumPad::Bd || pad
            == DrumPad::Lp || pad == DrumPad::Lbd {
            p
        } else {
            spec_pad_priority(pad, config)
        },
{
}

/// Whether a press on `pad` plays the chip's sound rather than the pad's.
pub fn chip_over_pad(pad: DrumPad, config: &DrumsConfig) -> (b: bool)
    ensures
        b == (spec_pad_priority(pad, *config) == HitSoundPriority::ChipOverPad),
{
    let pri = match pad {
        DrumPad::Hh | DrumPad::Hho | DrumPad::Lc => config.hit_sound_priority_hh,
        DrumPad::Lt | DrumPad::Ft => config.hit_sound_priority_ft,
        DrumPad::Cy | DrumPad::Rd => config.hit_sound_priority_cy,
        DrumPad::Bd | DrumPad::Lp | DrumPad::Lbd => config.hit_sound_priority_lp,
        DrumPad::Sd | DrumPad::Ht => HitSoundPriority::ChipOverPad,
    };
    pri == HitSoundPriority::ChipOverPad
}

/// Chip `i` has a sound on channel `ch`.
pub open spec fn sounding(chips: Seq<Chip>, ch: EChannel, i: int) -> bool {
    0 <= i < chips.len() && chips[i].channel == ch && chips[i].wav_slot != 0
}

/// Chip `i` is the first sounding chip on `ch` nearest to `audio_ms`.
pub open spec fn is_nearest_sounding(chips: Seq<Chip>, ch: EChannel, audio_ms: int, i: int) -> bool {
    &&& sounding(chips, ch, i)
    &&& forall|j: int| #[trigger] sounding(chips, ch, j) ==> abs(audio_ms - chips[i].target_ms)
        < abs(audio_ms - chips[j].target_ms) || (abs(audio_ms - chips[i].target_ms) == abs(
        audio_ms - chips[j].target_ms) && i <= j)
}

/// Nearest chip on the pad channel (judged or not) that has a sound, for
/// pad-over-chip priority: (chip index, sound slot, channel).
pub fn nearest_chip_on_channel(channel: EChannel, audio_ms: i64, chart: &Chart) -> (r: Option<(usize, u32, EChannel)>)
    requires
        deltas_fit(chart.chips@, audio_ms as int),
    ensures
        r is None <==> !exists|i: int| sounding(chart.chips@, channel, i),
        r matches Some(t) ==> is_nearest_sounding(chart.chips@, channel, audio_ms as int, t.0 as int)
            && t.1 == chart.chips@[t.0 as int].wav_slot && t.2 == channel,
{
    let ghost chips = chart.chips@;
    let mut best: Option<(usize, i64)> = None;
    let n = chart.chips.len();
    for idx in 0..n
        invariant
            n == chips.len(),
            chips == chart.chips@,
            deltas_fit(chips, audio_ms as int),
            best is None ==> forall|j: int| 0 <= j < idx ==> !sounding(chips, channel, j),
            best matches Some(b) ==> {
                &&& 0 <= b.0 < idx
                &&& sounding(chips, channel, b.0 as int)
                &&& b.1 == abs(audio_ms - chips[b.0 as int].target_ms)
                &&& forall|j: int| 0 <= j < idx && #[trigger] sounding(chips, channel, j) ==> abs(
                    audio_ms - chips[b.0 as int].target_ms) < abs(audio_ms - chips[j].target_ms)
                    || (abs(audio_ms - chips[b.0 as int].target_ms) == abs(
                    audio_ms - chips[j].target_ms) && b.0 <= j)
            },
    {
        let chip = chart.chips[idx];
        if chip.channel == channel && chip.wav_slot != 0 {
            assert(i64::MIN < audio_ms - chips[idx as int].target_ms);
            let delta = audio_ms - chip.target_ms;
            let dist = if delta < 0 { -delta } else { delta };
            match best {
                Some((_, d)) if d <= dist => {},
                _ => best = Some((idx, dist)),
            }
        }
    }
    match best {
        Some((idx, _)) => Some((idx, chart.chips[idx].wav_slot, chart.chips[idx].channel)),
        None => None,
    }
}

/// Number of judgment lanes.
pub fn lane_count() -> (n: usize)
    ensures
        n == LANE_COUNT,
{
    LANE_COUNT
}

/// The lane a channel is judged on, if any.
pub fn lane_of_channel(channel: EChannel) -> (lane: Option<LaneId>)
    ensures
        lane matches Some(l) ==> spec_lane_of(channel) == Some(l as int),
        lane is None <==> spec_lane_of(channel) is None,
{
    lane_of(channel)
}

} // verus!
