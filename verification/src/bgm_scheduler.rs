//! Background-music chip scheduling.
//!
//! BGM channel chips trigger layered sounds at their chart times. The
//! earliest sounding BGM chip drives the background track; later
//! chips play as one-shot layers. If that track stops early, a
//! bounded number of restarts are attempted, spaced by a cooldown.

use std::collections::HashSet;

use vstd::prelude::*;

use crate::drum_groups::{Chart, Chip};
use crate::lane_map::EChannel;

verus! {

broadcast use vstd::std_specs::hash::group_hash_axioms;

/// Chip `i` is a BGM chip with a sound.
pub open spec fn sounding_bgm(chips: Seq<Chip>, i: int) -> bool {
    0 <= i < chips.len() && chips[i].channel == EChannel::BGM && chips[i].wav_slot != 0
}

/// True when the chart schedules at least one BGM chip with a sound.
pub fn chart_has_bgm_chips(chart: &Chart) -> (b: bool)
    ensures
        b == exists|i: int| sounding_bgm(chart.chips@, i),
{
    let n = chart.chips.len();
    for k in 0..n
        invariant
            n == chart.chips@.len(),
            forall|i: int| 0 <= i < k ==> !sounding_bgm(chart.chips@, i),
    {
        if chart.chips[k].channel == EChannel::BGM && chart.chips[k].wav_slot != 0 {
            assert(sounding_bgm(chart.chips@, k as int));
            return true;
        }
    }
    false
}

/// Chip `i` is the earliest sounding BGM chip (the first of equally early).
pub open spec fn is_primary(chips: Seq<Chip>, i: int) -> bool {
    &&& sounding_bgm(chips, i)
    &&& forall|j: int| #[trigger] sounding_bgm(chips, j) ==> chips[i].target_ms < chips[j].target_ms
        || (chips[i].target_ms == chips[j].target_ms && i <= j)
}

/// Index of the earliest BGM chip with a sound (by chart time).
pub fn find_primary_bgm_chip(chart: &Chart) -> (r: Option<usize>)
    ensures
        r is None <==> !exists|i: int| sounding_bgm(chart.chips@, i),
        r matches Some(i) ==> is_primary(chart.chips@, i as int),
{
    let ghost chips = chart.chips@;
    let mut best: Option<usize> = None;
    let n = chart.chips.len();
    for k in 0..n
        invariant
            n == chips.len(),
            chips == chart.chips@,
            best is None ==> forall|j: int| 0 <= j < k ==> !sounding_bgm(chips, j),
            best matches Some(b) ==> {
                &&& b < k
                &&& sounding_bgm(chips, b as int)
                &&& forall|j: int| 0 <= j < k && #[trigger] sounding_bgm(chips, j) ==> chips[b as int].target_ms
                    < chips[j].target_ms || (chips[b as int].target_ms == chips[j].target_ms && b <= j)
            },
    {
        let chip = chart.chips[k];
        if chip.channel == EChannel::BGM && chip.wav_slot != 0 {
            match best {
                Some(b) => {
                    if chip.target_ms < chart.chips[b].target_ms {
                        best = Some(k);
                    }
                },
                None => best = Some(k),
            }
        }
    }
    best
}

/// Whether a BGM chip counts as played: its play was requested, and for the
/// primary chip the gameplay clock is ready too.
pub fn bgm_chip_is_confirmed_played(is_primary: bool, clock_ready: bool, play_requested: bool) -> (b: bool)
    ensures
        b == (play_requested && (!is_primary || clock_ready)),
{
    play_requested && (!is_primary || clock_ready)
}

/// Minimum time between two restarts of a stopped background track.
pub const BGM_RECOVERY_COOLDOWN_MS: i64 = 1000;
/// Restarts attempted before giving up.
pub const BGM_RECOVERY_MAX_ATTEMPTS: u8 = 3;

/// Restart bookkeeping for the background track.
#[derive(Debug, Clone, Copy, PartialEq, Eq, Structural)]
pub struct BgmRecoveryState {
    pub attempts: u8,
    pub last_restart_ms: i64,
    pub gave_up: bool,
}

impl Default for BgmRecoveryState {
    fn default() -> (s: Self)
        ensures
            s.attempts == 0,
            s.last_restart_ms == 0,
            !s.gave_up,
    {
        BgmRecoveryState { attempts: 0, last_restart_ms: 0, gave_up: false }
    }
}

/// What the caller observes this frame.
#[derive(Debug, Clone, Copy, PartialEq, Eq, Structural)]
pub struct RecoveryInputs {
    /// The stage's end was requested.
    pub end_requested: bool,
    /// The gameplay clock is ready.
    pub clock_ready: bool,
    /// Background music is enabled.
    pub bgm_enabled: bool,
    /// A background track instance exists.
    pub has_instance: bool,
    /// That instance has stopped playing.
    pub stopped: bool,
    /// The gameplay clock, in ms.
    pub now_ms: i64,
    /// The primary BGM chip exists and its file resolves.
    pub primary_available: bool,
}

/// What the caller must do.
#[derive(Debug, Clone, Copy, PartialEq, Eq, Structural)]
pub enum RecoveryAction {
    /// Nothing this frame.
    Wait,
    /// Recovery just gave up (report it once).
    GiveUp,
    /// Restart the primary track at the current clock position.
    Restart,
}

/// The recovery decision and next state.
pub open spec fn spec_recovery(s: BgmRecoveryState, i: RecoveryInputs) -> (BgmRecoveryState, RecoveryAction) {
    if i.end_requested || !i.clock_ready || !i.bgm_enabled || !i.has_instance || !i.stopped || s.gave_up {
        (s, RecoveryAction::Wait)
    } else if i.now_ms - s.last_restart_ms < BGM_RECOVERY_COOLDOWN_MS {
        (s, RecoveryAction::Wait)
    } else if s.attempts >= BGM_RECOVERY_MAX_ATTEMPTS {
        (BgmRecoveryState { gave_up: true, ..s }, RecoveryAction::GiveUp)
    } else if !i.primary_available {
        (s, RecoveryAction::Wait)
    } else {
        (BgmRecoveryState { attempts: (s.attempts + 1) as u8, last_restart_ms: i.now_ms, gave_up: false }, RecoveryAction::Restart)
    }
}

/// The decision gets as far as comparing the time since the last restart
/// with the cooldown: a stopped track while the clock runs, BGM is on, no
/// end is requested, and recovery has not given up.
pub open spec fn recovery_checks_cooldown(s: BgmRecoveryState, i: RecoveryInputs) -> bool {
    !(i.end_requested || !i.clock_ready || !i.bgm_enabled || !i.has_instance || !i.stopped || s.gave_up)
}

impl BgmRecoveryState {
    /// Decide whether to restart a stopped background track this frame, and
    /// record the restart or the give-up.
    pub fn decide(&mut self, inputs: RecoveryInputs) -> (a: RecoveryAction)
        requires
            recovery_checks_cooldown(*old(self), inputs) ==> i64::MIN <= inputs.now_ms - old(self).last_restart_ms
                <= i64::MAX,
        ensures
            (*final(self), a) == spec_recovery(*old(self), inputs),
    {
        if inputs.end_requested || !inputs.clock_ready || !inputs.bgm_enabled {
            return RecoveryAction::Wait;
        }
        if !inputs.has_instance || !inputs.stopped {
            return RecoveryAction::Wait;
        }
        if self.gave_up {
            return RecoveryAction::Wait;
        }
        if inputs.now_ms - self.last_restart_ms < BGM_RECOVERY_COOLDOWN_MS {
            return RecoveryAction::Wait;
        }
        if self.attempts >= BGM_RECOVERY_MAX_ATTEMPTS {
            self.gave_up = true;
            return RecoveryAction::GiveUp;
        }
        if !inputs.primary_available {
            return RecoveryAction::Wait;
        }
        self.attempts = self.attempts + 1;
        self.last_restart_ms = inputs.now_ms;
        RecoveryAction::Restart
    }
}

/// Recovery never restarts more than the attempt budget, restarts are at
/// least a cooldown apart, and giving up is final.
pub proof fn lemma_recovery_bounded(s: BgmRecoveryState, i: RecoveryInputs)
    requires
        s.attempts <= BGM_RECOVERY_MAX_ATTEMPTS,
    ensures
        ({
            let (s2, a) = spec_recovery(s, i);
            &&& s2.attempts <= BGM_RECOVERY_MAX_ATTEMPTS
            &&& a == RecoveryAction::Restart ==> !s.gave_up && s.attempts < BGM_RECOVERY_MAX_ATTEMPTS
                && i.now_ms - s.last_restart_ms >= BGM_RECOVERY_COOLDOWN_MS && s2.attempts == s.attempts + 1
            &&& s.gave_up ==> s2 == s && a == RecoveryAction::Wait
            &&& a != RecoveryAction::Restart ==> s2.attempts == s.attempts && s2.last_restart_ms
                == s.last_restart_ms
        }),
{
}

/// Forget every played chip and the recovery bookkeeping (a new play).
pub fn reset_played_bgm(played: &mut HashSet<usize>, recovery: &mut BgmRecoveryState)
    ensures
        final(played)@ == Set::<usize>::empty(),
        *final(recovery) == (BgmRecoveryState { attempts: 0, last_restart_ms: 0, gave_up: false }),
{
    played.clear();
    *recovery = BgmRecoveryState::default();
}

/// How a due BGM chip sounds.
#[derive(Debug, Clone, Copy, PartialEq, Eq, Structural)]
pub enum BgmCueKind {
    /// The primary chip: (re)starts the background track.
    Track,
    /// Any later chip: a one-shot layer over the track.
    Layer,
}

/// One BGM chip to start this frame.
#[derive(Debug, Clone, Copy, PartialEq, Eq, Structural)]
pub struct BgmCue {
    pub chip: usize,
    pub kind: BgmCueKind,
}

/// What the scheduler sees this frame.
pub struct BgmFrame<'a> {
    /// The gameplay clock has started.
    pub clock_started: bool,
    /// The gameplay clock is ready (audio-driven time is valid).
    pub clock_ready: bool,
    /// The gameplay clock, in ms.
    pub now_ms: i64,
    /// The chart declares sound files.
    pub has_wav_assets: bool,
    /// Background music is enabled.
    pub bgm_enabled: bool,
    /// The BGM timing adjustment added to every BGM chip's time.
    pub bgm_shift_ms: i64,
    /// The primary (earliest sounding) BGM chip.
    pub primary: Option<usize>,
    /// Per chip, the resolved sound file path (None when it cannot resolve).
    pub paths: &'a [Option<String>],
    /// The path of the background track already playing, if any.
    pub playing_path: Option<&'a str>,
}

/// Chip `i` is a BGM chip not yet played whose (shifted) time has come.
pub open spec fn bgm_due(chips: Seq<Chip>, played: Set<usize>, now: int, shift: int, i: int) -> bool {
    &&& chips[i].channel == EChannel::BGM
    &&& !played.contains(i as usize)
    &&& chips[i].wav_slot != 0
    &&& chips[i].target_ms + shift <= now
}

/// The resolved path of chip `i`, if any.
pub open spec fn path_of(paths: Seq<Option<String>>, i: int) -> Option<Seq<char>> {
    if 0 <= i < paths.len() {
        match paths[i] {
            Some(p) => Some(p@),
            None => None,
        }
    } else {
        None
    }
}

/// Chip `i` starts this frame (it is not already the playing background track).
pub open spec fn bgm_starts(
    chips: Seq<Chip>,
    played: Set<usize>,
    now: int,
    shift: int,
    enabled: bool,
    paths: Seq<Option<String>>,
    playing: Option<Seq<char>>,
    i: int,
) -> bool {
    &&& bgm_due(chips, played, now, shift, i)
    &&& enabled
    &&& path_of(paths, i) is Some
    &&& playing != path_of(paths, i)
}

/// Chip `i` counts as played after this frame.
pub open spec fn bgm_marked(
    chips: Seq<Chip>,
    played: Set<usize>,
    now: int,
    shift: int,
    enabled: bool,
    paths: Seq<Option<String>>,
    primary: Option<usize>,
    clock_ready: bool,
    i: int,
) -> bool {
    &&& chips[i].channel == EChannel::BGM
    &&& !played.contains(i as usize)
    &&& (chips[i].wav_slot == 0 || (bgm_due(chips, played, now, shift, i) && (!enabled || (path_of(paths, i) is Some
        && (primary != Some(i as usize) || clock_ready)))))
}

/// The cues (in chart order) among the first `n` chips.
pub open spec fn spec_cues(
    chips: Seq<Chip>,
    played: Set<usize>,
    now: int,
    shift: int,
    enabled: bool,
    paths: Seq<Option<String>>,
    playing: Option<Seq<char>>,
    primary: Option<usize>,
    n: int,
) -> Seq<BgmCue>
    decreases n,
{
    if n <= 0 {
        Seq::empty()
    } else {
        let rest = spec_cues(chips, played, now, shift, enabled, paths, playing, primary, n - 1);
        if bgm_starts(chips, played, now, shift, enabled, paths, playing, n - 1) {
            rest.push(
                BgmCue {
                    chip: (n - 1) as usize,
                    kind: if primary == Some((n - 1) as usize) { BgmCueKind::Track } else { BgmCueKind::Layer },
                },
            )
        } else {
            rest
        }
    }
}

pub open spec fn opt_str(o: Option<&str>) -> Option<Seq<char>> {
    match o {
        Some(s) => Some(s@),
        None => None,
    }
}

fn same_path(playing: Option<&str>, path: &String) -> (b: bool)
    ensures
        b == (opt_str(playing) == Some(path@)),
{
    match playing {
        Some(t) => {
            let owned = t.to_owned();
            owned == *path
        },
        None => false,
    }
}

/// One frame of BGM scheduling: the chips to start, in chart order, and
/// the chips that now count as played. Silent BGM chips are marked played
/// at once; with BGM disabled due chips are consumed silently; a chip
/// whose file is already the playing background track is not restarted; the primary
/// chip counts as played only once the clock is ready (so a restart before
/// that can still pick it up). Nothing happens before the clock starts or
/// when the chart has no sound files.
pub fn schedule_bgm_chips(chart: &Chart, frame: &BgmFrame, played: &mut HashSet<usize>) -> (cues: Vec<BgmCue>)
    ensures
        !(frame.clock_started && frame.has_wav_assets) ==> cues@ == Seq::<BgmCue>::empty() && final(played)@ == old(
            played,
        )@,
        frame.clock_started && frame.has_wav_assets ==> {
            &&& cues@ == spec_cues(
                chart.chips@,
                old(played)@,
                frame.now_ms as int,
                frame.bgm_shift_ms as int,
                frame.bgm_enabled,
                frame.paths@,
                opt_str(frame.playing_path),
                frame.primary,
                chart.chips@.len() as int,
            )
            &&& final(played)@ == old(played)@.union(
                Set::new(
                    |i: usize|
                        0 <= i < chart.chips@.len() && bgm_marked(
                            chart.chips@,
                            old(played)@,
                            frame.now_ms as int,
                            frame.bgm_shift_ms as int,
                            frame.bgm_enabled,
                            frame.paths@,
                            frame.primary,
                            frame.clock_ready,
                            i as int,
                        ),
                ),
            )
        },
{
    let mut cues: Vec<BgmCue> = Vec::new();
    if !frame.clock_started || !frame.has_wav_assets {
        return cues;
    }
    let ghost p0 = played@;
    let ghost chips = chart.chips@;
    let ghost now = frame.now_ms as int;
    let ghost shift = frame.bgm_shift_ms as int;
    let ghost playing = opt_str(frame.playing_path);
    let n = chart.chips.len();
    for idx in 0..n
        invariant
            n == chips.len(),
            chips == chart.chips@,
            now == frame.now_ms as int,
            shift == frame.bgm_shift_ms as int,
            playing == opt_str(frame.playing_path),
            cues@ == spec_cues(chips, p0, now, shift, frame.bgm_enabled, frame.paths@, playing, frame.primary, idx as int),
            played@ == p0.union(
                Set::new(
                    |i: usize|
                        0 <= i < idx && bgm_marked(
                            chips,
                            p0,
                            now,
                            shift,
                            frame.bgm_enabled,
                            frame.paths@,
                            frame.primary,
                            frame.clock_ready,
                            i as int,
                        ),
                ),
            ),
    {
        let ghost before = played@;
        assert(before.contains(idx) == p0.contains(idx));
        let chip = chart.chips[idx];
        if chip.channel == EChannel::BGM && !played.contains(&idx) {
            if chip.wav_slot == 0 {
                played.insert(idx);
            } else if chip.target_ms as i128 + frame.bgm_shift_ms as i128 <= frame.now_ms as i128 {
                if !frame.bgm_enabled {
                    played.insert(idx);
                } else if idx < frame.paths.len() {
                    match &frame.paths[idx] {
                        None => {},
                        Some(path) => {
                            let is_primary = match frame.primary {
                                Some(p) => p == idx,
                                None => false,
                            };
                            if !same_path(frame.playing_path, path) {
                                let kind = if is_primary { BgmCueKind::Track } else { BgmCueKind::Layer };
                                cues.push(BgmCue { chip: idx, kind });
                            }
                            if bgm_chip_is_confirmed_played(is_primary, frame.clock_ready, true) {
                                played.insert(idx);
                            }
                        },
                    }
                }
            }
        }
        assert(played@ =~= p0.union(
            Set::new(
                |i: usize|
                    0 <= i < idx + 1 && bgm_marked(
                        chips,
                        p0,
                        now,
                        shift,
                        frame.bgm_enabled,
                        frame.paths@,
                        frame.primary,
                        frame.clock_ready,
                        i as int,
                    ),
            ),
        ));
    }
    cues
}

/// What starting a play does about the background track.
#[derive(Debug, Clone, Copy, PartialEq, Eq, Structural)]
pub enum BootstrapStep {
    /// Nothing to start (BGM off, already playing, or already played).
    Ready,
    /// No primary chip or no file for it: the clock must not wait on BGM.
    Unavailable,
    /// Start the primary chip's track, faded in with the screen.
    Start(usize),
}

/// Decide how a play starts its background track: nothing when BGM is off,
/// a track already plays, or the primary chip was played; otherwise start
/// the primary chip when its file resolves.
pub fn bootstrap_primary_bgm_chip(
    bgm_enabled: bool,
    has_instance: bool,
    primary: Option<usize>,
    played: &HashSet<usize>,
    primary_path_resolves: bool,
) -> (step: BootstrapStep)
    ensures
        step == (if !bgm_enabled || has_instance {
            BootstrapStep::Ready
        } else {
            match primary {
                None => BootstrapStep::Unavailable,
                Some(i) => if played@.contains(i) {
                    BootstrapStep::Ready
                } else if !primary_path_resolves {
                    BootstrapStep::Unavailable
                } else {
                    BootstrapStep::Start(i)
                },
            }
        }),
{
    if !bgm_enabled || has_instance {
        return BootstrapStep::Ready;
    }
    match primary {
        None => BootstrapStep::Unavailable,
        Some(i) => if played.contains(&i) {
            BootstrapStep::Ready
        } else if !primary_path_resolves {
            BootstrapStep::Unavailable
        } else {
            BootstrapStep::Start(i)
        },
    }
}

} // verus!
