//! Input-offset tap-test calibration: robust statistics over tap errors and
//! the guided 120 BPM beat grid.

use vstd::prelude::*;
use vstd::relations::{sorted_by, total_ordering};

verus! {

/// Number of stable taps required before calibration may change the setting.
pub const TARGET_ACCEPTED_SAMPLES: usize = 12;
/// Samples beyond this distance from the first median are accidental taps.
pub const OUTLIER_DISTANCE_MS: i32 = 100;
/// Largest accepted median absolute deviation that is safe to apply.
pub const MAX_MAD_MS: i32 = 20;
/// One 60 Hz display frame: larger click-scheduling delay weakens confidence.
pub const MAX_SCHEDULER_DELAY_MS: i32 = 34;
/// Largest magnitude of the input offset setting, in ms.
pub const INPUT_OFFSET_CLAMP_MS: i32 = 300;
/// Spacing of the guided beats, in ms (120 BPM).
pub const BEAT_INTERVAL_MS: u64 = 500;
/// Silence before the first guided beat, in ms.
pub const LEAD_IN_MS: u64 = 1000;
/// How long the preview note holds on the strike line, in ms.
pub const PREVIEW_HIT_HOLD_MS: u64 = 80;
/// Number of guided beats.
pub const BEAT_COUNT: usize = 16;

/// Ascending order on `i32`.
pub open spec fn leq_i32() -> spec_fn(i32, i32) -> bool {
    |a: i32, b: i32| a <= b
}

/// `s` in ascending order.
pub open spec fn sorted_i32(s: Seq<i32>) -> Seq<i32> {
    s.sort_by(leq_i32())
}

/// Median of a sample set: the middle element (upper middle for an even
/// count) of the samples in ascending order; 0 for no samples.
pub open spec fn spec_median(s: Seq<i32>) -> i32 {
    if s.len() == 0 { 0 } else { sorted_i32(s)[(s.len() / 2) as int] }
}

proof fn lemma_leq_total()
    ensures
        total_ordering(leq_i32()),
{
    let r = leq_i32();
    assert forall|x: i32, y: i32| #[trigger] r(x, y) && #[trigger] r(y, x) implies x == y by {}
    assert forall|x: i32, y: i32, z: i32| #[trigger] r(x, y) && #[trigger] r(y, z) implies r(x, z) by {}
}

/// A sorted permutation of `s` is the ascending order of `s`.
proof fn lemma_sorted_is_sort(v: Seq<i32>, s: Seq<i32>)
    requires
        sorted_by(v, leq_i32()),
        v.to_multiset() == s.to_multiset(),
    ensures
        v == sorted_i32(s),
{
    lemma_leq_total();
    s.lemma_sort_by_ensures(leq_i32());
    vstd::seq_lib::lemma_sorted_unique(v, sorted_i32(s), leq_i32());
}

/// The median of a non-empty sample set is one of the samples.
pub proof fn lemma_median_is_sample(s: Seq<i32>)
    requires
        s.len() > 0,
    ensures
        s.contains(spec_median(s)),
{
    lemma_leq_total();
    s.lemma_sort_by_ensures(leq_i32());
    let t = sorted_i32(s);
    broadcast use vstd::seq_lib::group_to_multiset_ensures;
    assert(t.to_multiset().len() == s.to_multiset().len());
    assert(t.len() == s.len());
    assert(t.contains(t[(s.len() / 2) as int]));
    assert(t.to_multiset().count(t[(s.len() / 2) as int]) > 0);
}

/// Sort `v` ascending in place.
fn sort_in_place(v: &mut Vec<i32>)
    ensures
        final(v)@.len() == old(v)@.len(),
        final(v)@.to_multiset() == old(v)@.to_multiset(),
        sorted_by(final(v)@, leq_i32()),
{
    broadcast use vstd::seq_lib::group_to_multiset_ensures;
    broadcast use vstd::multiset::group_multiset_axioms;
    let n = v.len();
    let mut i: usize = 1;
    if n == 0 {
        return;
    }
    while i < n
        invariant
            1 <= i <= n,
            n == v@.len(),
            v@.to_multiset() == old(v)@.to_multiset(),
            sorted_by(v@.take(i as int), leq_i32()),
        decreases n - i,
    {
        let mut j: usize = i;
        assert forall|a: int, b: int| 0 <= a < b < i implies v@[a] <= v@[b] by {
            assert(leq_i32()(v@.take(i as int)[a], v@.take(i as int)[b]));
        }
        while j > 0 && v[j - 1] > v[j]
            invariant
                0 <= j <= i < n,
                n == v@.len(),
                v@.to_multiset() == old(v)@.to_multiset(),
                // prefix before j is sorted, element j is the moving one, and
                // the part after j (up to i) is sorted and >= element j
                forall|a: int, b: int| 0 <= a < b <= i && a != j && b != j ==> v@[a] <= v@[b],
                forall|b: int| j < b <= i ==> v@[j as int] <= v@[b],
            decreases j,
        {
            let a = v[j - 1];
            let b = v[j];
            let ghost before = v@;
            v.set(j, a);
            v.set(j - 1, b);
            proof {
                let mid = before.update(j as int, a);
                vstd::seq_lib::to_multiset_update(before, j as int, a);
                assert(mid.to_multiset() == before.to_multiset().insert(a).remove(b));
                assert(v@ == mid.update(j - 1, b));
                vstd::seq_lib::to_multiset_update(mid, j - 1, b);
                assert(v@.to_multiset() == mid.to_multiset().insert(b).remove(mid[j - 1]));
                assert(mid[j - 1] == a);
                let m0 = before.to_multiset();
                assert(m0.count(a) > 0 && m0.count(b) > 0) by {
                    assert(before[j - 1] == a && before[j as int] == b);
                    vstd::seq_lib::to_multiset_contains(before, a);
                    vstd::seq_lib::to_multiset_contains(before, b);
                }
                assert(v@.to_multiset() =~= m0);
            }
            j = j - 1;
        }
        proof {
            assert forall|x: int, y: int| 0 <= x < y < i + 1 implies (#[trigger] leq_i32()(v@.take(i + 1)[x], v@.take(i + 1)[y])) by {
                assert(v@.take(i + 1)[x] == v@[x]);
                assert(v@.take(i + 1)[y] == v@[y]);
                if x != j && y != j {
                } else if x == j {
                } else {
                    // y == j: everything before j is <= v[j] once the loop stops
                    if j > 0 {
                        assert(v@[j - 1] <= v@[j as int]);
                        if x < j - 1 {
                            assert(v@[x] <= v@[j - 1]);
                        }
                    }
                }
            }
        }
        i = i + 1;
    }
    assert(v@.take(n as int) =~= v@);
}

/// Median of a sample set (integer ms). Empty: 0.
pub fn median(samples: &[i32]) -> (m: i32)
    ensures
        m == spec_median(samples@),
{
    let n = samples.len();
    if n == 0 {
        return 0;
    }
    let mut v: Vec<i32> = Vec::new();
    for k in 0..n
        invariant
            n == samples@.len(),
            v@ == samples@.take(k as int),
    {
        v.push(samples[k]);
        assert(v@ =~= samples@.take(k + 1));
    }
    assert(samples@.take(n as int) =~= samples@);
    sort_in_place(&mut v);
    proof {
        lemma_sorted_is_sort(v@, samples@);
    }
    v[n / 2]
}

/// `x` limited to `[lo, hi]`.
pub open spec fn clamp(x: int, lo: int, hi: int) -> int {
    if x < lo { lo } else if x > hi { hi } else { x }
}

/// Suggested input offset from the median tap error. The judge computes
/// `delta = (audio_ms - input_offset) - target` against the same beat grid
/// the taps are measured on, so the median error itself is the offset that
/// zeroes delta; it is limited to `[-clamp, clamp]`.
pub fn suggested_offset(median_err: i32, clamp_ms: i32) -> (o: i32)
    requires
        clamp_ms >= 0,
    ensures
        o == clamp(median_err as int, -clamp_ms, clamp_ms as int),
{
    if median_err < -clamp_ms {
        -clamp_ms
    } else if median_err > clamp_ms {
        clamp_ms
    } else {
        median_err
    }
}

/// Whether calibration evidence is sufficiently stable to replace manual
/// input timing adjustment.
#[derive(Debug, Clone, Copy, PartialEq, Eq, Structural)]
pub enum Confidence {
    High,
    Low,
}

/// Robust summary of raw calibration tap errors.
#[derive(Debug, Clone, PartialEq, Eq, Structural)]
pub struct CalibrationReport {
    pub proposed_offset_ms: i32,
    pub accepted_samples: usize,
    pub rejected_samples: usize,
    pub spread_mad_ms: i32,
    pub max_scheduler_delay_ms: i32,
    pub confidence: Confidence,
}

pub open spec fn abs(x: int) -> int {
    if x < 0 { -x } else { x }
}

/// The samples within the outlier distance of `center`, in order.
pub open spec fn near(s: Seq<i32>, center: int) -> Seq<i32>
    decreases s.len(),
{
    if s.len() == 0 {
        s
    } else {
        let rest = near(s.drop_last(), center);
        if abs(s.last() - center) <= OUTLIER_DISTANCE_MS { rest.push(s.last()) } else { rest }
    }
}

/// Absolute deviations of the samples from `center`.
pub open spec fn deviations(s: Seq<i32>, center: int) -> Seq<i32> {
    s.map_values(|v: i32| abs(v - center) as i32)
}

/// Largest value of `s`, or 0 if it is empty or all negative.
pub open spec fn max_or_zero(s: Seq<i32>) -> int
    decreases s.len(),
{
    if s.len() == 0 {
        0
    } else {
        let m = max_or_zero(s.drop_last());
        if s.last() > m { s.last() as int } else { m }
    }
}

/// The report for tap errors and click-scheduling delays.
pub open spec fn spec_report(errors: Seq<i32>, delays: Seq<i32>) -> CalibrationReport {
    let accepted = near(errors, spec_median(errors) as int);
    let proposed = spec_median(accepted);
    let spread = spec_median(deviations(accepted, proposed as int));
    let max_delay = max_or_zero(delays);
    let rejected = errors.len() - accepted.len();
    CalibrationReport {
        proposed_offset_ms: proposed,
        accepted_samples: accepted.len() as usize,
        rejected_samples: rejected as usize,
        spread_mad_ms: spread,
        max_scheduler_delay_ms: max_delay as i32,
        confidence: if accepted.len() >= TARGET_ACCEPTED_SAMPLES && rejected * 4 <= errors.len()
            && spread <= MAX_MAD_MS && max_delay <= MAX_SCHEDULER_DELAY_MS {
            Confidence::High
        } else {
            Confidence::Low
        },
    }
}

proof fn lemma_near(s: Seq<i32>, center: int)
    ensures
        near(s, center).len() <= s.len(),
        forall|k: int| 0 <= k < near(s, center).len() ==> abs(#[trigger] near(s, center)[k] - center) <= OUTLIER_DISTANCE_MS,
    decreases s.len(),
{
    if s.len() > 0 {
        lemma_near(s.drop_last(), center);
        let rest = near(s.drop_last(), center);
        if abs(s.last() - center) <= OUTLIER_DISTANCE_MS {
            assert forall|k: int| 0 <= k < rest.push(s.last()).len() implies abs(#[trigger] rest.push(s.last())[k] - center) <= OUTLIER_DISTANCE_MS by {
                if k < rest.len() {
                    assert(rest.push(s.last())[k] == rest[k]);
                }
            }
        }
    }
}

proof fn lemma_max_or_zero(s: Seq<i32>)
    ensures
        0 <= max_or_zero(s) <= i32::MAX,
    decreases s.len(),
{
    if s.len() > 0 {
        lemma_max_or_zero(s.drop_last());
    }
}

/// A report is confident exactly when its evidence is strong enough to
/// replace the manual offset: at least `TARGET_ACCEPTED_SAMPLES` accepted
/// taps, at most a quarter of all taps rejected, a spread (median absolute
/// deviation) of at most `MAX_MAD_MS`, and no click delayed by more than
/// `MAX_SCHEDULER_DELAY_MS`. Every tap is either accepted or rejected.
pub proof fn lemma_report_confidence(errors: Seq<i32>, delays: Seq<i32>)
    requires
        errors.len() <= usize::MAX,
    ensures
        ({
            let r = spec_report(errors, delays);
            &&& r.accepted_samples + r.rejected_samples == errors.len()
            &&& (r.confidence == Confidence::High <==> {
                &&& r.accepted_samples >= TARGET_ACCEPTED_SAMPLES
                &&& r.rejected_samples * 4 <= errors.len()
                &&& r.spread_mad_ms <= MAX_MAD_MS
                &&& r.max_scheduler_delay_ms <= MAX_SCHEDULER_DELAY_MS
            })
        }),
{
    lemma_near(errors, spec_median(errors) as int);
    lemma_max_or_zero(delays);
}

impl CalibrationReport {
    /// Reject remote samples around the raw median, then calculate the
    /// proposal and the median absolute deviation from the remaining evidence.
    pub fn from_errors(errors: &[i32], scheduler_delays: &[i32]) -> (r: Self)
        ensures
            r == spec_report(errors@, scheduler_delays@),
            r.accepted_samples + r.rejected_samples == errors@.len(),
            r.confidence == Confidence::High <==> {
                &&& r.accepted_samples >= TARGET_ACCEPTED_SAMPLES
                &&& r.rejected_samples * 4 <= errors@.len()
                &&& r.spread_mad_ms <= MAX_MAD_MS
                &&& r.max_scheduler_delay_ms <= MAX_SCHEDULER_DELAY_MS
            },
    {
        // Reading the length brings in that the tap count fits a `usize`.
        let _tap_count: usize = errors.len();
        proof {
            lemma_report_confidence(errors@, scheduler_delays@);
        }
        let center = median(errors);
        let ghost c = center as int;
        let n = errors.len();
        let mut accepted: Vec<i32> = Vec::new();
        for k in 0..n
            invariant
                n == errors@.len(),
                c == center as int,
                accepted@ == near(errors@.take(k as int), c),
        {
            assert(errors@.take(k + 1).drop_last() =~= errors@.take(k as int));
            let e = errors[k];
            let d: i64 = e as i64 - center as i64;
            let ad: i64 = if d < 0 { -d } else { d };
            if ad <= OUTLIER_DISTANCE_MS as i64 {
                accepted.push(e);
            }
        }
        assert(errors@.take(n as int) =~= errors@);
        let proposed_offset_ms = median(&accepted);
        proof {
            lemma_near(errors@, c);
        }
        let na = accepted.len();
        proof {
            if na > 0 {
                lemma_median_is_sample(accepted@);
            }
        }
        let mut devs: Vec<i32> = Vec::new();
        for k in 0..na
            invariant
                na == accepted@.len(),
                accepted@ == near(errors@, c),
                devs@ == deviations(accepted@.take(k as int), proposed_offset_ms as int),
                accepted@.len() > 0 ==> accepted@.contains(proposed_offset_ms),
                forall|i: int| 0 <= i < accepted@.len() ==> abs(#[trigger] accepted@[i] - c) <= OUTLIER_DISTANCE_MS,
        {
            proof {
                let j = choose|j: int| 0 <= j < accepted@.len() && accepted@[j] == proposed_offset_ms;
                assert(abs(accepted@[j] - c) <= OUTLIER_DISTANCE_MS);
                assert(abs(accepted@[k as int] - c) <= OUTLIER_DISTANCE_MS);
            }
            let v = accepted[k];
            let d: i64 = v as i64 - proposed_offset_ms as i64;
            let ad: i64 = if d < 0 { -d } else { d };
            devs.push(ad as i32);
            assert(devs@ =~= deviations(accepted@.take(k + 1), proposed_offset_ms as int));
        }
        assert(accepted@.take(na as int) =~= accepted@);
        let spread_mad_ms = median(&devs);
        let nd = scheduler_delays.len();
        let mut max_delay: i32 = 0;
        for k in 0..nd
            invariant
                nd == scheduler_delays@.len(),
                max_delay as int == max_or_zero(scheduler_delays@.take(k as int)),
        {
            assert(scheduler_delays@.take(k + 1).drop_last() =~= scheduler_delays@.take(k as int));
            if scheduler_delays[k] > max_delay {
                max_delay = scheduler_delays[k];
            }
        }
        assert(scheduler_delays@.take(nd as int) =~= scheduler_delays@);
        let rejected_samples = n - na;
        let confidence = if na >= TARGET_ACCEPTED_SAMPLES && rejected_samples <= n / 4
            && spread_mad_ms <= MAX_MAD_MS && max_delay <= MAX_SCHEDULER_DELAY_MS {
            Confidence::High
        } else {
            Confidence::Low
        };
        CalibrationReport {
            proposed_offset_ms,
            accepted_samples: na,
            rejected_samples,
            spread_mad_ms,
            max_scheduler_delay_ms: max_delay,
            confidence,
        }
    }

    /// Whether the evidence is strong enough to replace the manual setting.
    pub fn can_apply(&self) -> (b: bool)
        ensures
            b == (self.confidence == Confidence::High),
    {
        match self.confidence {
            Confidence::High => true,
            Confidence::Low => false,
        }
    }
}

/// Replace a manual setting only when the collected evidence is stable.
pub fn apply_report(current: &mut i32, report: &CalibrationReport)
    ensures
        report.confidence == Confidence::High ==> *final(current) == clamp(
            report.proposed_offset_ms as int,
            -INPUT_OFFSET_CLAMP_MS,
            INPUT_OFFSET_CLAMP_MS as int,
        ),
        report.confidence == Confidence::Low ==> *final(current) == *old(current),
{
    if report.can_apply() {
        *current = suggested_offset(report.proposed_offset_ms, INPUT_OFFSET_CLAMP_MS);
    }
}

/// A MIDI device that was connected when calibration started is gone.
pub fn midi_disconnect_detected(was_connected: bool, is_connected: bool) -> (b: bool)
    ensures
        b == (was_connected && !is_connected),
{
    was_connected && !is_connected
}

/// Return the runtime toggles to their snapshot.
pub fn restore_toggles(
    metronome: &mut bool,
    timing_lines: &mut bool,
    autoplay: &mut bool,
    prev_metronome: bool,
    prev_timing_lines: bool,
    prev_autoplay: bool,
)
    ensures
        *final(metronome) == prev_metronome,
        *final(timing_lines) == prev_timing_lines,
        *final(autoplay) == prev_autoplay,
{
    *metronome = prev_metronome;
    *timing_lines = prev_timing_lines;
    *autoplay = prev_autoplay;
}

/// Number of guided clicks due `elapsed_ms` after the first beat.
pub open spec fn spec_due_beats(elapsed_ms: int) -> int {
    let due = elapsed_ms / BEAT_INTERVAL_MS as int + 1;
    if due < BEAT_COUNT { due } else { BEAT_COUNT as int }
}

/// Number of scheduled clicks that should have fired `elapsed_ms` after the
/// first beat (the first beat itself counts).
pub fn due_beat_count_after(elapsed_ms: u128) -> (n: usize)
    ensures
        n == spec_due_beats(elapsed_ms as int),
{
    let due = elapsed_ms / 500 + 1;
    if due < 16 { due as usize } else { BEAT_COUNT }
}

/// Signed distance (ms) from a tap `elapsed_ms` after the first beat
/// (negative before it) to the nearest beat of the grid.
pub open spec fn spec_beat_error(elapsed_ms: int) -> int {
    let interval = BEAT_INTERVAL_MS as int;
    let nearest = ((elapsed_ms + interval / 2) / interval) * interval;
    elapsed_ms - nearest
}

/// Signed distance from a tap to the nearest scheduled beat; in
/// [-interval/2, interval/2).
pub fn beat_error_ms(elapsed_ms: i64) -> (e: i32)
    ensures
        e == spec_beat_error(elapsed_ms as int),
        -250 <= e < 250,
{
    let interval: i128 = 500;
    let elapsed = elapsed_ms as i128;
    let shifted = elapsed + interval / 2;
    // floor division (Euclidean for a positive divisor)
    let q: i128 = if shifted >= 0 {
        shifted / interval
    } else {
        let m = -shifted;
        let c = (m + interval - 1) / interval;
        assert(500 * c <= m + 499 < 500 * c + 500);
        -c
    };
    assert(500 * q <= shifted < 500 * q + 500);
    assert(q == shifted / 500);
    let nearest = q * interval;
    let e = elapsed - nearest;
    e as i32
}

/// Every beat error lies within half an interval of its beat.
pub proof fn lemma_beat_error_bounded(elapsed_ms: int)
    ensures
        -250 <= spec_beat_error(elapsed_ms) < 250,
{
    let q = (elapsed_ms + 250) / 500;
    assert(500 * q <= elapsed_ms + 250 < 500 * q + 500);
}

/// The due-click count never decreases as time passes and never exceeds the
/// number of guided beats.
pub proof fn lemma_due_beats_monotone(a: int, b: int)
    requires
        0 <= a <= b,
    ensures
        spec_due_beats(a) <= spec_due_beats(b),
        1 <= spec_due_beats(a) <= BEAT_COUNT,
{
    assert(a / 500 <= b / 500) by (nonlinear_arith)
        requires 0 <= a <= b;
    assert(a / 500 >= 0) by (nonlinear_arith)
        requires 0 <= a;
}

/// Clicks due `offset_ms` after the first beat (none before it).
pub open spec fn spec_due_at(offset_ms: int) -> int {
    if offset_ms < 0 { 0 } else { spec_due_beats(offset_ms) }
}

/// Number of scheduled clicks due at a time `offset_ms` from the first beat
/// (negative before it).
pub fn due_beats_at(offset_ms: i64) -> (n: usize)
    ensures
        n == spec_due_at(offset_ms as int),
{
    if offset_ms < 0 {
        0
    } else {
        due_beat_count_after(offset_ms as u128)
    }
}

/// Tap-test lifecycle. `S` is the caller's clock schedule, carried along.
pub enum CalibrationState<S> {
    Idle,
    Collecting {
        schedule: S,
        samples: Vec<i32>,
        scheduler_delays: Vec<i32>,
        fired_beats: usize,
        midi_was_connected: bool,
        midi_disconnected: bool,
        prev_metronome: bool,
        prev_timing_lines: bool,
        prev_autoplay: bool,
    },
    Done {
        report: CalibrationReport,
        midi_disconnected: bool,
        prev_metronome: bool,
        prev_timing_lines: bool,
        prev_autoplay: bool,
    },
}

/// The runtime toggles a calibration run took over, as
/// (metronome, timing lines, autoplay), if one is under way.
pub open spec fn snapshot_of<S>(state: CalibrationState<S>) -> Option<(bool, bool, bool)> {
    match state {
        CalibrationState::Idle => None,
        CalibrationState::Collecting { prev_metronome, prev_timing_lines, prev_autoplay, .. } => Some(
            (prev_metronome, prev_timing_lines, prev_autoplay),
        ),
        CalibrationState::Done { prev_metronome, prev_timing_lines, prev_autoplay, .. } => Some(
            (prev_metronome, prev_timing_lines, prev_autoplay),
        ),
    }
}

/// Enter the guided sequence (only from Idle): snapshot the runtime
/// toggles, turn the metronome and timing lines on and autoplay off, so
/// only physical keyboard or MIDI input is sampled.
pub fn start_calibration<S>(
    state: &mut CalibrationState<S>,
    schedule: S,
    metronome_on: &mut bool,
    timing_lines: &mut bool,
    autoplay: &mut bool,
    midi_connected: Option<bool>,
)
    ensures
        !(*old(state) is Idle) ==> *final(state) == *old(state) && *final(metronome_on) == *old(metronome_on)
            && *final(timing_lines) == *old(timing_lines) && *final(autoplay) == *old(autoplay),
        *old(state) is Idle ==> {
            &&& *final(metronome_on)
            &&& *final(timing_lines)
            &&& !*final(autoplay)
            &&& *final(state) matches CalibrationState::Collecting {
                schedule: sch,
                samples,
                scheduler_delays,
                fired_beats,
                midi_was_connected,
                midi_disconnected,
                ..
            } && sch == schedule && samples@.len() == 0 && scheduler_delays@.len() == 0 && fired_beats == 0
                && midi_was_connected == (midi_connected == Some(true)) && !midi_disconnected
            &&& snapshot_of(*final(state)) == Some((*old(metronome_on), *old(timing_lines), *old(autoplay)))
        },
{
    match state {
        CalibrationState::Idle => {},
        _ => return,
    }
    let was_connected = match midi_connected {
        Some(c) => c,
        None => false,
    };
    *state = CalibrationState::Collecting {
        schedule,
        samples: Vec::new(),
        scheduler_delays: Vec::new(),
        fired_beats: 0,
        midi_was_connected: was_connected,
        midi_disconnected: false,
        prev_metronome: *metronome_on,
        prev_timing_lines: *timing_lines,
        prev_autoplay: *autoplay,
    };
    *metronome_on = true;
    *timing_lines = true;
    *autoplay = false;
}

/// How late (ms, clamped into `[0, i32::MAX]`) beat `beat` fired at
/// `offset_ms` from the first beat.
pub open spec fn spec_click_delay(offset_ms: int, beat: int) -> int {
    let late = offset_ms - BEAT_INTERVAL_MS * beat;
    if late < 0 { 0 } else if late > i32::MAX { i32::MAX as int } else { late }
}

/// The delays of beats `from..to`, in order.
pub open spec fn spec_click_delays(offset_ms: int, from: int, to: int) -> Seq<i32>
    decreases to - from,
{
    if to <= from {
        Seq::empty()
    } else {
        spec_click_delays(offset_ms, from, to - 1).push(spec_click_delay(offset_ms, to - 1) as i32)
    }
}

/// Fire every beat due by `offset_ms` that has not fired yet, recording
/// each one's scheduler delay (a laggy frame lowers confidence but cannot
/// change the proposal), and note a MIDI disconnect. Returns how many
/// clicks to play now.
pub fn fire_synthetic_clicks<S>(state: &mut CalibrationState<S>, offset_ms: i64, midi_connected: Option<bool>) -> (clicks: usize)
    ensures
        !(*old(state) is Collecting) ==> *final(state) == *old(state) && clicks == 0,
        *old(state) matches CalibrationState::Collecting {
            schedule,
            samples,
            scheduler_delays,
            fired_beats,
            midi_was_connected,
            midi_disconnected,
            prev_metronome,
            prev_timing_lines,
            prev_autoplay,
        } ==> {
            let due = spec_due_at(offset_ms as int);
            let fired_now = if fired_beats < due { due - fired_beats } else { 0 };
            &&& clicks == fired_now
            &&& *final(state) matches CalibrationState::Collecting {
                schedule: sch2,
                samples: samples2,
                scheduler_delays: delays2,
                fired_beats: fired2,
                midi_was_connected: was2,
                midi_disconnected: dis2,
                prev_metronome: m2,
                prev_timing_lines: t2,
                prev_autoplay: a2,
            } && sch2 == schedule && samples2 == samples && was2 == midi_was_connected && m2 == prev_metronome
                && t2 == prev_timing_lines && a2 == prev_autoplay && fired2 == due
                && delays2@ == scheduler_delays@ + spec_click_delays(offset_ms as int, fired_beats as int, due)
                && dis2 == (midi_disconnected || (midi_connected matches Some(c) && midi_was_connected && !c))
        },
{
    match state {
        CalibrationState::Collecting { scheduler_delays, fired_beats, midi_was_connected, midi_disconnected, .. } => {
            match midi_connected {
                Some(c) => {
                    if midi_disconnect_detected(*midi_was_connected, c) {
                        *midi_disconnected = true;
                    }
                },
                None => {},
            }
            let due = due_beats_at(offset_ms);
            let start = *fired_beats;
            let ghost d0 = scheduler_delays@;
            let mut beat = start;
            while beat < due
                invariant
                    start <= beat <= due || (due < start && beat == start),
                    due <= BEAT_COUNT,
                    scheduler_delays@ == d0 + spec_click_delays(offset_ms as int, start as int, beat as int),
                decreases due - beat,
            {
                let late: i128 = offset_ms as i128 - 500 * beat as i128;
                let delay: i32 = if late < 0 {
                    0
                } else if late > i32::MAX as i128 {
                    i32::MAX
                } else {
                    late as i32
                };
                scheduler_delays.push(delay);
                beat = beat + 1;
                assert(d0 + spec_click_delays(offset_ms as int, start as int, beat as int) =~= d0
                    + spec_click_delays(offset_ms as int, start as int, beat - 1).push(delay));
            }
            *fired_beats = due;
            if start < due { due - start } else { 0 }
        },
        _ => 0,
    }
}

/// Whole-sequence deadline: two seconds after the last beat.
pub const COLLECT_DEADLINE_MS: i64 = 9500;

/// The samples after taking the taps at `taps` (ms from the first beat):
/// taps before the first beat are ignored, and at most `BEAT_COUNT`
/// samples are kept.
pub open spec fn spec_take_taps(samples: Seq<i32>, taps: Seq<i64>) -> Seq<i32>
    decreases taps.len(),
{
    if taps.len() == 0 {
        samples
    } else {
        let before = spec_take_taps(samples, taps.drop_last());
        let t = taps.last();
        if t >= 0 && before.len() < BEAT_COUNT {
            before.push(spec_beat_error(t as int) as i32)
        } else {
            before
        }
    }
}

/// Record this frame's taps (each stamped at its physical input time, as
/// ms from the first beat) and finish the run once every beat has a sample
/// or the deadline passed; finishing computes the report.
pub fn collect_taps<S>(state: &mut CalibrationState<S>, taps: &[i64], now_offset_ms: i64)
    ensures
        !(*old(state) is Collecting) ==> *final(state) == *old(state),
        *old(state) matches CalibrationState::Collecting {
            schedule,
            samples,
            scheduler_delays,
            fired_beats,
            midi_was_connected,
            midi_disconnected,
            prev_metronome,
            prev_timing_lines,
            prev_autoplay,
        } ==> {
            let kept = spec_take_taps(samples@, taps@);
            if kept.len() == BEAT_COUNT || now_offset_ms >= COLLECT_DEADLINE_MS {
                *final(state) matches CalibrationState::Done {
                    report,
                    midi_disconnected: dis2,
                    prev_metronome: m2,
                    prev_timing_lines: t2,
                    prev_autoplay: a2,
                } && report == spec_report(kept, scheduler_delays@) && dis2 == midi_disconnected
                    && m2 == prev_metronome && t2 == prev_timing_lines && a2 == prev_autoplay
            } else {
                *final(state) matches CalibrationState::Collecting {
                    schedule: sch2,
                    samples: samples2,
                    scheduler_delays: delays2,
                    fired_beats: fired2,
                    midi_was_connected: was2,
                    midi_disconnected: dis2,
                    prev_metronome: m2,
                    prev_timing_lines: t2,
                    prev_autoplay: a2,
                } && sch2 == schedule && samples2@ == kept && delays2 == scheduler_delays && fired2 == fired_beats
                    && was2 == midi_was_connected && dis2 == midi_disconnected && m2 == prev_metronome
                    && t2 == prev_timing_lines && a2 == prev_autoplay
            }
        },
{
    let finished_report = match state {
        CalibrationState::Collecting { samples, scheduler_delays, .. } => {
            let ghost s0 = samples@;
            let n = taps.len();
            for k in 0..n
                invariant
                    n == taps@.len(),
                    samples@ == spec_take_taps(s0, taps@.take(k as int)),
            {
                assert(taps@.take(k + 1).drop_last() =~= taps@.take(k as int));
                let t = taps[k];
                if t >= 0 && samples.len() < BEAT_COUNT {
                    samples.push(beat_error_ms(t));
                }
            }
            assert(taps@.take(n as int) =~= taps@);
            if samples.len() == BEAT_COUNT || now_offset_ms >= COLLECT_DEADLINE_MS {
                Some(CalibrationReport::from_errors(samples, scheduler_delays))
            } else {
                None
            }
        },
        _ => None,
    };
    match finished_report {
        None => {},
        Some(report) => {
            let (midi_disconnected, prev_metronome, prev_timing_lines, prev_autoplay) = match state {
                CalibrationState::Collecting {
                    midi_disconnected,
                    prev_metronome,
                    prev_timing_lines,
                    prev_autoplay,
                    ..
                } => (*midi_disconnected, *prev_metronome, *prev_timing_lines, *prev_autoplay),
                _ => (false, false, false, false),
            };
            *state = CalibrationState::Done {
                report,
                midi_disconnected,
                prev_metronome,
                prev_timing_lines,
                prev_autoplay,
            };
        },
    }
}

/// Return the runtime toggles to the run's snapshot and go Idle (the editor
/// closed or the performance ended). Nothing changes when Idle.
pub fn restore_runtime_state<S>(
    state: &mut CalibrationState<S>,
    metronome: &mut bool,
    timing_lines: &mut bool,
    autoplay: &mut bool,
)
    ensures
        match snapshot_of(*old(state)) {
            None => *final(state) == *old(state) && *final(metronome) == *old(metronome) && *final(timing_lines) == *old(timing_lines) && *final(autoplay) == *old(autoplay),
            Some((m, t, a)) => *final(state) is Idle && *final(metronome) == m && *final(timing_lines) == t
                && *final(autoplay) == a,
        },
{
    let snapshot = match state {
        CalibrationState::Idle => None,
        CalibrationState::Collecting { prev_metronome, prev_timing_lines, prev_autoplay, .. } => Some(
            (*prev_metronome, *prev_timing_lines, *prev_autoplay),
        ),
        CalibrationState::Done { prev_metronome, prev_timing_lines, prev_autoplay, .. } => Some(
            (*prev_metronome, *prev_timing_lines, *prev_autoplay),
        ),
    };
    match snapshot {
        None => {},
        Some((m, t, a)) => {
            restore_toggles(metronome, timing_lines, autoplay, m, t, a);
            *state = CalibrationState::Idle;
        },
    }
}

/// Escape cancels a running sequence; on the result, Enter applies the
/// report to the input offset (only when confident) and Escape discards
/// it. Both restore the runtime toggles and go Idle.
pub fn confirm_or_cancel<S>(
    state: &mut CalibrationState<S>,
    enter: bool,
    escape: bool,
    input_offset_ms: &mut i32,
    metronome: &mut bool,
    timing_lines: &mut bool,
    autoplay: &mut bool,
)
    ensures
        ({
            let leave = match *old(state) {
                CalibrationState::Idle => false,
                CalibrationState::Collecting { .. } => escape,
                CalibrationState::Done { .. } => enter || escape,
            };
            &&& !leave ==> *final(state) == *old(state) && *final(metronome) == *old(metronome) && *final(timing_lines) == *old(timing_lines) && *final(autoplay) == *old(autoplay) && *final(input_offset_ms) == *old(input_offset_ms)
            &&& leave ==> *final(state) is Idle && snapshot_of(*old(state)) == Some(
                (*final(metronome), *final(timing_lines), *final(autoplay)),
            )
            &&& *old(state) matches CalibrationState::Done { report, .. } ==> {
                &&& (enter && report.confidence == Confidence::High) ==> *final(input_offset_ms) == clamp(
                    report.proposed_offset_ms as int,
                    -INPUT_OFFSET_CLAMP_MS,
                    INPUT_OFFSET_CLAMP_MS as int,
                )
                &&& !(enter && report.confidence == Confidence::High) ==> *final(input_offset_ms) == *old(
                    input_offset_ms)
            }
            &&& !(*old(state) is Done) ==> *final(input_offset_ms) == *old(input_offset_ms)
        }),
{
    let leave = match state {
        CalibrationState::Idle => false,
        CalibrationState::Collecting { .. } => escape,
        CalibrationState::Done { report, .. } => {
            if enter {
                apply_report(input_offset_ms, report);
            }
            enter || escape
        },
    };
    if leave {
        restore_runtime_state(state, metronome, timing_lines, autoplay);
    }
}

/// Whether calibration holds the background music ducked.
pub fn calibration_active<S>(state: &CalibrationState<S>) -> (b: bool)
    ensures
        b == !(*state is Idle),
{
    match state {
        CalibrationState::Idle => false,
        _ => true,
    }
}

/// A run never keeps more samples than there are guided beats.
pub proof fn lemma_taps_bounded(samples: Seq<i32>, taps: Seq<i64>)
    requires
        samples.len() <= BEAT_COUNT,
    ensures
        spec_take_taps(samples, taps).len() <= BEAT_COUNT,
        samples.len() <= spec_take_taps(samples, taps).len(),
    decreases taps.len(),
{
    if taps.len() > 0 {
        lemma_taps_bounded(samples, taps.drop_last());
    }
}

/// What the calibration overlay shows: nothing while idle; while taps are
/// collected, the tap and beat counts, the preview lane, and a pulse on
/// odd beats; once done, the suggested offset (clamped to the input offset
/// range), the report's counts and whether it can be applied.
#[derive(Debug, Clone, Copy, PartialEq, Eq, Structural)]
pub enum OverlayView {
    Collecting { taps: usize, beats_fired: usize, pulse: bool },
    Done {
        suggested_ms: i32,
        accepted: usize,
        rejected: usize,
        spread_ms: i32,
        max_scheduler_delay_ms: i32,
        confident: bool,
        midi_disconnected: bool,
    },
}

/// The overlay for a calibration state.
pub open spec fn spec_overlay_view<S>(state: CalibrationState<S>) -> Option<OverlayView> {
    match state {
        CalibrationState::Idle => None,
        CalibrationState::Collecting { samples, fired_beats, .. } => Some(
            OverlayView::Collecting { taps: samples@.len() as usize, beats_fired: fired_beats, pulse: fired_beats % 2 == 1 },
        ),
        CalibrationState::Done { report, midi_disconnected, .. } => Some(
            OverlayView::Done {
                suggested_ms: clamp(
                    report.proposed_offset_ms as int,
                    -INPUT_OFFSET_CLAMP_MS,
                    INPUT_OFFSET_CLAMP_MS as int,
                ) as i32,
                accepted: report.accepted_samples,
                rejected: report.rejected_samples,
                spread_ms: report.spread_mad_ms,
                max_scheduler_delay_ms: report.max_scheduler_delay_ms,
                confident: report.confidence == Confidence::High,
                midi_disconnected,
            },
        ),
    }
}

/// Decide what the calibration overlay shows for `state`.
pub fn overlay_view<S>(state: &CalibrationState<S>) -> (v: Option<OverlayView>)
    ensures
        v == spec_overlay_view(*state),
{
    match state {
        CalibrationState::Idle => None,
        CalibrationState::Collecting { samples, fired_beats, .. } => Some(
            OverlayView::Collecting { taps: samples.len(), beats_fired: *fired_beats, pulse: *fired_beats % 2 == 1 },
        ),
        CalibrationState::Done { report, midi_disconnected, .. } => Some(
            OverlayView::Done {
                suggested_ms: suggested_offset(report.proposed_offset_ms, INPUT_OFFSET_CLAMP_MS),
                accepted: report.accepted_samples,
                rejected: report.rejected_samples,
                spread_ms: report.spread_mad_ms,
                max_scheduler_delay_ms: report.max_scheduler_delay_ms,
                confident: report.can_apply(),
                midi_disconnected: *midi_disconnected,
            },
        ),
    }
}

} // verus!
