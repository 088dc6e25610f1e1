//! Damage levels: how a judgment moves the HP gauge, and the HP state that
//! the gauge displays.
//!
//! Three active levels (Small / Normal / High); each maps every judgment
//! kind to a signed HP delta. HP drains on poor hits and misses, gains on
//! perfect hits, and the stage fails when a drain empties the gauge.

use vstd::prelude::*;

verus! {

/// Active damage level of the stage.
#[derive(Debug, Clone, Copy, PartialEq, Eq, Structural)]
pub enum DamageLevel {
    Small,
    Normal,
    High,
}

/// Judgment grade of one hit.
#[derive(Debug, Clone, Copy, PartialEq, Eq, Structural)]
pub enum JudgmentKind {
    Perfect,
    Great,
    Good,
    Poor,
    Miss,
}

/// Result of a damage-level event.
#[derive(Debug, Clone, Copy, PartialEq, Eq, Structural)]
pub enum DamageEvent {
    /// HP unchanged (e.g. None level).
    NoChange,
    /// HP drained by N (e.g. miss penalty).
    HpDrain(u8),
    /// HP restored by N (e.g. perfect hit gain).
    HpGain(u8),
    /// Stage failed: HP reached 0.
    StageFailed,
    /// Combo broken but no HP impact.
    ComboBroken,
}

/// The per-level damage table.
pub open spec fn spec_hp_delta(level: DamageLevel, kind: JudgmentKind) -> int {
    match level {
        DamageLevel::Small => match kind {
            JudgmentKind::Perfect => 1,
            JudgmentKind::Great => 0,
            JudgmentKind::Good => 0,
            JudgmentKind::Poor => -1,
            JudgmentKind::Miss => -2,
        },
        DamageLevel::Normal => match kind {
            JudgmentKind::Perfect => 1,
            JudgmentKind::Great => 0,
            JudgmentKind::Good => -1,
            JudgmentKind::Poor => -2,
            JudgmentKind::Miss => -3,
        },
        DamageLevel::High => match kind {
            JudgmentKind::Perfect => 0,
            JudgmentKind::Great => 0,
            JudgmentKind::Good => -1,
            JudgmentKind::Poor => -3,
            JudgmentKind::Miss => -5,
        },
    }
}

/// Per-level damage table: HP delta per judgment kind.
///
/// Small=gentle; Normal=harder on misses; High=no gain and the largest
/// loss on a miss.
pub fn hp_delta_for_judgment(level: DamageLevel, kind: JudgmentKind) -> (d: i8)
    ensures
        d == spec_hp_delta(level, kind),
{
    match level {
        DamageLevel::Small => match kind {
            JudgmentKind::Perfect => 1,
            JudgmentKind::Great => 0,
            JudgmentKind::Good => 0,
            JudgmentKind::Poor => -1,
            JudgmentKind::Miss => -2,
        },
        DamageLevel::Normal => match kind {
            JudgmentKind::Perfect => 1,
            JudgmentKind::Great => 0,
            JudgmentKind::Good => -1,
            JudgmentKind::Poor => -2,
            JudgmentKind::Miss => -3,
        },
        DamageLevel::High => match kind {
            JudgmentKind::Perfect => 0,
            JudgmentKind::Great => 0,
            JudgmentKind::Good => -1,
            JudgmentKind::Poor => -3,
            JudgmentKind::Miss => -5,
        },
    }
}

/// HP state for one instrument.
#[derive(Debug, Clone, Copy, PartialEq, Eq, Structural)]
pub struct HpState {
    /// Current HP. 0 = stage failed.
    pub current: i32,
    /// Maximum HP. Used for gauge-style displays.
    pub max: i32,
    /// Whether the stage has failed (HP=0 with damage level active).
    pub stage_failed: bool,
}

impl Default for HpState {
    fn default() -> (s: Self)
        ensures
            s.current == 0,
            s.max == 0,
            !s.stage_failed,
    {
        HpState { current: 0, max: 0, stage_failed: false }
    }
}

/// The event a judgment produces under a damage level.
pub open spec fn spec_judgment_event(level: DamageLevel, kind: JudgmentKind) -> DamageEvent {
    let d = spec_hp_delta(level, kind);
    if d > 0 {
        DamageEvent::HpGain(d as u8)
    } else if d < 0 {
        DamageEvent::HpDrain((-d) as u8)
    } else {
        DamageEvent::NoChange
    }
}

/// Whether applying `evt` to `hp` stays within `i32` arithmetic.
pub open spec fn event_fits(hp: HpState, evt: DamageEvent) -> bool {
    match evt {
        DamageEvent::HpDrain(d) => hp.current - d >= i32::MIN,
        DamageEvent::HpGain(g) => hp.current + g <= i32::MAX,
        _ => true,
    }
}

/// The HP state after one event.
pub open spec fn spec_apply(hp: HpState, evt: DamageEvent) -> HpState {
    match evt {
        DamageEvent::NoChange | DamageEvent::ComboBroken => hp,
        DamageEvent::HpDrain(d) => {
            let c = if hp.current - d > 0 { hp.current - d } else { 0 };
            HpState { current: c as i32, max: hp.max, stage_failed: hp.stage_failed || c == 0 }
        },
        DamageEvent::HpGain(g) => {
            let c = if hp.current + g < hp.max { hp.current + g } else { hp.max as int };
            HpState { current: c as i32, max: hp.max, stage_failed: hp.stage_failed }
        },
        DamageEvent::StageFailed => HpState { current: 0, max: hp.max, stage_failed: true },
    }
}

/// A gauge that is within its bounds.
pub open spec fn hp_in_range(hp: HpState) -> bool {
    0 <= hp.current <= hp.max
}

impl HpState {
    /// Construct fresh HP at max.
    pub fn new(max: i32) -> (s: Self)
        ensures
            s.current == max,
            s.max == max,
            !s.stage_failed,
    {
        HpState { current: max, max, stage_failed: false }
    }

    /// Apply a damage event.
    pub fn apply(&mut self, evt: DamageEvent)
        requires
            event_fits(*old(self), evt),
        ensures
            *final(self) == spec_apply(*old(self), evt),
    {
        match evt {
            DamageEvent::NoChange | DamageEvent::ComboBroken => {},
            DamageEvent::HpDrain(d) => {
                let c = self.current - d as i32;
                self.current = if c > 0 { c } else { 0 };
                if self.current == 0 {
                    self.stage_failed = true;
                }
            },
            DamageEvent::HpGain(g) => {
                let c = self.current + g as i32;
                self.current = if c < self.max { c } else { self.max };
            },
            DamageEvent::StageFailed => {
                self.current = 0;
                self.stage_failed = true;
            },
        }
    }

    /// Apply a judgment with the given damage level.
    pub fn apply_judgment(&mut self, level: DamageLevel, kind: JudgmentKind)
        requires
            event_fits(*old(self), spec_judgment_event(level, kind)),
        ensures
            *final(self) == spec_apply(*old(self), spec_judgment_event(level, kind)),
            hp_in_range(*old(self)) ==> final(self).current == if old(self).current + spec_hp_delta(level, kind) < 0 {
                0
            } else if old(self).current + spec_hp_delta(level, kind) > old(self).max {
                old(self).max as int
            } else {
                old(self).current + spec_hp_delta(level, kind)
            },
    {
        proof {
            if hp_in_range(*old(self)) {
                lemma_judgment_moves_hp_by_table(*old(self), level, kind);
            }
        }
        let d = hp_delta_for_judgment(level, kind);
        if d > 0 {
            self.apply(DamageEvent::HpGain(d as u8));
        } else if d < 0 {
            self.apply(DamageEvent::HpDrain((-d) as u8));
        }
    }

    /// Reset to max HP (used on stage entry).
    pub fn reset(&mut self)
        ensures
            final(self).current == old(self).max,
            final(self).max == old(self).max,
            !final(self).stage_failed,
    {
        self.current = self.max;
        self.stage_failed = false;
    }
}

/// Every event keeps an in-range gauge in range.
pub proof fn lemma_apply_keeps_hp_in_range(hp: HpState, evt: DamageEvent)
    requires
        hp_in_range(hp),
    ensures
        hp_in_range(spec_apply(hp, evt)),
        spec_apply(hp, evt).max == hp.max,
{
}

/// A failed stage stays failed under every event.
pub proof fn lemma_failure_is_sticky(hp: HpState, evt: DamageEvent)
    requires
        hp.stage_failed,
    ensures
        spec_apply(hp, evt).stage_failed,
{
}

/// A drain that empties the gauge fails the stage.
pub proof fn lemma_drain_to_zero_fails(hp: HpState, d: u8)
    requires
        hp.current <= d,
    ensures
        spec_apply(hp, DamageEvent::HpDrain(d)).current == 0,
        spec_apply(hp, DamageEvent::HpDrain(d)).stage_failed,
{
}

/// Gains never fail a stage that had not failed, and never exceed the maximum.
pub proof fn lemma_gain_never_fails(hp: HpState, g: u8)
    requires
        !hp.stage_failed,
        hp.current <= hp.max,
    ensures
        !spec_apply(hp, DamageEvent::HpGain(g)).stage_failed,
        spec_apply(hp, DamageEvent::HpGain(g)).current <= hp.max,
{
}

/// A judgment moves an in-range gauge by its damage-table delta, clamped to
/// `[0, max]`: a gain raises HP up to the maximum, a loss lowers it down to
/// zero (failing the stage when it gets there), and a zero delta changes
/// nothing. The maximum never changes and a failed stage stays failed.
pub proof fn lemma_judgment_moves_hp_by_table(hp: HpState, level: DamageLevel, kind: JudgmentKind)
    requires
        hp_in_range(hp),
    ensures
        ({
            let d = spec_hp_delta(level, kind);
            let h2 = spec_apply(hp, spec_judgment_event(level, kind));
            &&& h2.max == hp.max
            &&& h2.current == if hp.current + d < 0 {
                0
            } else if hp.current + d > hp.max {
                hp.max as int
            } else {
                hp.current + d
            }
            &&& h2.stage_failed == (hp.stage_failed || (d < 0 && h2.current == 0))
        }),
{
}

/// The damage table: within a level a better judgment never costs more HP
/// than a worse one, a miss always costs HP, a perfect never costs HP, the
/// high level never restores HP, and a harsher level never treats a
/// judgment more kindly than a gentler one.
pub proof fn lemma_damage_table_order(level: DamageLevel, kind: JudgmentKind)
    ensures
        spec_hp_delta(level, JudgmentKind::Perfect) >= spec_hp_delta(level, JudgmentKind::Great),
        spec_hp_delta(level, JudgmentKind::Great) >= spec_hp_delta(level, JudgmentKind::Good),
        spec_hp_delta(level, JudgmentKind::Good) >= spec_hp_delta(level, JudgmentKind::Poor),
        spec_hp_delta(level, JudgmentKind::Poor) > spec_hp_delta(level, JudgmentKind::Miss),
        spec_hp_delta(level, JudgmentKind::Miss) < 0,
        spec_hp_delta(level, JudgmentKind::Perfect) >= 0,
        spec_hp_delta(DamageLevel::High, kind) <= 0,
        spec_hp_delta(DamageLevel::High, kind) <= spec_hp_delta(DamageLevel::Normal, kind),
        spec_hp_delta(DamageLevel::Normal, kind) <= spec_hp_delta(DamageLevel::Small, kind),
        spec_hp_delta(DamageLevel::Small, JudgmentKind::Perfect) > 0,
        spec_hp_delta(DamageLevel::Normal, JudgmentKind::Perfect) > 0,
{
}

} // verus!
