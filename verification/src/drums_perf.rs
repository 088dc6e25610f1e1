//! Drums performance-screen sub-acts: the ten drum pads (positions and
//! pressed state), the danger overlay counters, and the fill-in flag.
//!
//! Pixel positions and texture rectangles are whole pixels and are kept as
//! integers.

use vstd::prelude::*;

verus! {

/// Lane index enum matching the 10 drums lanes.
///
/// LC=0, HH=1, SD=2, BD=3, HT=4, LT=5, FT=6, CY=7, RD=8, LP=9.
#[derive(Debug, Clone, Copy, PartialEq, Eq, Structural)]
pub enum DrumsLane {
    /// Left Cymbal
    LC,
    /// Hi-Hat (closed)
    HH,
    /// Snare Drum
    SD,
    /// Bass Drum
    BD,
    /// High Tom
    HT,
    /// Low Tom
    LT,
    /// Floor Tom
    FT,
    /// Cymbal
    CY,
    /// Ride Cymbal
    RD,
    /// Left Pedal
    LP,
}

/// Reference index of a lane.
pub open spec fn lane_index(lane: DrumsLane) -> int {
    match lane {
        DrumsLane::LC => 0,
        DrumsLane::HH => 1,
        DrumsLane::SD => 2,
        DrumsLane::BD => 3,
        DrumsLane::HT => 4,
        DrumsLane::LT => 5,
        DrumsLane::FT => 6,
        DrumsLane::CY => 7,
        DrumsLane::RD => 8,
        DrumsLane::LP => 9,
    }
}

impl DrumsLane {
    /// All 10 lanes in reference order.
    pub fn all() -> (lanes: [Self; 10])
        ensures
            forall|i: int| 0 <= i < 10 ==> lane_index(#[trigger] lanes@[i]) == i,
    {
        [
            Self::LC,
            Self::HH,
            Self::SD,
            Self::BD,
            Self::HT,
            Self::LT,
            Self::FT,
            Self::CY,
            Self::RD,
            Self::LP,
        ]
    }

    /// Reference index of the lane (its position in `all()`).
    pub fn index(self) -> (i: usize)
        ensures
            i == lane_index(self),
            i < 10,
    {
        match self {
            DrumsLane::LC => 0,
            DrumsLane::HH => 1,
            DrumsLane::SD => 2,
            DrumsLane::BD => 3,
            DrumsLane::HT => 4,
            DrumsLane::LT => 5,
            DrumsLane::FT => 6,
            DrumsLane::CY => 7,
            DrumsLane::RD => 8,
            DrumsLane::LP => 9,
        }
    }
}

/// Texture rectangle in 96x96 pad tiles.
#[derive(Debug, Clone, Copy, PartialEq, Eq, Structural)]
pub struct PadRect {
    /// X offset in tile-sheet (0..=3 columns of 96px = 384px total).
    pub x: i32,
    /// Y offset in tile-sheet (0..=2 rows of 96px = 288px total).
    pub y: i32,
    /// Width in pixels (always 96).
    pub w: i32,
    /// Height in pixels (always 96).
    pub h: i32,
}

/// One pad position + texture rect.
#[derive(Debug, Clone, Copy, PartialEq, Eq, Structural)]
pub struct PadPosition {
    /// X coordinate in pixels.
    pub x: i32,
    /// Y coordinate in pixels.
    pub y: i32,
    /// Texture rectangle.
    pub rect: PadRect,
}

/// The pad table: screen x of each lane's pad (y is always 10).
pub open spec fn spec_pad_x(lane: DrumsLane) -> int {
    match lane {
        DrumsLane::LC => 263,
        DrumsLane::HH => 336,
        DrumsLane::SD => 446,
        DrumsLane::BD => 565,
        DrumsLane::HT => 510,
        DrumsLane::LT => 622,
        DrumsLane::FT => 672,
        DrumsLane::CY => 735,
        DrumsLane::RD => 791,
        DrumsLane::LP => 396,
    }
}

/// The pad table: tile (column, row) of each lane's texture.
pub open spec fn spec_pad_tile(lane: DrumsLane) -> (int, int) {
    match lane {
        DrumsLane::LC => (0, 0),
        DrumsLane::HH => (1, 0),
        DrumsLane::SD => (0, 1),
        DrumsLane::BD => (0, 2),
        DrumsLane::HT => (1, 1),
        DrumsLane::LT => (2, 1),
        DrumsLane::FT => (3, 1),
        DrumsLane::CY => (2, 0),
        DrumsLane::RD => (3, 0),
        DrumsLane::LP => (1, 2),
    }
}

/// Pad pressed state.
#[derive(Debug, Clone)]
pub struct DrumsPadState {
    /// Per-lane pressed flag (true while the lane is being hit).
    pub pressed: [bool; 10],
    /// Last hit time per lane (for decay animation).
    pub last_hit_ms: [i64; 10],
}

impl DrumsPadState {
    /// Construct empty state.
    pub fn new() -> (s: Self)
        ensures
            forall|i: int| 0 <= i < 10 ==> !(#[trigger] s.pressed@[i]),
            forall|i: int| 0 <= i < 10 ==> #[trigger] s.last_hit_ms@[i] == 0,
    {
        DrumsPadState { pressed: [false; 10], last_hit_ms: [0; 10] }
    }

    /// Mark `lane` as pressed at `time_ms`.
    pub fn press(&mut self, lane: DrumsLane, time_ms: i64)
        ensures
            final(self).pressed@ == old(self).pressed@.update(lane_index(lane), true),
            final(self).last_hit_ms@ == old(self).last_hit_ms@.update(lane_index(lane), time_ms),
    {
        let i = lane.index();
        self.pressed[i] = true;
        self.last_hit_ms[i] = time_ms;
    }

    /// Mark `lane` as released.
    pub fn release(&mut self, lane: DrumsLane)
        ensures
            final(self).pressed@ == old(self).pressed@.update(lane_index(lane), false),
            final(self).last_hit_ms@ == old(self).last_hit_ms@,
    {
        let i = lane.index();
        self.pressed[i] = false;
    }

    /// True if `lane` is currently held.
    pub fn is_pressed(&self, lane: DrumsLane) -> (b: bool)
        ensures
            b == self.pressed@[lane_index(lane)],
    {
        self.pressed[lane.index()]
    }

    /// Lookup pad position for a lane.
    pub fn position(lane: DrumsLane) -> (p: PadPosition)
        ensures
            p.x == spec_pad_x(lane),
            p.y == 10,
            p.rect.x == 96 * spec_pad_tile(lane).0,
            p.rect.y == 96 * spec_pad_tile(lane).1,
            p.rect.w == 96,
            p.rect.h == 96,
    {
        let (x, col, row): (i32, i32, i32) = match lane {
            DrumsLane::LC => (263, 0, 0),
            DrumsLane::HH => (336, 1, 0),
            DrumsLane::SD => (446, 0, 1),
            DrumsLane::BD => (565, 0, 2),
            DrumsLane::HT => (510, 1, 1),
            DrumsLane::LT => (622, 2, 1),
            DrumsLane::FT => (672, 3, 1),
            DrumsLane::CY => (735, 2, 0),
            DrumsLane::RD => (791, 3, 0),
            DrumsLane::LP => (396, 1, 2),
        };
        PadPosition { x, y: 10, rect: PadRect { x: 96 * col, y: 96 * row, w: 96, h: 96 } }
    }
}

/// Danger overlay state for drums.
///
/// The move counter runs 0..127 stepping 7; the opacity counter runs
/// 0..250 stepping 4.
#[derive(Debug, Clone)]
pub struct DrumsDangerState {
    /// Whether the drums gauge is currently in danger.
    pub is_danger: bool,
    /// Position counter (0..0x7f step 7).
    pub ct_move: i32,
    /// Opacity counter (0..250 step 4).
    pub ct_opacity: i32,
}

/// Counter max for the move counter.
pub const CT_MOVE_MAX: i32 = 0x7f;
/// Counter step for the move counter.
pub const CT_MOVE_STEP: i32 = 7;
/// Counter max for the opacity counter.
pub const CT_OPACITY_MAX: i32 = 250;
/// Counter step for the opacity counter.
pub const CT_OPACITY_STEP: i32 = 4;

/// Whether ticking by `frames` stays within `i32` arithmetic.
pub open spec fn tick_fits(d: DrumsDangerState, frames: int) -> bool {
    &&& frames * CT_MOVE_STEP <= i32::MAX
    &&& frames * CT_OPACITY_STEP <= i32::MAX
    &&& d.ct_move + frames * CT_MOVE_STEP <= i32::MAX
    &&& d.ct_opacity + frames * CT_OPACITY_STEP <= i32::MAX
}

/// Counter value after advancing `frames` steps, looping at `max`
/// (remainder with the sign of the dividend).
pub open spec fn spec_advance(ct: int, frames: int, step: int, max: int) -> int {
    let v = ct + frames * step;
    if v >= 0 { v % max } else { -((-v) % max) }
}

impl DrumsDangerState {
    /// Construct fresh state.
    pub fn new() -> (s: Self)
        ensures
            !s.is_danger,
            s.ct_move == 0,
            s.ct_opacity == 0,
    {
        DrumsDangerState { is_danger: false, ct_move: 0, ct_opacity: 0 }
    }

    /// Trigger danger (called when the drums gauge enters danger).
    /// Resets both counters, unless danger was already on.
    pub fn trigger(&mut self)
        ensures
            final(self).is_danger,
            old(self).is_danger ==> final(self).ct_move == old(self).ct_move
                && final(self).ct_opacity == old(self).ct_opacity,
            !old(self).is_danger ==> final(self).ct_move == 0 && final(self).ct_opacity == 0,
    {
        if !self.is_danger {
            self.ct_move = 0;
            self.ct_opacity = 0;
            self.is_danger = true;
        }
    }

    /// Advance both counters by `frames` elapsed 60 Hz display frames (the
    /// caller counts them from the elapsed real time); they loop
    /// independently, and no whole frame leaves them as they are.
    pub fn tick(&mut self, frames: i32)
        requires
            frames > 0 ==> tick_fits(*old(self), frames as int),
        ensures
            final(self).is_danger == old(self).is_danger,
            frames > 0 ==> final(self).ct_move == spec_advance(
                old(self).ct_move as int,
                frames as int,
                CT_MOVE_STEP as int,
                CT_MOVE_MAX as int,
            ),
            frames > 0 ==> final(self).ct_opacity == spec_advance(
                old(self).ct_opacity as int,
                frames as int,
                CT_OPACITY_STEP as int,
                CT_OPACITY_MAX as int,
            ),
            frames <= 0 ==> final(self).ct_move == old(self).ct_move && final(self).ct_opacity
                == old(self).ct_opacity,
    {
        if frames > 0 {
            let m = self.ct_move + frames * CT_MOVE_STEP;
            let o = self.ct_opacity + frames * CT_OPACITY_STEP;
            self.ct_move = m % CT_MOVE_MAX;
            self.ct_opacity = o % CT_OPACITY_MAX;
        }
    }
}

/// Fill-in effect active flag. A marker sub-act modeled as a boolean.
#[derive(Debug, Clone, Copy)]
pub struct DrumsFillingEffect {
    /// True while the fill-in visual is active.
    pub active: bool,
}

impl DrumsFillingEffect {
    /// Construct fresh state.
    pub fn new() -> (s: Self)
        ensures
            !s.active,
    {
        DrumsFillingEffect { active: false }
    }

    /// Start the fill-in effect.
    pub fn start(&mut self)
        ensures
            final(self).active,
    {
        self.active = true;
    }

    /// End the fill-in effect.
    pub fn end(&mut self)
        ensures
            !final(self).active,
    {
        self.active = false;
    }
}

/// A counter that starts in its loop range stays in it after a tick.
pub proof fn lemma_tick_keeps_counter_in_range(ct: int, frames: int, step: int, max: int)
    requires
        0 <= ct,
        0 <= frames,
        0 <= step,
        0 < max,
    ensures
        0 <= spec_advance(ct, frames, step, max) < max,
{
    assert(ct + frames * step >= 0) by (nonlinear_arith)
        requires 0 <= ct, 0 <= frames, 0 <= step;
}

/// Pressing then releasing a lane leaves every other lane's flag as it was
/// and clears the lane's own flag.
pub proof fn lemma_press_release(pressed: Seq<bool>, lane: DrumsLane)
    requires
        pressed.len() == 10,
    ensures
        pressed.update(lane_index(lane), true).update(lane_index(lane), false)
            == pressed.update(lane_index(lane), false),
{
    assert(pressed.update(lane_index(lane), true).update(lane_index(lane), false)
        =~= pressed.update(lane_index(lane), false));
}

} // verus!
