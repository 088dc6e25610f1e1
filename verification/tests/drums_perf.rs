use std::time::Duration;

use lib::drums_perf::{
    DrumsDangerState, DrumsFillingEffect, DrumsLane, DrumsPadState, CT_MOVE_MAX,
    CT_MOVE_STEP, CT_OPACITY_MAX, CT_OPACITY_STEP,
};

/// Whole 60 Hz frames in an elapsed time, counted as the game loop counts
/// them (`f32` seconds times 60, truncated).
fn frames_of(dt: Duration) -> i32 {
    (dt.as_secs_f32() * 60.0) as i32
}

#[test]
fn drums_lane_all_has_10() {
    assert_eq!(DrumsLane::all().len(), 10);
}

#[test]
fn drums_lane_discriminants_match_index() {
    for (i, lane) in DrumsLane::all().iter().enumerate() {
        assert_eq!(*lane as usize, i, "lane {lane:?} should have index {i}");
        assert_eq!(lane.index(), i);
    }
}

#[test]
fn pad_position_lc_matches_reference() {
    let p = DrumsPadState::position(DrumsLane::LC);
    assert_eq!(p.x, 263);
    assert_eq!(p.y, 10);
    assert_eq!(p.rect.x, 0);
    assert_eq!(p.rect.y, 0);
    assert_eq!(p.rect.w, 96);
    assert_eq!(p.rect.h, 96);
}

#[test]
fn pad_position_hh_matches_reference() {
    let p = DrumsPadState::position(DrumsLane::HH);
    assert_eq!(p.x, 336);
    assert_eq!(p.rect.x, 96);
}

#[test]
fn pad_position_cy_matches_reference() {
    let p = DrumsPadState::position(DrumsLane::CY);
    assert_eq!(p.x, 735);
    assert_eq!(p.rect.x, 192);
}

#[test]
fn pad_position_lp_matches_reference() {
    let p = DrumsPadState::position(DrumsLane::LP);
    assert_eq!(p.x, 396);
    assert_eq!(p.rect.y, 192);
}

#[test]
fn pad_position_all_lanes_y_are_10() {
    for lane in DrumsLane::all() {
        let p = DrumsPadState::position(lane);
        assert_eq!(p.y, 10, "all pads should have y=10");
    }
}

#[test]
fn pad_state_default_unpressed() {
    let s = DrumsPadState::new();
    for lane in DrumsLane::all() {
        assert!(!s.is_pressed(lane));
    }
}

#[test]
fn pad_state_press_and_release() {
    let mut s = DrumsPadState::new();
    s.press(DrumsLane::SD, 1000);
    assert!(s.is_pressed(DrumsLane::SD));
    assert_eq!(s.last_hit_ms[DrumsLane::SD as usize], 1000);
    s.release(DrumsLane::SD);
    assert!(!s.is_pressed(DrumsLane::SD));
}

#[test]
fn pad_state_independent_lanes() {
    let mut s = DrumsPadState::new();
    s.press(DrumsLane::HH, 100);
    s.press(DrumsLane::BD, 200);
    assert!(s.is_pressed(DrumsLane::HH));
    assert!(s.is_pressed(DrumsLane::BD));
    assert!(!s.is_pressed(DrumsLane::SD));
}

#[test]
fn danger_state_default_not_danger() {
    let d = DrumsDangerState::new();
    assert!(!d.is_danger);
    assert_eq!(d.ct_move, 0);
    assert_eq!(d.ct_opacity, 0);
}

#[test]
fn danger_state_trigger_resets_counters() {
    let mut d = DrumsDangerState { is_danger: false, ct_move: 50, ct_opacity: 100 };
    d.trigger();
    assert!(d.is_danger);
    assert_eq!(d.ct_move, 0);
    assert_eq!(d.ct_opacity, 0);
}

#[test]
fn danger_state_trigger_idempotent_when_already_danger() {
    let mut d = DrumsDangerState { is_danger: true, ct_move: 30, ct_opacity: 60 };
    d.trigger();
    assert_eq!(d.ct_move, 30);
    assert_eq!(d.ct_opacity, 60);
}

#[test]
fn danger_state_tick_advances_within_max() {
    let mut d = DrumsDangerState { is_danger: true, ct_move: 0, ct_opacity: 0 };
    d.tick(frames_of(Duration::from_secs_f32(1.0 / 60.0)));
    assert_eq!(d.ct_move, CT_MOVE_STEP);
    assert_eq!(d.ct_opacity, CT_OPACITY_STEP);
}

#[test]
fn filling_effect_default_inactive() {
    let f = DrumsFillingEffect::new();
    assert!(!f.active);
}

#[test]
fn filling_effect_start_and_end() {
    let mut f = DrumsFillingEffect::new();
    f.start();
    assert!(f.active);
    f.end();
    assert!(!f.active);
}

#[test]
fn danger_counters_wrap_at_their_maxima() {
    let mut d = DrumsDangerState { is_danger: true, ct_move: 120, ct_opacity: 248 };
    d.tick(1);
    assert_eq!(d.ct_move, (120 + 7) % CT_MOVE_MAX);
    assert_eq!(d.ct_move, 0);
    assert_eq!(d.ct_opacity, (248 + 4) % CT_OPACITY_MAX);
    assert_eq!(d.ct_opacity, 2);
}

#[test]
fn short_tick_is_no_frame() {
    let mut d = DrumsDangerState { is_danger: true, ct_move: 5, ct_opacity: 9 };
    d.tick(frames_of(Duration::from_millis(10)));
    assert_eq!((d.ct_move, d.ct_opacity), (5, 9));
}

#[test]
fn tick_ignores_non_positive_frames() {
    let mut d = DrumsDangerState { is_danger: true, ct_move: 5, ct_opacity: 9 };
    d.tick(0);
    d.tick(-3);
    assert_eq!((d.ct_move, d.ct_opacity), (5, 9));
    d.tick(60);
    assert_eq!((d.ct_move, d.ct_opacity), ((5 + 60 * 7) % CT_MOVE_MAX, (9 + 60 * 4) % CT_OPACITY_MAX));
}
