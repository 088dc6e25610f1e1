use lib::drums_screen_sub_acts::{
    drums_combo_dgb, drums_danger, drums_gauge, drums_lane_flush, drums_pad, drums_score,
    drums_status_panel, stage_perf_drums,
};

#[test]
fn stage_perf_drums_default() {
    assert!(!stage_perf_drums::DEFAULT_FROM_OUTSIDE);
}

#[test]
fn drums_score_position() {
    assert_eq!(drums_score::SCORE_X, 40);
    assert_eq!(drums_score::SCORE_Y, 13);
}

#[test]
fn drums_combo_dgb_position() {
    assert_eq!(drums_combo_dgb::COMBO_X, 1245);
    assert_eq!(drums_combo_dgb::BOMB_X, 845);
}

#[test]
fn drums_gauge_position() {
    assert_eq!(drums_gauge::GAUGE_X, 294);
    assert_eq!(drums_gauge::GAUGE_Y_NORMAL, 626);
}

#[test]
fn drums_status_panel_position() {
    assert_eq!(drums_status_panel::X, 22);
    assert_eq!(drums_status_panel::Y, 250);
}

#[test]
fn drums_lane_flush_count_and_positions() {
    assert_eq!(drums_lane_flush::LANE_COUNT, 10);
    assert_eq!(drums_lane_flush::LANE_X[0], 298);
    assert_eq!(drums_lane_flush::LANE_X[7], 748);
}

#[test]
fn drums_pad_count() {
    assert_eq!(drums_pad::PAD_X.len(), 10);
}

#[test]
fn drums_danger_fullscreen() {
    assert_eq!(drums_danger::OVERLAY_W, 1280);
    assert_eq!(drums_danger::OVERLAY_H, 720);
}
