use lib::editor::lanes_panel::{
    lane_detail_ring, lane_row_ring, lanes_escape_is_back, lanes_nav_step, lanes_on_tab_changed,
    reduce_lanes_nav, reorder_target, LanesFocus, LanesNavEffect, WIDTH_STEP,
};
use lib::editor::lane_drag::move_lane_to;
use lib::editor::nav::NavVerb;

#[test]
fn lanes_tabbar_confirm_enters_rows() {
    let (focus, selected, effect) =
        reduce_lanes_nav(LanesFocus::TabBar, 0, 10, NavVerb::Confirm, false);
    assert_eq!(focus, LanesFocus::Rows);
    assert_eq!(selected, 0);
    assert_eq!(effect, LanesNavEffect::NoEffect);
}

#[test]
fn lanes_tabbar_ignores_down_with_no_lanes() {
    let (focus, ..) = reduce_lanes_nav(LanesFocus::TabBar, 0, 0, NavVerb::Down, false);
    assert_eq!(focus, LanesFocus::TabBar);
}

#[test]
fn lanes_rows_down_moves_selection_and_clamps_at_bottom() {
    let (_, selected, effect) = reduce_lanes_nav(LanesFocus::Rows, 0, 3, NavVerb::Down, false);
    assert_eq!(selected, 1);
    assert_eq!(effect, LanesNavEffect::NoEffect);
    let (_, selected, _) = reduce_lanes_nav(LanesFocus::Rows, 2, 3, NavVerb::Down, false);
    assert_eq!(selected, 2, "clamps at the last row");
}

#[test]
fn lanes_rows_up_at_top_returns_to_tabbar() {
    let (focus, selected, _) = reduce_lanes_nav(LanesFocus::Rows, 0, 3, NavVerb::Up, false);
    assert_eq!(focus, LanesFocus::TabBar);
    assert_eq!(selected, 0);
    let (focus, selected, _) = reduce_lanes_nav(LanesFocus::Rows, 2, 3, NavVerb::Up, false);
    assert_eq!(focus, LanesFocus::Rows);
    assert_eq!(selected, 1);
}

#[test]
fn lanes_rows_coarse_up_reorders_and_moves_selection_with_it() {
    let (focus, selected, effect) = reduce_lanes_nav(LanesFocus::Rows, 2, 5, NavVerb::Up, true);
    assert_eq!(focus, LanesFocus::Rows);
    assert_eq!(selected, 1, "selection follows the moved lane");
    assert_eq!(effect, LanesNavEffect::Reorder { index: 2, dir: -1 });
}

#[test]
fn lanes_rows_coarse_down_at_bottom_is_a_plain_noop() {
    let (focus, selected, effect) = reduce_lanes_nav(LanesFocus::Rows, 2, 3, NavVerb::Down, true);
    assert_eq!(focus, LanesFocus::Rows);
    assert_eq!(selected, 2, "already at the bottom, no reorder target");
    assert_eq!(effect, LanesNavEffect::NoEffect);
}

#[test]
fn lanes_rows_confirm_enters_detail() {
    let (focus, selected, effect) =
        reduce_lanes_nav(LanesFocus::Rows, 1, 3, NavVerb::Confirm, false);
    assert_eq!(focus, LanesFocus::Detail);
    assert_eq!(selected, 1);
    assert_eq!(effect, LanesNavEffect::NoEffect);
}

#[test]
fn lanes_detail_left_right_emit_width_adjust_effects() {
    let (focus, _, effect) = reduce_lanes_nav(LanesFocus::Detail, 3, 5, NavVerb::Dec, false);
    assert_eq!(focus, LanesFocus::Detail, "stays in Detail while adjusting");
    assert_eq!(effect, LanesNavEffect::AdjustWidth { index: 3, dir: -1 });
    let (_, _, effect) = reduce_lanes_nav(LanesFocus::Detail, 3, 5, NavVerb::Inc, false);
    assert_eq!(effect, LanesNavEffect::AdjustWidth { index: 3, dir: 1 });
}

#[test]
fn lanes_detail_back_returns_to_rows_keeping_selection() {
    let (focus, selected, effect) =
        reduce_lanes_nav(LanesFocus::Detail, 4, 6, NavVerb::Back, false);
    assert_eq!(focus, LanesFocus::Rows);
    assert_eq!(selected, 4);
    assert_eq!(effect, LanesNavEffect::NoEffect);
}

#[test]
fn lane_focus_rings_follow_focus_level() {
    // Row ring only while Rows is focused AND the row is the selection.
    assert!(lane_row_ring(LanesFocus::Rows, true));
    assert!(!lane_row_ring(LanesFocus::Rows, false));
    assert!(!lane_row_ring(LanesFocus::TabBar, true));
    assert!(!lane_row_ring(LanesFocus::Detail, true));
    // Detail-card ring only at Detail.
    assert!(lane_detail_ring(LanesFocus::Detail));
    assert!(!lane_detail_ring(LanesFocus::Rows));
    assert!(!lane_detail_ring(LanesFocus::TabBar));
}

#[test]
fn lanes_rows_back_and_empty_confirm() {
    let (focus, selected, _) = reduce_lanes_nav(LanesFocus::Rows, 1, 3, NavVerb::Back, false);
    assert_eq!(focus, LanesFocus::TabBar);
    assert_eq!(selected, 1);
    let (focus, _, _) = reduce_lanes_nav(LanesFocus::Rows, 0, 0, NavVerb::Confirm, false);
    assert_eq!(focus, LanesFocus::Rows, "no lane to open");
    assert_eq!(LanesFocus::default(), LanesFocus::TabBar);
    assert_eq!(WIDTH_STEP, 4);
}

#[test]
fn lanes_step_clamps_cursor_to_last_row() {
    // A stale selection past the end acts on the last row.
    let step = lanes_nav_step(LanesFocus::Rows, Some(9), 3, NavVerb::Up, false);
    assert_eq!(step.focus, LanesFocus::Rows);
    assert_eq!(step.selected, Some(1));
    assert_eq!(step.effect, LanesNavEffect::NoEffect);
    assert!(step.rearm_width_undo);
}

#[test]
fn lanes_step_keeps_selection_on_tab_bar() {
    let step = lanes_nav_step(LanesFocus::Rows, None, 3, NavVerb::Back, false);
    assert_eq!(step.focus, LanesFocus::TabBar);
    assert_eq!(step.selected, None);
    let step = lanes_nav_step(LanesFocus::TabBar, None, 3, NavVerb::Down, false);
    assert_eq!(step.focus, LanesFocus::Rows);
    assert_eq!(step.selected, Some(0));
}

#[test]
fn lanes_step_coarse_reorders_and_detail_adjusts() {
    let step = lanes_nav_step(LanesFocus::Rows, Some(1), 3, NavVerb::Down, true);
    assert_eq!(step.selected, Some(2));
    assert_eq!(step.effect, LanesNavEffect::Reorder { index: 1, dir: 1 });
    assert_eq!(reorder_target(1, 1), 2);
    let step = lanes_nav_step(LanesFocus::Detail, Some(2), 3, NavVerb::Dec, false);
    assert_eq!(step.focus, LanesFocus::Detail);
    assert_eq!(step.effect, LanesNavEffect::AdjustWidth { index: 2, dir: -1 });
    assert!(!step.rearm_width_undo);
}

#[test]
fn reorder_target_saturates() {
    assert_eq!(reorder_target(0, -1), 0);
    assert_eq!(reorder_target(5, -1), 4);
    assert_eq!(reorder_target(usize::MAX, 1), usize::MAX);
}

#[test]
fn lanes_tab_change_and_escape() {
    assert_eq!(lanes_on_tab_changed(LanesFocus::Detail), (LanesFocus::TabBar, true));
    assert_eq!(lanes_on_tab_changed(LanesFocus::TabBar), (LanesFocus::TabBar, false));
    assert!(lanes_escape_is_back(LanesFocus::Detail, true));
    assert!(!lanes_escape_is_back(LanesFocus::Rows, true));
    assert!(!lanes_escape_is_back(LanesFocus::Detail, false));
}

#[test]
fn lanes_consumer_reorders_adjusts_width_and_batches_undo_per_visit() {
    let mut lanes = vec![("LC", 40), ("HH", 40), ("SD", 40), ("BD", 40)];
    let mut focus = LanesFocus::TabBar;
    let mut selected: Option<usize> = None;
    let mut snapshots = 0;
    let mut width_undo_pushed = false;
    let nav = |verb: NavVerb,
                   coarse: bool,
                   lanes: &mut Vec<(&str, i32)>,
                   focus: &mut LanesFocus,
                   selected: &mut Option<usize>,
                   snapshots: &mut i32,
                   pushed: &mut bool| {
        let step = lanes_nav_step(*focus, *selected, lanes.len(), verb, coarse);
        match step.effect {
            LanesNavEffect::Reorder { index, dir } => {
                *snapshots += 1;
                move_lane_to(lanes, index, reorder_target(index, dir));
            }
            LanesNavEffect::AdjustWidth { index, dir } => {
                if !*pushed {
                    *snapshots += 1;
                    *pushed = true;
                }
                lanes[index].1 += dir * WIDTH_STEP * if coarse { 4 } else { 1 };
            }
            LanesNavEffect::NoEffect => {}
        }
        if step.rearm_width_undo {
            *pushed = false;
        }
        *focus = step.focus;
        *selected = step.selected;
    };

    // TabBar -> Rows; no selection bridges to 0.
    nav(NavVerb::Down, false, &mut lanes, &mut focus, &mut selected, &mut snapshots, &mut width_undo_pushed);
    assert_eq!(focus, LanesFocus::Rows);
    assert_eq!(selected, Some(0));

    // Shift+Down twice: two reorders, one undo snapshot each.
    nav(NavVerb::Down, true, &mut lanes, &mut focus, &mut selected, &mut snapshots, &mut width_undo_pushed);
    nav(NavVerb::Down, true, &mut lanes, &mut focus, &mut selected, &mut snapshots, &mut width_undo_pushed);
    assert_eq!(lanes[2].0, "LC");
    assert_eq!(selected, Some(2));

    // Enter -> Detail; Left/Right adjust width with one snapshot for the visit.
    nav(NavVerb::Confirm, false, &mut lanes, &mut focus, &mut selected, &mut snapshots, &mut width_undo_pushed);
    assert_eq!(focus, LanesFocus::Detail);
    let w0 = lanes[2].1;
    nav(NavVerb::Inc, false, &mut lanes, &mut focus, &mut selected, &mut snapshots, &mut width_undo_pushed);
    nav(NavVerb::Inc, true, &mut lanes, &mut focus, &mut selected, &mut snapshots, &mut width_undo_pushed);
    nav(NavVerb::Dec, false, &mut lanes, &mut focus, &mut selected, &mut snapshots, &mut width_undo_pushed);
    assert_eq!(lanes[2].1 - w0, 16, "4 + 16 - 4 = +16");

    // Esc backs out to Rows.
    assert!(lanes_escape_is_back(focus, true));
    nav(NavVerb::Back, false, &mut lanes, &mut focus, &mut selected, &mut snapshots, &mut width_undo_pushed);
    assert_eq!(focus, LanesFocus::Rows);

    // Second Detail visit: width undo re-arms, one more snapshot.
    nav(NavVerb::Confirm, false, &mut lanes, &mut focus, &mut selected, &mut snapshots, &mut width_undo_pushed);
    nav(NavVerb::Inc, false, &mut lanes, &mut focus, &mut selected, &mut snapshots, &mut width_undo_pushed);
    assert_eq!(snapshots, 4, "per-press reorder undo + once-per-visit width undo");
}
