use lib::editor::drag::cycle_widget;
use lib::editor::lane_drag::move_lane_to;
use lib::editor::picking::{cycle_pick, press_pick};

#[derive(Debug, Clone, Copy, PartialEq, Eq)]
enum Widget {
    Combo,
    ScorePanel,
    Playfield,
    Gauge,
}

const ALL: [Widget; 4] = [Widget::Playfield, Widget::Combo, Widget::ScorePanel, Widget::Gauge];

#[test]
fn cycle_wraps_through_candidates() {
    let c = [Widget::Combo, Widget::ScorePanel, Widget::Playfield];
    assert_eq!(cycle_pick(&c, None), Some(Widget::Combo));
    assert_eq!(cycle_pick(&c, Some(Widget::Combo)), Some(Widget::ScorePanel));
    assert_eq!(cycle_pick(&c, Some(Widget::Playfield)), Some(Widget::Combo));
    assert_eq!(cycle_pick(&[], Some(Widget::Combo)), None);
    assert_eq!(cycle_pick(&c, Some(Widget::Gauge)), Some(Widget::Combo), "not stacked here: topmost");
}

#[test]
fn tab_cycle_walks_sidebar_order_wraps_and_reverses() {
    let all = ALL;
    // None starts at the first list entry (both directions).
    assert_eq!(cycle_widget(&all, None, false), all[0]);
    assert_eq!(cycle_widget(&all, None, true), all[0]);
    // Forward walk + wrap.
    assert_eq!(cycle_widget(&all, Some(all[0]), false), all[1]);
    assert_eq!(cycle_widget(&all, Some(all[all.len() - 1]), false), all[0]);
    // Reverse walk + wrap.
    assert_eq!(cycle_widget(&all, Some(all[1]), true), all[0]);
    assert_eq!(cycle_widget(&all, Some(all[0]), true), all[all.len() - 1]);
}

#[test]
fn move_lane_to_walks_adjacent_swaps() {
    let mut lanes = vec!["LC", "HH", "LP", "SD", "HT", "BD"];
    move_lane_to(&mut lanes, 0, 3);
    assert_eq!(lanes[3], "LC", "lane 0 walked to index 3");
    assert_eq!(lanes, vec!["HH", "LP", "SD", "LC", "HT", "BD"]);
    move_lane_to(&mut lanes, 4, 1);
    assert_eq!(lanes, vec!["HH", "HT", "LP", "SD", "LC", "BD"]);
}

#[test]
fn move_lane_to_same_index_is_noop() {
    let mut lanes = vec![1, 2, 3, 4];
    let before = lanes.clone();
    move_lane_to(&mut lanes, 2, 2);
    assert_eq!(lanes, before);
}

#[test]
fn press_pick_skips_hidden_and_cycles_with_alt() {
    let cands = [Widget::Combo, Widget::ScorePanel, Widget::Combo];
    // Hidden widgets are not pickable on the canvas.
    assert_eq!(press_pick(&cands, &[Widget::Combo], false, None), Some(Widget::ScorePanel));
    assert_eq!(press_pick(&cands, &[], false, Some(Widget::ScorePanel)), Some(Widget::Combo));
    assert_eq!(press_pick(&cands, &[], true, Some(Widget::Combo)), Some(Widget::ScorePanel));
    assert_eq!(press_pick(&cands, &[Widget::Combo, Widget::ScorePanel], true, None), None);
    assert_eq!(press_pick::<Widget>(&[], &[], false, None), None);
}
