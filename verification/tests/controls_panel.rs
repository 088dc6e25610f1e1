use lib::editor::controls_panel::{
    channels_in_display_order, match_midi_port, normalize_port_filter, reduce_controls_nav,
    step_channel, ControlsFocus, ControlsSegment, PortMatch, RowStep,
};
use lib::editor::bindings_panel::{delete_last_segment_source, BindSource, ChannelSources, InputBindings, MidiSettings};
use lib::editor::keyboard_nav::pad_excluded;
use lib::editor::nav::{CustomizeTab, NavVerb};
use lib::lane_map::EChannel;

#[test]
fn empty_port_filter_normalizes_to_none() {
    assert_eq!(normalize_port_filter(None), None);
    assert_eq!(normalize_port_filter(Some("")), None);
    assert_eq!(normalize_port_filter(Some("   ")), None);
    assert_eq!(
        normalize_port_filter(Some(" TD-17 ")),
        Some("TD-17".to_owned())
    );
    assert_eq!(match_midi_port(Some("  "), &[]), PortMatch::FirstAvailable);
}

#[test]
fn port_match_prefers_exact_case_sensitive_name() {
    let ports = vec![
        "TD-17 MIDI 1".to_owned(),
        "TD-17".to_owned(),
        "td-17".to_owned(),
    ];
    assert_eq!(match_midi_port(Some("TD-17"), &ports), PortMatch::Exact(1));
    assert_eq!(match_midi_port(Some("td-17"), &ports), PortMatch::Exact(2));
}

#[test]
fn port_match_uses_first_case_sensitive_substring_and_warns() {
    let ports = vec![
        "Roland TD-17 MIDI 1".to_owned(),
        "Roland TD-17 MIDI 2".to_owned(),
    ];
    assert_eq!(
        match_midi_port(Some("TD-17"), &ports),
        PortMatch::Substring {
            index: 0,
            ambiguous: true
        }
    );
    assert_eq!(
        match_midi_port(Some("MIDI 2"), &ports),
        PortMatch::Substring {
            index: 1,
            ambiguous: false
        }
    );
    // Case-sensitive: lowercase filter does not match uppercase names.
    assert_eq!(
        match_midi_port(Some("td-17"), &ports),
        PortMatch::Disconnected
    );
}

#[test]
fn missing_port_is_disconnected_without_profile_switch() {
    let ports = vec!["Some other device".to_owned()];
    assert_eq!(
        match_midi_port(Some("TD-17"), &ports),
        PortMatch::Disconnected
    );
}

#[test]
fn port_filter_is_trimmed_before_matching() {
    let ports = vec!["TD-17".to_owned()];
    assert_eq!(match_midi_port(Some("  TD-17\t"), &ports), PortMatch::Exact(0));
    assert_eq!(match_midi_port(None, &ports), PortMatch::FirstAvailable);
}

#[test]
fn display_order_uses_primary_then_canonical_secondaries_once() {
    let lanes = vec![
        vec![EChannel::LeftCymbal],
        vec![EChannel::HiHatClose, EChannel::HiHatOpen],
        vec![EChannel::LeftPedal, EChannel::LeftBassDrum],
        vec![EChannel::Snare],
        vec![EChannel::HighTom],
        vec![EChannel::BassDrum, EChannel::LeftBassDrum],
        vec![EChannel::Cymbal, EChannel::RideCymbal],
        vec![EChannel::RideCymbal],
    ];
    let order = channels_in_display_order(&lanes);
    assert_eq!(
        order,
        vec![
            EChannel::LeftCymbal,
            EChannel::HiHatClose,
            EChannel::HiHatOpen,
            EChannel::LeftPedal,
            EChannel::LeftBassDrum,
            EChannel::Snare,
            EChannel::HighTom,
            EChannel::BassDrum,
            EChannel::Cymbal,
            EChannel::RideCymbal,
        ]
    );
    assert!(channels_in_display_order(&[]).is_empty());
}

#[test]
fn controls_segment_left_right_switches() {
    let (focus, segment) = reduce_controls_nav(
        ControlsFocus::SegmentSelector,
        ControlsSegment::Keyboard,
        NavVerb::Inc,
    );
    assert_eq!(focus, ControlsFocus::SegmentSelector);
    assert_eq!(segment, ControlsSegment::Midi);
    let (_, segment) = reduce_controls_nav(ControlsFocus::SegmentSelector, segment, NavVerb::Dec);
    assert_eq!(segment, ControlsSegment::Keyboard);
}

#[test]
fn controls_down_enters_segment_then_rows() {
    let (focus, segment) = reduce_controls_nav(
        ControlsFocus::TabBar,
        ControlsSegment::Keyboard,
        NavVerb::Down,
    );
    assert_eq!(focus, ControlsFocus::SegmentSelector);
    let (focus, _) = reduce_controls_nav(focus, segment, NavVerb::Down);
    assert_eq!(focus, ControlsFocus::Rows);
}

#[test]
fn controls_up_returns_one_level() {
    let (focus, _) = reduce_controls_nav(ControlsFocus::Rows, ControlsSegment::Midi, NavVerb::Up);
    assert_eq!(focus, ControlsFocus::SegmentSelector);
    let (focus, segment) = reduce_controls_nav(focus, ControlsSegment::Midi, NavVerb::Up);
    assert_eq!(focus, ControlsFocus::TabBar);
    assert_eq!(segment, ControlsSegment::Midi, "segment survives leaving");
}

#[test]
fn row_step_walks_display_order_and_hands_off_at_top() {
    let chs = [EChannel::LeftCymbal, EChannel::HiHatClose, EChannel::Snare];
    // Stale / missing selection clamps to the first channel.
    assert_eq!(
        step_channel(&chs, None, 1),
        RowStep::Select(EChannel::LeftCymbal)
    );
    assert_eq!(
        step_channel(&chs, Some(EChannel::Cymbal), -1),
        RowStep::Select(EChannel::LeftCymbal),
        "channel not in display order clamps to first"
    );
    // Down walks and clamps at the bottom.
    assert_eq!(
        step_channel(&chs, Some(EChannel::LeftCymbal), 1),
        RowStep::Select(EChannel::HiHatClose)
    );
    assert_eq!(
        step_channel(&chs, Some(EChannel::Snare), 1),
        RowStep::Select(EChannel::Snare)
    );
    // Up from the first row returns focus to the segment selector.
    assert_eq!(
        step_channel(&chs, Some(EChannel::HiHatClose), -1),
        RowStep::Select(EChannel::LeftCymbal)
    );
    assert_eq!(
        step_channel(&chs, Some(EChannel::LeftCymbal), -1),
        RowStep::ToSegmentSelector
    );
    // Empty list: Up hands off, Down does nothing.
    assert_eq!(step_channel(&[], None, -1), RowStep::ToSegmentSelector);
    assert_eq!(step_channel(&[], None, 1), RowStep::Stay);
}

#[test]
fn pad_exclusion_matches_controls_contract() {
    // Pads must not navigate the Controls tab: a stray pad hit while
    // testing bindings would move focus.
    assert!(pad_excluded(CustomizeTab::Controls));
}

#[test]
fn segment_toggle_and_labels() {
    assert_eq!(ControlsSegment::Keyboard.toggled(), ControlsSegment::Midi);
    assert_eq!(ControlsSegment::Midi.toggled(), ControlsSegment::Keyboard);
    assert_eq!(ControlsSegment::default(), ControlsSegment::Keyboard);
    assert_ne!(ControlsSegment::Keyboard.label(), ControlsSegment::Midi.label());
}

use lib::editor::controls_panel::{bindable_channels_in_order, controls_nav_step};

const BINDABLE: [EChannel; 12] = [
    EChannel::HiHatClose,
    EChannel::Snare,
    EChannel::BassDrum,
    EChannel::HighTom,
    EChannel::LowTom,
    EChannel::FloorTom,
    EChannel::Cymbal,
    EChannel::HiHatOpen,
    EChannel::RideCymbal,
    EChannel::LeftCymbal,
    EChannel::LeftPedal,
    EChannel::LeftBassDrum,
];

fn classic() -> Vec<Vec<EChannel>> {
    vec![
        vec![EChannel::LeftCymbal],
        vec![EChannel::HiHatClose, EChannel::HiHatOpen],
        vec![EChannel::LeftPedal],
        vec![EChannel::Snare],
        vec![EChannel::HighTom],
        vec![EChannel::BassDrum, EChannel::LeftBassDrum],
        vec![EChannel::LowTom],
        vec![EChannel::FloorTom],
        vec![EChannel::Cymbal],
        vec![EChannel::RideCymbal],
    ]
}

#[test]
fn binding_rows_follow_classic_display_order() {
    assert_eq!(
        bindable_channels_in_order(&classic(), &BINDABLE),
        [
            EChannel::LeftCymbal,
            EChannel::HiHatClose,
            EChannel::HiHatOpen,
            EChannel::LeftPedal,
            EChannel::Snare,
            EChannel::HighTom,
            EChannel::BassDrum,
            EChannel::LeftBassDrum,
            EChannel::LowTom,
            EChannel::FloorTom,
            EChannel::Cymbal,
            EChannel::RideCymbal,
        ]
    );
}

#[test]
fn binding_rows_group_type_b_pedals_once() {
    let type_b = vec![
        vec![EChannel::LeftCymbal],
        vec![EChannel::HiHatClose, EChannel::HiHatOpen],
        vec![EChannel::Snare],
        vec![EChannel::LeftPedal, EChannel::LeftBassDrum],
        vec![EChannel::HighTom],
        vec![EChannel::BassDrum],
        vec![EChannel::LowTom],
        vec![EChannel::FloorTom],
        vec![EChannel::Cymbal, EChannel::RideCymbal],
    ];
    let rows = bindable_channels_in_order(&type_b, &BINDABLE);
    assert_eq!(rows.len(), BINDABLE.len());
    for channel in BINDABLE {
        assert_eq!(rows.iter().filter(|&&row| row == channel).count(), 1);
    }
    let lp = rows.iter().position(|&row| row == EChannel::LeftPedal);
    let lbd = rows.iter().position(|&row| row == EChannel::LeftBassDrum);
    assert_eq!(lbd, lp.map(|index| index + 1));
}

#[test]
fn missing_bindable_channels_get_rows_at_the_end() {
    let rows = bindable_channels_in_order(&[vec![EChannel::Snare, EChannel::BGM]], &BINDABLE);
    assert_eq!(rows.len(), 12, "non-bindable BGM is left out");
    assert_eq!(rows[0], EChannel::Snare);
    assert_eq!(rows[1], EChannel::HiHatClose);
}

#[test]
fn keyboard_descends_arms_capture_and_deletes_last_binding() {
    let chs = [EChannel::LeftCymbal, EChannel::HiHatClose, EChannel::Snare];
    let s = controls_nav_step(ControlsFocus::TabBar, ControlsSegment::Keyboard, None, &chs, NavVerb::Down);
    assert_eq!(s.focus, ControlsFocus::SegmentSelector);
    let s = controls_nav_step(s.focus, s.segment, s.selected, &chs, NavVerb::Down);
    assert_eq!(s.focus, ControlsFocus::Rows);
    assert_eq!(s.selected, Some(EChannel::LeftCymbal), "entering Rows seeds the cursor");
    let s = controls_nav_step(s.focus, s.segment, s.selected, &chs, NavVerb::Down);
    assert_eq!(s.selected, Some(EChannel::HiHatClose));
    // Backspace deletes the LAST keyboard source of the selected channel.
    let mut live = InputBindings {
        map: vec![ChannelSources {
            channel: EChannel::HiHatClose,
            sources: vec![BindSource::Key(90), BindSource::Midi { note: 42 }, BindSource::Key(81)],
        }],
        system: vec![],
        midi: MidiSettings { velocity_threshold: 10, port: None },
    };
    let mut rev = 0u64;
    assert!(delete_last_segment_source(&mut live, &mut rev, s.selected.unwrap(), s.segment));
    assert_eq!(live.map[0].sources, vec![BindSource::Key(90), BindSource::Midi { note: 42 }]);
    assert_eq!(rev, 1, "repaint requested");
    let s = controls_nav_step(s.focus, s.segment, s.selected, &chs, NavVerb::Confirm);
    assert_eq!(s.arm, Some(EChannel::HiHatClose));
    assert_eq!(s.segment, ControlsSegment::Keyboard);
    let up = controls_nav_step(ControlsFocus::Rows, ControlsSegment::Midi, Some(EChannel::LeftCymbal), &chs, NavVerb::Up);
    assert_eq!(up.focus, ControlsFocus::SegmentSelector);
    assert_eq!(up.segment, ControlsSegment::Midi);
    let stale = controls_nav_step(ControlsFocus::Rows, ControlsSegment::Midi, Some(EChannel::Cymbal), &chs, NavVerb::Confirm);
    assert_eq!(stale.arm, None, "a channel that is not a row arms nothing");
}

#[test]
fn blank_filters_of_any_unicode_whitespace_mean_first_available() {
    let ports = vec!["TD-17".to_owned()];
    for blank in ["", " ", "\t\n\r", "\u{3000}\u{a0}\u{2009}\u{85}"] {
        assert_eq!(normalize_port_filter(Some(blank)), None, "{blank:?}");
        assert_eq!(match_midi_port(Some(blank), &ports), PortMatch::FirstAvailable);
    }
    // Inner spaces stay; only the ends are trimmed, as `str::trim` does.
    assert_eq!(
        normalize_port_filter(Some("\u{3000} Roland TD 17 \u{a0}")),
        Some(" Roland TD 17 ".trim().to_owned())
    );
}

#[test]
fn substring_match_works_on_multibyte_names() {
    let ports = vec!["\u{dc}n\u{ef}code Kit 1".to_owned(), "Kit \u{dc}".to_owned()];
    assert_eq!(
        match_midi_port(Some("Kit"), &ports),
        PortMatch::Substring { index: 0, ambiguous: true }
    );
    assert_eq!(
        match_midi_port(Some("t \u{dc}"), &ports),
        PortMatch::Substring { index: 1, ambiguous: false }
    );
    assert_eq!(match_midi_port(Some("kit"), &ports), PortMatch::Disconnected);
}
