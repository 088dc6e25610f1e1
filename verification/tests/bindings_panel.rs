use lib::editor::bindings_panel::{
    cancel_bindings_reset, chip_label, delete_last_segment_source, port_display_label, truncate_label, last_segment_source_index, last_system_source_index, port_cycle_index,
    reset_segment, segment_matches, segment_rows, system_segment_rows, velocity_step, BindSource,
    BindingsResetState, ChannelSources, InputBindings, MidiSettings, VerbSources,
};
use lib::editor::controls_panel::ControlsSegment;
use lib::editor::nav::SystemVerb;
use lib::lane_map::EChannel;

const KEY_A: BindSource = BindSource::Key(65);
const KEY_B: BindSource = BindSource::Key(66);
const KEY_Q: BindSource = BindSource::Key(81);
const SPACE: BindSource = BindSource::Key(32);
const F9: BindSource = BindSource::Key(120);

fn entry(channel: EChannel, sources: Vec<BindSource>) -> ChannelSources {
    ChannelSources { channel, sources }
}

/// A default binding set: keyboard and MIDI on most pads, keyboard only
/// on the left bass drum.
fn defaults() -> InputBindings {
    InputBindings {
        map: vec![
            entry(EChannel::HiHatClose, vec![BindSource::Key(90), BindSource::Midi { note: 42 }]),
            entry(EChannel::Snare, vec![BindSource::Key(88), BindSource::Midi { note: 38 }]),
            entry(EChannel::BassDrum, vec![SPACE, BindSource::Midi { note: 36 }]),
            entry(EChannel::LeftBassDrum, vec![BindSource::Key(86)]),
        ],
        system: vec![],
        midi: MidiSettings {
            velocity_threshold: 10,
            port: None,
        },
    }
}

const ORDER: [EChannel; 4] = [EChannel::HiHatClose, EChannel::Snare, EChannel::BassDrum, EChannel::LeftBassDrum];
/// One lane per channel of `ORDER`.
fn lanes() -> Vec<Vec<EChannel>> {
    ORDER.iter().map(|ch| vec![*ch]).collect()
}

const VERBS: [SystemVerb; 2] = [SystemVerb::Pause, SystemVerb::Restart];

#[test]
fn port_cycle_index_wraps() {
    assert_eq!(port_cycle_index(Some(0), 1, 3), 1);
    assert_eq!(port_cycle_index(Some(2), 1, 3), 0);
    assert_eq!(port_cycle_index(Some(0), -1, 3), 2);
    assert_eq!(port_cycle_index(None, 1, 3), 1);
    assert_eq!(port_cycle_index(None, -1, 3), 2);
    assert_eq!(port_cycle_index(Some(1), -7, 3), 0);
}

#[test]
fn segment_filters_sources_and_flags_shared() {
    let mut b = defaults();
    // Space now on BD and LBD.
    b.map[3].sources.push(SPACE);
    let rows = segment_rows(&b, ControlsSegment::Keyboard, &lanes(), &ORDER);
    let bd = rows.iter().find(|r| r.channel == EChannel::BassDrum).unwrap();
    assert!(bd.chips.iter().all(|c| matches!(c.source, BindSource::Key(_))));
    assert!(bd.chips.iter().any(|c| c.shared), "Space now on BD+LBD");
    let hh = rows.iter().find(|r| r.channel == EChannel::HiHatClose).unwrap();
    assert!(hh.chips.iter().all(|c| !c.shared));
}

#[test]
fn segment_rows_preserve_unfiltered_source_index() {
    let mut b = defaults();
    b.map[1].sources = vec![BindSource::Midi { note: 60 }, KEY_A, KEY_B];
    let rows = segment_rows(&b, ControlsSegment::Keyboard, &lanes(), &ORDER);
    let sd = rows.iter().find(|r| r.channel == EChannel::Snare).unwrap();
    assert_eq!(sd.chips.len(), 2, "only the two key chips show in Keyboard");
    assert_eq!(sd.chips[0].index, 1);
    assert_eq!(sd.chips[0].source, KEY_A);
    assert_eq!(sd.chips[1].index, 2);
    assert_eq!(sd.chips[1].source, KEY_B);
}

#[test]
fn segment_rows_flag_channel_with_no_segment_source_as_unbound() {
    // LeftBassDrum has no MIDI default (keyboard-only channel), so it must
    // read unbound on the MIDI segment even though it IS bound overall.
    let rows = segment_rows(&defaults(), ControlsSegment::Midi, &lanes(), &ORDER);
    let lbd = rows.iter().find(|r| r.channel == EChannel::LeftBassDrum).unwrap();
    assert!(lbd.unbound);
    assert!(lbd.chips.is_empty());
    // A channel without any entry still gets a row, unbound.
    let rows = segment_rows(&defaults(), ControlsSegment::Keyboard, &[], &[EChannel::Cymbal]);
    assert_eq!(rows.len(), 1);
    assert!(rows[0].unbound);
}

#[test]
fn keyboard_reset_keeps_midi_map_and_device() {
    let mut live = defaults();
    let mut rev = 0u64;
    live.midi.velocity_threshold = 64;
    for e in live.map.iter_mut() {
        e.sources.retain(|s| !matches!(s, BindSource::Key(_)));
    }
    reset_segment(&mut live, &mut rev, ControlsSegment::Keyboard, &defaults());
    for e in &defaults().map {
        for s in e.sources.iter().filter(|s| matches!(s, BindSource::Key(_))) {
            let ch = live.map.iter().find(|l| l.channel == e.channel).expect("channel present");
            assert!(ch.sources.contains(s), "{:?} missing {:?}", e.channel, s);
        }
    }
    let sd = live.map.iter().find(|l| l.channel == EChannel::Snare).unwrap();
    assert!(sd.sources.contains(&BindSource::Midi { note: 38 }), "MIDI sources untouched");
    assert_eq!(live.midi.velocity_threshold, 64);
    assert_eq!(rev, 1);
}

#[test]
fn midi_reset_keeps_keyboard_map_and_resets_device() {
    let mut live = defaults();
    let mut rev = 0u64;
    live.midi.velocity_threshold = 64;
    live.midi.port = Some("test-port".to_owned());
    // Custom (non-default) keyboard bind survives a MIDI reset.
    live.map[1].sources.push(KEY_Q);
    live.map[1].sources.push(BindSource::Midi { note: 77 });
    reset_segment(&mut live, &mut rev, ControlsSegment::Midi, &defaults());
    assert_eq!(live.midi.velocity_threshold, defaults().midi.velocity_threshold);
    assert_eq!(live.midi.port, None, "MIDI reset restores default port");
    let sd = live.map.iter().find(|l| l.channel == EChannel::Snare).unwrap();
    assert!(sd.sources.contains(&KEY_Q), "custom keyboard bind survives MIDI reset");
    assert!(!sd.sources.contains(&BindSource::Midi { note: 77 }), "custom MIDI bind is reset");
    assert_eq!(sd.sources, vec![BindSource::Key(88), KEY_Q, BindSource::Midi { note: 38 }]);
}

#[test]
fn reset_drops_channels_left_without_sources() {
    let mut live = defaults();
    live.map.push(entry(EChannel::Cymbal, vec![BindSource::Midi { note: 49 }]));
    let mut rev = u64::MAX;
    reset_segment(&mut live, &mut rev, ControlsSegment::Midi, &defaults());
    assert!(live.map.iter().all(|e| e.channel != EChannel::Cymbal), "no default MIDI, no keys: gone");
    assert_eq!(rev, 0, "the revision wraps");
}

#[test]
fn last_segment_source_index_picks_last_matching_segment() {
    let mut b = defaults();
    b.map[1].sources = vec![KEY_A, BindSource::Midi { note: 60 }, KEY_B, BindSource::Midi { note: 61 }];
    assert_eq!(
        last_segment_source_index(&b, EChannel::Snare, ControlsSegment::Keyboard),
        Some(2),
        "last KEY source, full-list index"
    );
    assert_eq!(last_segment_source_index(&b, EChannel::Snare, ControlsSegment::Midi), Some(3));
    // No source in the segment: None (Backspace no-ops).
    b.map.push(entry(EChannel::HighTom, vec![BindSource::Midi { note: 48 }]));
    assert_eq!(last_segment_source_index(&b, EChannel::HighTom, ControlsSegment::Keyboard), None);
    // Unknown channel: None.
    assert_eq!(last_segment_source_index(&b, EChannel::LowTom, ControlsSegment::Keyboard), None);
}

#[test]
fn system_rows_are_segment_filtered_and_flag_unbound() {
    let mut b = defaults();
    b.system.push(VerbSources {
        verb: SystemVerb::Pause,
        sources: vec![BindSource::Midi { note: 37 }, F9],
    });
    let midi_rows = system_segment_rows(&b, ControlsSegment::Midi, &VERBS);
    let pause = midi_rows.iter().find(|r| r.verb == SystemVerb::Pause).expect("Pause row exists");
    assert_eq!(pause.chips.len(), 1);
    assert_eq!(pause.chips[0].source, BindSource::Midi { note: 37 });
    assert_eq!(pause.chips[0].index, 0, "index into the FULL source list");
    assert!(!pause.chips[0].shared, "a verb source is never a lane's");
    let restart = midi_rows.iter().find(|r| r.verb == SystemVerb::Restart).expect("Restart row exists");
    assert!(restart.unbound, "unbound by default");
    let kb_rows = system_segment_rows(&b, ControlsSegment::Keyboard, &VERBS);
    let pause = kb_rows.iter().find(|r| r.verb == SystemVerb::Pause).expect("Pause row exists");
    assert_eq!(pause.chips.len(), 1);
    assert_eq!(pause.chips[0].index, 1, "full-list index, not filtered");
}

#[test]
fn last_system_source_index_picks_last_in_segment() {
    let mut b = defaults();
    b.system.push(VerbSources {
        verb: SystemVerb::Pause,
        sources: vec![F9, BindSource::Midi { note: 37 }, BindSource::Midi { note: 53 }],
    });
    assert_eq!(last_system_source_index(&b, SystemVerb::Pause, ControlsSegment::Midi), Some(2));
    assert_eq!(last_system_source_index(&b, SystemVerb::Pause, ControlsSegment::Keyboard), Some(0));
    assert_eq!(
        last_system_source_index(&b, SystemVerb::Restart, ControlsSegment::Midi),
        None,
        "unbound verb: Backspace no-ops"
    );
}

#[test]
fn cancel_reset_leaves_bindings_unchanged() {
    let mut state = BindingsResetState::Confirming;
    cancel_bindings_reset(&mut state);
    assert_eq!(state, BindingsResetState::Idle);
    assert_eq!(BindingsResetState::default(), BindingsResetState::Idle);
}

#[test]
fn velocity_threshold_steps_within_midi_range() {
    assert_eq!(velocity_step(10, 1), (11, true));
    assert_eq!(velocity_step(0, -1), (0, false));
    assert_eq!(velocity_step(127, 1), (127, false));
    assert_eq!(velocity_step(200, 0), (127, true), "out-of-range values snap back");
    assert!(segment_matches(ControlsSegment::Keyboard, KEY_A));
    assert!(!segment_matches(ControlsSegment::Midi, KEY_A));
}

#[test]
fn backspace_removes_the_last_source_of_the_segment_only() {
    let mut b = defaults();
    let mut rev = 7u64;
    // Snare: [Key(88), Midi 38]. The MIDI segment removes the note only.
    assert!(delete_last_segment_source(&mut b, &mut rev, EChannel::Snare, ControlsSegment::Midi));
    assert_eq!(b.map[1].sources, vec![BindSource::Key(88)]);
    assert_eq!(rev, 8);
    // Nothing of that segment left: no change, no repaint.
    assert!(!delete_last_segment_source(&mut b, &mut rev, EChannel::Snare, ControlsSegment::Midi));
    assert_eq!(rev, 8);
    // A channel without an entry.
    assert!(!delete_last_segment_source(&mut b, &mut rev, EChannel::Cymbal, ControlsSegment::Keyboard));
    // Other channels untouched.
    assert_eq!(b.map[0], defaults().map[0]);
    let mut wrap = u64::MAX;
    assert!(delete_last_segment_source(&mut b, &mut wrap, EChannel::BassDrum, ControlsSegment::Keyboard));
    assert_eq!(wrap, 0);
    assert_eq!(b.map[2].sources, vec![BindSource::Midi { note: 36 }]);
}

#[test]
fn truncate_label_adds_ellipsis() {
    assert_eq!(truncate_label("short", 22), "short");
    let long = "NUX NTK-61:NUX NTK-61 Midi 32:0";
    let out = truncate_label(long, 22);
    assert_eq!(out.chars().count(), 22);
    assert!(out.ends_with('\u{2026}'));
    assert_eq!(out, "NUX NTK-61:NUX NTK-61\u{2026}");
    assert_eq!(truncate_label("abc", 0), "\u{2026}");
    assert_eq!(truncate_label("abc", 3), "abc");
}

#[test]
fn port_display_label_variants() {
    assert_eq!(port_display_label(&None, &[]), "(no MIDI devices)");
    assert_eq!(port_display_label(&None, &["A".to_string()]), "(first available)");
    assert_eq!(port_display_label(&Some("Kit".to_string()), &["Kit".to_string()]), "Kit");
}

#[test]
fn shared_chip_gets_marker() {
    assert_eq!(chip_label("N42", false), "N42");
    assert_eq!(chip_label("N42", true), "N42 \u{29c9}");
}

#[test]
fn segment_rows_follow_lane_display_order_then_unplaced_bindables() {
    // The lanes show BD then the hi-hat group; Snare is bindable but on no lane.
    let lanes = vec![
        vec![EChannel::BassDrum, EChannel::LeftBassDrum],
        vec![EChannel::HiHatClose],
    ];
    let bindable = [EChannel::HiHatClose, EChannel::Snare, EChannel::BassDrum, EChannel::LeftBassDrum];
    let rows = segment_rows(&defaults(), ControlsSegment::Keyboard, &lanes, &bindable);
    let order: Vec<EChannel> = rows.iter().map(|r| r.channel).collect();
    assert_eq!(
        order,
        vec![EChannel::BassDrum, EChannel::LeftBassDrum, EChannel::HiHatClose, EChannel::Snare]
    );
    assert_eq!(rows[3].chips[0].source, BindSource::Key(88));
}
