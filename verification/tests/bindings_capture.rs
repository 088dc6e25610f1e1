use lib::editor::bindings_capture::{
    capture_active, capture_step, captured_lane_hit, channel_for_note, midi_hit_autoselect, owner_of,
    CaptureEffect, CaptureInput, CaptureState,
};
use lib::editor::bindings_panel::{BindSource, ChannelSources, InputBindings, MidiSettings};
use lib::editor::nav::CustomizeTab;
use lib::lane_map::EChannel;

const KEY_X: BindSource = BindSource::Key(88);

fn bindings(map: Vec<ChannelSources>) -> InputBindings {
    InputBindings {
        map,
        system: vec![],
        midi: MidiSettings {
            velocity_threshold: 10,
            port: None,
        },
    }
}

fn hh_on_99() -> InputBindings {
    bindings(vec![ChannelSources {
        channel: EChannel::HiHatClose,
        sources: vec![BindSource::Midi { note: 99 }],
    }])
}

fn input() -> CaptureInput {
    CaptureInput {
        escape: false,
        enter: false,
        modifier_held: false,
        key_candidate: None,
        midi_candidate: None,
    }
}

#[test]
fn steal_detection_only_applies_to_midi() {
    let ib = hh_on_99();
    assert_eq!(owner_of(&ib, KEY_X), None);
    assert_eq!(owner_of(&ib, BindSource::Midi { note: 99 }), Some(EChannel::HiHatClose));
}

#[test]
fn capture_feedback_targets_newly_bound_channel() {
    let hit = captured_lane_hit(EChannel::Snare, 1234);
    assert_eq!(hit.map(|value| (value.lane, value.audio_ms)), Some((1, 1234)));
}

#[test]
fn capture_active_only_outside_idle() {
    assert!(!capture_active(&CaptureState::Idle));
    assert!(capture_active(&CaptureState::Capturing(EChannel::Snare)));
    assert!(capture_active(&CaptureState::ConfirmSteal {
        channel: EChannel::Snare,
        source: BindSource::Midi { note: 99 },
        from: EChannel::HiHatClose,
    }));
    assert_eq!(CaptureState::default(), CaptureState::Idle);
}

#[test]
fn channel_for_note_takes_first_holder() {
    let ib = bindings(vec![
        ChannelSources { channel: EChannel::Snare, sources: vec![KEY_X] },
        ChannelSources { channel: EChannel::HiHatClose, sources: vec![BindSource::Midi { note: 42 }] },
        ChannelSources { channel: EChannel::Cymbal, sources: vec![BindSource::Midi { note: 42 }] },
    ]);
    assert_eq!(channel_for_note(&ib, 42), Some(EChannel::HiHatClose));
    assert_eq!(channel_for_note(&ib, 43), None);
}

#[test]
fn key_binds_at_once_and_shared() {
    let ib = hh_on_99();
    let mut i = input();
    i.key_candidate = Some(KEY_X);
    let (next, effect) = capture_step(CaptureState::Capturing(EChannel::Snare), i, &ib);
    assert_eq!(next, CaptureState::Idle);
    assert_eq!(
        effect,
        CaptureEffect::Bind { channel: EChannel::Snare, source: KEY_X, exclusive: false }
    );
}

#[test]
fn owned_midi_note_waits_for_confirmation() {
    let ib = hh_on_99();
    let mut i = input();
    i.midi_candidate = Some(BindSource::Midi { note: 99 });
    let (next, effect) = capture_step(CaptureState::Capturing(EChannel::Snare), i, &ib);
    let expected = CaptureState::ConfirmSteal {
        channel: EChannel::Snare,
        source: BindSource::Midi { note: 99 },
        from: EChannel::HiHatClose,
    };
    assert_eq!(next, expected);
    assert_eq!(effect, CaptureEffect::Nothing);

    // Nothing pressed: still waiting.
    assert_eq!(capture_step(expected, input(), &ib), (expected, CaptureEffect::Nothing));

    // Enter steals.
    let mut enter = input();
    enter.enter = true;
    assert_eq!(
        capture_step(expected, enter, &ib),
        (
            CaptureState::Idle,
            CaptureEffect::Bind {
                channel: EChannel::Snare,
                source: BindSource::Midi { note: 99 },
                exclusive: true,
            }
        )
    );

    // Escape cancels.
    let mut esc = input();
    esc.escape = true;
    assert_eq!(capture_step(expected, esc, &ib), (CaptureState::Idle, CaptureEffect::Nothing));
}

#[test]
fn midi_note_already_on_channel_rebinds_without_prompt() {
    let ib = hh_on_99();
    let mut i = input();
    i.midi_candidate = Some(BindSource::Midi { note: 99 });
    let (next, effect) = capture_step(CaptureState::Capturing(EChannel::HiHatClose), i, &ib);
    assert_eq!(next, CaptureState::Idle);
    assert_eq!(
        effect,
        CaptureEffect::Bind {
            channel: EChannel::HiHatClose,
            source: BindSource::Midi { note: 99 },
            exclusive: true,
        }
    );
}

#[test]
fn escape_and_modifiers_never_bind() {
    let ib = hh_on_99();
    let mut esc = input();
    esc.escape = true;
    esc.key_candidate = Some(KEY_X);
    assert_eq!(
        capture_step(CaptureState::Capturing(EChannel::Snare), esc, &ib),
        (CaptureState::Idle, CaptureEffect::Nothing)
    );
    let mut chord = input();
    chord.modifier_held = true;
    chord.key_candidate = Some(KEY_X);
    assert_eq!(
        capture_step(CaptureState::Capturing(EChannel::Snare), chord, &ib),
        (CaptureState::Capturing(EChannel::Snare), CaptureEffect::Nothing)
    );
    assert_eq!(
        capture_step(CaptureState::Idle, chord, &ib),
        (CaptureState::Idle, CaptureEffect::Nothing)
    );
}

#[test]
fn key_wins_over_midi_in_same_frame() {
    let ib = hh_on_99();
    let mut i = input();
    i.key_candidate = Some(KEY_X);
    i.midi_candidate = Some(BindSource::Midi { note: 99 });
    let (next, effect) = capture_step(CaptureState::Capturing(EChannel::Snare), i, &ib);
    assert_eq!(next, CaptureState::Idle);
    assert_eq!(
        effect,
        CaptureEffect::Bind { channel: EChannel::Snare, source: KEY_X, exclusive: false }
    );
}

#[test]
fn midi_autoselect_only_on_bindings_tab() {
    let ib = hh_on_99();
    assert_eq!(midi_hit_autoselect(CustomizeTab::Bindings, Some(99), &ib), Some(EChannel::HiHatClose));
    assert_eq!(midi_hit_autoselect(CustomizeTab::Bindings, Some(1), &ib), None);
    assert_eq!(midi_hit_autoselect(CustomizeTab::Bindings, None, &ib), None);
    assert_eq!(midi_hit_autoselect(CustomizeTab::Lanes, Some(99), &ib), None);
}
