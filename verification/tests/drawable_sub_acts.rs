use lib::drawable_sub_acts::{judgement_string, note_explosion, performance_info, wailing_bonus_orch, wailing_effect};

#[test]
fn judgement_string_kinds() {
    assert_eq!(judgement_string::JUDGMENT_KINDS, 5);
    assert_eq!(judgement_string::DISPLAY_MS, 600);
}

#[test]
fn note_explosion_particles() {
    assert_eq!(note_explosion::PARTICLE_COUNT, 16);
    assert_eq!(note_explosion::LIFETIME_FRAMES, 30);
}

#[test]
fn wailing_effect_duration() {
    assert_eq!(wailing_effect::DURATION_FRAMES, 60);
}

#[test]
fn performance_info_default_bpm() {
    assert_eq!(performance_info::DEFAULT_BPM, 120);
    assert_eq!(performance_info::JUDGMENT_FIELDS, 5);
}

#[test]
fn wailing_bonus_orch_constants() {
    assert_eq!(wailing_bonus_orch::WAILING_NOTE_INTERVAL, 32);
    assert_eq!(wailing_bonus_orch::WAILING_BONUS_BASE, 1000);
}
