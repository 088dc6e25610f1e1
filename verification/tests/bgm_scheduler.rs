use lib::bgm_scheduler::{
    bgm_chip_is_confirmed_played, chart_has_bgm_chips, find_primary_bgm_chip, BgmRecoveryState,
    RecoveryAction, RecoveryInputs, BGM_RECOVERY_MAX_ATTEMPTS,
};
use lib::drum_groups::{Chart, Chip};
use lib::lane_map::EChannel;

fn chart_with_bgm_chip(wav_slot: u32) -> Chart {
    Chart {
        chips: vec![Chip {
            channel: EChannel::BGM,
            wav_slot,
            target_ms: 0,
        }],
    }
}

#[test]
fn chart_has_bgm_chips_true_when_wav_set() {
    assert!(chart_has_bgm_chips(&chart_with_bgm_chip(1)));
}

#[test]
fn chart_has_bgm_chips_false_when_slot_zero() {
    assert!(!chart_has_bgm_chips(&chart_with_bgm_chip(0)));
}

#[test]
fn find_primary_bgm_chip_picks_earliest() {
    // Measure 2 and measure 0 at 120 BPM: 4000 ms and 0 ms.
    let chart = Chart {
        chips: vec![
            Chip {
                channel: EChannel::BGM,
                wav_slot: 1,
                target_ms: 4000,
            },
            Chip {
                channel: EChannel::BGM,
                wav_slot: 2,
                target_ms: 0,
            },
        ],
    };
    assert_eq!(find_primary_bgm_chip(&chart), Some(1));
}

#[test]
fn find_primary_bgm_chip_ignores_silent_and_other_channels() {
    let chart = Chart {
        chips: vec![
            Chip {
                channel: EChannel::Snare,
                wav_slot: 3,
                target_ms: 0,
            },
            Chip {
                channel: EChannel::BGM,
                wav_slot: 0,
                target_ms: 10,
            },
            Chip {
                channel: EChannel::BGM,
                wav_slot: 5,
                target_ms: 30,
            },
            Chip {
                channel: EChannel::BGM,
                wav_slot: 6,
                target_ms: 30,
            },
        ],
    };
    assert_eq!(find_primary_bgm_chip(&chart), Some(2), "first of equally early");
    assert_eq!(find_primary_bgm_chip(&Chart { chips: vec![] }), None);
}

#[test]
fn primary_bgm_is_not_confirmed_played_until_clock_ready() {
    assert!(!bgm_chip_is_confirmed_played(true, false, true));
    assert!(bgm_chip_is_confirmed_played(true, true, true));
    assert!(bgm_chip_is_confirmed_played(false, false, true));
    assert!(!bgm_chip_is_confirmed_played(false, true, false));
}

fn stopped_at(now_ms: i64) -> RecoveryInputs {
    RecoveryInputs {
        end_requested: false,
        clock_ready: true,
        bgm_enabled: true,
        has_instance: true,
        stopped: true,
        now_ms,
        primary_available: true,
    }
}

#[test]
fn recovery_restarts_with_cooldown_then_gives_up_once() {
    let mut state = BgmRecoveryState::default();
    assert_eq!(state.decide(stopped_at(500)), RecoveryAction::Wait, "inside the first cooldown");
    assert_eq!(state.decide(stopped_at(1000)), RecoveryAction::Restart);
    assert_eq!(state.attempts, 1);
    assert_eq!(state.last_restart_ms, 1000);
    assert_eq!(state.decide(stopped_at(1500)), RecoveryAction::Wait);
    assert_eq!(state.decide(stopped_at(2000)), RecoveryAction::Restart);
    assert_eq!(state.decide(stopped_at(3000)), RecoveryAction::Restart);
    assert_eq!(state.attempts, BGM_RECOVERY_MAX_ATTEMPTS);
    assert_eq!(state.decide(stopped_at(4000)), RecoveryAction::GiveUp);
    assert!(state.gave_up);
    assert_eq!(state.decide(stopped_at(9000)), RecoveryAction::Wait, "giving up is final");
}

#[test]
fn recovery_waits_while_playing_or_ending() {
    let mut state = BgmRecoveryState::default();
    let mut playing = stopped_at(5000);
    playing.stopped = false;
    assert_eq!(state.decide(playing), RecoveryAction::Wait);
    let mut ending = stopped_at(5000);
    ending.end_requested = true;
    assert_eq!(state.decide(ending), RecoveryAction::Wait);
    let mut missing = stopped_at(5000);
    missing.primary_available = false;
    assert_eq!(state.decide(missing), RecoveryAction::Wait);
    assert_eq!(state, BgmRecoveryState::default());
}

use std::collections::HashSet;

use lib::bgm_scheduler::{
    bootstrap_primary_bgm_chip, reset_played_bgm, schedule_bgm_chips, BgmCue, BgmCueKind, BgmFrame,
    BootstrapStep,
};

fn bgm(wav_slot: u32, target_ms: i64) -> Chip {
    Chip {
        channel: EChannel::BGM,
        wav_slot,
        target_ms,
    }
}

fn frame<'a>(now_ms: i64, paths: &'a [Option<String>], playing: Option<&'a str>) -> BgmFrame<'a> {
    BgmFrame {
        clock_started: true,
        clock_ready: true,
        now_ms,
        has_wav_assets: true,
        bgm_enabled: true,
        bgm_shift_ms: 0,
        primary: Some(1),
        paths,
        playing_path: playing,
    }
}

#[test]
fn schedule_starts_due_chips_track_first_then_layers() {
    let chart = Chart {
        chips: vec![
            bgm(0, 0),
            bgm(1, 0),
            Chip {
                channel: EChannel::Snare,
                wav_slot: 3,
                target_ms: 0,
            },
            bgm(2, 500),
            bgm(3, 5000),
        ],
    };
    let paths = vec![
        None,
        Some("drums.ogg".to_owned()),
        None,
        Some("bass.ogg".to_owned()),
        Some("late.ogg".to_owned()),
    ];
    let mut played = HashSet::new();
    let cues = schedule_bgm_chips(&chart, &frame(1000, &paths, None), &mut played);
    assert_eq!(
        cues,
        vec![
            BgmCue {
                chip: 1,
                kind: BgmCueKind::Track
            },
            BgmCue {
                chip: 3,
                kind: BgmCueKind::Layer
            },
        ]
    );
    assert!(played.contains(&0), "silent chip is consumed");
    assert!(played.contains(&1) && played.contains(&3));
    assert!(!played.contains(&2) && !played.contains(&4));
    // Played chips never start again.
    assert!(schedule_bgm_chips(&chart, &frame(1000, &paths, None), &mut played).is_empty());
}

#[test]
fn schedule_waits_for_clock_and_does_not_restart_the_playing_track() {
    let chart = Chart {
        chips: vec![bgm(1, 0), bgm(1, 0)],
    };
    let paths = vec![Some("drums.ogg".to_owned()), Some("drums.ogg".to_owned())];
    let mut played = HashSet::new();
    let mut f = frame(100, &paths, Some("drums.ogg"));
    f.primary = Some(0);
    f.clock_ready = false;
    let cues = schedule_bgm_chips(&chart, &f, &mut played);
    assert!(cues.is_empty(), "the file already plays");
    assert!(!played.contains(&0), "primary is not confirmed before the clock is ready");
    assert!(played.contains(&1), "a layer counts as played at once");
    f.clock_ready = true;
    schedule_bgm_chips(&chart, &f, &mut played);
    assert!(played.contains(&0));

    let mut idle = HashSet::new();
    let mut stopped = frame(100, &paths, None);
    stopped.clock_started = false;
    assert!(schedule_bgm_chips(&chart, &stopped, &mut idle).is_empty());
    assert!(idle.is_empty());
}

#[test]
fn schedule_consumes_due_chips_silently_when_bgm_is_off() {
    let chart = Chart {
        chips: vec![bgm(1, 0), bgm(2, 100)],
    };
    let paths = vec![Some("a.ogg".to_owned()), Some("b.ogg".to_owned())];
    let mut played = HashSet::new();
    let mut f = frame(50, &paths, None);
    f.bgm_enabled = false;
    assert!(schedule_bgm_chips(&chart, &f, &mut played).is_empty());
    assert!(played.contains(&0) && !played.contains(&1));
    let mut shifted = frame(50, &paths, None);
    shifted.bgm_shift_ms = -60;
    let mut p2 = HashSet::new();
    let cues = schedule_bgm_chips(&chart, &shifted, &mut p2);
    assert_eq!(cues.len(), 2, "a negative shift brings chips earlier");
}

#[test]
fn bootstrap_starts_the_primary_only_when_needed() {
    let none = HashSet::new();
    assert_eq!(bootstrap_primary_bgm_chip(false, false, Some(0), &none, true), BootstrapStep::Ready);
    assert_eq!(bootstrap_primary_bgm_chip(true, true, Some(0), &none, true), BootstrapStep::Ready);
    assert_eq!(bootstrap_primary_bgm_chip(true, false, None, &none, true), BootstrapStep::Unavailable);
    assert_eq!(bootstrap_primary_bgm_chip(true, false, Some(2), &none, false), BootstrapStep::Unavailable);
    assert_eq!(bootstrap_primary_bgm_chip(true, false, Some(2), &none, true), BootstrapStep::Start(2));
    let mut played = HashSet::new();
    played.insert(2usize);
    assert_eq!(bootstrap_primary_bgm_chip(true, false, Some(2), &played, true), BootstrapStep::Ready);
}

#[test]
fn reset_forgets_played_chips_and_recovery() {
    let mut played = HashSet::new();
    played.insert(4usize);
    let mut recovery = BgmRecoveryState {
        attempts: 2,
        last_restart_ms: 900,
        gave_up: true,
    };
    reset_played_bgm(&mut played, &mut recovery);
    assert!(played.is_empty());
    assert_eq!(recovery, BgmRecoveryState::default());
}
