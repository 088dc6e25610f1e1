use lib::editor::calibration::{
    apply_report, beat_error_ms, due_beat_count_after, median, midi_disconnect_detected,
    restore_toggles, suggested_offset, CalibrationReport, Confidence, BEAT_COUNT,
};

#[test]
fn median_odd_and_empty() {
    assert_eq!(median(&[3, 1, 2]), 2);
    assert_eq!(median(&[]), 0);
}

#[test]
fn suggested_offset_cancels_and_clamps() {
    // A consistently-late player (+40ms vs the beat) needs a +40ms offset,
    // because the judge subtracts input_offset from the hit time.
    assert_eq!(suggested_offset(40, 300), 40);
    assert_eq!(suggested_offset(-500, 300), -300);
}

#[test]
fn report_uses_median_and_rejects_distant_outlier() {
    let report = CalibrationReport::from_errors(&[39, 40, 41, 40, 400], &[2, 3]);
    assert_eq!(report.proposed_offset_ms, 40);
    assert_eq!(report.accepted_samples, 4);
    assert_eq!(report.rejected_samples, 1);
}

#[test]
fn unstable_or_sparse_evidence_cannot_apply() {
    assert!(!CalibrationReport::from_errors(&[10; 11], &[0]).can_apply());
    assert!(!CalibrationReport::from_errors(&[10; 12], &[35]).can_apply());
}

#[test]
fn weak_report_does_not_replace_manual_offset() {
    let mut value = 17;
    apply_report(&mut value, &CalibrationReport::from_errors(&[7; 11], &[0]));
    assert_eq!(value, 17);
}

#[test]
fn strong_report_replaces_manual_offset_within_config_clamp() {
    let mut value = 17;
    apply_report(
        &mut value,
        &CalibrationReport::from_errors(&[450; 12], &[0]),
    );
    assert_eq!(value, 300);
}

#[test]
fn only_a_disconnect_after_a_midi_start_is_reported() {
    assert!(!midi_disconnect_detected(false, false));
    assert!(!midi_disconnect_detected(true, true));
    assert!(midi_disconnect_detected(true, false));
}

#[test]
fn restoration_returns_every_runtime_toggle_to_its_snapshot() {
    let mut metronome = true;
    let mut timing_lines = true;
    let mut autoplay = false;
    restore_toggles(
        &mut metronome,
        &mut timing_lines,
        &mut autoplay,
        false,
        false,
        true,
    );
    assert_eq!((metronome, timing_lines, autoplay), (false, false, true));
}

#[test]
fn median_of_even_count_takes_upper_middle() {
    assert_eq!(median(&[4, 1, 3, 2]), 3);
    assert_eq!(median(&[-5]), -5);
}

#[test]
fn stable_report_has_high_confidence_and_zero_spread() {
    let report = CalibrationReport::from_errors(&[25; 12], &[10, 34, 3]);
    assert_eq!(report.confidence, Confidence::High);
    assert_eq!(report.spread_mad_ms, 0);
    assert_eq!(report.max_scheduler_delay_ms, 34);
    assert_eq!(report.proposed_offset_ms, 25);
    assert!(report.can_apply());
}

#[test]
fn report_of_no_taps_is_empty_and_weak() {
    let report = CalibrationReport::from_errors(&[], &[]);
    assert_eq!(report.proposed_offset_ms, 0);
    assert_eq!(report.accepted_samples, 0);
    assert_eq!(report.rejected_samples, 0);
    assert_eq!(report.max_scheduler_delay_ms, 0);
    assert!(!report.can_apply());
}

#[test]
fn too_many_rejections_keep_confidence_low() {
    // 12 good samples plus 5 far outliers: more than a quarter rejected.
    let mut errors = vec![0; 12];
    errors.extend_from_slice(&[900, 900, 900, 900, 900]);
    let report = CalibrationReport::from_errors(&errors, &[0]);
    assert_eq!(report.accepted_samples, 12);
    assert_eq!(report.rejected_samples, 5);
    assert_eq!(report.confidence, Confidence::Low);
}

#[test]
fn schedule_reports_every_beat_that_a_slow_frame_missed() {
    assert_eq!(due_beat_count_after(1_020), 3);
    assert_eq!(due_beat_count_after(0), 1);
    assert_eq!(due_beat_count_after(499), 1);
    assert_eq!(due_beat_count_after(500), 2);
    assert_eq!(due_beat_count_after(1_000_000), BEAT_COUNT);
}

#[test]
fn beat_error_is_signed_distance_to_nearest_beat() {
    assert_eq!(beat_error_ms(37), 37);
    assert_eq!(beat_error_ms(40), 40);
    assert_eq!(beat_error_ms(470), -30);
    assert_eq!(beat_error_ms(1010), 10);
    assert_eq!(beat_error_ms(-30), -30);
    assert_eq!(beat_error_ms(250), -250);
    assert_eq!(beat_error_ms(-251), 249);
}

use lib::editor::calibration::{
    calibration_active, collect_taps, confirm_or_cancel, due_beats_at, fire_synthetic_clicks,
    restore_runtime_state, start_calibration, CalibrationState, overlay_view, OverlayView,
};

fn started() -> (CalibrationState<&'static str>, bool, bool, bool) {
    let mut state = CalibrationState::Idle;
    let (mut metronome, mut lines, mut autoplay) = (false, false, true);
    start_calibration(&mut state, "schedule", &mut metronome, &mut lines, &mut autoplay, Some(true));
    (state, metronome, lines, autoplay)
}

#[test]
fn tap_error_uses_the_physical_input_timestamp() {
    assert_eq!(beat_error_ms(37), 37);
}

#[test]
fn due_beats_start_at_the_first_beat() {
    assert_eq!(due_beats_at(-1), 0);
    assert_eq!(due_beats_at(0), 1);
    assert_eq!(due_beats_at(1_020), 3);
}

#[test]
fn start_takes_over_the_toggles_once() {
    let (mut state, mut metronome, mut lines, mut autoplay) = started();
    assert!(metronome && lines && !autoplay, "metronome and lines on, autoplay off");
    assert!(calibration_active(&state));
    // A second start while collecting changes nothing.
    start_calibration(&mut state, "other", &mut metronome, &mut lines, &mut autoplay, None);
    match &state {
        CalibrationState::Collecting { schedule, .. } => assert_eq!(*schedule, "schedule"),
        _ => panic!("still collecting"),
    }
    restore_runtime_state(&mut state, &mut metronome, &mut lines, &mut autoplay);
    assert_eq!((metronome, lines, autoplay), (false, false, true));
    assert!(!calibration_active(&state));
}

#[test]
fn clicks_fire_for_every_missed_beat_with_their_delay() {
    let (mut state, ..) = started();
    assert_eq!(fire_synthetic_clicks(&mut state, -10, Some(true)), 0);
    assert_eq!(fire_synthetic_clicks(&mut state, 1_020, Some(true)), 3);
    assert_eq!(fire_synthetic_clicks(&mut state, 1_030, Some(false)), 0);
    match &state {
        CalibrationState::Collecting {
            scheduler_delays,
            fired_beats,
            midi_disconnected,
            ..
        } => {
            assert_eq!(scheduler_delays, &vec![1_020, 520, 20]);
            assert_eq!(*fired_beats, 3);
            assert!(*midi_disconnected);
        }
        _ => panic!("still collecting"),
    }
}

#[test]
fn taps_finish_the_run_when_every_beat_has_a_sample() {
    let (mut state, mut metronome, mut lines, mut autoplay) = started();
    collect_taps(&mut state, &[-40, 10, 515], 600);
    match &state {
        CalibrationState::Collecting { samples, .. } => assert_eq!(samples, &vec![10, 15]),
        _ => panic!("still collecting"),
    }
    let taps: Vec<i64> = (1..=14).map(|b| b * 500 + 12).collect();
    collect_taps(&mut state, &taps, 7_100);
    let CalibrationState::Done { report, .. } = &state else {
        panic!("sixteen samples finish the run");
    };
    assert_eq!(report.accepted_samples, 16);
    assert_eq!(report.proposed_offset_ms, 12);
    let mut offset = 0;
    confirm_or_cancel(&mut state, true, false, &mut offset, &mut metronome, &mut lines, &mut autoplay);
    assert_eq!(offset, 12);
    assert_eq!((metronome, lines, autoplay), (false, false, true));
    assert!(matches!(state, CalibrationState::Idle));
}

#[test]
fn deadline_finishes_a_sparse_run_and_escape_discards_it() {
    let (mut state, mut metronome, mut lines, mut autoplay) = started();
    collect_taps(&mut state, &[5], 9_500);
    let CalibrationState::Done { report, .. } = &state else {
        panic!("deadline finishes the run");
    };
    assert!(!report.can_apply());
    let mut offset = 17;
    confirm_or_cancel(&mut state, false, true, &mut offset, &mut metronome, &mut lines, &mut autoplay);
    assert_eq!(offset, 17);
    assert!(matches!(state, CalibrationState::Idle));
    assert_eq!((metronome, lines, autoplay), (false, false, true));
}

#[test]
fn escape_cancels_a_running_sequence_but_enter_does_not() {
    let (mut state, mut metronome, mut lines, mut autoplay) = started();
    let mut offset = 3;
    confirm_or_cancel(&mut state, true, false, &mut offset, &mut metronome, &mut lines, &mut autoplay);
    assert!(calibration_active(&state));
    confirm_or_cancel(&mut state, false, true, &mut offset, &mut metronome, &mut lines, &mut autoplay);
    assert!(matches!(state, CalibrationState::Idle));
    assert_eq!((metronome, lines, autoplay, offset), (false, false, true, 3));
}

#[test]
fn overlay_shows_progress_while_collecting_and_the_report_when_done() {
    assert_eq!(overlay_view(&CalibrationState::<()>::Idle), None);
    let collecting = CalibrationState::Collecting {
        schedule: (),
        samples: vec![3, 4, 5],
        scheduler_delays: vec![],
        fired_beats: 5,
        midi_was_connected: false,
        midi_disconnected: false,
        prev_metronome: false,
        prev_timing_lines: false,
        prev_autoplay: false,
    };
    assert_eq!(
        overlay_view(&collecting),
        Some(OverlayView::Collecting { taps: 3, beats_fired: 5, pulse: true })
    );
    let done = CalibrationState::<()>::Done {
        report: CalibrationReport {
            proposed_offset_ms: 900,
            accepted_samples: 12,
            rejected_samples: 1,
            spread_mad_ms: 4,
            max_scheduler_delay_ms: 9,
            confidence: Confidence::High,
        },
        midi_disconnected: true,
        prev_metronome: false,
        prev_timing_lines: false,
        prev_autoplay: false,
    };
    assert_eq!(
        overlay_view(&done),
        Some(OverlayView::Done {
            suggested_ms: 300,
            accepted: 12,
            rejected: 1,
            spread_ms: 4,
            max_scheduler_delay_ms: 9,
            confident: true,
            midi_disconnected: true,
        })
    );
}
