use lib::editor::{
    inspector_widget,
    commit_lane_actions, just_closed, lane_save_action, reduce_lane_registry, should_persist_close, EditorOpen,
    LaneProfileRegistry, LaneRegAction, LaneRegErrorKind, NamedProfile,
};

const DEFAULT: &str = "Classic";

fn builtins() -> Vec<String> {
    vec!["Classic".to_owned(), "NX Type B".to_owned(), "NX Type D".to_owned()]
}

fn lane_registry() -> LaneProfileRegistry<&'static str> {
    LaneProfileRegistry {
        active: DEFAULT.to_owned(),
        profiles: vec![],
    }
}

fn lane_user_registry(
    active: &str,
    users: &[(&str, &'static str)],
) -> LaneProfileRegistry<&'static str> {
    LaneProfileRegistry {
        active: active.to_owned(),
        profiles: users
            .iter()
            .map(|(name, value)| NamedProfile {
                name: (*name).to_owned(),
                value: *value,
            })
            .collect(),
    }
}

fn value_of<'a>(r: &'a LaneProfileRegistry<&'static str>, name: &str) -> Option<&'a &'static str> {
    r.profiles.iter().find(|p| p.name == name).map(|p| &p.value)
}

#[test]
fn reduce_lane_save_rejects_builtin_in_place() {
    let err = reduce_lane_registry(lane_registry(), &builtins(), DEFAULT, LaneRegAction::Save("type b"))
        .err()
        .expect("built-in cannot be saved in place");
    assert_eq!(err.kind, LaneRegErrorKind::BuiltinReadOnly);
    assert!(err.message().contains("built-in"), "{}", err.message());
}

#[test]
fn reduce_lane_rename_rejects_existing_name() {
    let registry = lane_user_registry("Desk", &[("Desk", "classic"), ("Studio", "type b")]);
    let err = reduce_lane_registry(
        registry,
        &builtins(),
        DEFAULT,
        LaneRegAction::Rename("Studio".to_owned()),
    )
    .err()
    .expect("rename onto existing name collides");
    assert!(err.message().contains("already exists"), "{}", err.message());
}

#[test]
fn reduce_lane_delete_falls_back_to_named_default() {
    let registry = lane_user_registry("Desk", &[("Desk", "type b")]);
    let next = reduce_lane_registry(registry, &builtins(), DEFAULT, LaneRegAction::Delete)
        .ok()
        .expect("delete succeeds");
    assert!(value_of(&next, "Desk").is_none(), "deleted profile is gone");
    assert_eq!(next.active, DEFAULT);
}

#[test]
fn reduce_lane_saveas_inserts_new_user_profile() {
    let next = reduce_lane_registry(
        lane_registry(),
        &builtins(),
        DEFAULT,
        LaneRegAction::SaveAs {
            name: "Desk".to_owned(),
            value: "type b",
        },
    )
    .ok()
    .expect("save as succeeds");
    assert_eq!(next.active, "Desk", "save as selects the new profile");
    assert_eq!(value_of(&next, "Desk"), Some(&"type b"));
}

#[test]
fn reduce_lane_rename_moves_value_and_select_checks_names() {
    let registry = lane_user_registry("Desk", &[("Desk", "classic"), ("Studio", "type b")]);
    let next = reduce_lane_registry(
        registry,
        &builtins(),
        DEFAULT,
        LaneRegAction::Rename("Home".to_owned()),
    )
    .ok()
    .expect("rename to a free name succeeds");
    assert_eq!(next.active, "Home");
    assert_eq!(value_of(&next, "Home"), Some(&"classic"));
    assert!(value_of(&next, "Desk").is_none());
    assert_eq!(value_of(&next, "Studio"), Some(&"type b"));

    let selected = reduce_lane_registry(next, &builtins(), DEFAULT, LaneRegAction::Select("NX Type D".to_owned()))
        .ok()
        .expect("built-ins can be selected");
    assert_eq!(selected.active, "NX Type D");
    let err = reduce_lane_registry(selected, &builtins(), DEFAULT, LaneRegAction::Select("Nowhere".to_owned()))
        .err()
        .expect("unknown profile");
    assert_eq!(err.message(), "profile not found: Nowhere");
}

#[test]
fn reduce_lane_save_overwrites_active_user_profile() {
    let registry = lane_user_registry("Desk", &[("Desk", "classic")]);
    let next = reduce_lane_registry(registry, &builtins(), DEFAULT, LaneRegAction::Save("type d"))
        .ok()
        .expect("user profile saves in place");
    assert_eq!(next.active, "Desk");
    assert_eq!(value_of(&next, "Desk"), Some(&"type d"));
    assert_eq!(next.profiles.len(), 1);
    let err = reduce_lane_registry(
        lane_user_registry("Gone", &[]),
        &builtins(),
        DEFAULT,
        LaneRegAction::Delete,
    )
    .err()
    .expect("missing active profile");
    assert_eq!(err.kind, LaneRegErrorKind::NotFound);
}

#[test]
fn commit_lane_actions_never_writes_on_reducer_failure() {
    // Delete on a built-in (Classic) fails: save closure never fires.
    let mut saved = false;
    let result = commit_lane_actions(
        Ok(lane_registry()),
        &builtins(),
        DEFAULT,
        vec![LaneRegAction::Delete],
        |_| {
            saved = true;
            Ok(())
        },
    );
    assert!(result.is_err(), "deleting a built-in must fail the commit");
    assert!(!saved, "save closure must never run when the reducer fails");
}

#[test]
fn commit_lane_actions_propagates_save_failure() {
    let err = commit_lane_actions(
        Ok(lane_registry()),
        &builtins(),
        DEFAULT,
        vec![LaneRegAction::SaveAs {
            name: "Desk".to_owned(),
            value: "type b",
        }],
        |_| Err("confirmation required before overwriting disk".to_owned()),
    )
    .err()
    .expect("save failure propagates");
    assert!(err.contains("disk") || err.contains("confirmation"), "{err}");
}

#[test]
fn commit_lane_actions_builds_next_registry_from_action() {
    let registry = commit_lane_actions(
        Ok(lane_registry()),
        &builtins(),
        DEFAULT,
        vec![LaneRegAction::SaveAs {
            name: "Desk".to_owned(),
            value: "type d",
        }],
        |_| Ok(()),
    )
    .ok()
    .expect("commit succeeds");
    assert_eq!(registry.active, "Desk");
    assert_eq!(value_of(&registry, "Desk"), Some(&"type d"));
}

#[test]
fn commit_lane_actions_refuses_unusable_registry() {
    let mut saved = false;
    let err = commit_lane_actions(
        Err::<LaneProfileRegistry<&'static str>, String>("corrupt file".to_owned()),
        &builtins(),
        DEFAULT,
        vec![LaneRegAction::Select("Classic".to_owned())],
        |_| {
            saved = true;
            Ok(())
        },
    )
    .err()
    .expect("read-only built-ins cannot commit");
    assert_eq!(err, "registry unusable: corrupt file");
    assert!(!saved);
}

#[test]
fn commit_lane_actions_applies_actions_in_order() {
    let registry = commit_lane_actions(
        Ok(lane_registry()),
        &builtins(),
        DEFAULT,
        vec![
            LaneRegAction::SaveAs {
                name: "Desk".to_owned(),
                value: "type b",
            },
            LaneRegAction::Rename("Stage".to_owned()),
            LaneRegAction::Save("type d"),
        ],
        |_| Ok(()),
    )
    .ok()
    .expect("commit succeeds");
    assert_eq!(registry.active, "Stage");
    assert_eq!(value_of(&registry, "Stage"), Some(&"type d"));
    assert_eq!(registry.profiles.len(), 1);
}

#[test]
fn editor_open_default_false() {
    assert!(!EditorOpen::default().0);
}

#[test]
fn initial_closed_state_is_not_a_close_transition() {
    let mut was_open = false;
    assert!(!just_closed(false, &mut was_open));
}

#[test]
fn open_to_closed_is_a_close_transition() {
    let mut was_open = false;
    assert!(!just_closed(true, &mut was_open));
    assert!(just_closed(false, &mut was_open));
    assert!(!just_closed(false, &mut was_open));
}

#[test]
fn forced_exit_consumes_close_outside_performance() {
    let mut was_open = false;
    assert!(!should_persist_close(true, true, &mut was_open));
    assert!(!should_persist_close(false, false, &mut was_open));
    assert!(!should_persist_close(false, true, &mut was_open));
}

use lib::editor::lanes_panel::addable_channels;
use lib::editor::nav::CustomizeTab;
use lib::editor::profile_state::{CloseDecision, CloseIntent, CloseOutcome, PendingClose, PendingCloseState, ProfileKind};
use lib::editor::{
    apply_close_outcome, close_guard_decision, force_open_for_session, preview_state, session_loop_seek, PreviewState,
};
use lib::lane_map::EChannel;

const DRUMS: [EChannel; 12] = [
    EChannel::HiHatClose,
    EChannel::Snare,
    EChannel::BassDrum,
    EChannel::HighTom,
    EChannel::LowTom,
    EChannel::FloorTom,
    EChannel::Cymbal,
    EChannel::HiHatOpen,
    EChannel::RideCymbal,
    EChannel::LeftCymbal,
    EChannel::LeftPedal,
    EChannel::LeftBassDrum,
];

fn classic_lanes() -> Vec<Vec<EChannel>> {
    vec![
        vec![EChannel::LeftCymbal],
        vec![EChannel::HiHatClose, EChannel::HiHatOpen],
        vec![EChannel::LeftPedal],
        vec![EChannel::Snare],
        vec![EChannel::HighTom],
        vec![EChannel::BassDrum, EChannel::LeftBassDrum],
        vec![EChannel::LowTom],
        vec![EChannel::FloorTom],
        vec![EChannel::Cymbal],
        vec![EChannel::RideCymbal],
    ]
}

#[test]
fn addable_channels_includes_unassigned_and_other_secondaries() {
    let mut lanes = classic_lanes();
    let hh = 1;
    let cy = 8;
    // HHO is a secondary on the HH lane, so it must be addable to CY.
    assert!(addable_channels(&lanes, cy, &DRUMS).contains(&EChannel::HiHatOpen));
    // But NOT addable to its own (HH) lane: it's already there.
    assert!(!addable_channels(&lanes, hh, &DRUMS).contains(&EChannel::HiHatOpen));
    // SD is a primary elsewhere: never offered anywhere.
    assert!(!addable_channels(&lanes, cy, &DRUMS).contains(&EChannel::Snare));
    // Hide LC: it becomes unassigned and addable everywhere else.
    lanes.remove(0);
    assert!(addable_channels(&lanes, cy - 1, &DRUMS).contains(&EChannel::LeftCymbal));
}

#[test]
fn preview_state_peeks_only_while_open_and_inspects_only_widgets() {
    assert_eq!(
        preview_state(true, true, CustomizeTab::Widgets, true),
        PreviewState {
            open: true,
            peeking: true,
            tab: CustomizeTab::Widgets,
            has_inspector: true
        }
    );
    let closed = preview_state(false, true, CustomizeTab::Lanes, true);
    assert!(!closed.peeking && !closed.has_inspector);
    assert_eq!(PreviewState::default().tab, CustomizeTab::Widgets);
}

#[test]
fn close_guard_resolves_buttons_before_keys_and_never_on_arming() {
    let pending = PendingCloseState::Pending(PendingClose {
        intent: CloseIntent::Customize,
        dirty: vec![ProfileKind::Keyboard],
    });
    assert_eq!(close_guard_decision(&pending, true, &[CloseDecision::SaveAll], true, false), None);
    assert_eq!(
        close_guard_decision(&pending, false, &[CloseDecision::Cancel, CloseDecision::DiscardAll], true, false),
        Some(CloseDecision::DiscardAll)
    );
    assert_eq!(close_guard_decision(&pending, false, &[], true, false), Some(CloseDecision::SaveAll));
    assert_eq!(close_guard_decision(&pending, false, &[], true, true), Some(CloseDecision::Cancel));
    assert_eq!(close_guard_decision(&PendingCloseState::Idle, false, &[CloseDecision::SaveAll], true, false), None);
}

#[test]
fn close_outcomes_drop_or_narrow_the_guard() {
    let close = PendingClose {
        intent: CloseIntent::GracefulAppExit,
        dirty: vec![ProfileKind::Keyboard, ProfileKind::Midi],
    };
    let (state, fx) = apply_close_outcome(CloseOutcome::Cancelled, &close, true);
    assert!(matches!(state, PendingCloseState::Idle));
    assert!(!fx.close_editor && !fx.exit_to_title);
    let (state, fx) = apply_close_outcome(CloseOutcome::Close(CloseIntent::GracefulAppExit), &close, true);
    assert!(matches!(state, PendingCloseState::Idle));
    assert!(fx.close_editor && fx.exit_to_title);
    let (state, fx) = apply_close_outcome(
        CloseOutcome::StayOpen {
            failed: vec![ProfileKind::Midi],
        },
        &close,
        false,
    );
    assert_eq!(
        state,
        PendingCloseState::Pending(PendingClose {
            intent: CloseIntent::GracefulAppExit,
            dirty: vec![ProfileKind::Midi]
        })
    );
    assert!(!fx.close_editor);
}

#[test]
fn session_forces_the_editor_open_and_loops_the_chart() {
    let (mut open, mut prev, mut autoplay) = (false, false, false);
    force_open_for_session(false, &mut open, &mut prev, &mut autoplay);
    assert_eq!((open, prev, autoplay), (false, false, false));
    force_open_for_session(true, &mut open, &mut prev, &mut autoplay);
    assert_eq!((open, prev, autoplay), (true, false, true));
    assert!(session_loop_seek(true, 60_000, 60_000));
    assert!(!session_loop_seek(true, 60_000, 59_999));
    assert!(!session_loop_seek(false, 60_000, 70_000));
    assert!(!session_loop_seek(true, 0, 70_000), "unknown chart end never loops");
}

use lib::editor::profile_state::{dirty_profile_kinds, ProfileDraft, ProfileSession};
use lib::editor::sync_drafts_to_session;

fn session() -> ProfileSession<u32, u32, u32> {
    ProfileSession {
        keyboard: ProfileDraft {
            selected: "Default keyboard".to_owned(),
            saved: 1,
            value: 1,
        },
        midi: ProfileDraft {
            selected: "Default MIDI".to_owned(),
            saved: 2,
            value: 2,
        },
        lanes: ProfileDraft {
            selected: "Classic".to_owned(),
            saved: 3,
            value: 3,
        },
    }
}

#[test]
fn opening_customize_seeds_clean_binding_drafts() {
    let mut s = session();
    let mut was_open = false;
    let lane = s.lanes.clone();
    // The live bindings differ from the stored drafts (a key was bound
    // before the surface opened): opening takes them as the clean baseline.
    sync_drafts_to_session(true, &mut was_open, true, 10, 20, false, &lane, &mut s);
    assert!(was_open);
    assert!(dirty_profile_kinds(&s).is_empty());
    assert_eq!((s.keyboard.saved, s.keyboard.value), (10, 10));
    assert_eq!(s.keyboard.selected, "Default keyboard");
    // Later live edits become dirty working values.
    sync_drafts_to_session(true, &mut was_open, true, 11, 20, false, &lane, &mut s);
    assert_eq!((s.keyboard.saved, s.keyboard.value), (10, 11));
    assert_eq!(dirty_profile_kinds(&s), vec![ProfileKind::Keyboard]);
    // A changed lane draft is copied whole.
    let edited = ProfileDraft {
        selected: "Classic".to_owned(),
        saved: 3,
        value: 9,
    };
    sync_drafts_to_session(true, &mut was_open, false, 0, 0, true, &edited, &mut s);
    assert_eq!(s.lanes, edited);
    assert_eq!(s.keyboard.value, 11, "no live change: binding drafts untouched");
}

#[test]
fn saving_a_builtin_lane_draft_saves_a_copy() {
    let b = builtins();
    match lane_save_action(&b, &DEFAULT.to_string(), 7u32, "Classic copy".to_string()) {
        LaneRegAction::SaveAs { name, value } => {
            assert_eq!(name, "Classic copy");
            assert_eq!(value, 7);
        }
        _ => panic!("expected a copy"),
    }
    match lane_save_action(&b, &"Mine".to_string(), 9u32, "Mine copy".to_string()) {
        LaneRegAction::Save(value) => assert_eq!(value, 9),
        _ => panic!("expected an in-place save"),
    }
}

#[test]
fn inspector_edits_a_selected_widget_on_the_widgets_tab_only() {
    assert_eq!(inspector_widget(true, CustomizeTab::Widgets, Some(W::Combo), &W::Playfield), Some(W::Combo));
    assert_eq!(inspector_widget(true, CustomizeTab::Widgets, Some(W::Playfield), &W::Playfield), None);
    assert_eq!(inspector_widget(true, CustomizeTab::Widgets, None, &W::Playfield), None);
    assert_eq!(inspector_widget(true, CustomizeTab::Lanes, Some(W::Combo), &W::Playfield), None);
    assert_eq!(inspector_widget(false, CustomizeTab::Widgets, Some(W::Combo), &W::Playfield), None);
}

#[derive(Debug, Clone, Copy, PartialEq)]
enum W {
    Playfield,
    Combo,
}
