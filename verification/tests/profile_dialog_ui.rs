use lib::editor::profile_dialog::ProfileDialogState;
use lib::editor::profile_dialog::{NameAction, ProfileNameError};
use lib::editor::profile_dialog_ui::{
    dialog_buttons, dialog_keys, dispatch_dialog_button, initial_focus, kind_label, name_dialog_input,
    type_into_name, DialogButton, DialogCommand, NameInputOutcome, TypedKey, TypedKeyEvent, MAX_NAME_CHARS,
};
use lib::editor::profile_state::{dirty_dialog_layout, CloseDecision, PendingProfileAction, ProfileKind};

fn dirty_state() -> ProfileDialogState {
    ProfileDialogState::Dirty {
        kind: ProfileKind::Keyboard,
        pending: PendingProfileAction::Select("Desk".to_owned()),
        builtin_selected: false,
    }
}

#[test]
fn dialog_buttons_put_safe_dismiss_first_and_focus_never_destructive() {
    // ConfirmDelete: [Cancel, Delete] -- initial focus on Cancel.
    let confirm = ProfileDialogState::ConfirmDelete {
        name: "Desk".to_owned(),
    };
    assert!(matches!(dialog_buttons(&confirm)[0], DialogButton::CancelDelete));
    assert_eq!(dialog_buttons(&confirm).len(), 2);
    assert_eq!(initial_focus(&confirm), 0);

    // Dirty: [Cancel, Discard, Save] -- initial focus = layout default.
    let dirty = dirty_state();
    let buttons = dialog_buttons(&dirty);
    assert_eq!(buttons.len(), 3);
    assert!(matches!(buttons[0], DialogButton::Dirty(CloseDecision::Cancel)));
    let layout = dirty_dialog_layout(&[ProfileKind::Keyboard], false);
    assert_eq!(initial_focus(&dirty), layout.default_focus);
    assert_ne!(initial_focus(&dirty), layout.destructive);

    // CorruptReset: [Cancel, Back up & reset] -- initial focus on Cancel.
    let corrupt = ProfileDialogState::CorruptReset {
        kind: ProfileKind::Midi,
        message: "corrupt".to_owned(),
    };
    assert!(matches!(dialog_buttons(&corrupt)[0], DialogButton::CorruptCancel));
    assert_eq!(initial_focus(&corrupt), 0);

    // Name / Closed have no traversable row (Name owns its own keys).
    assert!(dialog_buttons(&ProfileDialogState::Closed).is_empty());
}

#[test]
fn escape_dismisses_confirm_delete_without_deleting() {
    let confirm = ProfileDialogState::ConfirmDelete {
        name: "Desk".to_owned(),
    };
    let buttons = dialog_buttons(&confirm);
    // Focus sits on Delete; Escape still presses the safe dismiss.
    let (_, pressed) = dialog_keys(&buttons, 1, false, false, false, true);
    assert_eq!(pressed, Some(DialogButton::CancelDelete));
    let command = dispatch_dialog_button(&confirm, pressed.unwrap(), Some(ProfileKind::Lanes));
    assert_eq!(command, DialogCommand::Close, "no registry write");
}

#[test]
fn enter_presses_the_focused_button() {
    let confirm = ProfileDialogState::ConfirmDelete {
        name: "Desk".to_owned(),
    };
    let buttons = dialog_buttons(&confirm);
    let (focus, pressed) = dialog_keys(&buttons, 0, false, true, true, false);
    assert_eq!(focus, 1);
    assert_eq!(pressed, Some(DialogButton::ConfirmDelete));
    assert_eq!(
        dispatch_dialog_button(&confirm, DialogButton::ConfirmDelete, Some(ProfileKind::Lanes)),
        DialogCommand::Delete(ProfileKind::Lanes)
    );
    assert_eq!(
        dispatch_dialog_button(&confirm, DialogButton::ConfirmDelete, None),
        DialogCommand::Close
    );
    let (focus, pressed) = dialog_keys(&[], 4, true, true, true, true);
    assert_eq!((focus, pressed), (4, None), "no row: keys are ignored");
}

#[test]
fn dirty_buttons_resolve_the_guard_with_their_decision() {
    let dirty = dirty_state();
    assert_eq!(
        dispatch_dialog_button(&dirty, DialogButton::Dirty(CloseDecision::SaveAll), None),
        DialogCommand::ResolveDirty {
            kind: ProfileKind::Keyboard,
            pending: PendingProfileAction::Select("Desk".to_owned()),
            builtin_selected: false,
            decision: CloseDecision::SaveAll,
        }
    );
    assert_eq!(
        dispatch_dialog_button(&dirty, DialogButton::CorruptConfirm, None),
        DialogCommand::Ignore
    );
    let corrupt = ProfileDialogState::CorruptReset {
        kind: ProfileKind::Midi,
        message: "corrupt".to_owned(),
    };
    assert_eq!(
        dispatch_dialog_button(&corrupt, DialogButton::CorruptConfirm, None),
        DialogCommand::BackupAndReset(ProfileKind::Midi)
    );
    assert_eq!(kind_label(ProfileKind::Lanes), "lane layout");
}

fn press(key: TypedKey) -> TypedKeyEvent {
    TypedKeyEvent { pressed: true, key }
}

#[test]
fn typing_appends_pops_and_caps_length() {
    let mut v = String::from("Ab");
    let changed = type_into_name(
        &mut v,
        &[
            press(TypedKey::Text("c\u{7}d".to_string())),
            press(TypedKey::Space),
            TypedKeyEvent { pressed: false, key: TypedKey::Text("zz".to_string()) },
            press(TypedKey::Other),
        ],
    );
    assert!(changed);
    assert_eq!(v, "Abcd ");
    assert!(type_into_name(&mut v, &[press(TypedKey::Backspace), press(TypedKey::Backspace)]));
    assert_eq!(v, "Abc");
    let mut empty = String::new();
    assert!(type_into_name(&mut empty, &[press(TypedKey::Backspace)]));
    assert_eq!(empty, "");
    let mut full = "x".repeat(MAX_NAME_CHARS);
    assert!(!type_into_name(&mut full, &[press(TypedKey::Text("y".to_string())), press(TypedKey::Space)]));
    assert_eq!(full.chars().count(), MAX_NAME_CHARS);
    let mut plain = String::from("a");
    assert!(!type_into_name(&mut plain, &[press(TypedKey::Other)]));
}

#[test]
fn name_dialog_keys_close_submit_or_type() {
    let open = |err: Option<ProfileNameError>| ProfileDialogState::Name {
        action: NameAction::SaveAs,
        value: "My".to_string(),
        error: err,
    };
    let err = || Some(ProfileNameError { message: "taken".to_string() });
    let (s, o) = name_dialog_input(open(err()), true, true, &[]);
    assert_eq!((s, o), (ProfileDialogState::Closed, NameInputOutcome::Closed));
    let (s, o) = name_dialog_input(open(err()), false, true, &[press(TypedKey::Space)]);
    assert_eq!((s, o), (open(err()), NameInputOutcome::Submit));
    let (s, o) = name_dialog_input(open(err()), false, false, &[press(TypedKey::Text("Kit".to_string()))]);
    assert_eq!(o, NameInputOutcome::Typed);
    assert_eq!(
        s,
        ProfileDialogState::Name { action: NameAction::SaveAs, value: "MyKit".to_string(), error: None }
    );
    let (s, _) = name_dialog_input(open(err()), false, false, &[]);
    assert_eq!(s, open(err()));
    let (s, o) = name_dialog_input(ProfileDialogState::Closed, true, false, &[]);
    assert_eq!((s, o), (ProfileDialogState::Closed, NameInputOutcome::Ignored));
}

#[test]
fn typing_drops_every_control_char_and_keeps_the_rest() {
    let mut v = String::new();
    let text = "a\u{0}b\u{1f}c\u{7f}d\u{85}e\u{9f}f\u{a0}\u{e9}";
    assert!(type_into_name(&mut v, &[press(TypedKey::Text(text.to_string()))]));
    assert_eq!(v, "abcdef\u{a0}\u{e9}");
    for c in text.chars() {
        let mut one = String::new();
        type_into_name(&mut one, &[press(TypedKey::Text(c.to_string()))]);
        assert_eq!(one.is_empty(), c.is_control(), "{c:?}");
    }
}
