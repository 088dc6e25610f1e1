use lib::editor::profile_dialog::{
    open_name_dialog, submit_name, NameAction, ProfileDialogState, ProfileNameError,
};
use lib::editor::profile_state::ProfileName;

#[test]
fn invalid_save_as_keeps_name_dialog_open() {
    let state = open_name_dialog(NameAction::SaveAs, "DTXMania default".to_owned());
    // "DTXMania default" is a built-in name, so validation refuses it.
    let refused = Err(ProfileNameError {
        message: "\"DTXMania default\" is a built-in profile name".to_owned(),
    });
    let (next, name) = submit_name(&state, refused);
    assert!(name.is_none());
    let ProfileDialogState::Name {
        action,
        value,
        error,
    } = next
    else {
        panic!("invalid name must keep the dialog open");
    };
    assert_eq!(action, NameAction::SaveAs);
    assert_eq!(value, "DTXMania default", "user text is retained");
    assert!(error.is_some(), "inline error is shown");
}

#[test]
fn valid_name_closes_dialog() {
    let state = open_name_dialog(NameAction::Rename, "My kit".to_owned());
    let accepted = Ok(ProfileName {
        name: "My kit".to_owned(),
    });
    let (next, name) = submit_name(&state, accepted);
    assert_eq!(next, ProfileDialogState::Closed);
    assert_eq!(name.expect("name validates").as_str(), "My kit");
}

#[test]
fn submit_on_a_closed_dialog_changes_nothing() {
    let state = ProfileDialogState::ConfirmDelete {
        name: "Desk".to_owned(),
    };
    let accepted = Ok(ProfileName {
        name: "Other".to_owned(),
    });
    let (next, name) = submit_name(&state, accepted);
    assert_eq!(next, state);
    assert!(name.is_none());
    assert_eq!(ProfileDialogState::default(), ProfileDialogState::Closed);
    assert_eq!(state.duplicate(), state);
}
