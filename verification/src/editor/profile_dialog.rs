//! Modal dialog state for profile actions: naming (Save As / Rename),
//! delete confirmation, dirty-draft guards, and corrupt-registry reset.
//!
//! Pure state and reducers; the UI renders whatever state holds. An invalid
//! name submit keeps the dialog open with an inline error so the user can
//! correct it in place.

use vstd::prelude::*;

use crate::editor::profile_state::{PendingProfileAction, ProfileKind, ProfileName};

verus! {

/// What the open name dialog will do with a valid name.
#[derive(Debug, Clone, Copy, PartialEq, Eq, Structural)]
pub enum NameAction {
    SaveAs,
    Rename,
}

/// Why a typed profile name was refused.
#[derive(Debug, Clone, PartialEq)]
pub struct ProfileNameError {
    pub message: String,
}

/// Current modal dialog, if any. One dialog at a time.
#[derive(Debug, Clone, PartialEq)]
pub enum ProfileDialogState {
    Closed,
    /// Save As / Rename name entry with inline validation error.
    Name { action: NameAction, value: String, error: Option<ProfileNameError> },
    ConfirmDelete { name: String },
    /// Dirty-draft guard raised by `pending`; buttons map to a dirty decision.
    Dirty { kind: ProfileKind, pending: PendingProfileAction, builtin_selected: bool },
    /// Corrupt registry detected at load; offers confirmed backup+reset.
    CorruptReset { kind: ProfileKind, message: String },
}

impl Default for ProfileDialogState {
    fn default() -> (s: Self)
        ensures
            s is Closed,
    {
        ProfileDialogState::Closed
    }
}

fn copy_action(a: &PendingProfileAction) -> (r: PendingProfileAction)
    ensures
        r == *a,
{
    match a {
        PendingProfileAction::Select(t) => PendingProfileAction::Select(t.clone()),
        PendingProfileAction::Revert => PendingProfileAction::Revert,
        PendingProfileAction::CloseCustomize => PendingProfileAction::CloseCustomize,
        PendingProfileAction::ExitApp => PendingProfileAction::ExitApp,
    }
}

impl ProfileDialogState {
    /// An identical copy of the state.
    pub fn duplicate(&self) -> (r: Self)
        ensures
            r == *self,
    {
        match self {
            ProfileDialogState::Closed => ProfileDialogState::Closed,
            ProfileDialogState::Name { action, value, error } => ProfileDialogState::Name {
                action: *action,
                value: value.clone(),
                error: match error {
                    Some(e) => Some(ProfileNameError { message: e.message.clone() }),
                    None => None,
                },
            },
            ProfileDialogState::ConfirmDelete { name } => ProfileDialogState::ConfirmDelete { name: name.clone() },
            ProfileDialogState::Dirty { kind, pending, builtin_selected } => ProfileDialogState::Dirty {
                kind: *kind,
                pending: copy_action(pending),
                builtin_selected: *builtin_selected,
            },
            ProfileDialogState::CorruptReset { kind, message } => ProfileDialogState::CorruptReset {
                kind: *kind,
                message: message.clone(),
            },
        }
    }
}

/// Open the name dialog preloaded with the shared suggestion.
pub fn open_name_dialog(action: NameAction, suggestion: String) -> (s: ProfileDialogState)
    ensures
        s == (ProfileDialogState::Name { action, value: suggestion, error: None }),
{
    ProfileDialogState::Name { action, value: suggestion, error: None }
}

/// Submit the name dialog with the outcome of validating its text. A valid
/// name closes the dialog and returns the name; an invalid one keeps the
/// dialog open with the error and the user's text intact. Any other dialog
/// is left as it is.
pub fn submit_name(
    state: &ProfileDialogState,
    validated: Result<ProfileName, ProfileNameError>,
) -> (r: (ProfileDialogState, Option<ProfileName>))
    ensures
        match *state {
            ProfileDialogState::Name { action, value, .. } => match validated {
                Ok(name) => r.0 is Closed && r.1 == Some(name),
                Err(e) => r.0 == (ProfileDialogState::Name { action, value, error: Some(e) }) && r.1 is None,
            },
            _ => r.0 == *state && r.1 is None,
        },
{
    match state {
        ProfileDialogState::Name { action, value, .. } => match validated {
            Ok(name) => (ProfileDialogState::Closed, Some(name)),
            Err(error) => (
                ProfileDialogState::Name { action: *action, value: value.clone(), error: Some(error) },
                None,
            ),
        },
        _ => (state.duplicate(), None),
    }
}

} // verus!
