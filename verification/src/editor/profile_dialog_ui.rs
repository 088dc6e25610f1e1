//! Button rows of the profile modals and their keyboard contract: index 0
//! is always the safe dismiss, Escape always presses it, Enter presses the
//! focused button, and the dirty guard opens focused on its non-destructive
//! default. Pressing a button yields the command the caller performs.

use vstd::prelude::*;

use crate::editor::close_dialog::{spec_step_focus, step_focus};
use crate::editor::profile_dialog::ProfileDialogState;
use crate::editor::profile_state::{dirty_dialog_layout, CloseDecision, PendingProfileAction, ProfileKind};

verus! {

/// One button of a modal's button row.
#[derive(Debug, Clone, Copy, PartialEq, Eq, Structural)]
pub enum DialogButton {
    NameOk,
    NameCancel,
    ConfirmDelete,
    CancelDelete,
    Dirty(CloseDecision),
    CorruptConfirm,
    CorruptCancel,
}

/// The button row of a dialog, left to right.
pub open spec fn spec_dialog_buttons(state: ProfileDialogState) -> Seq<DialogButton> {
    match state {
        ProfileDialogState::ConfirmDelete { .. } => seq![DialogButton::CancelDelete, DialogButton::ConfirmDelete],
        ProfileDialogState::Dirty { .. } => seq![
            DialogButton::Dirty(CloseDecision::Cancel),
            DialogButton::Dirty(CloseDecision::DiscardAll),
            DialogButton::Dirty(CloseDecision::SaveAll),
        ],
        ProfileDialogState::CorruptReset { .. } => seq![DialogButton::CorruptCancel, DialogButton::CorruptConfirm],
        _ => Seq::empty(),
    }
}

/// The button is a safe dismiss: it writes nothing and changes no draft.
pub open spec fn is_safe_dismiss(b: DialogButton) -> bool {
    b == DialogButton::CancelDelete || b == DialogButton::Dirty(CloseDecision::Cancel) || b
        == DialogButton::CorruptCancel || b == DialogButton::NameCancel
}

/// The button destroys data (a profile, unsaved work, or a registry file).
pub open spec fn is_destructive(b: DialogButton) -> bool {
    b == DialogButton::ConfirmDelete || b == DialogButton::Dirty(CloseDecision::DiscardAll) || b
        == DialogButton::CorruptConfirm
}

/// Button row (left to right, matching spawn order) for the current dialog.
/// Index 0 is always the safe dismiss. Empty for Closed and Name (the name
/// entry owns its own keys).
pub fn dialog_buttons(state: &ProfileDialogState) -> (b: Vec<DialogButton>)
    ensures
        b@ == spec_dialog_buttons(*state),
{
    match state {
        ProfileDialogState::ConfirmDelete { .. } => vec![DialogButton::CancelDelete, DialogButton::ConfirmDelete],
        ProfileDialogState::Dirty { .. } => vec![
            DialogButton::Dirty(CloseDecision::Cancel),
            DialogButton::Dirty(CloseDecision::DiscardAll),
            DialogButton::Dirty(CloseDecision::SaveAll),
        ],
        ProfileDialogState::CorruptReset { .. } => vec![DialogButton::CorruptCancel, DialogButton::CorruptConfirm],
        ProfileDialogState::Closed | ProfileDialogState::Name { .. } => Vec::new(),
    }
}

/// Initial keyboard focus per dialog.
pub open spec fn spec_initial_focus(state: ProfileDialogState) -> int {
    match state {
        ProfileDialogState::Dirty { .. } => 2,
        _ => 0,
    }
}

/// Initial keyboard focus: the dirty guard uses its layout's default (the
/// save button, never the destructive one); every other dialog starts on
/// the safe dismiss.
pub fn initial_focus(state: &ProfileDialogState) -> (f: usize)
    ensures
        f == spec_initial_focus(*state),
{
    match state {
        ProfileDialogState::Dirty { kind, builtin_selected, .. } => {
            let kinds = [*kind];
            dirty_dialog_layout(&kinds, *builtin_selected).default_focus
        },
        _ => 0,
    }
}

/// Every button row starts with a safe dismiss, and a dialog opens with
/// focus on a button that destroys nothing.
pub proof fn lemma_rows_start_safe(state: ProfileDialogState)
    ensures
        spec_dialog_buttons(state).len() > 0 ==> is_safe_dismiss(spec_dialog_buttons(state)[0]),
        spec_dialog_buttons(state).len() > 0 ==> {
            &&& 0 <= spec_initial_focus(state) < spec_dialog_buttons(state).len()
            &&& !is_destructive(spec_dialog_buttons(state)[spec_initial_focus(state)])
        },
{
}

/// The focus after one frame's arrows, and the button (if any) that the
/// frame's Escape or Enter presses.
pub open spec fn spec_dialog_keys(
    buttons: Seq<DialogButton>,
    focus: int,
    left: bool,
    right: bool,
    enter: bool,
    escape: bool,
) -> (int, Option<DialogButton>) {
    let next = spec_step_focus(focus, buttons.len() as int, left, right);
    if buttons.len() == 0 {
        (focus, None)
    } else if escape {
        (next, Some(buttons[0]))
    } else if enter {
        (next, Some(buttons[next]))
    } else {
        (next, None)
    }
}

/// Left/Right/Enter/Escape on a button-row dialog. Escape always presses
/// the safe dismiss (index 0); Enter presses the focused button. A dialog
/// without a button row ignores the keys.
pub fn dialog_keys(
    buttons: &[DialogButton],
    focus: usize,
    left: bool,
    right: bool,
    enter: bool,
    escape: bool,
) -> (r: (usize, Option<DialogButton>))
    ensures
        (r.0 as int, r.1) == spec_dialog_keys(buttons@, focus as int, left, right, enter, escape),
{
    let n = buttons.len();
    if n == 0 {
        return (focus, None);
    }
    let next = step_focus(focus, n, left, right);
    let pressed = if escape {
        Some(buttons[0])
    } else if enter {
        Some(buttons[next])
    } else {
        None
    };
    (next, pressed)
}

/// What a pressed dialog button asks the caller to do. Every command
/// closes the dialog.
#[derive(Debug, Clone, PartialEq)]
pub enum DialogCommand {
    /// Close without any write.
    Close,
    /// Delete the selected profile of `kind` (a registry transaction).
    Delete(ProfileKind),
    /// Resolve the dirty guard with `decision` for `kind`.
    ResolveDirty { kind: ProfileKind, pending: PendingProfileAction, builtin_selected: bool, decision: CloseDecision },
    /// Back up the corrupt registry of `kind` and reset it.
    BackupAndReset(ProfileKind),
    /// The button does not belong to this dialog: nothing happens.
    Ignore,
}

/// The command of `pressed` on the dialog `state`.
pub open spec fn spec_dispatch(state: ProfileDialogState, pressed: DialogButton, dialog_kind: Option<ProfileKind>) -> DialogCommand {
    match state {
        ProfileDialogState::ConfirmDelete { .. } => match pressed {
            DialogButton::ConfirmDelete => match dialog_kind {
                Some(k) => DialogCommand::Delete(k),
                None => DialogCommand::Close,
            },
            DialogButton::CancelDelete => DialogCommand::Close,
            _ => DialogCommand::Ignore,
        },
        ProfileDialogState::Dirty { kind, pending, builtin_selected } => match pressed {
            DialogButton::Dirty(decision) => DialogCommand::ResolveDirty { kind, pending, builtin_selected, decision },
            _ => DialogCommand::Ignore,
        },
        ProfileDialogState::CorruptReset { kind, .. } => match pressed {
            DialogButton::CorruptConfirm => DialogCommand::BackupAndReset(kind),
            DialogButton::CorruptCancel => DialogCommand::Close,
            _ => DialogCommand::Ignore,
        },
        _ => DialogCommand::Ignore,
    }
}

fn copy_pending(a: &PendingProfileAction) -> (r: PendingProfileAction)
    ensures
        r == *a,
{
    match a {
        PendingProfileAction::Select(t) => PendingProfileAction::Select(t.clone()),
        PendingProfileAction::Revert => PendingProfileAction::Revert,
        PendingProfileAction::CloseCustomize => PendingProfileAction::CloseCustomize,
        PendingProfileAction::ExitApp => PendingProfileAction::ExitApp,
    }
}

/// One activated dialog button, shared by clicks and Enter/Escape so both
/// dispatch identically. `dialog_kind` is the kind a delete confirmation
/// belongs to; without one the confirmation just closes.
pub fn dispatch_dialog_button(
    state: &ProfileDialogState,
    pressed: DialogButton,
    dialog_kind: Option<ProfileKind>,
) -> (c: DialogCommand)
    ensures
        c == spec_dispatch(*state, pressed, dialog_kind),
{
    match state {
        ProfileDialogState::ConfirmDelete { .. } => match pressed {
            DialogButton::ConfirmDelete => match dialog_kind {
                Some(k) => DialogCommand::Delete(k),
                None => DialogCommand::Close,
            },
            DialogButton::CancelDelete => DialogCommand::Close,
            _ => DialogCommand::Ignore,
        },
        ProfileDialogState::Dirty { kind, pending, builtin_selected } => match pressed {
            DialogButton::Dirty(decision) => DialogCommand::ResolveDirty {
                kind: *kind,
                pending: copy_pending(pending),
                builtin_selected: *builtin_selected,
                decision,
            },
            _ => DialogCommand::Ignore,
        },
        ProfileDialogState::CorruptReset { kind, .. } => match pressed {
            DialogButton::CorruptConfirm => DialogCommand::BackupAndReset(*kind),
            DialogButton::CorruptCancel => DialogCommand::Close,
            _ => DialogCommand::Ignore,
        },
        _ => DialogCommand::Ignore,
    }
}

/// Escape on any button-row dialog never deletes, discards or resets.
pub proof fn lemma_escape_is_harmless(
    state: ProfileDialogState,
    focus: int,
    left: bool,
    right: bool,
    enter: bool,
    dialog_kind: Option<ProfileKind>,
)
    requires
        0 <= focus,
    ensures
        ({
            let (_, pressed) = spec_dialog_keys(spec_dialog_buttons(state), focus, left, right, enter, true);
            pressed matches Some(b) ==> {
                ||| spec_dispatch(state, b, dialog_kind) == DialogCommand::Close
                ||| spec_dispatch(state, b, dialog_kind) matches DialogCommand::ResolveDirty {
                    decision: CloseDecision::Cancel,
                    ..
                }
            }
        }),
{
}

/// The user-facing label of a profile kind.
pub fn kind_label(kind: ProfileKind) -> (s: &'static str)
    ensures
        kind == ProfileKind::Keyboard ==> s@ == "keyboard"@,
        kind == ProfileKind::Midi ==> s@ == "MIDI"@,
        kind == ProfileKind::Lanes ==> s@ == "lane layout"@,
        kind == ProfileKind::Settings ==> s@ == "settings"@,
{
    match kind {
        ProfileKind::Keyboard => "keyboard",
        ProfileKind::Midi => "MIDI",
        ProfileKind::Lanes => "lane layout",
        ProfileKind::Settings => "settings",
    }
}

/// Longest profile name the name dialog accepts, in chars.
pub const MAX_NAME_CHARS: usize = 48;

/// `c` is a control character: Unicode general category Cc, the code
/// points U+0000 to U+001F and U+007F to U+009F.
pub open spec fn control_char(c: char) -> bool {
    c <= '\u{1f}' || ('\u{7f}' <= c && c <= '\u{9f}')
}

/// Whether `c` is a control character (what `char::is_control` answers).
fn is_control_char(c: char) -> (b: bool)
    ensures
        b == control_char(c),
{
    c <= '\u{1f}' || ('\u{7f}' <= c && c <= '\u{9f}')
}

/// `String::push`: appends `c`.
#[verifier::external_body]
pub(crate) fn push_char(s: &mut String, c: char)
    ensures
        final(s)@ == old(s)@.push(c),
{
    s.push(c);
}

/// `String::pop`: removes the last char, if there is one.
#[verifier::external_body]
fn pop_char(s: &mut String)
    ensures
        old(s)@.len() == 0 ==> final(s)@ == old(s)@,
        old(s)@.len() > 0 ==> final(s)@ == old(s)@.drop_last(),
{
    s.pop();
}

/// A key typed into the name field.
#[derive(Debug, Clone, PartialEq)]
pub enum TypedKey {
    /// Printable text the key produced.
    Text(String),
    Space,
    Backspace,
    Other,
}

/// One keyboard event for the name field: only presses edit.
#[derive(Debug, Clone, PartialEq)]
pub struct TypedKeyEvent {
    pub pressed: bool,
    pub key: TypedKey,
}

/// Typing one char: kept only while the name is short of the limit and the
/// char is not a control char.
pub open spec fn spec_type_char(v: Seq<char>, c: char) -> (Seq<char>, bool) {
    if v.len() < MAX_NAME_CHARS && !control_char(c) {
        (v.push(c), true)
    } else {
        (v, false)
    }
}

/// Typing the chars of `t` in order.
pub open spec fn spec_type_text(v: Seq<char>, t: Seq<char>) -> (Seq<char>, bool)
    decreases t.len(),
{
    if t.len() == 0 {
        (v, false)
    } else {
        let (w, changed) = spec_type_text(v, t.drop_last());
        let (x, pushed) = spec_type_char(w, t.last());
        (x, changed || pushed)
    }
}

/// One event applied to the field: the new text, and whether it counts as
/// an edit (Backspace always does, even on an empty field).
pub open spec fn spec_type_event(v: Seq<char>, ev: TypedKeyEvent) -> (Seq<char>, bool) {
    if !ev.pressed {
        (v, false)
    } else {
        match ev.key {
            TypedKey::Text(t) => spec_type_text(v, t@),
            TypedKey::Space => if v.len() < MAX_NAME_CHARS {
                (v.push(' '), true)
            } else {
                (v, false)
            },
            TypedKey::Backspace => (if v.len() > 0 { v.drop_last() } else { v }, true),
            TypedKey::Other => (v, false),
        }
    }
}

/// The events applied in order.
pub open spec fn spec_type_events(v: Seq<char>, evs: Seq<TypedKeyEvent>) -> (Seq<char>, bool)
    decreases evs.len(),
{
    if evs.len() == 0 {
        (v, false)
    } else {
        let (w, changed) = spec_type_events(v, evs.drop_last());
        let (x, edited) = spec_type_event(w, evs.last());
        (x, changed || edited)
    }
}

fn type_text(value: &mut String, text: &str) -> (changed: bool)
    ensures
        (final(value)@, changed) == spec_type_text(old(value)@, text@),
{
    let n = text.unicode_len();
    let mut changed = false;
    let mut i: usize = 0;
    assert(text@.subrange(0, 0) =~= Seq::<char>::empty());
    while i < n
        invariant
            n == text@.len(),
            0 <= i <= n,
            (value@, changed) == spec_type_text(old(value)@, text@.subrange(0, i as int)),
        decreases n - i,
    {
        let c = text.get_char(i);
        assert(text@.subrange(0, i + 1).drop_last() =~= text@.subrange(0, i as int));
        let short = value.as_str().unicode_len() < MAX_NAME_CHARS;
        if short && !is_control_char(c) {
            push_char(value, c);
            changed = true;
        }
        i = i + 1;
    }
    assert(text@.subrange(0, n as int) =~= text@);
    changed
}

/// Apply the typed events to the name field, in order: printable chars
/// append while the name is under `MAX_NAME_CHARS` chars, Space appends a
/// space under the same limit, Backspace removes the last char. Returns
/// whether anything counted as an edit.
pub fn type_into_name(value: &mut String, events: &[TypedKeyEvent]) -> (changed: bool)
    ensures
        (final(value)@, changed) == spec_type_events(old(value)@, events@),
{
    let mut changed = false;
    let mut k: usize = 0;
    assert(events@.subrange(0, 0) =~= Seq::<TypedKeyEvent>::empty());
    while k < events.len()
        invariant
            0 <= k <= events@.len(),
            (value@, changed) == spec_type_events(old(value)@, events@.subrange(0, k as int)),
        decreases events@.len() - k,
    {
        let ev = &events[k];
        assert(events@.subrange(0, k + 1).drop_last() =~= events@.subrange(0, k as int));
        assert(events@.subrange(0, k + 1).last() == events@[k as int]);
        if ev.pressed {
            match &ev.key {
                TypedKey::Text(t) => {
                    let c = type_text(value, t.as_str());
                    changed = changed || c;
                },
                TypedKey::Space => {
                    if value.as_str().unicode_len() < MAX_NAME_CHARS {
                        push_char(value, ' ');
                        changed = true;
                    }
                },
                TypedKey::Backspace => {
                    pop_char(value);
                    changed = true;
                },
                TypedKey::Other => {},
            }
        }
        k = k + 1;
    }
    assert(events@.subrange(0, events@.len() as int) =~= events@);
    changed
}

proof fn lemma_typed_text_within_limit(v: Seq<char>, t: Seq<char>)
    requires
        v.len() <= MAX_NAME_CHARS,
    ensures
        spec_type_text(v, t).0.len() <= MAX_NAME_CHARS,
    decreases t.len(),
{
    if t.len() > 0 {
        lemma_typed_text_within_limit(v, t.drop_last());
    }
}

/// Typing never grows a name past `MAX_NAME_CHARS` chars.
pub proof fn lemma_typed_name_within_limit(v: Seq<char>, evs: Seq<TypedKeyEvent>)
    requires
        v.len() <= MAX_NAME_CHARS,
    ensures
        spec_type_events(v, evs).0.len() <= MAX_NAME_CHARS,
    decreases evs.len(),
{
    if evs.len() > 0 {
        lemma_typed_name_within_limit(v, evs.drop_last());
        let w = spec_type_events(v, evs.drop_last()).0;
        match evs.last().key {
            TypedKey::Text(t) => lemma_typed_text_within_limit(w, t@),
            _ => {},
        }
    }
}

/// What one frame of name-dialog input asks of the caller.
#[derive(Debug, Clone, Copy, PartialEq, Eq, Structural)]
pub enum NameInputOutcome {
    /// No name dialog is open; the events are dropped.
    Ignored,
    /// Escape closed the dialog.
    Closed,
    /// Enter: validate and submit the typed name.
    Submit,
    /// The typed events were applied to the field.
    Typed,
}

/// One frame of input for the name dialog. Escape closes it, Enter asks
/// for a submit (both win over typing), otherwise the events edit the
/// field and any edit clears the inline error.
pub fn name_dialog_input(
    dialog: ProfileDialogState,
    escape: bool,
    enter: bool,
    events: &[TypedKeyEvent],
) -> (r: (ProfileDialogState, NameInputOutcome))
    ensures
        !(dialog is Name) ==> r.0 == dialog && r.1 == NameInputOutcome::Ignored,
        dialog is Name && escape ==> r.0 is Closed && r.1 == NameInputOutcome::Closed,
        dialog is Name && !escape && enter ==> r.0 == dialog && r.1 == NameInputOutcome::Submit,
        dialog is Name && !escape && !enter ==> r.1 == NameInputOutcome::Typed && ({
            let (typed, changed) = spec_type_events(dialog->value@, events@);
            &&& r.0 is Name
            &&& r.0->action == dialog->action
            &&& r.0->value@ == typed
            &&& r.0->error == if changed { None } else { dialog->error }
        }),
{
    match dialog {
        ProfileDialogState::Name { action, value, error } => {
            if escape {
                return (ProfileDialogState::Closed, NameInputOutcome::Closed);
            }
            if enter {
                return (ProfileDialogState::Name { action, value, error }, NameInputOutcome::Submit);
            }
            let mut value = value;
            let changed = type_into_name(&mut value, events);
            let error = if changed { None } else { error };
            (ProfileDialogState::Name { action, value, error }, NameInputOutcome::Typed)
        },
        other => (other, NameInputOutcome::Ignored),
    }
}

} // verus!
