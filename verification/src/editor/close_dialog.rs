//! Dirty-profile close guard dialog: focus movement along its button row,
//! the decision each button stands for, and the list of dirty kinds.

use vstd::prelude::*;

use crate::editor::nav::SystemVerb;
use crate::editor::profile_state::{CloseDecision, PendingClose, ProfileKind, ProfileSession};

verus! {

/// The decision of each button of the close dialog, left to right.
pub open spec fn spec_decision_at(index: int) -> CloseDecision {
    if index == 0 {
        CloseDecision::Cancel
    } else if index == 1 {
        CloseDecision::DiscardAll
    } else {
        CloseDecision::SaveAll
    }
}

/// The decision of button `index` (Cancel | Discard all | Save all).
pub fn decision_at(index: usize) -> (d: CloseDecision)
    requires
        index < 3,
    ensures
        d == spec_decision_at(index as int),
{
    if index == 0 {
        CloseDecision::Cancel
    } else if index == 1 {
        CloseDecision::DiscardAll
    } else {
        CloseDecision::SaveAll
    }
}

/// One clamped focus move along a dialog's button row.
pub open spec fn spec_step_focus(focus: int, len: int, left: bool, right: bool) -> int {
    if len == 0 {
        0
    } else {
        let start = if focus < len - 1 { focus } else { len - 1 };
        let after_left = if left { if start > 0 { start - 1 } else { 0 } } else { start };
        if right { if after_left + 1 < len - 1 { after_left + 1 } else { len - 1 } } else { after_left }
    }
}

/// Clamp-move a dialog-row focus index.
pub fn step_focus(focus: usize, len: usize, left: bool, right: bool) -> (f: usize)
    ensures
        f == spec_step_focus(focus as int, len as int, left, right),
        len > 0 ==> f < len,
{
    if len == 0 {
        return 0;
    }
    let mut next = if focus < len - 1 { focus } else { len - 1 };
    if left {
        next = if next > 0 { next - 1 } else { 0 };
    }
    if right {
        next = if next + 1 < len - 1 { next + 1 } else { len - 1 };
    }
    next
}

/// The label of a dirty kind in the dialog text.
pub open spec fn kind_name(kind: ProfileKind) -> Seq<char> {
    match kind {
        ProfileKind::Keyboard => "keyboard"@,
        ProfileKind::Midi => "MIDI"@,
        ProfileKind::Lanes => "lane layout"@,
        ProfileKind::Settings => "settings"@,
    }
}

/// The labels of `kinds` separated by ", ".
pub open spec fn spec_dirty_names(kinds: Seq<ProfileKind>) -> Seq<char>
    decreases kinds.len(),
{
    if kinds.len() == 0 {
        Seq::empty()
    } else if kinds.len() == 1 {
        kind_name(kinds[0])
    } else {
        spec_dirty_names(kinds.drop_last()) + ", "@ + kind_name(kinds.last())
    }
}

fn kind_label(kind: ProfileKind) -> (s: &'static str)
    ensures
        s@ == kind_name(kind),
{
    match kind {
        ProfileKind::Keyboard => "keyboard",
        ProfileKind::Midi => "MIDI",
        ProfileKind::Lanes => "lane layout",
        ProfileKind::Settings => "settings",
    }
}

/// The dirty kinds as one line of text, e.g. "keyboard, MIDI".
pub fn dirty_names(dirty: &[ProfileKind]) -> (s: String)
    ensures
        s@ == spec_dirty_names(dirty@),
{
    let mut s = String::new();
    let n = dirty.len();
    for k in 0..n
        invariant
            n == dirty@.len(),
            s@ == spec_dirty_names(dirty@.take(k as int)),
    {
        let ghost pre = dirty@.take(k as int);
        let ghost post = dirty@.take(k + 1);
        assert(post.drop_last() =~= pre);
        if k > 0 {
            s.append(", ");
        }
        s.append(kind_label(dirty[k]));
        proof {
            if k == 0 {
                assert(s@ =~= kind_name(post[0]));
            } else {
                assert(post.last() == dirty@[k as int]);
            }
        }
    }
    assert(dirty@.take(n as int) =~= dirty@);
    s
}

/// Focus steps never leave the row and moving right then left from the
/// middle of the row comes back.
pub proof fn lemma_step_focus_in_row(focus: int, len: int, left: bool, right: bool)
    requires
        0 <= focus,
        0 < len,
    ensures
        0 <= spec_step_focus(focus, len, left, right) < len,
        0 < focus < len - 1 ==> spec_step_focus(spec_step_focus(focus, len, false, true), len, true, false) == focus,
{
}

/// The built-in profile names of each kind.
pub struct BuiltinNames {
    pub keyboard: Vec<String>,
    pub midi: Vec<String>,
    pub lanes: Vec<String>,
}

/// `name` is among `names`.
pub open spec fn listed(names: Seq<String>, name: Seq<char>) -> bool {
    exists|i: int| 0 <= i < names.len() && (#[trigger] names[i])@ == name
}

fn name_listed(names: &Vec<String>, name: &String) -> (b: bool)
    ensures
        b == listed(names@, name@),
{
    let n = names.len();
    for k in 0..n
        invariant
            n == names@.len(),
            forall|i: int| 0 <= i < k ==> (#[trigger] names@[i])@ != name@,
    {
        if names[k] == *name {
            return true;
        }
    }
    false
}

/// Whether the session's selection of `kind` is a built-in profile.
pub open spec fn spec_selected_is_builtin<K, M, L>(
    kind: ProfileKind,
    session: ProfileSession<K, M, L>,
    builtins: BuiltinNames,
) -> bool {
    match kind {
        ProfileKind::Keyboard => listed(builtins.keyboard@, session.keyboard.selected@),
        ProfileKind::Midi => listed(builtins.midi@, session.midi.selected@),
        ProfileKind::Lanes => listed(builtins.lanes@, session.lanes.selected@),
        ProfileKind::Settings => false,
    }
}

/// Whether the session's selection of `kind` is a built-in profile
/// (settings have no profiles).
pub fn selected_is_builtin<K, M, L>(
    kind: ProfileKind,
    session: &ProfileSession<K, M, L>,
    builtins: &BuiltinNames,
) -> (b: bool)
    ensures
        b == spec_selected_is_builtin(kind, *session, *builtins),
{
    match kind {
        ProfileKind::Keyboard => name_listed(&builtins.keyboard, &session.keyboard.selected),
        ProfileKind::Midi => name_listed(&builtins.midi, &session.midi.selected),
        ProfileKind::Lanes => name_listed(&builtins.lanes, &session.lanes.selected),
        ProfileKind::Settings => false,
    }
}

/// The guard's "built-in selected" flag: whether the first dirty kind's
/// selection is a built-in (its Save becomes Save As).
pub fn guard_builtin_selected<K, M, L>(
    close: &PendingClose,
    session: &ProfileSession<K, M, L>,
    builtins: &BuiltinNames,
) -> (b: bool)
    ensures
        b == (close.dirty@.len() > 0 && spec_selected_is_builtin(close.dirty@[0], *session, *builtins)),
{
    if close.dirty.len() == 0 {
        false
    } else {
        selected_is_builtin(close.dirty[0], session, builtins)
    }
}

/// The guard's focus after one frame's arrows and nav verbs, and the
/// decision (if any) requested by Escape/Back or Enter/Confirm.
pub open spec fn spec_close_keys(
    focus: int,
    verbs: Seq<SystemVerb>,
    arrow_left: bool,
    arrow_right: bool,
    escape: bool,
    enter: bool,
) -> (int, Option<CloseDecision>) {
    let left = arrow_left || exists|i: int| 0 <= i < verbs.len() && (#[trigger] verbs[i] == SystemVerb::Decrease
        || verbs[i] == SystemVerb::NavigateUp);
    let right = arrow_right || exists|i: int| 0 <= i < verbs.len() && (#[trigger] verbs[i] == SystemVerb::Increase
        || verbs[i] == SystemVerb::NavigateDown);
    let back = escape || exists|i: int| 0 <= i < verbs.len() && #[trigger] verbs[i] == SystemVerb::Back;
    let confirm = enter || exists|i: int| 0 <= i < verbs.len() && #[trigger] verbs[i] == SystemVerb::Confirm;
    let next = spec_step_focus(focus, 3, left, right);
    (next, if back {
        Some(CloseDecision::Cancel)
    } else if confirm {
        Some(spec_decision_at(next))
    } else {
        None
    })
}

/// Left/Right (keys or nav verbs) move the guard's focused button, clamped;
/// Escape/Back requests Cancel; Enter/Confirm requests the focused button's
/// decision, exactly as a click on it would.
pub fn close_dialog_keys(
    focus: usize,
    verbs: &[SystemVerb],
    arrow_left: bool,
    arrow_right: bool,
    escape: bool,
    enter: bool,
) -> (r: (usize, Option<CloseDecision>))
    ensures
        (r.0 as int, r.1) == spec_close_keys(focus as int, verbs@, arrow_left, arrow_right, escape, enter),
        r.0 < 3,
{
    let mut nav_left = false;
    let mut nav_right = false;
    let mut nav_confirm = false;
    let mut nav_back = false;
    let n = verbs.len();
    for k in 0..n
        invariant
            n == verbs@.len(),
            nav_left == exists|i: int| 0 <= i < k && (#[trigger] verbs@[i] == SystemVerb::Decrease
                || verbs@[i] == SystemVerb::NavigateUp),
            nav_right == exists|i: int| 0 <= i < k && (#[trigger] verbs@[i] == SystemVerb::Increase
                || verbs@[i] == SystemVerb::NavigateDown),
            nav_back == exists|i: int| 0 <= i < k && #[trigger] verbs@[i] == SystemVerb::Back,
            nav_confirm == exists|i: int| 0 <= i < k && #[trigger] verbs@[i] == SystemVerb::Confirm,
    {
        match verbs[k] {
            SystemVerb::Decrease | SystemVerb::NavigateUp => nav_left = true,
            SystemVerb::Increase | SystemVerb::NavigateDown => nav_right = true,
            SystemVerb::Confirm => nav_confirm = true,
            SystemVerb::Back => nav_back = true,
            _ => {},
        }
    }
    let next = step_focus(focus, 3, arrow_left || nav_left, arrow_right || nav_right);
    let decision = if escape || nav_back {
        Some(CloseDecision::Cancel)
    } else if enter || nav_confirm {
        Some(decision_at(next))
    } else {
        None
    };
    (next, decision)
}

} // verus!
