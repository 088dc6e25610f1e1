//! Nav for Customize settings tabs: which tabs pads may enter, when a tab's
//! own focus machine owns the arrows, and how verbs step a focused row.

use vstd::prelude::*;

use crate::editor::controls_panel::ControlsFocus;
use crate::editor::lanes_panel::LanesFocus;
use crate::editor::nav::{settings_tab, CustomizeTab, NavAction, NavSource, SystemVerb};
use crate::editor::profile_state::value_semantics;

verus! {

/// Tabs whose content pads cannot navigate (pointer / capture surfaces).
pub fn pad_excluded(tab: CustomizeTab) -> (b: bool)
    ensures
        b == (tab == CustomizeTab::Controls || tab == CustomizeTab::Widgets),
{
    match tab {
        CustomizeTab::Controls | CustomizeTab::Widgets => true,
        _ => false,
    }
}

/// Can a pad descend from the tab bar into this tab's rows?
pub fn pad_can_enter(tab: CustomizeTab) -> (b: bool)
    ensures
        b == (settings_tab(tab) && !(tab == CustomizeTab::Controls || tab == CustomizeTab::Widgets)),
{
    tab.is_settings() && !pad_excluded(tab)
}

/// Can the keyboard descend from the tab bar into this tab's rows?
pub fn keyboard_can_enter(tab: CustomizeTab) -> (b: bool)
    ensures
        b == settings_tab(tab),
{
    tab.is_settings()
}

/// True when a tab's own focus machine sits below the tab bar: the generic
/// tab-bar Left/Right tab switch must yield there.
pub fn subtab_focus_captured(tab: CustomizeTab, controls: ControlsFocus, lanes: LanesFocus) -> (b: bool)
    ensures
        b == (tab == CustomizeTab::Controls && controls != ControlsFocus::TabBar
            || tab == CustomizeTab::Lanes && lanes != LanesFocus::TabBar),
{
    match tab {
        CustomizeTab::Controls => controls != ControlsFocus::TabBar,
        CustomizeTab::Lanes => lanes != LanesFocus::TabBar,
        _ => false,
    }
}

/// The step a verb applies to the focused row.
pub open spec fn spec_adjust_delta(verb: SystemVerb, source: NavSource) -> Option<i32> {
    if (verb == SystemVerb::NavigateUp && source == NavSource::Pad) || verb == SystemVerb::Decrease {
        Some(-1i32)
    } else if (verb == SystemVerb::NavigateDown && source == NavSource::Pad) || verb == SystemVerb::Increase {
        Some(1)
    } else {
        None
    }
}

/// Delta a verb applies to the focused row, if any. Pads reuse Up/Down as
/// -/+ once in adjust mode; the keyboard uses Decrease/Increase directly.
pub fn adjust_delta(verb: SystemVerb, source: NavSource) -> (d: Option<i32>)
    ensures
        d == spec_adjust_delta(verb, source),
{
    match (verb, source) {
        (SystemVerb::NavigateUp, NavSource::Pad) | (SystemVerb::Decrease, _) => Some(-1),
        (SystemVerb::NavigateDown, NavSource::Pad) | (SystemVerb::Increase, _) => Some(1),
        _ => None,
    }
}

/// Where settings-tab navigation sits: on the tab bar, on the rows, or
/// adjusting one row with the draft as it was on entry (pads only).
#[derive(Debug, Clone, PartialEq)]
pub enum NavLevel<D> {
    Rail,
    Rows,
    Adjust { saved: D },
}

/// What a settings nav step asks the caller to do.
#[derive(Debug, Clone, PartialEq)]
pub enum SettingsNavEffect<D> {
    Nothing,
    /// Switch to the previous tab.
    PrevTab,
    /// Switch to the next tab.
    NextTab,
    /// Step the setting on `row` by `delta`, `reps` times.
    Adjust { row: usize, delta: i32, reps: u32 },
    /// Put the draft back to this snapshot (pad Back while adjusting).
    RestoreDraft(D),
    /// Ask the editor to close (pad Back on the tab bar).
    CloseEditor,
}

/// The settings navigation transition.
pub open spec fn spec_settings_nav<D>(
    level: NavLevel<D>,
    focused: int,
    tab: CustomizeTab,
    items: int,
    captured: bool,
    action: NavAction,
    draft: D,
) -> (NavLevel<D>, int, SettingsNavEffect<D>) {
    let verb = action.verb;
    if action.source == NavSource::Keyboard && (verb == SystemVerb::Decrease || verb == SystemVerb::Increase)
        && level is Rail && captured {
        (level, focused, SettingsNavEffect::Nothing)
    } else if action.source == NavSource::Keyboard {
        match level {
            NavLevel::Rail => if verb == SystemVerb::Decrease {
                (level, focused, SettingsNavEffect::PrevTab)
            } else if verb == SystemVerb::Increase {
                (level, focused, SettingsNavEffect::NextTab)
            } else if (verb == SystemVerb::NavigateDown || verb == SystemVerb::Confirm) && settings_tab(tab) && items
                > 0 {
                (NavLevel::Rows, 0, SettingsNavEffect::Nothing)
            } else {
                (level, focused, SettingsNavEffect::Nothing)
            },
            _ => if !settings_tab(tab) || items == 0 {
                (level, focused, SettingsNavEffect::Nothing)
            } else if verb == SystemVerb::NavigateDown {
                (level, if focused + 1 < items - 1 { focused + 1 } else { items - 1 }, SettingsNavEffect::Nothing)
            } else if verb == SystemVerb::NavigateUp {
                if focused == 0 {
                    (NavLevel::Rail, focused, SettingsNavEffect::Nothing)
                } else {
                    (level, focused - 1, SettingsNavEffect::Nothing)
                }
            } else {
                match spec_adjust_delta(verb, NavSource::Keyboard) {
                    Some(delta) => if focused < items {
                        (
                            level,
                            focused,
                            SettingsNavEffect::Adjust {
                                row: focused as usize,
                                delta,
                                reps: if action.coarse { 10 } else { 1 },
                            },
                        )
                    } else {
                        (level, focused, SettingsNavEffect::Nothing)
                    },
                    None => (level, focused, SettingsNavEffect::Nothing),
                }
            },
        }
    } else {
        match level {
            NavLevel::Rail => if verb == SystemVerb::NavigateUp {
                (level, focused, SettingsNavEffect::PrevTab)
            } else if verb == SystemVerb::NavigateDown {
                (level, focused, SettingsNavEffect::NextTab)
            } else if verb == SystemVerb::Confirm {
                if settings_tab(tab) && !(tab == CustomizeTab::Controls || tab == CustomizeTab::Widgets) && items
                    > 0 {
                    (NavLevel::Rows, 0, SettingsNavEffect::Nothing)
                } else {
                    (level, focused, SettingsNavEffect::Nothing)
                }
            } else if verb == SystemVerb::Back {
                (level, focused, SettingsNavEffect::CloseEditor)
            } else {
                (level, focused, SettingsNavEffect::Nothing)
            },
            NavLevel::Rows => if verb == SystemVerb::NavigateUp {
                (level, if focused > 0 { focused - 1 } else { 0 }, SettingsNavEffect::Nothing)
            } else if verb == SystemVerb::NavigateDown {
                let last = if items > 0 { items - 1 } else { 0 };
                (level, if focused + 1 < last { focused + 1 } else { last }, SettingsNavEffect::Nothing)
            } else if verb == SystemVerb::Confirm {
                if focused < items {
                    (NavLevel::Adjust { saved: draft }, focused, SettingsNavEffect::Nothing)
                } else {
                    (level, focused, SettingsNavEffect::Nothing)
                }
            } else if verb == SystemVerb::Back {
                (NavLevel::Rail, focused, SettingsNavEffect::Nothing)
            } else {
                (level, focused, SettingsNavEffect::Nothing)
            },
            NavLevel::Adjust { saved } => if verb == SystemVerb::Confirm {
                (NavLevel::Rows, focused, SettingsNavEffect::Nothing)
            } else if verb == SystemVerb::Back {
                (NavLevel::Rows, focused, SettingsNavEffect::RestoreDraft(saved))
            } else {
                match spec_adjust_delta(verb, NavSource::Pad) {
                    Some(delta) => if focused < items {
                        (level, focused, SettingsNavEffect::Adjust { row: focused as usize, delta, reps: 1 })
                    } else {
                        (level, focused, SettingsNavEffect::Nothing)
                    },
                    None => (level, focused, SettingsNavEffect::Nothing),
                }
            },
        }
    }
}

/// The action moves the row cursor one row down (the step that computes
/// the row after the focused one).
pub open spec fn settings_nav_steps_down<D>(level: NavLevel<D>, tab: CustomizeTab, items: int, action: NavAction) -> bool {
    &&& action.verb == SystemVerb::NavigateDown
    &&& if action.source == NavSource::Keyboard {
        !(level is Rail) && settings_tab(tab) && items > 0
    } else {
        level is Rows
    }
}

/// One navigation action on a settings tab with `items` rows. Keyboard:
/// Left/Right switch tabs on the bar (unless the tab's own focus machine
/// owns them), Down/Enter descend, Up from the first row returns to the bar,
/// Left/Right on a row step it (x10 with Shift). Pads: Up/Down switch tabs
/// on the bar and walk rows, Confirm enters adjust mode (snapshotting the
/// draft), Back in adjust mode restores the snapshot, Back on the bar
/// closes the editor.
pub fn settings_nav_step<D: Clone + PartialEq>(
    level: NavLevel<D>,
    focused: usize,
    tab: CustomizeTab,
    items: usize,
    subtab_captured: bool,
    action: NavAction,
    draft: &D,
) -> (r: (NavLevel<D>, usize, SettingsNavEffect<D>))
    requires
        value_semantics::<D>(),
        settings_nav_steps_down(level, tab, items as int, action) ==> focused < usize::MAX,
    ensures
        (r.0, r.1 as int, r.2) == spec_settings_nav(level, focused as int, tab, items as int, subtab_captured, action, *draft),
{
    let verb = action.verb;
    let on_rail = match &level {
        NavLevel::Rail => true,
        _ => false,
    };
    let dec_inc = match verb {
        SystemVerb::Decrease | SystemVerb::Increase => true,
        _ => false,
    };
    match action.source {
        NavSource::Keyboard => {
            if dec_inc && on_rail && subtab_captured {
                return (level, focused, SettingsNavEffect::Nothing);
            }
            if on_rail {
                return match verb {
                    SystemVerb::Decrease => (level, focused, SettingsNavEffect::PrevTab),
                    SystemVerb::Increase => (level, focused, SettingsNavEffect::NextTab),
                    SystemVerb::NavigateDown | SystemVerb::Confirm => {
                        if keyboard_can_enter(tab) && items > 0 {
                            (NavLevel::Rows, 0, SettingsNavEffect::Nothing)
                        } else {
                            (level, focused, SettingsNavEffect::Nothing)
                        }
                    },
                    _ => (level, focused, SettingsNavEffect::Nothing),
                };
            }
            if !tab.is_settings() || items == 0 {
                return (level, focused, SettingsNavEffect::Nothing);
            }
            match verb {
                SystemVerb::NavigateDown => {
                    let next = if focused + 1 < items - 1 { focused + 1 } else { items - 1 };
                    (level, next, SettingsNavEffect::Nothing)
                },
                SystemVerb::NavigateUp => {
                    if focused == 0 {
                        (NavLevel::Rail, focused, SettingsNavEffect::Nothing)
                    } else {
                        (level, focused - 1, SettingsNavEffect::Nothing)
                    }
                },
                _ => match adjust_delta(verb, NavSource::Keyboard) {
                    Some(delta) => {
                        if focused < items {
                            let reps: u32 = if action.coarse { 10 } else { 1 };
                            (level, focused, SettingsNavEffect::Adjust { row: focused, delta, reps })
                        } else {
                            (level, focused, SettingsNavEffect::Nothing)
                        }
                    },
                    None => (level, focused, SettingsNavEffect::Nothing),
                },
            }
        },
        NavSource::Pad => match level {
            NavLevel::Rail => match verb {
                SystemVerb::NavigateUp => (NavLevel::Rail, focused, SettingsNavEffect::PrevTab),
                SystemVerb::NavigateDown => (NavLevel::Rail, focused, SettingsNavEffect::NextTab),
                SystemVerb::Confirm => {
                    if pad_can_enter(tab) && items > 0 {
                        (NavLevel::Rows, 0, SettingsNavEffect::Nothing)
                    } else {
                        (NavLevel::Rail, focused, SettingsNavEffect::Nothing)
                    }
                },
                SystemVerb::Back => (NavLevel::Rail, focused, SettingsNavEffect::CloseEditor),
                _ => (NavLevel::Rail, focused, SettingsNavEffect::Nothing),
            },
            NavLevel::Rows => match verb {
                SystemVerb::NavigateUp => {
                    let next = if focused > 0 { focused - 1 } else { 0 };
                    (NavLevel::Rows, next, SettingsNavEffect::Nothing)
                },
                SystemVerb::NavigateDown => {
                    let last = if items > 0 { items - 1 } else { 0 };
                    let next = if focused + 1 < last { focused + 1 } else { last };
                    (NavLevel::Rows, next, SettingsNavEffect::Nothing)
                },
                SystemVerb::Confirm => {
                    if focused < items {
                        let saved = draft.clone();
                        assert(cloned(*draft, saved));
                        (NavLevel::Adjust { saved }, focused, SettingsNavEffect::Nothing)
                    } else {
                        (NavLevel::Rows, focused, SettingsNavEffect::Nothing)
                    }
                },
                SystemVerb::Back => (NavLevel::Rail, focused, SettingsNavEffect::Nothing),
                _ => (NavLevel::Rows, focused, SettingsNavEffect::Nothing),
            },
            NavLevel::Adjust { saved } => match verb {
                SystemVerb::Confirm => (NavLevel::Rows, focused, SettingsNavEffect::Nothing),
                SystemVerb::Back => (NavLevel::Rows, focused, SettingsNavEffect::RestoreDraft(saved)),
                _ => match adjust_delta(verb, NavSource::Pad) {
                    Some(delta) => {
                        if focused < items {
                            (NavLevel::Adjust { saved }, focused, SettingsNavEffect::Adjust { row: focused, delta, reps: 1 })
                        } else {
                            (NavLevel::Adjust { saved }, focused, SettingsNavEffect::Nothing)
                        }
                    },
                    None => (NavLevel::Adjust { saved }, focused, SettingsNavEffect::Nothing),
                },
            },
        },
    }
}

/// The level and focused row after the active tab changed: row 0, staying
/// on the rows only when they were focused and the new tab has rows.
pub fn on_tab_changed<D>(level: NavLevel<D>, tab: CustomizeTab, items: usize) -> (r: (NavLevel<D>, usize))
    ensures
        r.1 == 0,
        r.0 == if level is Rows && settings_tab(tab) && items > 0 {
            NavLevel::<D>::Rows
        } else {
            NavLevel::<D>::Rail
        },
{
    let keep_rows = match level {
        NavLevel::Rows => tab.is_settings() && items > 0,
        _ => false,
    };
    if keep_rows {
        (NavLevel::Rows, 0)
    } else {
        (NavLevel::Rail, 0)
    }
}

/// Pad adjust mode is undoable: entering snapshots the draft, and Back
/// hands back exactly that snapshot.
pub proof fn lemma_pad_adjust_back_restores<D>(focused: int, tab: CustomizeTab, items: int, captured: bool, draft: D, other: D)
    requires
        0 <= focused < items,
    ensures
        ({
            let enter = NavAction { verb: SystemVerb::Confirm, source: NavSource::Pad, coarse: false };
            let back = NavAction { verb: SystemVerb::Back, source: NavSource::Pad, coarse: false };
            let (l1, f1, _) = spec_settings_nav(NavLevel::Rows, focused, tab, items, captured, enter, draft);
            let (l2, f2, e2) = spec_settings_nav(l1, f1, tab, items, captured, back, other);
            l2 == NavLevel::<D>::Rows && f2 == focused && e2 == SettingsNavEffect::RestoreDraft(draft)
        }),
{
}

/// Pad adjust mode, for any focused row and any draft: Back puts the draft
/// back to the snapshot taken on entry and returns to the rows, Confirm
/// keeps the draft and returns to the rows, Up/Down step the focused row
/// once by -1/+1 and stay in adjust mode; the focused row never moves.
pub proof fn lemma_pad_adjust_mode<D>(
    saved: D,
    focused: int,
    tab: CustomizeTab,
    items: int,
    captured: bool,
    verb: SystemVerb,
    coarse: bool,
    draft: D,
)
    ensures
        ({
            let action = NavAction { verb, source: NavSource::Pad, coarse };
            let (l, f, e) = spec_settings_nav(NavLevel::Adjust { saved }, focused, tab, items, captured, action, draft);
            &&& f == focused
            &&& verb == SystemVerb::Back ==> l == NavLevel::<D>::Rows && e == SettingsNavEffect::RestoreDraft(saved)
            &&& verb == SystemVerb::Confirm ==> l == NavLevel::<D>::Rows && e == SettingsNavEffect::<D>::Nothing
            &&& (verb == SystemVerb::NavigateUp || verb == SystemVerb::NavigateDown) ==> {
                &&& l == NavLevel::Adjust { saved }
                &&& 0 <= focused < items ==> e == SettingsNavEffect::<D>::Adjust {
                    row: focused as usize,
                    delta: if verb == SystemVerb::NavigateUp { -1i32 } else { 1i32 },
                    reps: 1,
                }
            }
        }),
{
}

/// The pad legend (pad, action) for a nav level.
pub open spec fn spec_legend<D>(level: NavLevel<D>) -> Seq<(Seq<char>, Seq<char>)> {
    match level {
        NavLevel::Rail => seq![("HH"@, "prev tab"@), ("CY"@, "next tab"@), ("BD"@, "enter"@), ("SD"@, "close"@)],
        NavLevel::Rows => seq![("HH"@, "up"@), ("CY"@, "down"@), ("BD"@, "adjust"@), ("SD"@, "tabs"@)],
        NavLevel::Adjust { .. } => seq![("HH"@, "\u{2212}"@), ("CY"@, "+"@), ("BD"@, "confirm"@), ("SD"@, "cancel"@)],
    }
}

/// The pad legend shown at the panel bottom for a nav level: which pad
/// does what.
pub fn legend_items<D>(level: &NavLevel<D>) -> (items: Vec<(&'static str, &'static str)>)
    ensures
        items@.len() == spec_legend(*level).len(),
        forall|i: int| 0 <= i < items@.len() ==> (#[trigger] items@[i]).0@ == spec_legend(*level)[i].0
            && items@[i].1@ == spec_legend(*level)[i].1,
{
    let items = match level {
        NavLevel::Rail => vec![("HH", "prev tab"), ("CY", "next tab"), ("BD", "enter"), ("SD", "close")],
        NavLevel::Rows => vec![("HH", "up"), ("CY", "down"), ("BD", "adjust"), ("SD", "tabs")],
        NavLevel::Adjust { .. } => vec![("HH", "\u{2212}"), ("CY", "+"), ("BD", "confirm"), ("SD", "cancel")],
    };
    items
}

/// The nav level's kind as a number (for change detection without
/// comparing the adjust snapshot).
pub fn level_key<D>(level: &NavLevel<D>) -> (k: u8)
    ensures
        k == match *level {
            NavLevel::Rail => 0u8,
            NavLevel::Rows => 1u8,
            NavLevel::Adjust { .. } => 2u8,
        },
{
    match level {
        NavLevel::Rail => 0,
        NavLevel::Rows => 1,
        NavLevel::Adjust { .. } => 2,
    }
}

/// The keyboard state the Customize surface reads each frame: held
/// modifiers and the keys just pressed.
#[derive(Debug, Clone, Copy, PartialEq, Eq, Structural)]
pub struct NavKeys {
    pub ctrl_held: bool,
    pub shift_held: bool,
    pub page_down: bool,
    pub page_up: bool,
    pub arrow_down: bool,
    pub arrow_up: bool,
    pub arrow_right: bool,
    pub arrow_left: bool,
    pub enter: bool,
}

/// What the keyboard asks for this frame.
#[derive(Debug, Clone, Copy, PartialEq, Eq, Structural)]
pub enum KeyboardNavOutput {
    Nothing,
    /// PageDown: the next tab.
    NextTab,
    /// PageUp: the previous tab.
    PrevTab,
    Emit(NavAction),
}

/// The keyboard's reading of one frame.
pub open spec fn spec_keyboard_emit_nav(k: NavKeys) -> KeyboardNavOutput {
    if k.ctrl_held {
        KeyboardNavOutput::Nothing
    } else if k.page_down {
        KeyboardNavOutput::NextTab
    } else if k.page_up {
        KeyboardNavOutput::PrevTab
    } else {
        let verb = if k.arrow_down {
            Some(SystemVerb::NavigateDown)
        } else if k.arrow_up {
            Some(SystemVerb::NavigateUp)
        } else if k.arrow_right {
            Some(SystemVerb::Increase)
        } else if k.arrow_left {
            Some(SystemVerb::Decrease)
        } else if k.enter {
            Some(SystemVerb::Confirm)
        } else {
            None
        };
        match verb {
            Some(v) => KeyboardNavOutput::Emit(NavAction { verb: v, source: NavSource::Keyboard, coarse: k.shift_held }),
            None => KeyboardNavOutput::Nothing,
        }
    }
}

/// Keyboard to navigation: nothing under Ctrl (those chords are editor
/// hotkeys); PageDown/PageUp switch tabs from any level; otherwise the
/// first of Down, Up, Right, Left, Enter pressed becomes one keyboard
/// `NavAction`, coarse while Shift is held.
pub fn keyboard_emit_nav(k: NavKeys) -> (r: KeyboardNavOutput)
    ensures
        r == spec_keyboard_emit_nav(k),
{
    if k.ctrl_held {
        return KeyboardNavOutput::Nothing;
    }
    if k.page_down {
        return KeyboardNavOutput::NextTab;
    }
    if k.page_up {
        return KeyboardNavOutput::PrevTab;
    }
    let verb = if k.arrow_down {
        SystemVerb::NavigateDown
    } else if k.arrow_up {
        SystemVerb::NavigateUp
    } else if k.arrow_right {
        SystemVerb::Increase
    } else if k.arrow_left {
        SystemVerb::Decrease
    } else if k.enter {
        SystemVerb::Confirm
    } else {
        return KeyboardNavOutput::Nothing;
    };
    KeyboardNavOutput::Emit(NavAction { verb, source: NavSource::Keyboard, coarse: k.shift_held })
}

} // verus!
