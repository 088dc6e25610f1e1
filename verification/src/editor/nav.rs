//! Navigation input model of the Customize surface: the verbs a keyboard or
//! drum pad emits, where they came from, and the surface's tabs.

use vstd::prelude::*;

verus! {

/// A navigation verb.
#[derive(Debug, Clone, Copy, PartialEq, Eq, Structural)]
pub enum NavVerb {
    Up,
    Down,
    /// Left / minus.
    Dec,
    /// Right / plus.
    Inc,
    Confirm,
    Back,
}

/// Where a navigation action came from.
#[derive(Debug, Clone, Copy, PartialEq, Eq, Structural)]
pub enum NavSource {
    Keyboard,
    Pad,
}

/// A system verb as mapped from keys or drum pads.
#[derive(Debug, Clone, Copy, PartialEq, Eq, Structural)]
pub enum SystemVerb {
    NavigateUp,
    NavigateDown,
    Decrease,
    Increase,
    Confirm,
    Back,
    Pause,
    Restart,
}

/// One navigation verb from the keyboard or a pad; `coarse` (Shift held)
/// multiplies keyboard steps.
#[derive(Debug, Clone, Copy, PartialEq, Eq, Structural)]
pub struct NavAction {
    pub verb: SystemVerb,
    pub source: NavSource,
    pub coarse: bool,
}

/// The Customize surface's tabs.
#[derive(Debug, Clone, Copy, PartialEq, Eq, Structural)]
pub enum CustomizeTab {
    Gameplay,
    Audio,
    Drums,
    System,
    Controls,
    Bindings,
    Lanes,
    Widgets,
}

/// The settings tabs: their content is a list of settings rows.
pub open spec fn settings_tab(t: CustomizeTab) -> bool {
    t == CustomizeTab::Gameplay || t == CustomizeTab::Audio || t == CustomizeTab::Drums
        || t == CustomizeTab::System
}

impl CustomizeTab {
    /// Tabs whose content is a list of settings rows (the others host their
    /// own panels).
    pub fn is_settings(self) -> (b: bool)
        ensures
            b == settings_tab(self),
    {
        match self {
            CustomizeTab::Gameplay | CustomizeTab::Audio | CustomizeTab::Drums | CustomizeTab::System => true,
            _ => false,
        }
    }
}

} // verus!
