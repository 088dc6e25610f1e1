//! Which surface owns the profile bar, how a dirty-guard button becomes a
//! draft decision, and how a lane draft effect becomes one lane registry
//! transaction.

use vstd::prelude::*;

use crate::editor::controls_panel::ControlsSegment;
use crate::editor::nav::CustomizeTab;
use crate::editor::profile_state::{
    value_semantics, CloseDecision, DirtyDecision, DraftEffect, ProfileDraft, ProfileKind, ProfileName,
};
use crate::editor::LaneRegAction;

verus! {

/// The profile kind whose bar the surface shows: Controls shows the
/// active segment's kind, Lanes the lane profiles; other tabs have no bar.
pub fn bar_kind(tab: CustomizeTab, segment: ControlsSegment) -> (k: Option<ProfileKind>)
    ensures
        k == (if tab == CustomizeTab::Controls {
            Some(if segment == ControlsSegment::Keyboard { ProfileKind::Keyboard } else { ProfileKind::Midi })
        } else if tab == CustomizeTab::Lanes {
            Some(ProfileKind::Lanes)
        } else {
            None
        }),
{
    match tab {
        CustomizeTab::Controls => Some(
            match segment {
                ControlsSegment::Keyboard => ProfileKind::Keyboard,
                ControlsSegment::Midi => ProfileKind::Midi,
            },
        ),
        CustomizeTab::Lanes => Some(ProfileKind::Lanes),
        _ => None,
    }
}

/// The draft decision a dirty-guard button stands for. Save on a built-in
/// selection becomes Save As under the automatically suggested name
/// (`auto_name`, or why none could be made), mirroring the close guard:
/// Save As on a built-in never waits for typing.
pub fn dirty_decision_for(
    decision: CloseDecision,
    builtin_selected: bool,
    auto_name: Result<ProfileName, String>,
) -> (r: Result<DirtyDecision, String>)
    ensures
        decision == CloseDecision::Cancel ==> r == Ok::<DirtyDecision, String>(DirtyDecision::Cancel),
        decision == CloseDecision::DiscardAll ==> r == Ok::<DirtyDecision, String>(DirtyDecision::Discard),
        decision == CloseDecision::SaveAll && !builtin_selected ==> r == Ok::<DirtyDecision, String>(
            DirtyDecision::Save,
        ),
        decision == CloseDecision::SaveAll && builtin_selected ==> match auto_name {
            Ok(name) => r == Ok::<DirtyDecision, String>(DirtyDecision::SaveAs(name)),
            Err(e) => r == Err::<DirtyDecision, String>(e),
        },
{
    match decision {
        CloseDecision::Cancel => Ok(DirtyDecision::Cancel),
        CloseDecision::DiscardAll => Ok(DirtyDecision::Discard),
        CloseDecision::SaveAll => {
            if builtin_selected {
                match auto_name {
                    Ok(name) => Ok(DirtyDecision::SaveAs(name)),
                    Err(e) => Err(e),
                }
            } else {
                Ok(DirtyDecision::Save)
            }
        },
    }
}

/// What a lane draft effect asks of the lane registry.
pub enum LaneEffectPlan<P> {
    /// No write and no draft change.
    Unchanged,
    /// No write; the draft becomes this one (its saved value restored).
    Reset(ProfileDraft<P>),
    /// One registry transaction made of these actions, in order.
    Commit(Vec<LaneRegAction<P>>),
}

/// The lane registry actions of a transaction effect: the optional save
/// (a Save under the draft's own name, else a Save As), then the optional
/// selection.
pub open spec fn spec_effect_actions<P>(
    draft_name: Seq<char>,
    save: Option<(String, P)>,
    select: Option<String>,
    actions: Seq<LaneRegAction<P>>,
) -> bool {
    let n_save: int = if save is Some { 1 } else { 0 };
    &&& actions.len() == n_save + if select is Some { 1int } else { 0int }
    &&& save matches Some(sv) ==> if sv.0@ == draft_name {
        actions[0] == LaneRegAction::<P>::Save(sv.1)
    } else {
        actions[0] matches LaneRegAction::SaveAs { name, value } && name@ == sv.0@ && value == sv.1
    }
    &&& select matches Some(t) ==> actions[n_save] matches LaneRegAction::Select(name) && name@ == t@
}

/// Turn a lane draft effect into its registry plan: nothing, a reset of the
/// working value back to the saved one, or one transaction.
pub fn lane_effect_plan<P: Clone + PartialEq>(effect: DraftEffect<P>, draft: &ProfileDraft<P>) -> (plan: LaneEffectPlan<P>)
    requires
        value_semantics::<P>(),
    ensures
        effect is Noop ==> plan is Unchanged,
        effect is ResetDraft ==> (plan matches LaneEffectPlan::Reset(d) && d.selected@ == draft.selected@
            && d.saved == draft.saved && d.value == draft.saved),
        effect matches DraftEffect::Transaction { save, select } ==> (plan matches LaneEffectPlan::Commit(actions)
            && spec_effect_actions(draft.selected@, save, select, actions@)),
{
    match effect {
        DraftEffect::Noop => LaneEffectPlan::Unchanged,
        DraftEffect::ResetDraft => {
            let saved = draft.saved.clone();
            assert(cloned(draft.saved, saved));
            LaneEffectPlan::Reset(ProfileDraft::clean(draft.selected.as_str(), saved))
        },
        DraftEffect::Transaction { save, select } => {
            let ghost save0 = save;
            let ghost select0 = select;
            let mut actions: Vec<LaneRegAction<P>> = Vec::new();
            match save {
                Some((name, value)) => {
                    if name == draft.selected {
                        actions.push(LaneRegAction::Save(value));
                    } else {
                        actions.push(LaneRegAction::SaveAs { name, value });
                    }
                },
                None => {},
            }
            match select {
                Some(target) => actions.push(LaneRegAction::Select(target)),
                None => {},
            }
            proof {
                assert(spec_effect_actions(draft.selected@, save0, select0, actions@));
            }
            LaneEffectPlan::Commit(actions)
        },
    }
}

} // verus!
