use lib::editor::controls_panel::ControlsSegment;
use lib::editor::nav::CustomizeTab;
use lib::editor::profile_bar_ui::{bar_kind, dirty_decision_for, lane_effect_plan, LaneEffectPlan};
use lib::editor::profile_state::{CloseDecision, DirtyDecision, DraftEffect, ProfileDraft, ProfileKind, ProfileName};
use lib::editor::LaneRegAction;

#[test]
fn bar_kind_follows_tab_and_segment() {
    assert_eq!(bar_kind(CustomizeTab::Controls, ControlsSegment::Keyboard), Some(ProfileKind::Keyboard));
    assert_eq!(bar_kind(CustomizeTab::Controls, ControlsSegment::Midi), Some(ProfileKind::Midi));
    assert_eq!(bar_kind(CustomizeTab::Lanes, ControlsSegment::Keyboard), Some(ProfileKind::Lanes));
    assert_eq!(bar_kind(CustomizeTab::Widgets, ControlsSegment::Keyboard), None);
}

#[test]
fn save_on_a_builtin_becomes_save_as_under_the_auto_name() {
    let name = ProfileName {
        name: "Classic (copy)".to_owned(),
    };
    assert_eq!(
        dirty_decision_for(CloseDecision::SaveAll, true, Ok(name.clone())),
        Ok(DirtyDecision::SaveAs(name.clone()))
    );
    assert_eq!(dirty_decision_for(CloseDecision::SaveAll, false, Ok(name.clone())), Ok(DirtyDecision::Save));
    assert_eq!(
        dirty_decision_for(CloseDecision::SaveAll, true, Err("name taken".to_owned())),
        Err("name taken".to_owned())
    );
    assert_eq!(
        dirty_decision_for(CloseDecision::DiscardAll, true, Err("unused".to_owned())),
        Ok(DirtyDecision::Discard)
    );
    assert_eq!(dirty_decision_for(CloseDecision::Cancel, false, Ok(name)), Ok(DirtyDecision::Cancel));
}

fn draft() -> ProfileDraft<u32> {
    ProfileDraft {
        selected: "Desk".to_owned(),
        saved: 1,
        value: 2,
    }
}

#[test]
fn lane_effects_become_one_registry_transaction() {
    assert!(matches!(lane_effect_plan(DraftEffect::Noop, &draft()), LaneEffectPlan::Unchanged));
    match lane_effect_plan(DraftEffect::ResetDraft, &draft()) {
        LaneEffectPlan::Reset(d) => {
            assert_eq!(d.selected, "Desk");
            assert_eq!((d.saved, d.value), (1, 1));
        }
        _ => panic!("reset"),
    }
    let effect = DraftEffect::Transaction {
        save: Some(("Desk".to_owned(), 2)),
        select: Some("Studio".to_owned()),
    };
    match lane_effect_plan(effect, &draft()) {
        LaneEffectPlan::Commit(actions) => {
            assert_eq!(actions.len(), 2);
            assert!(matches!(actions[0], LaneRegAction::Save(2)));
            assert!(matches!(&actions[1], LaneRegAction::Select(t) if t == "Studio"));
        }
        _ => panic!("commit"),
    }
    let save_as = DraftEffect::Transaction {
        save: Some(("Desk copy".to_owned(), 2)),
        select: None,
    };
    match lane_effect_plan(save_as, &draft()) {
        LaneEffectPlan::Commit(actions) => {
            assert_eq!(actions.len(), 1);
            assert!(matches!(&actions[0], LaneRegAction::SaveAs { name, value: 2 } if name == "Desk copy"));
        }
        _ => panic!("commit"),
    }
}
