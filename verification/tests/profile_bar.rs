use std::cell::Cell;

use lib::editor::profile_bar::{
    overflow_actions, profile_bar_items, run_transaction, save_enabled, ProfileBarAction,
    ProfileUiError, TransactionGate,
};
use lib::editor::profile_state::{ProfileDraft, ProfileError, ProfileKind, TransactionResult};

/// A stand-in registry: active profile and the user profile names.
#[derive(Debug, Clone, PartialEq)]
struct Registry {
    active: String,
    profiles: Vec<String>,
}

fn user_registry(names: &[&str]) -> Registry {
    Registry {
        active: "DTXMania default".to_owned(),
        profiles: names.iter().map(|n| (*n).to_owned()).collect(),
    }
}

#[test]
fn profile_bar_groups_builtins_before_users() {
    let items = profile_bar_items(&["DTXMania default"], &["Desk", "Travel"], "Desk");
    assert_eq!(
        items
            .iter()
            .map(|item| (item.name.as_str(), item.builtin, item.selected))
            .collect::<Vec<_>>(),
        vec![
            ("DTXMania default", true, false),
            ("Desk", false, true),
            ("Travel", false, false),
        ]
    );
}

#[test]
fn builtin_overflow_only_offers_save_as() {
    assert_eq!(overflow_actions(true), vec![ProfileBarAction::SaveAs]);
    assert!(!save_enabled(true, true));
}

#[test]
fn user_overflow_offers_rename_revert_delete() {
    assert_eq!(
        overflow_actions(false),
        vec![ProfileBarAction::Rename, ProfileBarAction::Revert, ProfileBarAction::Delete]
    );
    assert!(save_enabled(false, true));
    assert!(!save_enabled(false, false));
}

#[test]
fn transaction_failure_keeps_draft_and_active_selection() {
    let registry = user_registry(&["Desk"]);
    let mut gate = TransactionGate::default();
    let draft = ProfileDraft::clean("Desk", 0u32);
    let result = run_transaction(
        &mut gate,
        &registry,
        ProfileKind::Keyboard,
        "keyboard-profiles.toml",
        || unreachable!("no reload needed on first write"),
        |canonical: &Registry| {
            let mut next = canonical.clone();
            next.active = "DTXMania default".to_owned();
            Ok((next, ProfileDraft::clean("DTXMania default", 0u32)))
        },
        |_| Err("disk full".to_owned()),
    );
    let TransactionResult::<_, u32>::Failed(error) = result else {
        panic!("write failure must fail the transaction");
    };
    assert_eq!(error.kind, ProfileKind::Keyboard);
    assert!(error.message.contains("disk full"));
    assert!(error.message.contains("keyboard-profiles.toml"));
    assert!(gate.needs_reload);
    assert_eq!(registry.active, "DTXMania default");
    assert_eq!(draft.selected, "Desk");
}

#[test]
fn transaction_error_contains_path_and_cause() {
    let error = ProfileError {
        kind: ProfileKind::Midi,
        message: "midi-profiles.toml: disk full".to_owned(),
    };
    let ui = ProfileUiError::from_error(&error, "/cfg/midi-profiles.toml");
    assert_eq!(ui.kind, ProfileKind::Midi);
    assert_eq!(ui.path, "/cfg/midi-profiles.toml");
    assert!(ui.message.contains("disk full"));
}

#[test]
fn canonical_reread_blocks_write_after_external_corruption() {
    let registry = user_registry(&["Desk"]);
    let mut gate = TransactionGate { needs_reload: true };
    let result: TransactionResult<_, u32> = run_transaction(
        &mut gate,
        &registry,
        ProfileKind::Keyboard,
        "keyboard-profiles.toml",
        || Err("registry is malformed".to_owned()),
        |_: &Registry| unreachable!("must not build on a failed reload"),
        |_| unreachable!("must not write after a failed reload"),
    );
    let TransactionResult::Failed(error) = result else {
        panic!("malformed canonical registry must abort the write");
    };
    assert!(error.message.contains("malformed"));
    assert!(gate.needs_reload, "gate stays armed until a clean reload");
}

#[test]
fn next_write_reloads_after_failure() {
    let registry = user_registry(&["Desk"]);
    let mut gate = TransactionGate { needs_reload: true };
    let reloaded = Cell::new(false);
    let result = run_transaction(
        &mut gate,
        &registry,
        ProfileKind::Keyboard,
        "keyboard-profiles.toml",
        || {
            reloaded.set(true);
            Ok(user_registry(&["Desk", "AddedElsewhere"]))
        },
        |canonical: &Registry| {
            assert!(
                canonical.profiles.iter().any(|p| p == "AddedElsewhere"),
                "transaction must build on the reloaded canonical registry"
            );
            Ok((canonical.clone(), ProfileDraft::clean("Desk", 0u32)))
        },
        |_| Ok(()),
    );
    assert!(reloaded.get());
    assert!(matches!(result, TransactionResult::Committed { .. }));
    assert!(!gate.needs_reload);
}

#[test]
fn failure_messages_put_path_before_cause() {
    let registry = user_registry(&[]);
    let mut gate = TransactionGate { needs_reload: true };
    let result: TransactionResult<Registry, u32> = run_transaction(
        &mut gate,
        &registry,
        ProfileKind::Lanes,
        "lanes.toml",
        || Err("bad".to_owned()),
        |_: &Registry| unreachable!(),
        |_| unreachable!(),
    );
    let TransactionResult::Failed(error) = result else { panic!("must fail") };
    assert_eq!(error.message, "lanes.toml: reload failed: bad");
    assert_eq!(error.kind, ProfileKind::Lanes);

    let mut gate = TransactionGate::default();
    let result: TransactionResult<Registry, u32> = run_transaction(
        &mut gate,
        &registry,
        ProfileKind::Midi,
        "midi.toml",
        || unreachable!(),
        |_: &Registry| Err("name taken".to_owned()),
        |_| unreachable!(),
    );
    let TransactionResult::Failed(error) = result else { panic!("must fail") };
    assert_eq!(error.message, "midi.toml: name taken");
    assert!(!gate.needs_reload, "an error from the next-registry step needs no reload");
}

#[test]
fn committed_transaction_returns_the_next_registry_and_draft() {
    let registry = user_registry(&["Desk"]);
    let mut gate = TransactionGate::default();
    let result = run_transaction(
        &mut gate,
        &registry,
        ProfileKind::Keyboard,
        "k.toml",
        || unreachable!(),
        |canonical: &Registry| {
            let mut next = canonical.clone();
            next.profiles.push("Stage".to_owned());
            Ok((next, ProfileDraft::clean("Stage", 7u32)))
        },
        |_| Ok(()),
    );
    let TransactionResult::Committed { registry: next, draft } = result else {
        panic!("must commit")
    };
    assert_eq!(next.profiles, vec!["Desk".to_owned(), "Stage".to_owned()]);
    assert_eq!(draft.selected, "Stage");
    assert_eq!(draft.value, 7);
}

#[test]
fn no_item_selected_when_selection_is_unknown() {
    let items = profile_bar_items(&["A"], &["B"], "C");
    assert!(items.iter().all(|i| !i.selected));
    assert_eq!(items.len(), 2);
}

#[test]
fn transaction_runs_each_stage_only_when_its_turn_comes() {
    let registry = user_registry(&["Desk"]);
    // A refused build writes nothing.
    let mut gate = TransactionGate::default();
    let result: TransactionResult<Registry, u32> = run_transaction(
        &mut gate,
        &registry,
        ProfileKind::Midi,
        "midi-profiles.toml",
        || unreachable!("no reload pending"),
        |_| Err("name taken".to_owned()),
        |_| unreachable!("nothing to write after a refused build"),
    );
    assert!(matches!(result, TransactionResult::Failed(_)));
    assert!(!gate.needs_reload);

    // A pending reload runs once, and build_next sees the reloaded registry.
    let mut gate = TransactionGate { needs_reload: true };
    let reloads = Cell::new(0);
    let writes = Cell::new(0);
    let result: TransactionResult<Registry, u32> = run_transaction(
        &mut gate,
        &registry,
        ProfileKind::Midi,
        "midi-profiles.toml",
        || {
            reloads.set(reloads.get() + 1);
            Ok(user_registry(&["Fresh"]))
        },
        |canonical: &Registry| {
            assert_eq!(canonical.profiles, vec!["Fresh".to_owned()]);
            Ok((canonical.clone(), ProfileDraft::clean("Fresh", 1u32)))
        },
        |written: &Registry| {
            writes.set(writes.get() + 1);
            assert_eq!(written.profiles, vec!["Fresh".to_owned()]);
            Ok(())
        },
    );
    assert!(matches!(result, TransactionResult::Committed { .. }));
    assert_eq!((reloads.get(), writes.get()), (1, 1));
    assert!(!gate.needs_reload);
}
