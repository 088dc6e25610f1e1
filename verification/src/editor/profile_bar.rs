//! Shared profile bar model and transactional action path.
//!
//! One reusable model serves the Keyboard, MIDI, and Lanes surfaces:
//! `[ Profile name v ] [ Save ] [ Save as... ] [ ... ]`. Every action runs a
//! cloned-registry transaction: build the complete next registry, write it
//! atomically, then update runtime state. A failed write leaves the prior
//! file, selection, and draft untouched and forces a canonical re-read
//! before the next write.
//!
//! File paths are carried as their display text.

use vstd::prelude::*;

use crate::editor::profile_state::{ProfileDraft, ProfileError, ProfileKind, TransactionResult};

verus! {

/// An action requested from the shared profile bar.
#[derive(Debug, Clone, PartialEq)]
pub enum ProfileBarAction {
    Select(String),
    Save,
    SaveAs,
    Rename,
    Revert,
    Delete,
}

/// A transaction failure surfaced to the UI with its file path and cause.
#[derive(Debug, Clone, PartialEq)]
pub struct ProfileUiError {
    pub kind: ProfileKind,
    pub path: String,
    pub message: String,
}

impl ProfileUiError {
    /// Pair a transaction failure with the canonical registry path so the UI
    /// always shows profile kind, file, and full cause.
    pub fn from_error(error: &ProfileError, path: &str) -> (e: Self)
        ensures
            e.kind == error.kind,
            e.path@ == path@,
            e.message@ == error.message@,
    {
        ProfileUiError { kind: error.kind, path: path.to_owned(), message: error.message.clone() }
    }
}

/// One selector entry.
#[derive(Debug, Clone, PartialEq)]
pub struct ProfileBarItem {
    pub name: String,
    pub builtin: bool,
    pub selected: bool,
}

/// Whether two texts are equal.
fn same_text(a: &str, b: &str) -> (r: bool)
    ensures
        r == (a@ == b@),
{
    a.to_owned() == b.to_owned()
}

/// Item `item` lists `name` with the given built-in flag and the selection mark.
pub open spec fn item_is(item: ProfileBarItem, name: Seq<char>, builtin: bool, selected: Seq<char>) -> bool {
    &&& item.name@ == name
    &&& item.builtin == builtin
    &&& item.selected == (name == selected)
}

/// Selector list: built-ins first (given order), then user profiles in
/// registry order, with the current selection marked.
pub fn profile_bar_items(builtins: &[&str], users: &[&str], selected: &str) -> (items: Vec<ProfileBarItem>)
    ensures
        items@.len() == builtins@.len() + users@.len(),
        forall|i: int| 0 <= i < builtins@.len() ==> item_is(#[trigger] items@[i], builtins@[i]@, true, selected@),
        forall|i: int| 0 <= i < users@.len() ==> item_is(#[trigger] items@[builtins@.len() + i], users@[i]@, false, selected@),
{
    let mut items: Vec<ProfileBarItem> = Vec::new();
    let nb = builtins.len();
    for k in 0..nb
        invariant
            nb == builtins@.len(),
            items@.len() == k,
            forall|i: int| 0 <= i < k ==> item_is(#[trigger] items@[i], builtins@[i]@, true, selected@),
    {
        let name = builtins[k];
        items.push(ProfileBarItem { name: name.to_owned(), builtin: true, selected: same_text(name, selected) });
    }
    let nu = users.len();
    for k in 0..nu
        invariant
            nb == builtins@.len(),
            nu == users@.len(),
            items@.len() == nb + k,
            forall|i: int| 0 <= i < nb ==> item_is(#[trigger] items@[i], builtins@[i]@, true, selected@),
            forall|i: int| 0 <= i < k ==> item_is(#[trigger] items@[nb + i], users@[i]@, false, selected@),
    {
        let name = users[k];
        items.push(ProfileBarItem { name: name.to_owned(), builtin: false, selected: same_text(name, selected) });
        assert(items@[nb + k as int] == items@.last());
    }
    items
}

/// The overflow menu of a built-in or a user profile.
pub open spec fn spec_overflow_actions(builtin_selected: bool) -> Seq<ProfileBarAction> {
    if builtin_selected {
        seq![ProfileBarAction::SaveAs]
    } else {
        seq![ProfileBarAction::Rename, ProfileBarAction::Revert, ProfileBarAction::Delete]
    }
}

/// Overflow menu contents: built-ins only offer Save As; user profiles get
/// Rename, Revert, Delete.
pub fn overflow_actions(builtin_selected: bool) -> (actions: Vec<ProfileBarAction>)
    ensures
        actions@ == spec_overflow_actions(builtin_selected),
{
    let actions = if builtin_selected {
        vec![ProfileBarAction::SaveAs]
    } else {
        vec![ProfileBarAction::Rename, ProfileBarAction::Revert, ProfileBarAction::Delete]
    };
    assert(actions@ =~= spec_overflow_actions(builtin_selected));
    actions
}

/// Save is enabled only for a dirty draft on a user profile.
pub fn save_enabled(builtin_selected: bool, dirty: bool) -> (b: bool)
    ensures
        b == (dirty && !builtin_selected),
{
    dirty && !builtin_selected
}

/// Per-kind transaction gate. After a failed write the canonical registry
/// must be re-read before the next write so a stale in-memory registry can
/// never clobber on-disk state that changed underneath the failure.
#[derive(Debug, Clone, Copy, PartialEq, Eq, Structural)]
pub struct TransactionGate {
    pub needs_reload: bool,
}

impl Default for TransactionGate {
    fn default() -> (g: Self)
        ensures
            !g.needs_reload,
    {
        TransactionGate { needs_reload: false }
    }
}

/// A failure message: the path, a separator, then the cause.
pub open spec fn failure_text(path: Seq<char>, cause: Seq<char>) -> Seq<char> {
    path + ": "@ + cause
}

/// A failure message for a failed re-read of the canonical registry.
pub open spec fn reload_failure_text(path: Seq<char>, cause: Seq<char>) -> Seq<char> {
    path + ": reload failed: "@ + cause
}

fn failure_message(path: &str, sep: &str, cause: &String) -> (m: String)
    ensures
        m@ == path@ + sep@ + cause@,
{
    let mut m = path.to_owned();
    m.append(sep);
    m.append(cause.as_str());
    m
}

/// The registry a transaction starts from. With `needs_reload` it is the
/// value `reload` returned; otherwise it is a clone of `registry`.
pub open spec fn canonical_from<R: Clone, F1: FnOnce() -> Result<R, String>>(
    needs_reload: bool,
    registry: R,
    reload: F1,
    canonical: R,
) -> bool {
    if needs_reload {
        reload.ensures((), Ok::<R, String>(canonical))
    } else {
        cloned(registry, canonical)
    }
}

/// Run one profile transaction: optionally re-read the canonical registry
/// (after an earlier failure), build the complete next registry and draft,
/// write it, and report the outcome. All I/O comes in as closures.
///
/// Each closure is asked to accept only the calls it can get, so Verus
/// checks that no other call is made: `reload` runs only while a reload is
/// pending, `build_next` only on the canonical registry (the reloaded one,
/// or a clone of `registry`), and `write` only on a registry that
/// `build_next` returned from it; each runs at most once (`FnOnce`).
///
/// Whatever the closures return: a commit follows only a successful
/// write of exactly the next registry made from the canonical registry.
/// A commit resets `needs_reload`; a write error sets it; a reload error
/// or an error from `build_next` keeps it, with nothing written.
pub fn run_transaction<R: Clone, T: Clone + PartialEq, F1, F2, F3>(
    gate: &mut TransactionGate,
    registry: &R,
    kind: ProfileKind,
    path: &str,
    reload: F1,
    build_next: F2,
    write: F3,
) -> (res: TransactionResult<R, T>)
    where
        F1: FnOnce() -> Result<R, String>,
        F2: FnOnce(&R) -> Result<(R, ProfileDraft<T>), String>,
        F3: FnOnce(&R) -> Result<(), String>,
    requires
        old(gate).needs_reload ==> reload.requires(()),
        forall|c: R| #[trigger] canonical_from(old(gate).needs_reload, *registry, reload, c) ==> build_next.requires(
            (&c,),
        ),
        forall|c: R, next: R, draft: ProfileDraft<T>|
            canonical_from(old(gate).needs_reload, *registry, reload, c) && #[trigger] build_next.ensures(
                (&c,),
                Ok::<(R, ProfileDraft<T>), String>((next, draft)),
            ) ==> write.requires((&next,)),
    ensures
        !(res is Unchanged),
        res matches TransactionResult::Failed(e) ==> e.kind == kind,
        res matches TransactionResult::Committed { registry: next, draft } ==> {
            &&& !final(gate).needs_reload
            &&& exists|canonical: R| {
                &&& #[trigger] canonical_from(old(gate).needs_reload, *registry, reload, canonical)
                &&& build_next.ensures((&canonical,), Ok::<(R, ProfileDraft<T>), String>((next, draft)))
                &&& exists|w: Result<(), String>| #[trigger] write.ensures((&next,), w) && w is Ok
            }
        },
        res matches TransactionResult::Failed(e) ==> {
            ||| {
                &&& old(gate).needs_reload
                &&& final(gate).needs_reload
                &&& exists|m: String| #[trigger] reload.ensures((), Err::<R, String>(m))
                    && e.message@ == reload_failure_text(path@, m@)
            }
            ||| {
                &&& final(gate).needs_reload == old(gate).needs_reload
                &&& exists|canonical: R, m: String| {
                    &&& canonical_from(old(gate).needs_reload, *registry, reload, canonical)
                    &&& #[trigger] build_next.ensures((&canonical,), Err::<(R, ProfileDraft<T>), String>(m))
                    &&& e.message@ == failure_text(path@, m@)
                }
            }
            ||| {
                &&& final(gate).needs_reload
                &&& exists|canonical: R, next: R, draft: ProfileDraft<T>, m: String| {
                    &&& canonical_from(old(gate).needs_reload, *registry, reload, canonical)
                    &&& #[trigger] build_next.ensures((&canonical,), Ok::<(R, ProfileDraft<T>), String>((next, draft)))
                    &&& #[trigger] write.ensures((&next,), Err::<(), String>(m))
                    &&& e.message@ == failure_text(path@, m@)
                }
            }
        },
{
    let canonical: R = if gate.needs_reload {
        let loaded = reload();
        match loaded {
            Ok(fresh) => {
                assert(reload.ensures((), Ok::<R, String>(fresh)));
                fresh
            },
            Err(message) => {
                let e = ProfileError { kind, message: failure_message(path, ": reload failed: ", &message) };
                return TransactionResult::Failed(e);
            },
        }
    } else {
        let c = registry.clone();
        assert(cloned(*registry, c));
        c
    };
    assert(canonical_from(old(gate).needs_reload, *registry, reload, canonical));
    let built = build_next(&canonical);
    let (next_registry, next_draft) = match built {
        Ok(next) => next,
        Err(message) => {
            let e = ProfileError { kind, message: failure_message(path, ": ", &message) };
            return TransactionResult::Failed(e);
        },
    };
    assert(build_next.ensures((&canonical,), Ok::<(R, ProfileDraft<T>), String>((next_registry, next_draft))));
    let written = write(&next_registry);
    match written {
        Ok(()) => {
            assert(build_next.ensures((&canonical,), Ok::<(R, ProfileDraft<T>), String>((next_registry, next_draft))));
            assert(write.ensures((&next_registry,), written) && written is Ok);
            assert(canonical_from(old(gate).needs_reload, *registry, reload, canonical));
            assert(exists|c: R| {
                &&& #[trigger] canonical_from(old(gate).needs_reload, *registry, reload, c)
                &&& build_next.ensures((&c,), Ok::<(R, ProfileDraft<T>), String>((next_registry, next_draft)))
                &&& exists|w: Result<(), String>| #[trigger] write.ensures((&next_registry,), w) && w is Ok
            });
            gate.needs_reload = false;
            TransactionResult::Committed { registry: next_registry, draft: next_draft }
        },
        Err(message) => {
            gate.needs_reload = true;
            let e = ProfileError { kind, message: failure_message(path, ": ", &message) };
            TransactionResult::Failed(e)
        },
    }
}

} // verus!
