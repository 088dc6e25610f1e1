//! UI-independent draft and transaction reducers for profile editing.
//!
//! Every profile action is a cloned-registry transaction: reducers describe
//! the complete next write, callers perform it, and runtime state changes
//! only after the write succeeds.
//!
//! Profile values are generic. The reducers compare them with `==` and copy
//! them with `clone`; their contracts speak of value types for which `==`
//! is equality and `clone` is a copy (`value_semantics`), as derived
//! `PartialEq` and `Clone` on plain data are.

use vstd::prelude::*;
use vstd::std_specs::cmp::PartialEqSpec;

verus! {

/// `==` on `T` is equality and `clone` on `T` copies.
pub open spec fn value_semantics<T: Clone + PartialEq>() -> bool {
    &&& T::obeys_eq_spec()
    &&& forall|a: T, b: T| #[trigger] a.eq_spec(&b) <==> (a == b)
    &&& forall|a: T, b: T| #[trigger] cloned(a, b) ==> (a == b)
}

/// One editable profile draft: the selected registry entry, its last saved
/// value, and the in-memory working value.
#[derive(Debug, Clone, PartialEq)]
pub struct ProfileDraft<T> {
    pub selected: String,
    pub saved: T,
    pub value: T,
}

/// A draft differs from its last saved value.
pub open spec fn draft_dirty<T>(d: ProfileDraft<T>) -> bool {
    d.saved != d.value
}

/// `d2` is `d` after a successful save of the working value.
pub open spec fn draft_saved_now<T>(d: ProfileDraft<T>, d2: ProfileDraft<T>) -> bool {
    &&& d2.selected@ == d.selected@
    &&& d2.saved == d.value
    &&& d2.value == d.value
}

/// `d2` is `d` with its working value discarded back to the saved value.
pub open spec fn draft_reset<T>(d: ProfileDraft<T>, d2: ProfileDraft<T>) -> bool {
    &&& d2.selected@ == d.selected@
    &&& d2.saved == d.saved
    &&& d2.value == d.saved
}

impl<T: Clone + PartialEq> ProfileDraft<T> {
    /// A clean draft of `value` under the name `selected`.
    pub fn clean(selected: &str, value: T) -> (d: Self)
        requires
            value_semantics::<T>(),
        ensures
            d.selected@ == selected@,
            d.saved == value,
            d.value == value,
            !draft_dirty(d),
    {
        let saved = value.clone();
        assert(cloned(value, saved));
        ProfileDraft { selected: selected.to_owned(), saved, value }
    }

    /// Whether the working value differs from the last saved value.
    pub fn is_dirty(&self) -> (b: bool)
        requires
            value_semantics::<T>(),
        ensures
            b == draft_dirty(*self),
    {
        !(self.saved == self.value)
    }

    /// Draft state after a successful save of the working value.
    pub fn saved_now(&self) -> (d: Self)
        requires
            value_semantics::<T>(),
        ensures
            draft_saved_now(*self, d),
            !draft_dirty(d),
    {
        let selected = self.selected.clone();
        let saved = self.value.clone();
        assert(cloned(self.value, saved));
        let value = self.value.clone();
        assert(cloned(self.value, value));
        ProfileDraft { selected, saved, value }
    }
}

/// A validated profile name.
#[derive(Debug, Clone, PartialEq)]
pub struct ProfileName {
    pub name: String,
}

impl ProfileName {
    /// The name's text.
    pub fn as_str(&self) -> (s: &str)
        ensures
            s@ == self.name@,
    {
        self.name.as_str()
    }
}

/// The user's answer to a dirty-draft prompt (`Cancel | Discard | Save`).
#[derive(Debug, Clone, PartialEq)]
pub enum DirtyDecision {
    Save,
    SaveAs(ProfileName),
    Discard,
    Cancel,
}

/// The action that raised the dirty prompt and resumes once decided.
#[derive(Debug, Clone, PartialEq)]
pub enum PendingProfileAction {
    Select(String),
    Revert,
    CloseCustomize,
    ExitApp,
}

/// The kinds of profile the Customize surface edits.
#[derive(Debug, Clone, Copy, PartialEq, Eq, Structural)]
pub enum ProfileKind {
    Keyboard,
    Midi,
    Lanes,
    Settings,
}

/// All Customize profile drafts (keyboard, MIDI and lane profiles). Tab
/// and segment navigation never touches this; only decided profile
/// actions do.
#[derive(Debug, Clone, PartialEq)]
pub struct ProfileSession<K, M, L> {
    pub keyboard: ProfileDraft<K>,
    pub midi: ProfileDraft<M>,
    pub lanes: ProfileDraft<L>,
}

/// The drafts of a session are of value types.
pub open spec fn session_values<K: Clone + PartialEq, M: Clone + PartialEq, L: Clone + PartialEq>() -> bool {
    value_semantics::<K>() && value_semantics::<M>() && value_semantics::<L>()
}

/// The dirty kinds of a session, in Keyboard, Midi, Lanes order.
pub open spec fn spec_dirty_kinds<K, M, L>(s: ProfileSession<K, M, L>) -> Seq<ProfileKind> {
    (if draft_dirty(s.keyboard) { seq![ProfileKind::Keyboard] } else { Seq::empty() })
        + (if draft_dirty(s.midi) { seq![ProfileKind::Midi] } else { Seq::empty() })
        + (if draft_dirty(s.lanes) { seq![ProfileKind::Lanes] } else { Seq::empty() })
}

/// The profile kinds whose drafts are dirty.
pub fn dirty_profile_kinds<K: Clone + PartialEq, M: Clone + PartialEq, L: Clone + PartialEq>(
    session: &ProfileSession<K, M, L>,
) -> (kinds: Vec<ProfileKind>)
    requires
        session_values::<K, M, L>(),
    ensures
        kinds@ == spec_dirty_kinds(*session),
{
    let mut kinds: Vec<ProfileKind> = Vec::new();
    if session.keyboard.is_dirty() {
        kinds.push(ProfileKind::Keyboard);
    }
    if session.midi.is_dirty() {
        kinds.push(ProfileKind::Midi);
    }
    if session.lanes.is_dirty() {
        kinds.push(ProfileKind::Lanes);
    }
    assert(kinds@ =~= spec_dirty_kinds(*session));
    kinds
}

/// A failed profile transaction, reported with enough context for the UI.
#[derive(Debug, Clone, PartialEq)]
pub struct ProfileError {
    pub kind: ProfileKind,
    pub message: String,
}

/// Per-kind registry health derived from startup. A registry that could not
/// be read or validated runs read-only on built-ins: every profile mutation
/// is disabled until the user confirms a backup-and-reset.
#[derive(Debug, Clone, PartialEq)]
pub struct RegistryHealth {
    /// Registry unusable: show built-ins, disable all profile mutation.
    pub read_only: bool,
    /// Human-readable load error for the recovery dialog.
    pub error: Option<String>,
}

impl Default for RegistryHealth {
    fn default() -> (h: Self)
        ensures
            !h.read_only,
            h.error is None,
    {
        RegistryHealth { read_only: false, error: None }
    }
}

impl RegistryHealth {
    /// A read-only registry with its load error.
    pub fn read_only(error: &str) -> (h: Self)
        ensures
            h.read_only,
            h.error matches Some(e) && e@ == error@,
    {
        RegistryHealth { read_only: true, error: Some(error.to_owned()) }
    }

    /// Whether profile mutations are allowed.
    pub fn mutation_allowed(&self) -> (b: bool)
        ensures
            b == !self.read_only,
    {
        !self.read_only
    }
}

/// Outcome of one committed-or-not registry transaction.
#[derive(Debug)]
pub enum TransactionResult<R, T> {
    Committed { registry: R, draft: ProfileDraft<T> },
    Unchanged,
    Failed(ProfileError),
}

/// The single registry write a reducer decided on. `save` persists profile
/// data under a name; `select` changes the active profile in the same write.
#[derive(Debug, Clone, PartialEq)]
pub enum DraftEffect<T> {
    /// No write and no draft mutation (Cancel, or nothing to do).
    Noop,
    /// Discard the working value back to the last saved value; no write.
    ResetDraft,
    /// One registry write combining an optional save and an optional
    /// selection change.
    Transaction { save: Option<(String, T)>, select: Option<String> },
}

/// Reducer refusals.
#[derive(Debug, Clone, PartialEq, Eq, Structural)]
pub enum ProfileStateError {
    BuiltInRequiresSaveAs,
}

impl ProfileStateError {
    /// The user-facing text of the refusal.
    pub fn message(&self) -> (s: &'static str)
        ensures
            s@ == "built-in profiles are immutable; use Save As"@,
    {
        "built-in profiles are immutable; use Save As"
    }
}

/// The name a pending action selects, if it is a selection.
pub open spec fn action_target(action: PendingProfileAction) -> Option<Seq<char>> {
    match action {
        PendingProfileAction::Select(t) => Some(t@),
        _ => None,
    }
}

/// An optional string carrying the given text.
pub open spec fn opt_text(o: Option<String>, t: Option<Seq<char>>) -> bool {
    match (o, t) {
        (Some(s), Some(u)) => s@ == u,
        (None, None) => true,
        _ => false,
    }
}

/// The effect `e` is a transaction that saves nothing and selects `t`.
pub open spec fn is_select_only<T>(e: DraftEffect<T>, t: Option<Seq<char>>) -> bool {
    e matches DraftEffect::Transaction { save: None, select } && opt_text(select, t)
}

/// The effect `e` is a transaction that saves `value` as `name` and selects `t`.
pub open spec fn is_save_then_select<T>(e: DraftEffect<T>, name: Seq<char>, value: T, t: Option<Seq<char>>) -> bool {
    e matches DraftEffect::Transaction { save: Some(sv), select } && sv.0@ == name && sv.1 == value
        && opt_text(select, t)
}

/// What resolving `action` with `decision` on `draft` yields.
pub open spec fn spec_reduce_dirty_action<T>(
    draft: ProfileDraft<T>,
    builtin_selected: bool,
    action: PendingProfileAction,
    decision: DirtyDecision,
    r: Result<DraftEffect<T>, ProfileStateError>,
) -> bool {
    if !draft_dirty(draft) {
        match action_target(action) {
            Some(t) => r matches Ok(e) && is_select_only(e, Some(t)),
            None => r == Ok::<DraftEffect<T>, ProfileStateError>(DraftEffect::Noop),
        }
    } else {
        match decision {
            DirtyDecision::Cancel => r == Ok::<DraftEffect<T>, ProfileStateError>(DraftEffect::Noop),
            DirtyDecision::Discard => match action_target(action) {
                Some(t) => r matches Ok(e) && is_select_only(e, Some(t)),
                None => r == Ok::<DraftEffect<T>, ProfileStateError>(DraftEffect::ResetDraft),
            },
            DirtyDecision::Save => if builtin_selected {
                r == Err::<DraftEffect<T>, ProfileStateError>(ProfileStateError::BuiltInRequiresSaveAs)
            } else {
                r matches Ok(e) && is_save_then_select(e, draft.selected@, draft.value, action_target(action))
            },
            DirtyDecision::SaveAs(name) => r matches Ok(e) && is_save_then_select(
                e,
                name.name@,
                draft.value,
                match action_target(action) {
                    Some(t) => Some(t),
                    None => Some(name.name@),
                },
            ),
        }
    }
}

fn select_target(action: &PendingProfileAction) -> (o: Option<String>)
    ensures
        opt_text(o, action_target(*action)),
{
    match action {
        PendingProfileAction::Select(target) => Some(target.clone()),
        _ => None,
    }
}

/// Resolve a pending action against a draft. `builtin_selected` marks the
/// draft's selected profile as an immutable built-in.
///
/// `Save`/`SaveAs` always persist the working value, `Discard` always drops
/// it, `Cancel` always aborts the pending action. `Save` during a `Revert`
/// prompt means "keep my changes instead". Never destroys unsaved work
/// without an explicit `Discard`.
pub fn reduce_dirty_action<T: Clone + PartialEq>(
    draft: &ProfileDraft<T>,
    builtin_selected: bool,
    action: &PendingProfileAction,
    decision: DirtyDecision,
) -> (r: Result<DraftEffect<T>, ProfileStateError>)
    requires
        value_semantics::<T>(),
    ensures
        spec_reduce_dirty_action(*draft, builtin_selected, *action, decision, r),
{
    if !draft.is_dirty() {
        return Ok(match action {
            PendingProfileAction::Select(target) => DraftEffect::Transaction {
                save: None,
                select: Some(target.clone()),
            },
            _ => DraftEffect::Noop,
        });
    }
    Ok(match decision {
        DirtyDecision::Cancel => DraftEffect::Noop,
        DirtyDecision::Discard => match action {
            PendingProfileAction::Select(target) => DraftEffect::Transaction {
                save: None,
                select: Some(target.clone()),
            },
            PendingProfileAction::Revert => DraftEffect::ResetDraft,
            PendingProfileAction::CloseCustomize | PendingProfileAction::ExitApp => {
                DraftEffect::ResetDraft
            },
        },
        DirtyDecision::Save => {
            if builtin_selected {
                return Err(ProfileStateError::BuiltInRequiresSaveAs);
            }
            let v = draft.value.clone();
            assert(cloned(draft.value, v));
            DraftEffect::Transaction {
                save: Some((draft.selected.clone(), v)),
                select: select_target(action),
            }
        },
        DirtyDecision::SaveAs(name) => {
            let name = name.as_str().to_owned();
            let select = match action {
                PendingProfileAction::Select(target) => Some(target.clone()),
                _ => Some(name.clone()),
            };
            let v = draft.value.clone();
            assert(cloned(draft.value, v));
            DraftEffect::Transaction { save: Some((name, v)), select }
        },
    })
}

/// Unsaved work is never dropped without an explicit Discard: whenever the
/// draft is dirty and the decision is not Discard, the effect is neither a
/// reset nor a selection that skips saving.
pub proof fn lemma_no_silent_discard<T>(
    draft: ProfileDraft<T>,
    builtin_selected: bool,
    action: PendingProfileAction,
    decision: DirtyDecision,
    r: Result<DraftEffect<T>, ProfileStateError>,
)
    requires
        spec_reduce_dirty_action(draft, builtin_selected, action, decision, r),
        draft_dirty(draft),
        !(decision is Discard),
    ensures
        r matches Ok(e) ==> !(e is ResetDraft) && !(e matches DraftEffect::Transaction { save: None, .. }),
        r matches Ok(DraftEffect::Transaction { save: Some(sv), .. }) ==> sv.1 == draft.value,
{
}

/// A built-in profile is never overwritten in place: with a built-in
/// selected, every save goes to a name chosen with Save As.
pub proof fn lemma_builtin_never_saved_in_place<T>(
    draft: ProfileDraft<T>,
    action: PendingProfileAction,
    decision: DirtyDecision,
    r: Result<DraftEffect<T>, ProfileStateError>,
)
    requires
        spec_reduce_dirty_action(draft, true, action, decision, r),
    ensures
        r matches Ok(DraftEffect::Transaction { save: Some(sv), .. }) ==> decision matches DirtyDecision::SaveAs(n) && sv.0@ == n.name@,
{
}

/// What a close request wants to close.
#[derive(Debug, Clone, Copy, PartialEq, Eq, Structural)]
pub enum CloseIntent {
    Customize,
    GracefulAppExit,
}

/// A close intercepted because drafts were dirty; the surface stays open
/// until the user decides.
#[derive(Debug, Clone, PartialEq)]
pub struct PendingClose {
    pub intent: CloseIntent,
    pub dirty: Vec<ProfileKind>,
}

/// Runtime holder for an intercepted close.
#[derive(Debug, Clone, PartialEq)]
pub enum PendingCloseState {
    Idle,
    Pending(PendingClose),
}

impl Default for PendingCloseState {
    fn default() -> (s: Self)
        ensures
            s is Idle,
    {
        PendingCloseState::Idle
    }
}

/// Whether the dirty-close guard dialog is NOT up.
pub fn pending_close_none(pending: &PendingCloseState) -> (b: bool)
    ensures
        b == (*pending is Idle),
{
    match pending {
        PendingCloseState::Idle => true,
        PendingCloseState::Pending(_) => false,
    }
}

/// The user's answer to the close guard.
#[derive(Debug, Clone, Copy, PartialEq, Eq, Structural)]
pub enum CloseDecision {
    Cancel,
    DiscardAll,
    SaveAll,
}

/// Whether a close may proceed immediately or must wait on a decision.
#[derive(Debug, Clone, PartialEq)]
pub enum CloseRequestOutcome {
    /// No dirty drafts: close now.
    Proceed,
    /// Dirty drafts: keep the surface open and raise the guard dialog.
    Guard(PendingClose),
}

/// The kinds a close request guards on.
pub open spec fn spec_close_dirty<K, M, L>(session: ProfileSession<K, M, L>, settings_dirty: bool) -> Seq<ProfileKind> {
    spec_dirty_kinds(session) + if settings_dirty { seq![ProfileKind::Settings] } else { Seq::empty() }
}

/// A close request's outcome: proceed when nothing is dirty, else guard
/// with the same intent and the dirty kinds.
pub open spec fn spec_close_outcome(intent: CloseIntent, dirty: Seq<ProfileKind>, o: CloseRequestOutcome) -> bool {
    if dirty.len() == 0 {
        o is Proceed
    } else {
        o matches CloseRequestOutcome::Guard(p) && p.intent == intent && p.dirty@ == dirty
    }
}

/// Intercept a close/exit request before the editor closes: any dirty draft
/// raises the guard instead of closing.
pub fn request_close<K: Clone + PartialEq, M: Clone + PartialEq, L: Clone + PartialEq>(
    intent: CloseIntent,
    session: &ProfileSession<K, M, L>,
) -> (o: CloseRequestOutcome)
    requires
        session_values::<K, M, L>(),
    ensures
        spec_close_outcome(intent, spec_close_dirty(*session, false), o),
{
    request_close_with_settings(intent, session, false)
}

/// As `request_close`, with dirty settings guarding too.
pub fn request_close_with_settings<K: Clone + PartialEq, M: Clone + PartialEq, L: Clone + PartialEq>(
    intent: CloseIntent,
    session: &ProfileSession<K, M, L>,
    settings_dirty: bool,
) -> (o: CloseRequestOutcome)
    requires
        session_values::<K, M, L>(),
    ensures
        spec_close_outcome(intent, spec_close_dirty(*session, settings_dirty), o),
{
    let mut dirty = dirty_profile_kinds(session);
    if settings_dirty {
        dirty.push(ProfileKind::Settings);
    }
    assert(dirty@ =~= spec_close_dirty(*session, settings_dirty));
    if dirty.len() == 0 {
        CloseRequestOutcome::Proceed
    } else {
        CloseRequestOutcome::Guard(PendingClose { intent, dirty })
    }
}

/// Result of applying a close decision.
#[derive(Debug, Clone, PartialEq)]
pub enum CloseOutcome {
    /// Guard dismissed; the surface stays open, drafts untouched.
    Cancelled,
    /// Close may finalize (drafts discarded or all saves succeeded).
    Close(CloseIntent),
    /// Some saves failed: dialog stays open listing the failed kinds,
    /// successful drafts are already clean.
    StayOpen { failed: Vec<ProfileKind> },
}

/// The kinds whose write failed, in result order.
pub open spec fn spec_failed(results: Seq<(ProfileKind, bool)>) -> Seq<ProfileKind>
    decreases results.len(),
{
    if results.len() == 0 {
        Seq::empty()
    } else {
        let rest = spec_failed(results.drop_last());
        if !results.last().1 { rest.push(results.last().0) } else { rest }
    }
}

/// Some write of `kind` succeeded.
pub open spec fn saved_ok(results: Seq<(ProfileKind, bool)>, kind: ProfileKind) -> bool {
    exists|i: int| 0 <= i < results.len() && (#[trigger] results[i]).0 == kind && results[i].1
}

/// `d2` is `d` saved if `ok`, else `d` unchanged.
pub open spec fn draft_after<T>(d: ProfileDraft<T>, ok: bool, d2: ProfileDraft<T>) -> bool {
    if ok { draft_saved_now(d, d2) } else { d2 == d }
}

/// The session after per-kind save results: each kind with a successful
/// write is saved, the others are untouched.
pub open spec fn spec_session_after_saves<K, M, L>(
    s: ProfileSession<K, M, L>,
    results: Seq<(ProfileKind, bool)>,
    s2: ProfileSession<K, M, L>,
) -> bool {
    &&& draft_after(s.keyboard, saved_ok(results, ProfileKind::Keyboard), s2.keyboard)
    &&& draft_after(s.midi, saved_ok(results, ProfileKind::Midi), s2.midi)
    &&& draft_after(s.lanes, saved_ok(results, ProfileKind::Lanes), s2.lanes)
}

/// Apply per-kind Save All write results: successful drafts become clean,
/// failed drafts stay dirty so the dialog can list them and retry.
pub fn apply_save_all_results<K: Clone + PartialEq, M: Clone + PartialEq, L: Clone + PartialEq>(
    session: &mut ProfileSession<K, M, L>,
    results: &[(ProfileKind, bool)],
) -> (failed: Vec<ProfileKind>)
    requires
        session_values::<K, M, L>(),
    ensures
        failed@ == spec_failed(results@),
        spec_session_after_saves(*old(session), results@, *final(session)),
{
    let ghost s0 = *session;
    let mut failed: Vec<ProfileKind> = Vec::new();
    let n = results.len();
    for k in 0..n
        invariant
            n == results@.len(),
            session_values::<K, M, L>(),
            failed@ == spec_failed(results@.take(k as int)),
            spec_session_after_saves(s0, results@.take(k as int), *session),
    {
        let ghost pre = results@.take(k as int);
        let ghost post = results@.take(k + 1);
        assert(post.drop_last() =~= pre);
        assert(post.last() == results@[k as int]);
        assert forall|kind: ProfileKind| #[trigger] saved_ok(post, kind) == (saved_ok(pre, kind) || (
        results@[k as int].0 == kind && results@[k as int].1)) by {
            if saved_ok(post, kind) {
                let i = choose|i: int| 0 <= i < post.len() && (#[trigger] post[i]).0 == kind && post[i].1;
                if i < k {
                    assert(pre[i] == post[i]);
                }
            }
            if saved_ok(pre, kind) {
                let i = choose|i: int| 0 <= i < pre.len() && (#[trigger] pre[i]).0 == kind && pre[i].1;
                assert(post[i] == pre[i]);
            }
            if results@[k as int].0 == kind && results@[k as int].1 {
                assert(post[k as int] == results@[k as int]);
            }
        }
        let (kind, success) = results[k];
        if !success {
            failed.push(kind);
        } else {
            match kind {
                ProfileKind::Keyboard => session.keyboard = session.keyboard.saved_now(),
                ProfileKind::Midi => session.midi = session.midi.saved_now(),
                ProfileKind::Lanes => session.lanes = session.lanes.saved_now(),
                ProfileKind::Settings => {},
            }
        }
    }
    assert(results@.take(n as int) =~= results@);
    failed
}

/// `s2` is `s` with every draft discarded back to its saved value.
pub open spec fn spec_session_discarded<K, M, L>(s: ProfileSession<K, M, L>, s2: ProfileSession<K, M, L>) -> bool {
    &&& draft_reset(s.keyboard, s2.keyboard)
    &&& draft_reset(s.midi, s2.midi)
    &&& draft_reset(s.lanes, s2.lanes)
}

/// What a close decision does to the outcome and the session.
pub open spec fn spec_close_decision<K, M, L>(
    pending: PendingClose,
    decision: CloseDecision,
    s: ProfileSession<K, M, L>,
    results: Seq<(ProfileKind, bool)>,
    s2: ProfileSession<K, M, L>,
    o: CloseOutcome,
) -> bool {
    match decision {
        CloseDecision::Cancel => o is Cancelled && s2 == s,
        CloseDecision::DiscardAll => o == CloseOutcome::Close(pending.intent) && spec_session_discarded(s, s2),
        CloseDecision::SaveAll => {
            &&& spec_session_after_saves(s, results, s2)
            &&& if spec_failed(results).len() == 0 {
                o == CloseOutcome::Close(pending.intent)
            } else {
                o matches CloseOutcome::StayOpen { failed } && failed@ == spec_failed(results)
            }
        },
    }
}

/// Resolve the close guard. `save_results` reports each dirty kind's write
/// outcome and is only consulted for `SaveAll`; saves run sequentially and
/// independently, so one failure never rolls back another kind's success.
pub fn reduce_close_decision<K: Clone + PartialEq, M: Clone + PartialEq, L: Clone + PartialEq>(
    pending: &PendingClose,
    decision: CloseDecision,
    session: &mut ProfileSession<K, M, L>,
    save_results: &[(ProfileKind, bool)],
) -> (o: CloseOutcome)
    requires
        session_values::<K, M, L>(),
    ensures
        spec_close_decision(*pending, decision, *old(session), save_results@, *final(session), o),
{
    match decision {
        CloseDecision::Cancel => CloseOutcome::Cancelled,
        CloseDecision::DiscardAll => {
            let k = session.keyboard.saved.clone();
            assert(cloned(session.keyboard.saved, k));
            session.keyboard = ProfileDraft::clean(session.keyboard.selected.as_str(), k);
            let m = session.midi.saved.clone();
            assert(cloned(session.midi.saved, m));
            session.midi = ProfileDraft::clean(session.midi.selected.as_str(), m);
            let l = session.lanes.saved.clone();
            assert(cloned(session.lanes.saved, l));
            session.lanes = ProfileDraft::clean(session.lanes.selected.as_str(), l);
            CloseOutcome::Close(pending.intent)
        },
        CloseDecision::SaveAll => {
            let failed = apply_save_all_results(session, save_results);
            if failed.len() == 0 {
                CloseOutcome::Close(pending.intent)
            } else {
                CloseOutcome::StayOpen { failed }
            }
        },
    }
}

/// Discarding every draft leaves no dirty kind.
pub proof fn lemma_discard_all_cleans<K, M, L>(s: ProfileSession<K, M, L>, s2: ProfileSession<K, M, L>)
    requires
        spec_session_discarded(s, s2),
    ensures
        spec_dirty_kinds(s2).len() == 0,
{
}

/// Save All: exactly the kinds without a successful write can stay dirty;
/// every kind with a successful write ends clean.
pub proof fn lemma_save_all_cleans_successes<K, M, L>(
    s: ProfileSession<K, M, L>,
    results: Seq<(ProfileKind, bool)>,
    s2: ProfileSession<K, M, L>,
)
    requires
        spec_session_after_saves(s, results, s2),
    ensures
        saved_ok(results, ProfileKind::Keyboard) ==> !draft_dirty(s2.keyboard),
        saved_ok(results, ProfileKind::Midi) ==> !draft_dirty(s2.midi),
        saved_ok(results, ProfileKind::Lanes) ==> !draft_dirty(s2.lanes),
        !saved_ok(results, ProfileKind::Keyboard) ==> s2.keyboard == s.keyboard,
        !saved_ok(results, ProfileKind::Midi) ==> s2.midi == s.midi,
        !saved_ok(results, ProfileKind::Lanes) ==> s2.lanes == s.lanes,
{
}

/// A close request on a clean session (and clean settings) proceeds; on a
/// session with any dirty draft it guards.
pub proof fn lemma_dirty_close_guards<K, M, L>(
    intent: CloseIntent,
    session: ProfileSession<K, M, L>,
    settings_dirty: bool,
    o: CloseRequestOutcome,
)
    requires
        spec_close_outcome(intent, spec_close_dirty(session, settings_dirty), o),
    ensures
        (o is Proceed) <==> (!draft_dirty(session.keyboard) && !draft_dirty(session.midi)
            && !draft_dirty(session.lanes) && !settings_dirty),
{
    let d = spec_close_dirty(session, settings_dirty);
    if draft_dirty(session.keyboard) {
        assert(d[0] == ProfileKind::Keyboard);
    }
}

/// Dirty-guard dialog layout: button labels in left-to-right order plus
/// which button holds default focus and which is destructive.
#[derive(Debug, Clone, PartialEq)]
pub struct DirtyDialogLayout {
    pub buttons: Vec<&'static str>,
    pub default_focus: usize,
    pub destructive: usize,
}

/// The guard dialog's button labels.
pub open spec fn spec_dialog_buttons(dirty_len: int, builtin_selected: bool) -> Seq<Seq<char>> {
    if dirty_len > 1 {
        seq!["Cancel"@, "Discard all"@, "Save all"@]
    } else if builtin_selected {
        seq!["Cancel"@, "Discard changes"@, "Save as new profile"@]
    } else {
        seq!["Cancel"@, "Discard changes"@, "Save changes"@]
    }
}

/// Build the guard dialog for the given dirty kinds. One dirty user profile:
/// `Cancel | Discard changes | Save changes` (built-in primary reads
/// `Save as new profile`); several dirty kinds: `Cancel | Discard all |
/// Save all`. Save holds default focus; the destructive button never does.
pub fn dirty_dialog_layout(dirty: &[ProfileKind], builtin_selected: bool) -> (layout: DirtyDialogLayout)
    ensures
        layout.buttons@.len() == 3,
        forall|k: int| 0 <= k < 3 ==> (#[trigger] layout.buttons@[k])@ == spec_dialog_buttons(
            dirty@.len() as int,
            builtin_selected,
        )[k],
        layout.default_focus == 2,
        layout.destructive == 1,
{
    let buttons: Vec<&'static str> = if dirty.len() > 1 {
        vec!["Cancel", "Discard all", "Save all"]
    } else if builtin_selected {
        vec!["Cancel", "Discard changes", "Save as new profile"]
    } else {
        vec!["Cancel", "Discard changes", "Save changes"]
    };
    DirtyDialogLayout { default_focus: buttons.len() - 1, destructive: 1, buttons }
}

/// The destructive button never holds default focus.
pub proof fn lemma_discard_never_default(layout: DirtyDialogLayout)
    requires
        layout.default_focus == 2,
        layout.destructive == 1,
    ensures
        layout.default_focus != layout.destructive,
{
}

/// Keyboard shortcuts on the guard: Enter saves (default focus), Escape
/// cancels. Discard has no shortcut.
pub fn close_decision_for_key(enter: bool, escape: bool) -> (d: Option<CloseDecision>)
    ensures
        escape ==> d == Some(CloseDecision::Cancel),
        !escape && enter ==> d == Some(CloseDecision::SaveAll),
        !escape && !enter ==> d is None,
{
    if escape {
        Some(CloseDecision::Cancel)
    } else if enter {
        Some(CloseDecision::SaveAll)
    } else {
        None
    }
}

} // verus!
