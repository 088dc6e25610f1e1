//! The Customize editor's profile model: drafts, the dirty guard, the
//! profile bar and its transactional write path, and the lane profile
//! registry reducer.

pub mod profile_state;
pub mod profile_bar;
pub mod profile_bar_ui;
pub mod calibration;
pub mod controls_panel;
pub mod bindings_panel;
pub mod bindings_capture;
pub mod keyboard_nav;
pub mod lanes_panel;
pub mod nav;
pub mod close_dialog;
pub mod profile_dialog;
pub mod profile_dialog_ui;
pub mod picking;
pub mod drag;
pub mod lane_drag;

use vstd::prelude::*;

use crate::editor::nav::CustomizeTab;
use crate::editor::profile_state::{
    close_decision_for_key, draft_dirty, value_semantics, CloseDecision, CloseOutcome, PendingClose, PendingCloseState,
    ProfileDraft, ProfileSession,
};

verus! {

/// True while the editor overlay is open. Default false: normal play.
#[derive(Debug, Clone, Copy, PartialEq, Eq, Structural)]
pub struct EditorOpen(pub bool);

impl Default for EditorOpen {
    fn default() -> (e: Self)
        ensures
            !e.0,
    {
        EditorOpen(false)
    }
}

/// Remembers the autoplay flag from before the editor forced it on.
#[derive(Debug, Clone, Copy, PartialEq, Eq, Structural)]
pub struct PrevAutoplay(pub bool);

impl Default for PrevAutoplay {
    fn default() -> (p: Self)
        ensures
            !p.0,
    {
        PrevAutoplay(false)
    }
}

/// Whether the editor went from open to closed since the last call;
/// `was_open` remembers the previous state.
pub fn just_closed(open: bool, was_open: &mut bool) -> (closed: bool)
    ensures
        closed == (*old(was_open) && !open),
        *final(was_open) == open,
{
    let closed = *was_open && !open;
    *was_open = open;
    closed
}

/// A close is persisted only when it happens during a performance; a forced
/// exit elsewhere still consumes the transition.
pub fn should_persist_close(open: bool, in_performance: bool, was_open: &mut bool) -> (persist: bool)
    ensures
        persist == (*old(was_open) && !open && in_performance),
        *final(was_open) == open,
{
    just_closed(open, was_open) && in_performance
}

// ===== Lane profile registry =====

/// A user profile under its name.
pub struct NamedProfile<P> {
    pub name: String,
    pub value: P,
}

/// The lane profile registry: the active profile's name and the user
/// profiles (the built-ins are supplied separately and never stored here).
pub struct LaneProfileRegistry<P> {
    pub active: String,
    pub profiles: Vec<NamedProfile<P>>,
}

/// No two stored profiles share a name.
pub open spec fn unique_names<P>(s: Seq<NamedProfile<P>>) -> bool {
    forall|i: int, j: int| 0 <= i < s.len() && 0 <= j < s.len() && i != j ==> (#[trigger] s[i]).name@
        != (#[trigger] s[j]).name@
}

/// The stored profiles as a map from name to value.
pub open spec fn profile_map<P>(s: Seq<NamedProfile<P>>) -> Map<Seq<char>, P>
    decreases s.len(),
{
    if s.len() == 0 {
        Map::empty()
    } else {
        profile_map(s.drop_last()).insert(s.last().name@, s.last().value)
    }
}

impl<P> LaneProfileRegistry<P> {
    /// Profile names are unique (the registry is keyed by name).
    pub open spec fn wf(&self) -> bool {
        unique_names(self.profiles@)
    }

    /// The stored user profiles by name.
    pub open spec fn map(&self) -> Map<Seq<char>, P> {
        profile_map(self.profiles@)
    }
}

proof fn lemma_map_dom<P>(s: Seq<NamedProfile<P>>, n: Seq<char>)
    ensures
        profile_map(s).dom().contains(n) <==> exists|i: int| 0 <= i < s.len() && (#[trigger] s[i]).name@ == n,
    decreases s.len(),
{
    if s.len() > 0 {
        let d = s.drop_last();
        lemma_map_dom(d, n);
        if profile_map(d).dom().contains(n) {
            let i = choose|i: int| 0 <= i < d.len() && (#[trigger] d[i]).name@ == n;
            assert(s[i] == d[i]);
        }
        if exists|i: int| 0 <= i < s.len() && (#[trigger] s[i]).name@ == n {
            let i = choose|i: int| 0 <= i < s.len() && (#[trigger] s[i]).name@ == n;
            if i < s.len() - 1 {
                assert(d[i] == s[i]);
            }
        }
    }
}

proof fn lemma_map_at<P>(s: Seq<NamedProfile<P>>, i: int)
    requires
        unique_names(s),
        0 <= i < s.len(),
    ensures
        profile_map(s).dom().contains(s[i].name@),
        profile_map(s)[s[i].name@] == s[i].value,
    decreases s.len(),
{
    let d = s.drop_last();
    if i < s.len() - 1 {
        assert(d[i] == s[i]);
        assert(unique_names(d)) by {
            assert forall|a: int, b: int| 0 <= a < d.len() && 0 <= b < d.len() && a != b implies (#[trigger] d[a]).name@
                != (#[trigger] d[b]).name@ by {
                assert(d[a] == s[a] && d[b] == s[b]);
            }
        }
        lemma_map_at(d, i);
        assert(s[i].name@ != s[s.len() - 1].name@);
    }
}

proof fn lemma_unique_drop_last<P>(s: Seq<NamedProfile<P>>)
    requires
        unique_names(s),
        s.len() > 0,
    ensures
        unique_names(s.drop_last()),
        !profile_map(s.drop_last()).dom().contains(s.last().name@),
{
    let d = s.drop_last();
    assert forall|a: int, b: int| 0 <= a < d.len() && 0 <= b < d.len() && a != b implies (#[trigger] d[a]).name@
        != (#[trigger] d[b]).name@ by {
        assert(d[a] == s[a] && d[b] == s[b]);
    }
    lemma_map_dom(d, s.last().name@);
    if profile_map(d).dom().contains(s.last().name@) {
        let i = choose|i: int| 0 <= i < d.len() && (#[trigger] d[i]).name@ == s.last().name@;
        assert(d[i] == s[i]);
        assert(s[i].name@ == s[s.len() - 1].name@);
    }
}

proof fn lemma_push<P>(s: Seq<NamedProfile<P>>, e: NamedProfile<P>)
    requires
        unique_names(s),
        !profile_map(s).dom().contains(e.name@),
    ensures
        unique_names(s.push(e)),
        profile_map(s.push(e)) == profile_map(s).insert(e.name@, e.value),
{
    let t = s.push(e);
    assert(t.drop_last() =~= s);
    lemma_map_dom(s, e.name@);
    assert forall|a: int, b: int| 0 <= a < t.len() && 0 <= b < t.len() && a != b implies (#[trigger] t[a]).name@
        != (#[trigger] t[b]).name@ by {
        if a < s.len() && b < s.len() {
            assert(t[a] == s[a] && t[b] == s[b]);
        } else if a < s.len() {
            assert(t[a] == s[a]);
        } else {
            assert(t[b] == s[b]);
        }
    }
}

proof fn lemma_update<P>(s: Seq<NamedProfile<P>>, i: int, e: NamedProfile<P>)
    requires
        unique_names(s),
        0 <= i < s.len(),
        e.name@ == s[i].name@,
    ensures
        unique_names(s.update(i, e)),
        profile_map(s.update(i, e)) == profile_map(s).insert(e.name@, e.value),
    decreases s.len(),
{
    let t = s.update(i, e);
    assert forall|a: int, b: int| 0 <= a < t.len() && 0 <= b < t.len() && a != b implies (#[trigger] t[a]).name@
        != (#[trigger] t[b]).name@ by {
        assert(t[a].name@ == s[a].name@ && t[b].name@ == s[b].name@);
    }
    let d = s.drop_last();
    lemma_unique_drop_last(s);
    if i == s.len() - 1 {
        assert(t.drop_last() =~= d);
        assert(profile_map(t) =~= profile_map(s).insert(e.name@, e.value));
    } else {
        assert(t.drop_last() =~= d.update(i, e));
        assert(d[i] == s[i]);
        lemma_update(d, i, e);
        assert(s.last().name@ != e.name@) by {
            assert(s[i].name@ != s[s.len() - 1].name@);
        }
        assert(profile_map(t) =~= profile_map(s).insert(e.name@, e.value));
    }
}

proof fn lemma_remove<P>(s: Seq<NamedProfile<P>>, i: int)
    requires
        unique_names(s),
        0 <= i < s.len(),
    ensures
        unique_names(s.remove(i)),
        profile_map(s.remove(i)) == profile_map(s).remove(s[i].name@),
    decreases s.len(),
{
    let t = s.remove(i);
    assert forall|a: int, b: int| 0 <= a < t.len() && 0 <= b < t.len() && a != b implies (#[trigger] t[a]).name@
        != (#[trigger] t[b]).name@ by {
        let sa = if a < i { a } else { a + 1 };
        let sb = if b < i { b } else { b + 1 };
        assert(t[a] == s[sa] && t[b] == s[sb]);
    }
    let d = s.drop_last();
    lemma_unique_drop_last(s);
    if i == s.len() - 1 {
        assert(t =~= d);
        assert(profile_map(t) =~= profile_map(s).remove(s[i].name@));
    } else {
        assert(t.drop_last() =~= d.remove(i));
        assert(t.last() == s.last());
        assert(d[i] == s[i]);
        lemma_remove(d, i);
        assert(s[i].name@ != s[s.len() - 1].name@);
        assert(profile_map(t) =~= profile_map(s).remove(s[i].name@));
    }
}

/// Index of the stored profile named `name`, if any.
fn find_profile<P>(profiles: &Vec<NamedProfile<P>>, name: &String) -> (r: Option<usize>)
    ensures
        r matches Some(i) ==> i < profiles@.len() && profiles@[i as int].name@ == name@,
        r is None ==> forall|i: int| 0 <= i < profiles@.len() ==> (#[trigger] profiles@[i]).name@ != name@,
{
    let n = profiles.len();
    for k in 0..n
        invariant
            n == profiles@.len(),
            forall|i: int| 0 <= i < k ==> (#[trigger] profiles@[i]).name@ != name@,
    {
        if profiles[k].name == *name {
            return Some(k);
        }
    }
    None
}

/// `name` is one of the built-in profile names.
pub open spec fn is_builtin_name(builtins: Seq<String>, name: Seq<char>) -> bool {
    exists|i: int| 0 <= i < builtins.len() && (#[trigger] builtins[i])@ == name
}

fn builtin_contains(builtins: &[String], name: &String) -> (b: bool)
    ensures
        b == is_builtin_name(builtins@, name@),
{
    let n = builtins.len();
    for k in 0..n
        invariant
            n == builtins@.len(),
            forall|i: int| 0 <= i < k ==> (#[trigger] builtins@[i])@ != name@,
    {
        if builtins[k] == *name {
            return true;
        }
    }
    false
}

/// One lane registry transaction step (the keyboard/MIDI action set,
/// mirrored for the lane registry).
pub enum LaneRegAction<P> {
    Select(String),
    Save(P),
    SaveAs { name: String, value: P },
    Rename(String),
    Delete,
}

/// Why a lane registry step was refused.
#[derive(Debug, Clone, Copy, PartialEq, Eq, Structural)]
pub enum LaneRegErrorKind {
    NotFound,
    BuiltinReadOnly,
    AlreadyExists,
    Unusable,
}

/// A refused lane registry step, with the name (or the cause) it concerns.
#[derive(Debug, Clone, PartialEq)]
pub struct LaneRegistryError {
    pub kind: LaneRegErrorKind,
    pub name: String,
}

/// The user-facing text of an error.
pub open spec fn error_text(kind: LaneRegErrorKind, name: Seq<char>) -> Seq<char> {
    match kind {
        LaneRegErrorKind::NotFound => "profile not found: "@ + name,
        LaneRegErrorKind::BuiltinReadOnly => "built-in profile cannot be modified: "@ + name,
        LaneRegErrorKind::AlreadyExists => "profile already exists: "@ + name,
        LaneRegErrorKind::Unusable => "registry unusable: "@ + name,
    }
}

impl LaneRegistryError {
    /// The error as one line of text.
    pub fn message(&self) -> (s: String)
        ensures
            s@ == error_text(self.kind, self.name@),
    {
        let mut s = match self.kind {
            LaneRegErrorKind::NotFound => String::from_str("profile not found: "),
            LaneRegErrorKind::BuiltinReadOnly => String::from_str("built-in profile cannot be modified: "),
            LaneRegErrorKind::AlreadyExists => String::from_str("profile already exists: "),
            LaneRegErrorKind::Unusable => String::from_str("registry unusable: "),
        };
        s.append(self.name.as_str());
        s
    }
}

/// The outcome of one step on the registry's model: the next active name
/// and profile map, or the refusal's kind and name.
pub open spec fn spec_reduce_lane<P>(
    active: Seq<char>,
    m: Map<Seq<char>, P>,
    builtins: Seq<String>,
    default_name: Seq<char>,
    action: LaneRegAction<P>,
) -> Result<(Seq<char>, Map<Seq<char>, P>), (LaneRegErrorKind, Seq<char>)> {
    match action {
        LaneRegAction::Select(name) => if !is_builtin_name(builtins, name@) && !m.dom().contains(name@) {
            Err((LaneRegErrorKind::NotFound, name@))
        } else {
            Ok((name@, m))
        },
        LaneRegAction::Save(value) => if is_builtin_name(builtins, active) {
            Err((LaneRegErrorKind::BuiltinReadOnly, active))
        } else if !m.dom().contains(active) {
            Err((LaneRegErrorKind::NotFound, active))
        } else {
            Ok((active, m.insert(active, value)))
        },
        LaneRegAction::SaveAs { name, value } => if is_builtin_name(builtins, name@) {
            Err((LaneRegErrorKind::BuiltinReadOnly, name@))
        } else if m.dom().contains(name@) {
            Err((LaneRegErrorKind::AlreadyExists, name@))
        } else {
            Ok((name@, m.insert(name@, value)))
        },
        LaneRegAction::Rename(name) => if is_builtin_name(builtins, active) {
            Err((LaneRegErrorKind::BuiltinReadOnly, active))
        } else if !m.dom().contains(active) {
            Err((LaneRegErrorKind::NotFound, active))
        } else if is_builtin_name(builtins, name@) {
            Err((LaneRegErrorKind::BuiltinReadOnly, name@))
        } else if m.remove(active).dom().contains(name@) {
            Err((LaneRegErrorKind::AlreadyExists, name@))
        } else {
            Ok((name@, m.remove(active).insert(name@, m[active])))
        },
        LaneRegAction::Delete => if is_builtin_name(builtins, active) {
            Err((LaneRegErrorKind::BuiltinReadOnly, active))
        } else if !m.dom().contains(active) {
            Err((LaneRegErrorKind::NotFound, active))
        } else {
            Ok((default_name, m.remove(active)))
        },
    }
}

fn registry_error(kind: LaneRegErrorKind, name: &String) -> (e: LaneRegistryError)
    ensures
        e.kind == kind,
        e.name@ == name@,
{
    LaneRegistryError { kind, name: name.clone() }
}

/// Apply one action to the lane registry. Built-in profiles are never
/// modified; a refused step reports why and leaves nothing half-done.
/// Deleting the active profile falls back to `default_name`, not to
/// whichever stored profile happens to come first.
pub fn reduce_lane_registry<P>(
    registry: LaneProfileRegistry<P>,
    builtins: &[String],
    default_name: &str,
    action: LaneRegAction<P>,
) -> (r: Result<LaneProfileRegistry<P>, LaneRegistryError>)
    requires
        registry.wf(),
    ensures
        match spec_reduce_lane(registry.active@, registry.map(), builtins@, default_name@, action) {
            Ok((active, m)) => r matches Ok(next) && next.wf() && next.active@ == active && next.map() == m,
            Err((kind, name)) => r matches Err(e) && e.kind == kind && e.name@ == name,
        },
{
    let ghost m0 = registry.map();
    let ghost s0 = registry.profiles@;
    let LaneProfileRegistry { active, mut profiles } = registry;
    match action {
        LaneRegAction::Select(name) => {
            let found = find_profile(&profiles, &name);
            proof {
                lemma_map_dom(s0, name@);
            }
            if !builtin_contains(builtins, &name) && found.is_none() {
                return Err(LaneRegistryError { kind: LaneRegErrorKind::NotFound, name });
            }
            Ok(LaneProfileRegistry { active: name, profiles })
        },
        LaneRegAction::Save(value) => {
            proof {
                lemma_map_dom(s0, active@);
            }
            if builtin_contains(builtins, &active) {
                return Err(registry_error(LaneRegErrorKind::BuiltinReadOnly, &active));
            }
            match find_profile(&profiles, &active) {
                None => Err(registry_error(LaneRegErrorKind::NotFound, &active)),
                Some(i) => {
                    let e = NamedProfile { name: active.clone(), value };
                    proof {
                        lemma_update(s0, i as int, e);
                    }
                    profiles.set(i, e);
                    Ok(LaneProfileRegistry { active, profiles })
                },
            }
        },
        LaneRegAction::SaveAs { name, value } => {
            proof {
                lemma_map_dom(s0, name@);
            }
            if builtin_contains(builtins, &name) {
                return Err(LaneRegistryError { kind: LaneRegErrorKind::BuiltinReadOnly, name });
            }
            if find_profile(&profiles, &name).is_some() {
                return Err(LaneRegistryError { kind: LaneRegErrorKind::AlreadyExists, name });
            }
            let e = NamedProfile { name: name.clone(), value };
            proof {
                lemma_push(s0, e);
            }
            profiles.push(e);
            Ok(LaneProfileRegistry { active: name, profiles })
        },
        LaneRegAction::Rename(name) => {
            proof {
                lemma_map_dom(s0, active@);
            }
            if builtin_contains(builtins, &active) {
                return Err(registry_error(LaneRegErrorKind::BuiltinReadOnly, &active));
            }
            let i = match find_profile(&profiles, &active) {
                None => return Err(registry_error(LaneRegErrorKind::NotFound, &active)),
                Some(i) => i,
            };
            proof {
                lemma_map_at(s0, i as int);
                lemma_remove(s0, i as int);
            }
            let old_entry = profiles.remove(i);
            let ghost s1 = profiles@;
            assert(s1 == s0.remove(i as int));
            proof {
                lemma_map_dom(s1, name@);
            }
            if builtin_contains(builtins, &name) {
                return Err(LaneRegistryError { kind: LaneRegErrorKind::BuiltinReadOnly, name });
            }
            if find_profile(&profiles, &name).is_some() {
                return Err(LaneRegistryError { kind: LaneRegErrorKind::AlreadyExists, name });
            }
            let e = NamedProfile { name: name.clone(), value: old_entry.value };
            proof {
                lemma_push(s1, e);
            }
            profiles.push(e);
            Ok(LaneProfileRegistry { active: name, profiles })
        },
        LaneRegAction::Delete => {
            proof {
                lemma_map_dom(s0, active@);
            }
            if builtin_contains(builtins, &active) {
                return Err(registry_error(LaneRegErrorKind::BuiltinReadOnly, &active));
            }
            match find_profile(&profiles, &active) {
                None => Err(registry_error(LaneRegErrorKind::NotFound, &active)),
                Some(i) => {
                    proof {
                        lemma_remove(s0, i as int);
                    }
                    profiles.remove(i);
                    Ok(LaneProfileRegistry { active: String::from_str(default_name), profiles })
                },
            }
        },
    }
}

/// Actions applied in order to the registry's model; the first refusal
/// stops the sequence.
pub open spec fn spec_reduce_all<P>(
    active: Seq<char>,
    m: Map<Seq<char>, P>,
    builtins: Seq<String>,
    default_name: Seq<char>,
    actions: Seq<LaneRegAction<P>>,
) -> Result<(Seq<char>, Map<Seq<char>, P>), (LaneRegErrorKind, Seq<char>)>
    decreases actions.len(),
{
    if actions.len() == 0 {
        Ok((active, m))
    } else {
        match spec_reduce_all(active, m, builtins, default_name, actions.drop_last()) {
            Ok((a, mm)) => spec_reduce_lane(a, mm, builtins, default_name, actions.last()),
            Err(e) => Err(e),
        }
    }
}

proof fn lemma_reduce_all_stops<P>(
    active: Seq<char>,
    m: Map<Seq<char>, P>,
    builtins: Seq<String>,
    default_name: Seq<char>,
    actions: Seq<LaneRegAction<P>>,
    k: int,
)
    requires
        0 <= k <= actions.len(),
        spec_reduce_all(active, m, builtins, default_name, actions.take(k)) is Err,
    ensures
        spec_reduce_all(active, m, builtins, default_name, actions) == spec_reduce_all(
            active,
            m,
            builtins,
            default_name,
            actions.take(k),
        ),
    decreases actions.len(),
{
    if k == actions.len() {
        assert(actions.take(k) =~= actions);
    } else {
        let d = actions.drop_last();
        assert(d.take(k) =~= actions.take(k));
        lemma_reduce_all_stops(active, m, builtins, default_name, d, k);
    }
}

/// No built-in name is among the stored user profiles.
pub open spec fn builtins_unstored<P>(m: Map<Seq<char>, P>, builtins: Seq<String>) -> bool {
    forall|n: Seq<char>| is_builtin_name(builtins, n) ==> !(#[trigger] m.dom().contains(n))
}

/// A registry step never stores a profile under a built-in name, so the
/// built-ins stay read-only across any sequence of actions.
pub proof fn lemma_builtins_never_stored<P>(
    active: Seq<char>,
    m: Map<Seq<char>, P>,
    builtins: Seq<String>,
    default_name: Seq<char>,
    actions: Seq<LaneRegAction<P>>,
)
    requires
        builtins_unstored(m, builtins),
    ensures
        spec_reduce_all(active, m, builtins, default_name, actions) matches Ok((_, m2)) ==> builtins_unstored(
            m2,
            builtins,
        ),
    decreases actions.len(),
{
    if actions.len() > 0 {
        lemma_builtins_never_stored(active, m, builtins, default_name, actions.drop_last());
    }
}

/// Renaming moves the active profile's value to the new name, and
/// deleting falls back to the named default.
pub proof fn lemma_rename_keeps_value<P>(
    active: Seq<char>,
    m: Map<Seq<char>, P>,
    builtins: Seq<String>,
    default_name: Seq<char>,
    name: String,
)
    ensures
        spec_reduce_lane(active, m, builtins, default_name, LaneRegAction::Rename(name)) matches Ok((a2, m2)) ==> {
            &&& a2 == name@
            &&& m2.dom().contains(name@)
            &&& m2[name@] == m[active]
            &&& (active != name@ ==> !m2.dom().contains(active))
        },
        spec_reduce_lane(active, m, builtins, default_name, LaneRegAction::<P>::Delete) matches Ok((a2, m2)) ==> {
            &&& a2 == default_name
            &&& !m2.dom().contains(active)
        },
{
}

/// The write of a registry with this active name and these profiles
/// failed with `msg`.
pub open spec fn save_refused<P, F: FnOnce(&LaneProfileRegistry<P>) -> Result<(), String>>(
    save: F,
    active: Seq<char>,
    m: Map<Seq<char>, P>,
    msg: String,
) -> bool {
    exists|next: LaneProfileRegistry<P>|
        {
            &&& next.active@ == active
            &&& next.map() == m
            &&& #[trigger] save.ensures((&next,), Err::<(), String>(msg))
        }
}

/// Load, apply the actions in order, and write once. A refused action
/// fails the whole commit before anything is written; a write failure is
/// reported as the write's own error. `registry_startup` is the loaded
/// registry, or the reason it cannot be used (read-only built-ins).
pub fn commit_lane_actions<P, F>(
    registry_startup: Result<LaneProfileRegistry<P>, String>,
    builtins: &[String],
    default_name: &str,
    actions: Vec<LaneRegAction<P>>,
    save: F,
) -> (r: Result<LaneProfileRegistry<P>, String>)
    where
        F: FnOnce(&LaneProfileRegistry<P>) -> Result<(), String>,
    requires
        registry_startup matches Ok(reg) ==> reg.wf(),
        forall|reg: &LaneProfileRegistry<P>| save.requires((reg,)),
    ensures
        registry_startup matches Err(cause) ==> r matches Err(msg) && msg@ == error_text(
            LaneRegErrorKind::Unusable,
            cause@,
        ),
        registry_startup matches Ok(reg) ==> match spec_reduce_all(
            reg.active@,
            reg.map(),
            builtins@,
            default_name@,
            actions@,
        ) {
            Err((kind, name)) => r matches Err(msg) && msg@ == error_text(kind, name),
            Ok((active, m)) => {
                &&& r matches Ok(next) ==> {
                    &&& next.wf()
                    &&& next.active@ == active
                    &&& next.map() == m
                    &&& exists|w: Result<(), String>| #[trigger] save.ensures((&next,), w) && w is Ok
                }
                &&& r matches Err(msg) ==> save_refused(save, active, m, msg)
            },
        },
{
    let ghost startup = registry_startup;
    let mut registry = match registry_startup {
        Ok(r) => r,
        Err(cause) => {
            let e = LaneRegistryError { kind: LaneRegErrorKind::Unusable, name: cause };
            return Err(e.message());
        },
    };
    let ghost active0 = registry.active@;
    let ghost m0 = registry.map();
    let ghost all = actions@;
    let n = actions.len();
    let mut rest = actions;
    let mut k: usize = 0;
    while k < n
        invariant
            startup == registry_startup,
            startup is Ok,
            startup->Ok_0.active@ == active0,
            startup->Ok_0.map() == m0,
            all == actions@,
            n == all.len(),
            k <= n,
            rest@ == all.subrange(k as int, n as int),
            registry.wf(),
            spec_reduce_all(active0, m0, builtins@, default_name@, all.take(k as int)) == Ok::<
                (Seq<char>, Map<Seq<char>, P>),
                (LaneRegErrorKind, Seq<char>),
            >((registry.active@, registry.map())),
        decreases n - k,
    {
        let action = rest.remove(0);
        assert(action == all[k as int]);
        assert(all.take(k + 1).drop_last() =~= all.take(k as int));
        assert(all.take(k + 1).last() == all[k as int]);
        let stepped = reduce_lane_registry(registry, builtins, default_name, action);
        match stepped {
            Ok(next) => {
                registry = next;
            },
            Err(e) => {
                proof {
                    lemma_reduce_all_stops(active0, m0, builtins@, default_name@, all, k + 1);
                }
                return Err(e.message());
            },
        }
        k = k + 1;
    }
    assert(all.take(n as int) =~= all);
    let written = save(&registry);
    match written {
        Ok(()) => {
            assert(save.ensures((&registry,), written));
            Ok(registry)
        },
        Err(w) => {
            assert(save.ensures((&registry,), Err::<(), String>(w)));
            assert(save_refused(save, registry.active@, registry.map(), w));
            Err(w)
        },
    }
}

/// The registry step that saves the lanes draft under its own profile: a
/// built-in cannot be overwritten, so a draft of a built-in is saved as a
/// new profile under `copy_name` (the suggested "copy" name); any other
/// selection is saved in place.
pub fn lane_save_action<P>(builtins: &[String], selected: &String, value: P, copy_name: String) -> (a: LaneRegAction<P>)
    ensures
        is_builtin_name(builtins@, selected@) ==> a == (LaneRegAction::SaveAs { name: copy_name, value }),
        !is_builtin_name(builtins@, selected@) ==> a == LaneRegAction::Save(value),
{
    if builtin_contains(builtins, selected) {
        LaneRegAction::SaveAs { name: copy_name, value }
    } else {
        LaneRegAction::Save(value)
    }
}

// ===== Preview, close guard and session frame logic =====

/// The Customize preview's frame state, computed once per frame.
#[derive(Debug, Clone, Copy, PartialEq, Eq, Structural)]
pub struct PreviewState {
    pub open: bool,
    /// Tab held: full play-view peek (chrome and overlays hidden).
    pub peeking: bool,
    pub tab: CustomizeTab,
    /// Widgets tab with a live selection: the right inspector reserves space.
    pub has_inspector: bool,
}

impl Default for PreviewState {
    fn default() -> (p: Self)
        ensures
            !p.open && !p.peeking && p.tab == CustomizeTab::Widgets && !p.has_inspector,
    {
        PreviewState { open: false, peeking: false, tab: CustomizeTab::Widgets, has_inspector: false }
    }
}

/// This frame's preview state: peeking needs the editor open and Tab held;
/// the inspector shows on the Widgets tab with a selection.
pub fn preview_state(open: bool, tab_held: bool, tab: CustomizeTab, has_selection: bool) -> (p: PreviewState)
    ensures
        p == (PreviewState {
            open,
            peeking: open && tab_held,
            tab,
            has_inspector: tab == CustomizeTab::Widgets && has_selection,
        }),
{
    PreviewState {
        open,
        peeking: open && tab_held,
        tab,
        has_inspector: tab == CustomizeTab::Widgets && has_selection,
    }
}

/// The widget the right inspector edits: the selection, while the editor
/// is open on the Widgets tab, unless it is the playfield (which has no
/// inspector); `None` hides the inspector.
pub fn inspector_widget<K: Clone + PartialEq>(open: bool, tab: CustomizeTab, selection: Option<K>, playfield: &K) -> (r: Option<K>)
    requires
        value_semantics::<K>(),
    ensures
        r == if open && tab == CustomizeTab::Widgets && selection is Some && selection->0 != *playfield {
            selection
        } else {
            None::<K>
        },
{
    if !open || tab != CustomizeTab::Widgets {
        return None;
    }
    match selection {
        Some(kind) => {
            if kind == *playfield {
                None
            } else {
                Some(kind)
            }
        },
        None => None,
    }
}

/// The decision that resolves an armed close guard this frame: a dialog
/// button (the last one requested) wins over the keys (Enter saves,
/// Escape cancels). Nothing resolves while no guard is up, nor on the frame
/// the guard was armed (the key that raised it must not also answer it).
pub fn close_guard_decision(
    pending: &PendingCloseState,
    armed_this_frame: bool,
    requested: &[CloseDecision],
    enter: bool,
    escape: bool,
) -> (d: Option<CloseDecision>)
    ensures
        (*pending is Idle || armed_this_frame) ==> d is None,
        !(*pending is Idle || armed_this_frame) && requested@.len() > 0 ==> d == Some(requested@.last()),
        !(*pending is Idle || armed_this_frame) && requested@.len() == 0 ==> d == (if escape {
            Some(CloseDecision::Cancel)
        } else if enter {
            Some(CloseDecision::SaveAll)
        } else {
            None
        }),
{
    if armed_this_frame {
        return None;
    }
    match pending {
        PendingCloseState::Idle => None,
        PendingCloseState::Pending(_) => {
            let n = requested.len();
            if n > 0 {
                Some(requested[n - 1])
            } else {
                close_decision_for_key(enter, escape)
            }
        },
    }
}

/// What finishing a close-guard decision does besides the guard itself.
#[derive(Debug, Clone, Copy, PartialEq, Eq, Structural)]
pub struct CloseEffects {
    /// The editor closes (and autoplay returns to its remembered value).
    pub close_editor: bool,
    /// An editor session ends: return to the title screen.
    pub exit_to_title: bool,
}

/// The guard state and effects after a resolved decision: a cancel drops
/// the guard; a close drops it, closes the editor and ends an editor
/// session; failed saves keep the guard up listing only the failed kinds.
pub fn apply_close_outcome(outcome: CloseOutcome, close: &PendingClose, editor_session: bool) -> (r: (
    PendingCloseState,
    CloseEffects,
))
    ensures
        match outcome {
            CloseOutcome::Cancelled => r.0 is Idle && !r.1.close_editor && !r.1.exit_to_title,
            CloseOutcome::Close(_) => r.0 is Idle && r.1.close_editor && r.1.exit_to_title == editor_session,
            CloseOutcome::StayOpen { failed } => r.0 == PendingCloseState::Pending(
                PendingClose { intent: close.intent, dirty: failed },
            ) && !r.1.close_editor && !r.1.exit_to_title,
        },
{
    match outcome {
        CloseOutcome::Cancelled => (PendingCloseState::Idle, CloseEffects { close_editor: false, exit_to_title: false }),
        CloseOutcome::Close(_) => (
            PendingCloseState::Idle,
            CloseEffects { close_editor: true, exit_to_title: editor_session },
        ),
        CloseOutcome::StayOpen { failed } => (
            PendingCloseState::Pending(PendingClose { intent: close.intent, dirty: failed }),
            CloseEffects { close_editor: false, exit_to_title: false },
        ),
    }
}

/// Entering a performance in an editor session opens the editor at once
/// with autoplay on, remembering the player's autoplay setting.
pub fn force_open_for_session(session: bool, open: &mut bool, prev_autoplay: &mut bool, autoplay: &mut bool)
    ensures
        !session ==> *final(open) == *old(open) && *final(prev_autoplay) == *old(prev_autoplay) && *final(
            autoplay) == *old(autoplay),
        session ==> *final(open) && *final(autoplay) && *final(prev_autoplay) == *old(autoplay),
{
    if !session {
        return;
    }
    *prev_autoplay = *autoplay;
    *autoplay = true;
    *open = true;
}

/// In an editor session the chart loops: once the clock passes the chart's
/// end, seek back to 0 instead of finishing the stage.
pub fn session_loop_seek(clock_ready: bool, chart_end_ms: i64, now_ms: i64) -> (seek: bool)
    ensures
        seek == (clock_ready && chart_end_ms > 0 && now_ms >= chart_end_ms),
{
    clock_ready && chart_end_ms > 0 && now_ms >= chart_end_ms
}

fn copy_draft<L: Clone + PartialEq>(d: &ProfileDraft<L>) -> (c: ProfileDraft<L>)
    requires
        value_semantics::<L>(),
    ensures
        c == *d,
{
    let saved = d.saved.clone();
    assert(cloned(d.saved, saved));
    let value = d.value.clone();
    assert(cloned(d.value, value));
    ProfileDraft { selected: d.selected.clone(), saved, value }
}

/// Mirror the live edit surfaces into the profile session so dirty tracking
/// sees every edit. When the surface has just opened, the current keyboard
/// and MIDI bindings become the clean baseline under their selected names;
/// afterwards a change of the live bindings becomes the drafts' working
/// values. A changed lane draft is copied over whole.
pub fn sync_drafts_to_session<K: Clone + PartialEq, M: Clone + PartialEq, L: Clone + PartialEq>(
    open: bool,
    was_open: &mut bool,
    live_changed: bool,
    keyboard: K,
    midi: M,
    lane_draft_changed: bool,
    lane_draft: &ProfileDraft<L>,
    session: &mut ProfileSession<K, M, L>,
)
    requires
        value_semantics::<K>(),
        value_semantics::<M>(),
        value_semantics::<L>(),
    ensures
        *final(was_open) == open,
        open && !*old(was_open) ==> {
            &&& final(session).keyboard.selected@ == old(session).keyboard.selected@
            &&& final(session).keyboard.saved == keyboard && final(session).keyboard.value == keyboard
            &&& final(session).midi.selected@ == old(session).midi.selected@
            &&& final(session).midi.saved == midi && final(session).midi.value == midi
            &&& !draft_dirty(final(session).keyboard) && !draft_dirty(final(session).midi)
        },
        !(open && !*old(was_open)) && live_changed ==> {
            &&& final(session).keyboard == (ProfileDraft { value: keyboard, ..old(session).keyboard })
            &&& final(session).midi == (ProfileDraft { value: midi, ..old(session).midi })
        },
        !(open && !*old(was_open)) && !live_changed ==> final(session).keyboard == old(session).keyboard
            && final(session).midi == old(session).midi,
        final(session).lanes == if lane_draft_changed { *lane_draft } else { old(session).lanes },
{
    let just_opened = open && !*was_open;
    *was_open = open;
    if just_opened {
        let k = ProfileDraft::clean(session.keyboard.selected.as_str(), keyboard);
        let m = ProfileDraft::clean(session.midi.selected.as_str(), midi);
        session.keyboard = k;
        session.midi = m;
    } else if live_changed {
        session.keyboard.value = keyboard;
        session.midi.value = midi;
    }
    if lane_draft_changed {
        session.lanes = copy_draft(lane_draft);
    }
}

} // verus!
