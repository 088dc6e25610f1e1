//! Lanes tab focus and selection: reorder rows, the detail card of the
//! selected lane, and the keyboard navigation between them.

use vstd::prelude::*;

use crate::editor::controls_panel::holds;
use crate::editor::nav::NavVerb;
use crate::lane_map::EChannel;

verus! {

/// Focus level inside the Lanes tab.
#[derive(Debug, Clone, Copy, PartialEq, Eq, Structural)]
pub enum LanesFocus {
    /// Focus rests on the Customize tab bar.
    TabBar,
    /// The lane row list has focus.
    Rows,
    /// The selected lane's detail card has focus.
    Detail,
}

impl Default for LanesFocus {
    fn default() -> (f: Self)
        ensures
            f == LanesFocus::TabBar,
    {
        LanesFocus::TabBar
    }
}

/// What a nav verb did, for the caller to apply: the reducer never touches
/// the lane arrangement or drafts directly.
#[derive(Debug, Clone, Copy, PartialEq, Eq, Structural)]
pub enum LanesNavEffect {
    NoEffect,
    /// Swap the lane at `index` with its neighbor in `dir` (-1 left, +1 right).
    Reorder { index: usize, dir: i32 },
    /// Nudge the lane at `index`'s width by `dir` steps.
    AdjustWidth { index: usize, dir: i32 },
}

/// Width nudge per Detail Left/Right press, in reference pixels (coarse: x4).
pub const WIDTH_STEP: i32 = 4;

/// The Lanes focus/selection transition.
pub open spec fn spec_lanes_nav(
    focus: LanesFocus,
    selected: int,
    lane_count: int,
    verb: NavVerb,
    coarse: bool,
) -> (LanesFocus, int, LanesNavEffect) {
    match focus {
        LanesFocus::TabBar => if (verb == NavVerb::Down || verb == NavVerb::Confirm) && lane_count > 0 {
            (LanesFocus::Rows, selected, LanesNavEffect::NoEffect)
        } else {
            (focus, selected, LanesNavEffect::NoEffect)
        },
        LanesFocus::Rows => if verb == NavVerb::Up && coarse && selected > 0 {
            (focus, selected - 1, LanesNavEffect::Reorder { index: selected as usize, dir: -1i32 })
        } else if verb == NavVerb::Down && coarse && selected + 1 < lane_count {
            (focus, selected + 1, LanesNavEffect::Reorder { index: selected as usize, dir: 1 })
        } else if verb == NavVerb::Up {
            if selected == 0 {
                (LanesFocus::TabBar, selected, LanesNavEffect::NoEffect)
            } else {
                (focus, selected - 1, LanesNavEffect::NoEffect)
            }
        } else if verb == NavVerb::Down {
            let last = if lane_count > 0 { lane_count - 1 } else { 0 };
            (focus, if selected + 1 < last { selected + 1 } else { last }, LanesNavEffect::NoEffect)
        } else if verb == NavVerb::Confirm && lane_count > 0 {
            (LanesFocus::Detail, selected, LanesNavEffect::NoEffect)
        } else if verb == NavVerb::Back {
            (LanesFocus::TabBar, selected, LanesNavEffect::NoEffect)
        } else {
            (focus, selected, LanesNavEffect::NoEffect)
        },
        LanesFocus::Detail => match verb {
            NavVerb::Dec => (focus, selected, LanesNavEffect::AdjustWidth { index: selected as usize, dir: -1i32 }),
            NavVerb::Inc => (focus, selected, LanesNavEffect::AdjustWidth { index: selected as usize, dir: 1 }),
            NavVerb::Up | NavVerb::Back => (LanesFocus::Rows, selected, LanesNavEffect::NoEffect),
            _ => (focus, selected, LanesNavEffect::NoEffect),
        },
    }
}

/// Apply one nav verb to the Lanes focus/selection state. `selected` and
/// `lane_count` bound the row cursor. With `coarse` held, Up/Down reorder
/// the focused row instead of just moving the cursor.
pub fn reduce_lanes_nav(
    focus: LanesFocus,
    selected: usize,
    lane_count: usize,
    verb: NavVerb,
    coarse: bool,
) -> (r: (LanesFocus, usize, LanesNavEffect))
    requires
        selected < usize::MAX,
    ensures
        (r.0, r.1 as int, r.2) == spec_lanes_nav(focus, selected as int, lane_count as int, verb, coarse),
{
    match focus {
        LanesFocus::TabBar => match verb {
            NavVerb::Down if lane_count > 0 => (LanesFocus::Rows, selected, LanesNavEffect::NoEffect),
            NavVerb::Confirm if lane_count > 0 => (LanesFocus::Rows, selected, LanesNavEffect::NoEffect),
            _ => (focus, selected, LanesNavEffect::NoEffect),
        },
        LanesFocus::Rows => match verb {
            NavVerb::Up if coarse && selected > 0 => (
                focus,
                selected - 1,
                LanesNavEffect::Reorder { index: selected, dir: -1 },
            ),
            NavVerb::Down if coarse && selected + 1 < lane_count => (
                focus,
                selected + 1,
                LanesNavEffect::Reorder { index: selected, dir: 1 },
            ),
            NavVerb::Up => {
                if selected == 0 {
                    (LanesFocus::TabBar, selected, LanesNavEffect::NoEffect)
                } else {
                    (focus, selected - 1, LanesNavEffect::NoEffect)
                }
            },
            NavVerb::Down => {
                let last = if lane_count > 0 { lane_count - 1 } else { 0 };
                (focus, if selected + 1 < last { selected + 1 } else { last }, LanesNavEffect::NoEffect)
            },
            NavVerb::Confirm if lane_count > 0 => (LanesFocus::Detail, selected, LanesNavEffect::NoEffect),
            NavVerb::Back => (LanesFocus::TabBar, selected, LanesNavEffect::NoEffect),
            _ => (focus, selected, LanesNavEffect::NoEffect),
        },
        LanesFocus::Detail => match verb {
            NavVerb::Dec => (focus, selected, LanesNavEffect::AdjustWidth { index: selected, dir: -1 }),
            NavVerb::Inc => (focus, selected, LanesNavEffect::AdjustWidth { index: selected, dir: 1 }),
            NavVerb::Up | NavVerb::Back => (LanesFocus::Rows, selected, LanesNavEffect::NoEffect),
            _ => (focus, selected, LanesNavEffect::NoEffect),
        },
    }
}

/// From a valid row, every transition keeps the cursor on a valid row, and
/// a reorder always names the row it moves from with a neighbor in range.
pub proof fn lemma_lanes_nav_in_range(
    focus: LanesFocus,
    selected: int,
    lane_count: int,
    verb: NavVerb,
    coarse: bool,
)
    requires
        0 <= selected < lane_count <= usize::MAX,
    ensures
        ({
            let (f2, s2, e) = spec_lanes_nav(focus, selected, lane_count, verb, coarse);
            &&& 0 <= s2 < lane_count
            &&& e matches LanesNavEffect::Reorder { index, dir } ==> index == selected && 0 <= index + dir
                < lane_count && s2 == index + dir
            &&& e matches LanesNavEffect::AdjustWidth { index, .. } ==> index == selected && f2
                == LanesFocus::Detail
        }),
{
}

/// Row focus ring: only while Rows is focused and the row is the selection.
pub fn lane_row_ring(focus: LanesFocus, is_selected: bool) -> (b: bool)
    ensures
        b == (focus == LanesFocus::Rows && is_selected),
{
    focus == LanesFocus::Rows && is_selected
}

/// Detail-card focus ring: only while Detail is focused.
pub fn lane_detail_ring(focus: LanesFocus) -> (b: bool)
    ensures
        b == (focus == LanesFocus::Detail),
{
    focus == LanesFocus::Detail
}

/// The row the keyboard acts on: the selection, or the first row, kept on
/// the last row when the list is shorter.
pub open spec fn spec_lanes_cursor(selected: Option<usize>, lane_count: int) -> int {
    let s: int = match selected {
        Some(i) => i as int,
        None => 0,
    };
    let last: int = if lane_count > 0 { lane_count - 1 } else { 0 };
    if s < last { s } else { last }
}

/// One keyboard verb's result on the Lanes tab.
#[derive(Debug, Clone, Copy, PartialEq, Eq, Structural)]
pub struct LanesStep {
    pub focus: LanesFocus,
    pub selected: Option<usize>,
    /// What the caller applies to the lane arrangement.
    pub effect: LanesNavEffect,
    /// Focus is off the detail card: the next real width edit takes a new
    /// undo snapshot.
    pub rearm_width_undo: bool,
}

/// One keyboard verb on the Lanes tab: the verb acts on the cursor row;
/// the selection follows the reducer except while focus rests on the tab
/// bar, where it is kept.
pub fn lanes_nav_step(
    focus: LanesFocus,
    selected: Option<usize>,
    lane_count: usize,
    verb: NavVerb,
    coarse: bool,
) -> (r: LanesStep)
    ensures
        ({
            let (f2, s2, e) = spec_lanes_nav(focus, spec_lanes_cursor(selected, lane_count as int), lane_count as int, verb, coarse);
            &&& r.focus == f2
            &&& r.effect == e
            &&& r.rearm_width_undo == (f2 != LanesFocus::Detail)
            &&& r.selected == if f2 != LanesFocus::TabBar { Some(s2 as usize) } else { selected }
        }),
{
    let s: usize = match selected {
        Some(i) => i,
        None => 0,
    };
    let last: usize = if lane_count > 0 { lane_count - 1 } else { 0 };
    let cursor = if s < last { s } else { last };
    let (f2, s2, effect) = reduce_lanes_nav(focus, cursor, lane_count, verb, coarse);
    let next_selected = if f2 != LanesFocus::TabBar { Some(s2) } else { selected };
    LanesStep { focus: f2, selected: next_selected, effect, rearm_width_undo: f2 != LanesFocus::Detail }
}

/// Switching tabs drops Lanes focus back to the tab bar (and re-arms the
/// width undo snapshot) unless it is already there.
pub fn lanes_on_tab_changed(focus: LanesFocus) -> (r: (LanesFocus, bool))
    ensures
        r == if focus != LanesFocus::TabBar { (LanesFocus::TabBar, true) } else { (focus, false) },
{
    if focus != LanesFocus::TabBar {
        (LanesFocus::TabBar, true)
    } else {
        (focus, false)
    }
}

/// Escape on the detail card means Back (to the rows), not "close".
pub fn lanes_escape_is_back(focus: LanesFocus, escape: bool) -> (b: bool)
    ensures
        b == (escape && focus == LanesFocus::Detail),
{
    escape && focus == LanesFocus::Detail
}

/// Where a reorder moves a row: `index + dir`, saturating at the ends of
/// the index range.
pub fn reorder_target(index: usize, dir: i32) -> (t: usize)
    ensures
        t as int == if index + dir < 0 { 0 } else if index + dir > usize::MAX { usize::MAX as int } else { index + dir },
{
    if dir < 0 {
        let d: usize = (0i64 - dir as i64) as usize;
        if index < d { 0 } else { index - d }
    } else {
        let d: usize = dir as usize;
        if index > usize::MAX - d { usize::MAX } else { index + d }
    }
}

/// Lane `i` is the first lane showing `ch`.
pub open spec fn first_lane_of(lanes: Seq<Seq<EChannel>>, ch: EChannel, i: int) -> bool {
    &&& 0 <= i < lanes.len()
    &&& holds(lanes[i], ch)
    &&& forall|j: int| 0 <= j < i ==> !holds(#[trigger] lanes[j], ch)
}

/// `ch` may be added to lane `index`: it is on no lane, or it is a
/// secondary chip (not the primary, which leads the lane) of another lane.
pub open spec fn addable(lanes: Seq<Seq<EChannel>>, index: int, ch: EChannel) -> bool {
    if exists|i: int| 0 <= i < lanes.len() && holds(#[trigger] lanes[i], ch) {
        exists|i: int| #[trigger] first_lane_of(lanes, ch, i) && i != index && lanes[i][0] != ch
    } else {
        true
    }
}

/// The channels of `all` addable to lane `index`, in order.
pub open spec fn spec_addable(lanes: Seq<Seq<EChannel>>, index: int, all: Seq<EChannel>) -> Seq<EChannel>
    decreases all.len(),
{
    if all.len() == 0 {
        Seq::empty()
    } else {
        let rest = spec_addable(lanes, index, all.drop_last());
        if addable(lanes, index, all.last()) { rest.push(all.last()) } else { rest }
    }
}

fn lane_index_of(lane_chips: &[Vec<EChannel>], ch: EChannel) -> (r: Option<usize>)
    ensures
        r matches Some(i) ==> first_lane_of(lane_chips@.map_values(|c: Vec<EChannel>| c@), ch, i as int),
        r is None ==> forall|i: int| 0 <= i < lane_chips@.len() ==> !holds(#[trigger] lane_chips@[i]@, ch),
{
    let ghost lanes = lane_chips@.map_values(|c: Vec<EChannel>| c@);
    let n = lane_chips.len();
    for i in 0..n
        invariant
            n == lane_chips@.len(),
            lanes == lane_chips@.map_values(|c: Vec<EChannel>| c@),
            forall|j: int| 0 <= j < i ==> !holds(#[trigger] lane_chips@[j]@, ch),
    {
        let chips = &lane_chips[i];
        let m = chips.len();
        let mut found = false;
        for k in 0..m
            invariant
                m == chips@.len(),
                !found ==> forall|j: int| 0 <= j < k ==> chips@[j] != ch,
                found ==> holds(chips@, ch),
        {
            if chips[k] == ch {
                found = true;
            }
        }
        if found {
            proof {
                assert forall|j: int| 0 <= j < i implies !holds(#[trigger] lanes[j], ch) by {
                    assert(lanes[j] == lane_chips@[j]@);
                }
                assert(lanes[i as int] == chips@);
            }
            return Some(i);
        }
    }
    None
}

/// Channels addable to lane `index` (the chips of lane `i` are
/// `lane_chips[i]`, primary first): every channel of `drum_channels` on no
/// lane, plus every channel that is a secondary chip of another lane.
/// Moving a primary would leave its lane empty, so primaries are not
/// offered.
pub fn addable_channels(lane_chips: &[Vec<EChannel>], index: usize, drum_channels: &[EChannel]) -> (out: Vec<EChannel>)
    ensures
        out@ == spec_addable(lane_chips@.map_values(|c: Vec<EChannel>| c@), index as int, drum_channels@),
{
    let ghost lanes = lane_chips@.map_values(|c: Vec<EChannel>| c@);
    let mut out: Vec<EChannel> = Vec::new();
    let n = drum_channels.len();
    for k in 0..n
        invariant
            n == drum_channels@.len(),
            lanes == lane_chips@.map_values(|c: Vec<EChannel>| c@),
            out@ == spec_addable(lanes, index as int, drum_channels@.take(k as int)),
    {
        assert(drum_channels@.take(k + 1).drop_last() =~= drum_channels@.take(k as int));
        let ch = drum_channels[k];
        let keep = match lane_index_of(lane_chips, ch) {
            None => {
                assert forall|i: int| 0 <= i < lanes.len() implies !holds(#[trigger] lanes[i], ch) by {
                    assert(lanes[i] == lane_chips@[i]@);
                }
                true
            },
            Some(cur) => {
                assert(holds(lanes[cur as int], ch));
                let first_is_primary = lane_chips[cur].len() > 0 && lane_chips[cur][0] == ch;
                assert(lanes[cur as int] == lane_chips@[cur as int]@);
                cur != index && !first_is_primary
            },
        };
        if keep {
            out.push(ch);
        }
    }
    assert(drum_channels@.take(n as int) =~= drum_channels@);
    out
}

} // verus!
