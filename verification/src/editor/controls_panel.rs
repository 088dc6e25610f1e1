//! Controls tab segment state and focus contract.
//!
//! The Controls tab hosts two segments (`Keyboard | MIDI`) behind one
//! top-level Customize tab. Focus moves in levels: tab bar, segment
//! selector, mapping rows. Down/Enter descends, Up returns one level,
//! Left/Right switches the segment while the selector has focus. Switching
//! segments or tabs never touches profile drafts.

use vstd::prelude::*;

use crate::editor::nav::NavVerb;
use crate::lane_map::EChannel;

verus! {

/// Whether `s` already holds `ch`.
pub open spec fn holds(s: Seq<EChannel>, ch: EChannel) -> bool {
    exists|i: int| 0 <= i < s.len() && s[i] == ch
}

/// `s` with the channels of `extra` appended that it does not hold yet,
/// in order.
pub open spec fn add_new(s: Seq<EChannel>, extra: Seq<EChannel>) -> Seq<EChannel>
    decreases extra.len(),
{
    if extra.len() == 0 {
        s
    } else {
        let prev = add_new(s, extra.drop_last());
        if holds(prev, extra.last()) { prev } else { prev.push(extra.last()) }
    }
}

/// The display order of lanes' chip lists: lanes left to right, each lane's
/// chips in order, each channel once (at its first appearance).
pub open spec fn spec_display_order(lanes: Seq<Seq<EChannel>>) -> Seq<EChannel>
    decreases lanes.len(),
{
    if lanes.len() == 0 {
        Seq::empty()
    } else {
        add_new(spec_display_order(lanes.drop_last()), lanes.last())
    }
}

fn contains_channel(v: &[EChannel], ch: EChannel) -> (b: bool)
    ensures
        b == holds(v@, ch),
{
    let n = v.len();
    for k in 0..n
        invariant
            n == v@.len(),
            forall|i: int| 0 <= i < k ==> v@[i] != ch,
    {
        if v[k] == ch {
            return true;
        }
    }
    false
}

/// Channels in display order for Controls rows: lanes left to right, each
/// lane's chips as given (primary first), each channel exactly once.
/// `lane_chips[i]` lists the channels mapped to display lane `i`.
pub fn channels_in_display_order(lane_chips: &[Vec<EChannel>]) -> (out: Vec<EChannel>)
    ensures
        out@ == spec_display_order(lane_chips@.map_values(|c: Vec<EChannel>| c@)),
{
    let ghost lanes = lane_chips@.map_values(|c: Vec<EChannel>| c@);
    let mut out: Vec<EChannel> = Vec::new();
    let n = lane_chips.len();
    for index in 0..n
        invariant
            n == lane_chips@.len(),
            lanes == lane_chips@.map_values(|c: Vec<EChannel>| c@),
            out@ == spec_display_order(lanes.take(index as int)),
    {
        assert(lanes.take(index + 1).drop_last() =~= lanes.take(index as int));
        let chips = &lane_chips[index];
        let ghost base = out@;
        let m = chips.len();
        for k in 0..m
            invariant
                m == chips@.len(),
                out@ == add_new(base, chips@.take(k as int)),
        {
            assert(chips@.take(k + 1).drop_last() =~= chips@.take(k as int));
            let channel = chips[k];
            if !contains_channel(out.as_slice(), channel) {
                out.push(channel);
            }
        }
        assert(chips@.take(m as int) =~= chips@);
        assert(lanes.take(index + 1).last() == chips@);
    }
    assert(lanes.take(n as int) =~= lanes);
    out
}

/// Each channel appears at most once in a display order built on a list
/// without repeats.
pub proof fn lemma_add_new_no_repeats(s: Seq<EChannel>, extra: Seq<EChannel>)
    requires
        s.no_duplicates(),
    ensures
        add_new(s, extra).no_duplicates(),
        forall|i: int| 0 <= i < extra.len() ==> holds(add_new(s, extra), #[trigger] extra[i]),
    decreases extra.len(),
{
    if extra.len() > 0 {
        let prev = add_new(s, extra.drop_last());
        lemma_add_new_no_repeats(s, extra.drop_last());
        if !holds(prev, extra.last()) {
            let next = prev.push(extra.last());
            assert forall|a: int, b: int| 0 <= a < b < next.len() implies next[a] != next[b] by {
                if b == next.len() - 1 {
                    assert(next[a] == prev[a]);
                }
            }
        }
        let r = add_new(s, extra);
        assert forall|i: int| 0 <= i < extra.len() implies holds(r, #[trigger] extra[i]) by {
            if i < extra.len() - 1 {
                assert(extra[i] == extra.drop_last()[i]);
                let j = choose|j: int| 0 <= j < prev.len() && prev[j] == extra[i];
                assert(r[j] == prev[j]);
            } else if holds(prev, extra.last()) {
            } else {
                assert(r[prev.len() as int] == extra.last());
            }
        }
    }
}

/// The display order lists every lane's channels, each exactly once.
pub proof fn lemma_display_order_once(lanes: Seq<Seq<EChannel>>)
    ensures
        spec_display_order(lanes).no_duplicates(),
    decreases lanes.len(),
{
    if lanes.len() > 0 {
        lemma_display_order_once(lanes.drop_last());
        lemma_add_new_no_repeats(spec_display_order(lanes.drop_last()), lanes.last());
    }
}

/// How a MIDI port filter resolved against the enumerated input ports.
#[derive(Debug, Clone, Copy, PartialEq, Eq, Structural)]
pub enum PortMatch {
    /// No filter: connect to the first available port.
    FirstAvailable,
    /// Exact case-sensitive full-name match.
    Exact(usize),
    /// First case-sensitive substring match in enumeration order;
    /// `ambiguous` warns when several ports matched.
    Substring { index: usize, ambiguous: bool },
    /// Filter matched nothing. The profile stays active and editable.
    Disconnected,
}

/// Unicode whitespace (the White_Space property, as `char::is_whitespace`):
/// U+0009 to U+000D, space, U+0085, U+00A0, U+1680, U+2000 to U+200A,
/// U+2028, U+2029, U+202F, U+205F and U+3000.
pub open spec fn is_space(c: char) -> bool {
    ||| '\u{9}' <= c && c <= '\u{d}'
    ||| c == ' '
    ||| c == '\u{85}'
    ||| c == '\u{a0}'
    ||| c == '\u{1680}'
    ||| '\u{2000}' <= c && c <= '\u{200a}'
    ||| c == '\u{2028}'
    ||| c == '\u{2029}'
    ||| c == '\u{202f}'
    ||| c == '\u{205f}'
    ||| c == '\u{3000}'
}

fn space_char(c: char) -> (b: bool)
    ensures
        b == is_space(c),
{
    ('\u{9}' <= c && c <= '\u{d}') || c == ' ' || c == '\u{85}' || c == '\u{a0}' || c == '\u{1680}' || ('\u{2000}'
        <= c && c <= '\u{200a}') || c == '\u{2028}' || c == '\u{2029}' || c == '\u{202f}' || c == '\u{205f}' || c
        == '\u{3000}'
}

/// `s` without its leading whitespace.
pub open spec fn trim_start(s: Seq<char>) -> Seq<char>
    decreases s.len(),
{
    if s.len() > 0 && is_space(s[0]) {
        trim_start(s.drop_first())
    } else {
        s
    }
}

/// `s` without its trailing whitespace.
pub open spec fn trim_end(s: Seq<char>) -> Seq<char>
    decreases s.len(),
{
    if s.len() > 0 && is_space(s.last()) {
        trim_end(s.drop_last())
    } else {
        s
    }
}

/// Text with leading and trailing whitespace removed (what `str::trim`
/// gives).
pub open spec fn trimmed(s: Seq<char>) -> Seq<char> {
    trim_end(trim_start(s))
}

/// Text made only of whitespace (or empty) trims to nothing.
pub proof fn lemma_blank_trims_empty(s: Seq<char>)
    requires
        forall|i: int| 0 <= i < s.len() ==> is_space(#[trigger] s[i]),
    ensures
        trimmed(s).len() == 0,
    decreases s.len(),
{
    if s.len() > 0 {
        let d = s.drop_first();
        assert forall|i: int| 0 <= i < d.len() implies is_space(#[trigger] d[i]) by {
            assert(d[i] == s[i + 1]);
        }
        lemma_blank_trims_empty(d);
    }
}

/// The text without leading and trailing whitespace.
fn trim_text(s: &str) -> (t: &str)
    ensures
        t@ == trimmed(s@),
{
    let n = s.unicode_len();
    let mut i: usize = 0;
    assert(s@.subrange(0, n as int) =~= s@);
    while i < n && space_char(s.get_char(i))
        invariant
            i <= n,
            n == s@.len(),
            trim_start(s@) == trim_start(s@.subrange(i as int, n as int)),
        decreases n - i,
    {
        assert(s@.subrange(i as int, n as int)[0] == s@[i as int]);
        assert(s@.subrange(i as int, n as int).drop_first() =~= s@.subrange(i + 1, n as int));
        i = i + 1;
    }
    if i < n {
        assert(s@.subrange(i as int, n as int)[0] == s@[i as int]);
    }
    let mut j: usize = n;
    while j > i && space_char(s.get_char(j - 1))
        invariant
            i <= j <= n,
            n == s@.len(),
            trim_start(s@) == s@.subrange(i as int, n as int),
            trimmed(s@) == trim_end(s@.subrange(i as int, j as int)),
        decreases j - i,
    {
        assert(s@.subrange(i as int, j as int).last() == s@[j - 1]);
        assert(s@.subrange(i as int, j as int).drop_last() =~= s@.subrange(i as int, j - 1));
        j = j - 1;
    }
    if j > i {
        assert(s@.subrange(i as int, j as int).last() == s@[j - 1]);
    }
    s.substring_char(i, j)
}

/// `needle` occurs in `hay` as a contiguous run.
pub open spec fn occurs_in(needle: Seq<char>, hay: Seq<char>) -> bool {
    exists|i: int| 0 <= i && i + needle.len() <= hay.len() && #[trigger] hay.subrange(i, i + needle.len()) == needle
}

/// Whether `needle` occurs in `hay` (what `str::contains` answers for a
/// string pattern; an empty needle occurs everywhere).
fn text_contains(hay: &str, needle: &str) -> (b: bool)
    ensures
        b == occurs_in(needle@, hay@),
{
    let h = hay.unicode_len();
    let m = needle.unicode_len();
    if m > h {
        return false;
    }
    let mut i: usize = 0;
    while i <= h - m
        invariant
            h == hay@.len(),
            m == needle@.len(),
            m <= h,
            i <= h - m + 1,
            forall|k: int| 0 <= k < i ==> #[trigger] hay@.subrange(k, k + needle@.len()) != needle@,
        decreases h - m + 1 - i,
    {
        let mut j: usize = 0;
        let mut same = true;
        while j < m && same
            invariant
                h == hay@.len(),
                m == needle@.len(),
                i + m <= h,
                j <= m,
                same ==> forall|t: int| 0 <= t < j ==> hay@[i + t] == needle@[t],
                !same ==> exists|t: int| 0 <= t < m && hay@[i + t] != needle@[t],
            decreases m - j + (if same { 1int } else { 0int }),
        {
            if hay.get_char(i + j) != needle.get_char(j) {
                same = false;
            } else {
                j = j + 1;
            }
        }
        if same {
            assert(hay@.subrange(i as int, i + m) =~= needle@);
            return true;
        }
        proof {
            let t = choose|t: int| 0 <= t < m && hay@[i + t] != needle@[t];
            assert(hay@.subrange(i as int, i + m)[t] == hay@[i + t]);
        }
        i = i + 1;
    }
    proof {
        assert forall|k: int| 0 <= k && k + needle@.len() <= hay@.len() implies #[trigger] hay@.subrange(
            k,
            k + needle@.len(),
        ) != needle@ by {
            assert(k < i);
        }
    }
    false
}

/// The stored port filter after normalization.
pub open spec fn spec_normalized(filter: Option<Seq<char>>) -> Option<Seq<char>> {
    match filter {
        None => None,
        Some(f) => if trimmed(f).len() == 0 { None } else { Some(trimmed(f)) },
    }
}

pub open spec fn opt_view(o: Option<&str>) -> Option<Seq<char>> {
    match o {
        Some(s) => Some(s@),
        None => None,
    }
}

/// Normalize a stored port filter: empty or whitespace-only becomes `None`
/// (first available).
pub fn normalize_port_filter(filter: Option<&str>) -> (r: Option<String>)
    ensures
        r is None <==> spec_normalized(opt_view(filter)) is None,
        r matches Some(s) ==> spec_normalized(opt_view(filter)) == Some(s@),
{
    match filter {
        None => None,
        Some(f) => {
            let t = trim_text(f);
            if t.unicode_len() == 0 {
                None
            } else {
                Some(t.to_owned())
            }
        },
    }
}

/// Port `i` is the first whose name equals `f`.
pub open spec fn first_exact(ports: Seq<String>, f: Seq<char>, i: int) -> bool {
    &&& 0 <= i < ports.len()
    &&& ports[i]@ == f
    &&& forall|j: int| 0 <= j < i ==> (#[trigger] ports[j])@ != f
}

/// How `filter` resolves against `ports`.
pub open spec fn spec_match(filter: Option<Seq<char>>, ports: Seq<String>, m: PortMatch) -> bool {
    match spec_normalized(filter) {
        None => m == PortMatch::FirstAvailable,
        Some(f) => if exists|i: int| 0 <= i < ports.len() && (#[trigger] ports[i])@ == f {
            m matches PortMatch::Exact(i) && first_exact(ports, f, i as int)
        } else if exists|i: int| 0 <= i < ports.len() && occurs_in(f, (#[trigger] ports[i])@) {
            m matches PortMatch::Substring { index, ambiguous } && {
                &&& 0 <= index < ports.len()
                &&& occurs_in(f, ports[index as int]@)
                &&& forall|j: int| 0 <= j < index ==> !occurs_in(f, (#[trigger] ports[j])@)
                &&& ambiguous == exists|j: int| index < j < ports.len() && occurs_in(f, (#[trigger] ports[j])@)
            }
        } else {
            m == PortMatch::Disconnected
        },
    }
}

/// A blank port filter (empty or only whitespace) means "first available
/// port", whatever ports are enumerated.
pub proof fn lemma_blank_filter_first_available(f: Seq<char>, ports: Seq<String>, m: PortMatch)
    requires
        forall|i: int| 0 <= i < f.len() ==> is_space(#[trigger] f[i]),
    ensures
        spec_normalized(Some(f)) == None::<Seq<char>>,
        spec_match(Some(f), ports, m) <==> m == PortMatch::FirstAvailable,
{
    lemma_blank_trims_empty(f);
}

/// Resolve a port filter against enumerated port names. Exact case-sensitive
/// full name wins; otherwise the first case-sensitive substring match in
/// enumeration order, flagged ambiguous when several match; no match is
/// `Disconnected`. Never switches profiles.
pub fn match_midi_port(filter: Option<&str>, enumerated: &[String]) -> (m: PortMatch)
    ensures
        spec_match(opt_view(filter), enumerated@, m),
{
    let f = match normalize_port_filter(filter) {
        None => return PortMatch::FirstAvailable,
        Some(f) => f,
    };
    let n = enumerated.len();
    for k in 0..n
        invariant
            n == enumerated@.len(),
            spec_normalized(opt_view(filter)) == Some(f@),
            forall|j: int| 0 <= j < k ==> (#[trigger] enumerated@[j])@ != f@,
    {
        if enumerated[k] == f {
            assert(enumerated@[k as int]@ == f@);
            return PortMatch::Exact(k);
        }
    }
    let mut first: Option<usize> = None;
    let mut ambiguous = false;
    for k in 0..n
        invariant
            n == enumerated@.len(),
            spec_normalized(opt_view(filter)) == Some(f@),
            forall|j: int| 0 <= j < n ==> (#[trigger] enumerated@[j])@ != f@,
            first is None ==> forall|j: int| 0 <= j < k ==> !occurs_in(f@, (#[trigger] enumerated@[j])@),
            first matches Some(i) ==> {
                &&& 0 <= i < k
                &&& occurs_in(f@, enumerated@[i as int]@)
                &&& forall|j: int| 0 <= j < i ==> !occurs_in(f@, (#[trigger] enumerated@[j])@)
                &&& ambiguous == exists|j: int| i < j < k && occurs_in(f@, (#[trigger] enumerated@[j])@)
            },
            first is None ==> !ambiguous,
    {
        if text_contains(enumerated[k].as_str(), f.as_str()) {
            match first {
                None => first = Some(k),
                Some(_) => ambiguous = true,
            }
        }
    }
    match first {
        Some(index) => PortMatch::Substring { index, ambiguous },
        None => PortMatch::Disconnected,
    }
}

/// Which Controls segment is active.
#[derive(Debug, Clone, Copy, PartialEq, Eq, Structural)]
pub enum ControlsSegment {
    Keyboard,
    Midi,
}

impl Default for ControlsSegment {
    fn default() -> (s: Self)
        ensures
            s == ControlsSegment::Keyboard,
    {
        ControlsSegment::Keyboard
    }
}

/// The other segment.
pub open spec fn spec_toggled(s: ControlsSegment) -> ControlsSegment {
    match s {
        ControlsSegment::Keyboard => ControlsSegment::Midi,
        ControlsSegment::Midi => ControlsSegment::Keyboard,
    }
}

impl ControlsSegment {
    /// The other segment.
    pub fn toggled(self) -> (s: Self)
        ensures
            s == spec_toggled(self),
    {
        match self {
            Self::Keyboard => Self::Midi,
            Self::Midi => Self::Keyboard,
        }
    }

    /// The segment's label.
    pub fn label(self) -> (l: &'static str)
        ensures
            self == ControlsSegment::Keyboard ==> l@ == "Keyboard"@,
            self == ControlsSegment::Midi ==> l@ == "MIDI"@,
    {
        match self {
            Self::Keyboard => "Keyboard",
            Self::Midi => "MIDI",
        }
    }
}

/// Focus level inside the Controls tab.
#[derive(Debug, Clone, Copy, PartialEq, Eq, Structural)]
pub enum ControlsFocus {
    /// Focus rests on the Customize tab bar.
    TabBar,
    /// The `Keyboard | MIDI` segment selector has focus.
    SegmentSelector,
    /// A profile/mapping row inside the active segment has focus.
    Rows,
}

impl Default for ControlsFocus {
    fn default() -> (f: Self)
        ensures
            f == ControlsFocus::TabBar,
    {
        ControlsFocus::TabBar
    }
}

/// The Controls focus transition.
pub open spec fn spec_controls_nav(focus: ControlsFocus, segment: ControlsSegment, verb: NavVerb) -> (ControlsFocus, ControlsSegment) {
    match focus {
        ControlsFocus::TabBar => match verb {
            NavVerb::Down | NavVerb::Confirm => (ControlsFocus::SegmentSelector, segment),
            _ => (focus, segment),
        },
        ControlsFocus::SegmentSelector => match verb {
            NavVerb::Dec | NavVerb::Inc => (focus, spec_toggled(segment)),
            NavVerb::Down | NavVerb::Confirm => (ControlsFocus::Rows, segment),
            NavVerb::Up | NavVerb::Back => (ControlsFocus::TabBar, segment),
        },
        ControlsFocus::Rows => match verb {
            NavVerb::Up | NavVerb::Back => (ControlsFocus::SegmentSelector, segment),
            _ => (focus, segment),
        },
    }
}

/// Apply one navigation verb to the Controls focus state. Returns the next
/// focus level and segment; drafts are never part of this transition.
pub fn reduce_controls_nav(focus: ControlsFocus, segment: ControlsSegment, verb: NavVerb) -> (r: (ControlsFocus, ControlsSegment))
    ensures
        r == spec_controls_nav(focus, segment, verb),
{
    match focus {
        ControlsFocus::TabBar => match verb {
            NavVerb::Down | NavVerb::Confirm => (ControlsFocus::SegmentSelector, segment),
            _ => (focus, segment),
        },
        ControlsFocus::SegmentSelector => match verb {
            NavVerb::Dec | NavVerb::Inc => (focus, segment.toggled()),
            NavVerb::Down | NavVerb::Confirm => (ControlsFocus::Rows, segment),
            NavVerb::Up | NavVerb::Back => (ControlsFocus::TabBar, segment),
        },
        ControlsFocus::Rows => match verb {
            NavVerb::Up | NavVerb::Back => (ControlsFocus::SegmentSelector, segment),
            _ => (focus, segment),
        },
    }
}

/// Focus moves one level at a time, the segment changes only by a toggle on
/// the selector, and Back always climbs towards the tab bar.
pub proof fn lemma_controls_nav_one_level(focus: ControlsFocus, segment: ControlsSegment, verb: NavVerb)
    ensures
        ({
            let (f2, s2) = spec_controls_nav(focus, segment, verb);
            &&& s2 != segment ==> focus == ControlsFocus::SegmentSelector && f2 == focus
            &&& (focus == ControlsFocus::TabBar ==> f2 != ControlsFocus::Rows)
            &&& (focus == ControlsFocus::Rows ==> f2 != ControlsFocus::TabBar)
            &&& (verb == NavVerb::Back && focus != ControlsFocus::TabBar) ==> f2 != focus
                && f2 != ControlsFocus::Rows
        }),
{
}

/// Outcome of one Up/Down step through the Controls rows.
#[derive(Debug, Clone, Copy, PartialEq, Eq, Structural)]
pub enum RowStep {
    /// Up from the first row: focus returns to the segment selector.
    ToSegmentSelector,
    /// The row cursor lands on this channel.
    Select(EChannel),
    /// Nothing to do (Down on an empty row list).
    Stay,
}

/// The first position of `ch` in `s`, if any.
pub open spec fn first_pos(s: Seq<EChannel>, ch: EChannel, i: int) -> bool {
    0 <= i < s.len() && s[i] == ch && forall|j: int| 0 <= j < i ==> s[j] != ch
}

/// One row-cursor step.
pub open spec fn spec_step_channel(channels: Seq<EChannel>, current: Option<EChannel>, dir: int, r: RowStep) -> bool {
    if channels.len() == 0 {
        r == if dir < 0 { RowStep::ToSegmentSelector } else { RowStep::Stay }
    } else {
        match current {
            Some(ch) if holds(channels, ch) => {
                exists|i: int| #[trigger] first_pos(channels, ch, i) && r == if dir < 0 {
                    if i == 0 { RowStep::ToSegmentSelector } else { RowStep::Select(channels[i - 1]) }
                } else {
                    RowStep::Select(channels[if i + 1 < channels.len() { i + 1 } else { channels.len() - 1 }])
                }
            },
            _ => r == RowStep::Select(channels[0]),
        }
    }
}

/// Step the row cursor through `channels` (the panel's display order). A
/// missing or stale `current` clamps to the first channel; Up from the first
/// row hands focus back to the segment selector.
pub fn step_channel(channels: &[EChannel], current: Option<EChannel>, dir: i32) -> (r: RowStep)
    ensures
        spec_step_channel(channels@, current, dir as int, r),
{
    let n = channels.len();
    if n == 0 {
        return if dir < 0 { RowStep::ToSegmentSelector } else { RowStep::Stay };
    }
    let ch = match current {
        None => return RowStep::Select(channels[0]),
        Some(ch) => ch,
    };
    let mut found: Option<usize> = None;
    for k in 0..n
        invariant
            n == channels@.len(),
            found is None ==> forall|j: int| 0 <= j < k ==> channels@[j] != ch,
            found matches Some(i) ==> first_pos(channels@, ch, i as int),
    {
        if found.is_none() && channels[k] == ch {
            found = Some(k);
        }
    }
    match found {
        None => RowStep::Select(channels[0]),
        Some(index) => {
            assert(holds(channels@, ch));
            let r = if dir < 0 {
                if index == 0 { RowStep::ToSegmentSelector } else { RowStep::Select(channels[index - 1]) }
            } else {
                RowStep::Select(channels[if index + 1 < n { index + 1 } else { n - 1 }])
            };
            assert(first_pos(channels@, ch, index as int));
            r
        },
    }
}

/// The channels of `s` that are listed in `allowed`, in order.
pub open spec fn keep_listed(s: Seq<EChannel>, allowed: Seq<EChannel>) -> Seq<EChannel>
    decreases s.len(),
{
    if s.len() == 0 {
        Seq::empty()
    } else {
        let rest = keep_listed(s.drop_last(), allowed);
        if holds(allowed, s.last()) { rest.push(s.last()) } else { rest }
    }
}

/// The Controls rows' channel order: the bindable channels in display
/// order, then any bindable channel the arrangement does not show.
pub open spec fn spec_bindable_order(lanes: Seq<Seq<EChannel>>, bindable: Seq<EChannel>) -> Seq<EChannel> {
    add_new(keep_listed(spec_display_order(lanes), bindable), bindable)
}

/// Bindings are shown in the active display arrangement (the shared
/// display-order contract); bindable channels missing from the arrangement
/// still get a row at the end. `bindable` lists the bindable channels.
pub fn bindable_channels_in_order(lane_chips: &[Vec<EChannel>], bindable: &[EChannel]) -> (out: Vec<EChannel>)
    ensures
        out@ == spec_bindable_order(lane_chips@.map_values(|c: Vec<EChannel>| c@), bindable@),
{
    let display = channels_in_display_order(lane_chips);
    let ghost d = display@;
    let mut out: Vec<EChannel> = Vec::new();
    let n = display.len();
    for k in 0..n
        invariant
            n == d.len(),
            d == display@,
            out@ == keep_listed(d.take(k as int), bindable@),
    {
        assert(d.take(k + 1).drop_last() =~= d.take(k as int));
        if contains_channel(bindable, display[k]) {
            out.push(display[k]);
        }
    }
    assert(d.take(n as int) =~= d);
    let ghost base = out@;
    let m = bindable.len();
    for k in 0..m
        invariant
            m == bindable@.len(),
            out@ == add_new(base, bindable@.take(k as int)),
    {
        assert(bindable@.take(k + 1).drop_last() =~= bindable@.take(k as int));
        let channel = bindable[k];
        if !contains_channel(out.as_slice(), channel) {
            out.push(channel);
        }
    }
    assert(bindable@.take(m as int) =~= bindable@);
    out
}

/// The Controls focus, segment and row cursor after one keyboard verb,
/// and the channel whose capture it arms (in the active segment), if any.
#[derive(Debug, Clone, Copy, PartialEq, Eq, Structural)]
pub struct ControlsStep {
    pub focus: ControlsFocus,
    pub segment: ControlsSegment,
    pub selected: Option<EChannel>,
    pub arm: Option<EChannel>,
}

/// `selected` names a channel of the rows.
pub open spec fn on_a_row(channels: Seq<EChannel>, selected: Option<EChannel>) -> bool {
    selected matches Some(ch) && holds(channels, ch)
}

/// Row direction of a verb: Up walks back, anything else forward.
pub open spec fn verb_dir(verb: NavVerb) -> int {
    if verb == NavVerb::Up { -1 } else { 1 }
}

/// The Controls keyboard transition over the rows `channels`.
pub open spec fn spec_controls_step(
    focus: ControlsFocus,
    segment: ControlsSegment,
    selected: Option<EChannel>,
    channels: Seq<EChannel>,
    verb: NavVerb,
    r: ControlsStep,
) -> bool {
    if focus == ControlsFocus::Rows && (verb == NavVerb::Up || verb == NavVerb::Down) {
        exists|step: RowStep|
            #[trigger] spec_step_channel(channels, selected, verb_dir(verb), step)
                && r.arm is None && match step {
                RowStep::ToSegmentSelector => (r.focus, r.segment) == spec_controls_nav(focus, segment, NavVerb::Up)
                    && r.selected == selected,
                RowStep::Select(ch) => r.focus == focus && r.segment == segment && r.selected == Some(ch),
                RowStep::Stay => r.focus == focus && r.segment == segment && r.selected == selected,
            }
    } else if focus == ControlsFocus::Rows && verb == NavVerb::Confirm {
        &&& r.focus == focus
        &&& r.segment == segment
        &&& r.selected == selected
        &&& r.arm == if on_a_row(channels, selected) { selected } else { None }
    } else {
        let (f2, s2) = spec_controls_nav(focus, segment, verb);
        &&& r.focus == f2
        &&& r.segment == s2
        &&& r.arm is None
        &&& r.selected == if focus != ControlsFocus::Rows && f2 == ControlsFocus::Rows && !on_a_row(channels, selected)
            && channels.len() > 0 {
            Some(channels[0])
        } else {
            selected
        }
    }
}

/// One keyboard verb on the Controls tab: Up/Down walk the rows (Up from
/// the first row climbs to the segment selector), Enter on a row arms a
/// capture for the selected channel in the active segment, everything else
/// goes through the focus reducer; entering the rows seeds the cursor with
/// the first channel when it is not on a row.
pub fn controls_nav_step(
    focus: ControlsFocus,
    segment: ControlsSegment,
    selected: Option<EChannel>,
    channels: &[EChannel],
    verb: NavVerb,
) -> (r: ControlsStep)
    ensures
        spec_controls_step(focus, segment, selected, channels@, verb, r),
{
    let on_row = match selected {
        Some(ch) => contains_channel(channels, ch),
        None => false,
    };
    let r = match (focus, verb) {
        (ControlsFocus::Rows, NavVerb::Up) | (ControlsFocus::Rows, NavVerb::Down) => {
            let dir: i32 = if verb == NavVerb::Up { -1 } else { 1 };
            let step = step_channel(channels, selected, dir);
            let r = match step {
                RowStep::ToSegmentSelector => {
                    let (f2, s2) = reduce_controls_nav(focus, segment, NavVerb::Up);
                    ControlsStep { focus: f2, segment: s2, selected, arm: None }
                },
                RowStep::Select(ch) => ControlsStep { focus, segment, selected: Some(ch), arm: None },
                RowStep::Stay => ControlsStep { focus, segment, selected, arm: None },
            };
            proof {
                assert(spec_step_channel(channels@, selected, verb_dir(verb), step));
            }
            r
        },
        (ControlsFocus::Rows, NavVerb::Confirm) => {
            let arm = match selected {
                Some(ch) => if on_row { Some(ch) } else { None },
                None => None,
            };
            ControlsStep { focus, segment, selected, arm }
        },
        _ => {
            let (f2, s2) = reduce_controls_nav(focus, segment, verb);
            let entered = focus != ControlsFocus::Rows && f2 == ControlsFocus::Rows;
            let next_selected = if entered && !on_row && channels.len() > 0 {
                Some(channels[0])
            } else {
                selected
            };
            ControlsStep { focus: f2, segment: s2, selected: next_selected, arm: None }
        },
    };
    r
}

} // verus!
