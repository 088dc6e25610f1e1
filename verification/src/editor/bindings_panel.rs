//! The Controls tab's binding rows: which bind sources each channel and
//! system verb shows in the active segment, which one Backspace deletes,
//! per-segment reset to defaults, and the MIDI device row's cycling and
//! velocity threshold.

use vstd::prelude::*;

use crate::editor::controls_panel::{bindable_channels_in_order, spec_bindable_order, ControlsSegment};
use crate::editor::nav::SystemVerb;
use crate::editor::profile_dialog_ui::push_char;
use crate::lane_map::EChannel;

verus! {

/// An input that can be bound: a keyboard key (by its platform key code)
/// or a MIDI note.
#[derive(Debug, Clone, Copy, PartialEq, Eq, Structural)]
pub enum BindSource {
    Key(u32),
    Midi { note: u8 },
}

/// The sources bound to one drum channel, in binding order.
#[derive(Debug, Clone, PartialEq)]
pub struct ChannelSources {
    pub channel: EChannel,
    pub sources: Vec<BindSource>,
}

/// The sources bound to one system verb, in binding order.
#[derive(Debug, Clone, PartialEq)]
pub struct VerbSources {
    pub verb: SystemVerb,
    pub sources: Vec<BindSource>,
}

/// The MIDI device fields of the bindings.
#[derive(Debug, Clone, PartialEq)]
pub struct MidiSettings {
    /// Hits softer than this velocity are ignored.
    pub velocity_threshold: u8,
    /// The port name filter; `None` takes the first available port.
    pub port: Option<String>,
}

/// All input bindings: drum channels, system verbs, and the MIDI device.
/// Each channel and each verb has at most one entry.
#[derive(Debug, Clone, PartialEq)]
pub struct InputBindings {
    pub map: Vec<ChannelSources>,
    pub system: Vec<VerbSources>,
    pub midi: MidiSettings,
}

/// Whether a source belongs to a Controls segment.
pub open spec fn spec_segment_matches(segment: ControlsSegment, source: BindSource) -> bool {
    match source {
        BindSource::Key(_) => segment == ControlsSegment::Keyboard,
        BindSource::Midi { .. } => segment == ControlsSegment::Midi,
    }
}

/// Keyboard keys belong to the Keyboard segment, MIDI notes to MIDI.
pub fn segment_matches(segment: ControlsSegment, source: BindSource) -> (b: bool)
    ensures
        b == spec_segment_matches(segment, source),
{
    match (segment, source) {
        (ControlsSegment::Keyboard, BindSource::Key(_)) => true,
        (ControlsSegment::Midi, BindSource::Midi { .. }) => true,
        _ => false,
    }
}

/// The sources of `ch` (empty when the channel has no entry).
pub open spec fn channel_sources(map: Seq<ChannelSources>, ch: EChannel) -> Seq<BindSource>
    decreases map.len(),
{
    if map.len() == 0 {
        Seq::empty()
    } else if map[0].channel == ch {
        map[0].sources@
    } else {
        channel_sources(map.drop_first(), ch)
    }
}

/// The sources of `verb` (empty when the verb has no entry).
pub open spec fn verb_sources(system: Seq<VerbSources>, verb: SystemVerb) -> Seq<BindSource>
    decreases system.len(),
{
    if system.len() == 0 {
        Seq::empty()
    } else if system[0].verb == verb {
        system[0].sources@
    } else {
        verb_sources(system.drop_first(), verb)
    }
}

/// Index of the entry of `ch`, if any.
fn find_channel(map: &Vec<ChannelSources>, ch: EChannel) -> (r: Option<usize>)
    ensures
        r matches Some(i) ==> i < map@.len() && map@[i as int].sources@ == channel_sources(map@, ch)
            && map@[i as int].channel == ch && forall|j: int| 0 <= j < i ==> (#[trigger] map@[j]).channel != ch,
        r is None ==> channel_sources(map@, ch) == Seq::<BindSource>::empty(),
{
    let n = map.len();
    assert(map@.skip(0) =~= map@);
    for k in 0..n
        invariant
            n == map@.len(),
            channel_sources(map@, ch) == channel_sources(map@.skip(k as int), ch),
            forall|j: int| 0 <= j < k ==> (#[trigger] map@[j]).channel != ch,
    {
        let ghost s = map@.skip(k as int);
        assert(s[0] == map@[k as int]);
        assert(s.drop_first() =~= map@.skip(k + 1));
        if map[k].channel == ch {
            return Some(k);
        }
    }
    assert(map@.skip(n as int).len() == 0);
    None
}

/// Index of the entry of `verb`, if any.
fn find_verb(system: &Vec<VerbSources>, verb: SystemVerb) -> (r: Option<usize>)
    ensures
        r matches Some(i) ==> i < system@.len() && system@[i as int].sources@ == verb_sources(system@, verb),
        r is None ==> verb_sources(system@, verb) == Seq::<BindSource>::empty(),
{
    let n = system.len();
    assert(system@.skip(0) =~= system@);
    for k in 0..n
        invariant
            n == system@.len(),
            verb_sources(system@, verb) == verb_sources(system@.skip(k as int), verb),
    {
        let ghost s = system@.skip(k as int);
        assert(s[0] == system@[k as int]);
        assert(s.drop_first() =~= system@.skip(k + 1));
        if system[k].verb == verb {
            return Some(k);
        }
    }
    assert(system@.skip(n as int).len() == 0);
    None
}

/// `i` is the last position of `sources` that belongs to `segment`, or
/// `None` when none does.
pub open spec fn is_last_in_segment(sources: Seq<BindSource>, segment: ControlsSegment, r: Option<usize>) -> bool {
    match r {
        Some(i) => i < sources.len() && spec_segment_matches(segment, sources[i as int]) && forall|j: int|
            i < j < sources.len() ==> !spec_segment_matches(segment, #[trigger] sources[j]),
        None => forall|j: int| 0 <= j < sources.len() ==> !spec_segment_matches(segment, #[trigger] sources[j]),
    }
}

fn last_matching(sources: &Vec<BindSource>, segment: ControlsSegment) -> (r: Option<usize>)
    ensures
        is_last_in_segment(sources@, segment, r),
{
    let mut k = sources.len();
    while k > 0
        invariant
            k <= sources@.len(),
            forall|j: int| k <= j < sources@.len() ==> !spec_segment_matches(segment, #[trigger] sources@[j]),
        decreases k,
    {
        if segment_matches(segment, sources[k - 1]) {
            return Some(k - 1);
        }
        k = k - 1;
    }
    None
}

/// Index (into the channel's full, unfiltered source list) of the last
/// source belonging to `segment`: the target of Backspace on a Controls
/// row. `None` means nothing to delete.
pub fn last_segment_source_index(b: &InputBindings, channel: EChannel, segment: ControlsSegment) -> (r: Option<usize>)
    ensures
        is_last_in_segment(channel_sources(b.map@, channel), segment, r),
{
    match find_channel(&b.map, channel) {
        None => None,
        Some(i) => last_matching(&b.map[i].sources, segment),
    }
}

/// As `last_segment_source_index`, for a system verb's row.
pub fn last_system_source_index(b: &InputBindings, verb: SystemVerb, segment: ControlsSegment) -> (r: Option<usize>)
    ensures
        is_last_in_segment(verb_sources(b.system@, verb), segment, r),
{
    match find_verb(&b.system, verb) {
        None => None,
        Some(i) => last_matching(&b.system[i].sources, segment),
    }
}

proof fn lemma_filter_none_inside(s: Seq<BindSource>, segment: ControlsSegment)
    requires
        forall|j: int| 0 <= j < s.len() ==> !spec_segment_matches(segment, #[trigger] s[j]),
    ensures
        filter_segment(s, segment, true) == Seq::<BindSource>::empty(),
    decreases s.len(),
{
    if s.len() > 0 {
        let d = s.drop_last();
        assert forall|j: int| 0 <= j < d.len() implies !spec_segment_matches(segment, #[trigger] d[j]) by {
            assert(d[j] == s[j]);
        }
        lemma_filter_none_inside(d, segment);
        assert(!spec_segment_matches(segment, s[s.len() - 1]));
    }
}

proof fn lemma_remove_last_in_segment(s: Seq<BindSource>, segment: ControlsSegment, i: int)
    requires
        0 <= i < s.len(),
        spec_segment_matches(segment, s[i]),
        forall|j: int| i < j < s.len() ==> !spec_segment_matches(segment, #[trigger] s[j]),
    ensures
        filter_segment(s.remove(i), segment, false) == filter_segment(s, segment, false),
        filter_segment(s.remove(i), segment, true) == filter_segment(s, segment, true).drop_last(),
    decreases s.len(),
{
    let r = s.remove(i);
    if i == s.len() - 1 {
        assert(r =~= s.drop_last());
        assert(s.last() == s[i]);
    } else {
        let d = s.drop_last();
        assert(r.drop_last() =~= d.remove(i));
        assert(r.last() == s.last());
        assert(!spec_segment_matches(segment, s[s.len() - 1]));
        assert(d[i] == s[i]);
        assert forall|j: int| i < j < d.len() implies !spec_segment_matches(segment, #[trigger] d[j]) by {
            assert(d[j] == s[j]);
        }
        lemma_remove_last_in_segment(d, segment, i);
    }
}

proof fn lemma_update_entry(map: Seq<ChannelSources>, k: int, e: ChannelSources, ch: EChannel)
    requires
        0 <= k < map.len(),
        e.channel == map[k].channel,
        forall|j: int| 0 <= j < k ==> (#[trigger] map[j]).channel != map[k].channel,
    ensures
        channel_sources(map.update(k, e), ch) == if ch == e.channel {
            e.sources@
        } else {
            channel_sources(map, ch)
        },
    decreases k,
{
    let t = map.update(k, e);
    if k == 0 {
        assert(t.drop_first() =~= map.drop_first());
    } else {
        assert(map[0].channel != map[k].channel);
        assert(t[0] == map[0]);
        let d = map.drop_first();
        assert(t.drop_first() =~= d.update(k - 1, e));
        assert(d[k - 1] == map[k]);
        assert forall|j: int| 0 <= j < k - 1 implies (#[trigger] d[j]).channel != d[k - 1].channel by {
            assert(d[j] == map[j + 1]);
        }
        lemma_update_entry(d, k - 1, e, ch);
    }
}

/// Backspace on a Controls row: remove the channel's last source of the
/// active segment (keys on the Keyboard segment, notes on MIDI). Every
/// other channel, the system verbs and the device fields are untouched;
/// when something was removed the revision counter moves so the panel
/// repaints. Returns whether a source was removed.
pub fn delete_last_segment_source(b: &mut InputBindings, rev: &mut u64, channel: EChannel, segment: ControlsSegment) -> (removed: bool)
    ensures
        ({
            let old_sources = channel_sources(old(b).map@, channel);
            exists|r: Option<usize>| #[trigger] is_last_in_segment(old_sources, segment, r) && match r {
                Some(i) => {
                    &&& removed
                    &&& channel_sources(final(b).map@, channel) == old_sources.remove(i as int)
                    &&& *final(rev) == (*old(rev) as int + 1) % 0x1_0000_0000_0000_0000
                },
                None => !removed && final(b).map@ == old(b).map@ && *final(rev) == *old(rev),
            }
        }),
        removed ==> filter_segment(channel_sources(final(b).map@, channel), segment, false) == filter_segment(
            channel_sources(old(b).map@, channel),
            segment,
            false,
        ),
        removed ==> filter_segment(channel_sources(final(b).map@, channel), segment, true) == filter_segment(
            channel_sources(old(b).map@, channel),
            segment,
            true,
        ).drop_last(),
        !removed ==> filter_segment(channel_sources(old(b).map@, channel), segment, true) == Seq::<BindSource>::empty(),
        forall|ch: EChannel| ch != channel ==> #[trigger] channel_sources(final(b).map@, ch) == channel_sources(old(b).map@, ch),
        final(b).map@.len() == old(b).map@.len(),
        forall|i: int| 0 <= i < final(b).map@.len() ==> (#[trigger] final(b).map@[i]).channel == old(b).map@[i].channel,
        final(b).system@ == old(b).system@,
        final(b).midi == old(b).midi,
{
    let k = match find_channel(&b.map, channel) {
        None => {
            proof {
                assert(is_last_in_segment(channel_sources(b.map@, channel), segment, None));
                lemma_filter_none_inside(channel_sources(b.map@, channel), segment);
            }
            return false;
        },
        Some(k) => k,
    };
    let i = match last_matching(&b.map[k].sources, segment) {
        None => {
            proof {
                assert(is_last_in_segment(channel_sources(b.map@, channel), segment, None));
                lemma_filter_none_inside(channel_sources(b.map@, channel), segment);
            }
            return false;
        },
        Some(i) => i,
    };
    proof {
        lemma_remove_last_in_segment(channel_sources(b.map@, channel), segment, i as int);
    }
    let ghost m0 = b.map@;
    let mut entry = b.map.remove(k);
    assert(entry == m0[k as int]);
    entry.sources.remove(i);
    let ghost e = entry;
    b.map.insert(k, entry);
    proof {
        assert(b.map@ =~= m0.update(k as int, e));
        assert forall|c: EChannel| #[trigger] channel_sources(b.map@, c) == if c == e.channel {
            e.sources@
        } else {
            channel_sources(m0, c)
        } by {
            lemma_update_entry(m0, k as int, e, c);
        }
        assert(is_last_in_segment(channel_sources(m0, channel), segment, Some(i)));
    }
    *rev = rev.wrapping_add(1);
    true
}

/// A chip's text: its source label, marked when the source is shared with
/// other channels.
pub fn chip_label(label: &str, shared: bool) -> (r: String)
    ensures
        r@ == if shared { label@ + " \u{29c9}"@ } else { label@ },
{
    let mut out = label.to_owned();
    if shared {
        out.append(" \u{29c9}");
    }
    out
}

/// Horizontal ellipsis, the mark of a shortened label.
pub const ELLIPSIS: char = '\u{2026}';

/// `s` cut to at most `max` chars: unchanged when it fits, otherwise its
/// first `max - 1` chars and an ellipsis (just the ellipsis when `max` is 0
/// or 1).
pub open spec fn spec_truncate_label(s: Seq<char>, max: int) -> Seq<char> {
    if s.len() <= max {
        s
    } else {
        s.take(if max > 0 { max - 1 } else { 0 }).push(ELLIPSIS)
    }
}

/// Shorten a label to fit `max` chars, marking the cut with an ellipsis.
pub fn truncate_label(s: &str, max: usize) -> (r: String)
    ensures
        r@ == spec_truncate_label(s@, max as int),
{
    let n = s.unicode_len();
    if n <= max {
        return s.to_owned();
    }
    let keep: usize = if max > 0 { max - 1 } else { 0 };
    let mut out = String::new();
    let mut i: usize = 0;
    while i < keep
        invariant
            keep < n,
            n == s@.len(),
            i <= keep,
            out@ == s@.take(i as int),
        decreases keep - i,
    {
        let c = s.get_char(i);
        assert(s@.take(i + 1) =~= s@.take(i as int).push(c));
        push_char(&mut out, c);
        i = i + 1;
    }
    push_char(&mut out, ELLIPSIS);
    out
}

/// A shortened label always fits: never longer than `max` chars (for a
/// positive `max`), unchanged when it already fits, and otherwise a prefix
/// of the text followed by the ellipsis.
pub proof fn lemma_truncated_label_fits(s: Seq<char>, max: int)
    requires
        max >= 1,
    ensures
        spec_truncate_label(s, max).len() <= max,
        s.len() <= max ==> spec_truncate_label(s, max) == s,
        s.len() > max ==> spec_truncate_label(s, max).len() == max && spec_truncate_label(s, max).last() == ELLIPSIS
            && spec_truncate_label(s, max).drop_last() == s.take(max - 1),
{
    if s.len() > max {
        assert(spec_truncate_label(s, max).drop_last() =~= s.take(max - 1));
    }
}

/// Widest port name the device row shows, in chars.
pub const PORT_LABEL_MAX: usize = 22;

/// Text of the MIDI device row: a placeholder when no device is listed,
/// the selected port (shortened to `PORT_LABEL_MAX` chars), or a
/// placeholder when the selection is unset.
pub fn port_display_label(selected: &Option<String>, list: &[String]) -> (r: String)
    ensures
        list@.len() == 0 ==> r@ == "(no MIDI devices)"@,
        list@.len() > 0 ==> r@ == match selected {
            Some(p) => spec_truncate_label(p@, PORT_LABEL_MAX as int),
            None => "(first available)"@,
        },
{
    if list.len() == 0 {
        return "(no MIDI devices)".to_owned();
    }
    match selected {
        Some(p) => truncate_label(p.as_str(), PORT_LABEL_MAX),
        None => "(first available)".to_owned(),
    }
}

/// Cycle a port index by `dir`, wrapping within `[0, len)`; an unset
/// index counts as 0.
pub open spec fn spec_port_cycle(cur: Option<usize>, dir: int, len: int) -> int {
    let c: int = match cur {
        Some(i) => i as int,
        None => 0,
    };
    (c + dir) % len
}

/// The MIDI port row's previous/next: wraps around the enumerated ports.
pub fn port_cycle_index(cur: Option<usize>, dir: i32, len: usize) -> (r: usize)
    requires
        0 < len <= i32::MAX,
        cur matches Some(i) ==> i <= i32::MAX,
    ensures
        r == spec_port_cycle(cur, dir as int, len as int),
        r < len,
{
    let c: i64 = match cur {
        Some(i) => i as i64,
        None => 0,
    };
    let n = len as i64;
    let x = c + dir as i64;
    if x >= 0 {
        let m = x % n;
        m as usize
    } else {
        let y = (-x) % n;
        proof {
            let q = (-x) / (n as int);
            assert((-x) == q * (n as int) + y) by (nonlinear_arith)
                requires
                    q == (-x) / (n as int),
                    y == (-x) % (n as int),
                    n > 0,
            ;
            if y == 0 {
                assert(x == (-q) * (n as int)) by (nonlinear_arith)
                    requires
                        (-x) == q * (n as int) + y,
                        y == 0,
                ;
                vstd::arithmetic::div_mod::lemma_mod_multiples_basic(-q, n as int);
            } else {
                assert(x == (-q - 1) * (n as int) + (n - y)) by (nonlinear_arith)
                    requires
                        (-x) == q * (n as int) + y,
                ;
                vstd::arithmetic::div_mod::lemma_fundamental_div_mod_converse(x as int, n as int, -q - 1, n - y);
            }
        }
        if y == 0 {
            0
        } else {
            (n - y) as usize
        }
    }
}

/// The velocity threshold after one press of its stepper, kept in
/// `[0, 127]`, and whether it changed.
pub fn velocity_step(threshold: u8, dir: i32) -> (r: (u8, bool))
    ensures
        r.0 == (if threshold + dir < 0 { 0 } else if threshold + dir > 127 { 127 } else { threshold + dir }),
        r.1 == (r.0 != threshold),
{
    let t = threshold as i64 + dir as i64;
    let next: u8 = if t < 0 {
        0
    } else if t > 127 {
        127
    } else {
        t as u8
    };
    (next, next != threshold)
}

/// Reset confirmation for the Controls tab, kept apart from capture so
/// Escape keeps cancelling a capture without touching a pending reset.
#[derive(Debug, Clone, Copy, PartialEq, Eq, Structural)]
pub enum BindingsResetState {
    Idle,
    Confirming,
}

impl Default for BindingsResetState {
    fn default() -> (s: Self)
        ensures
            s == BindingsResetState::Idle,
    {
        BindingsResetState::Idle
    }
}

/// Cancelling a reset returns to Idle without touching any binding.
pub fn cancel_bindings_reset(state: &mut BindingsResetState)
    ensures
        *final(state) == BindingsResetState::Idle,
{
    *state = BindingsResetState::Idle;
}

/// One bind-source chip in a Controls row. `index` is the source's
/// position in the channel's full (unfiltered, both segments mixed) list,
/// so removing chip `index` removes the right entry whatever the filter.
/// `shared` marks a source another channel also holds.
#[derive(Debug, Clone, Copy, PartialEq, Eq, Structural)]
pub struct SegmentChip {
    pub source: BindSource,
    pub index: usize,
    pub shared: bool,
}

/// One channel row for the active segment.
#[derive(Debug, Clone, PartialEq)]
pub struct SegmentRow {
    pub channel: EChannel,
    pub chips: Vec<SegmentChip>,
    /// The channel has no source in this segment.
    pub unbound: bool,
}

/// One system-verb row for the active segment.
#[derive(Debug, Clone, PartialEq)]
pub struct SystemSegmentRow {
    pub verb: SystemVerb,
    pub chips: Vec<SegmentChip>,
    pub unbound: bool,
}

/// Another channel than `channel` also holds `src`.
pub open spec fn held_elsewhere(map: Seq<ChannelSources>, channel: EChannel, src: BindSource) -> bool {
    exists|i: int| 0 <= i < map.len() && (#[trigger] map[i]).channel != channel && map[i].sources@.contains(src)
}

/// The chips (in list order) of the first `n` sources that belong to the
/// segment; `shared` as `shared_of` says.
pub open spec fn spec_chips(
    srcs: Seq<BindSource>,
    segment: ControlsSegment,
    map: Seq<ChannelSources>,
    channel: EChannel,
    system: bool,
    n: int,
) -> Seq<SegmentChip>
    decreases n,
{
    if n <= 0 {
        Seq::empty()
    } else {
        let rest = spec_chips(srcs, segment, map, channel, system, n - 1);
        let src = srcs[n - 1];
        if spec_segment_matches(segment, src) {
            rest.push(
                SegmentChip {
                    source: src,
                    index: (n - 1) as usize,
                    shared: !system && held_elsewhere(map, channel, src),
                },
            )
        } else {
            rest
        }
    }
}

fn holds_source(v: &Vec<BindSource>, src: BindSource) -> (b: bool)
    ensures
        b == v@.contains(src),
{
    let n = v.len();
    for k in 0..n
        invariant
            n == v@.len(),
            forall|j: int| 0 <= j < k ==> v@[j] != src,
    {
        if v[k] == src {
            assert(v@[k as int] == src);
            return true;
        }
    }
    false
}

fn is_held_elsewhere(map: &Vec<ChannelSources>, channel: EChannel, src: BindSource) -> (b: bool)
    ensures
        b == held_elsewhere(map@, channel, src),
{
    let n = map.len();
    for k in 0..n
        invariant
            n == map@.len(),
            forall|j: int| 0 <= j < k ==> !((#[trigger] map@[j]).channel != channel && map@[j].sources@.contains(src)),
    {
        if map[k].channel != channel && holds_source(&map[k].sources, src) {
            return true;
        }
    }
    false
}

fn chips_of(
    srcs: &Vec<BindSource>,
    segment: ControlsSegment,
    map: &Vec<ChannelSources>,
    channel: EChannel,
    system: bool,
) -> (chips: Vec<SegmentChip>)
    ensures
        chips@ == spec_chips(srcs@, segment, map@, channel, system, srcs@.len() as int),
{
    let mut chips: Vec<SegmentChip> = Vec::new();
    let n = srcs.len();
    for k in 0..n
        invariant
            n == srcs@.len(),
            chips@ == spec_chips(srcs@, segment, map@, channel, system, k as int),
    {
        let src = srcs[k];
        if segment_matches(segment, src) {
            let shared = if system { false } else { is_held_elsewhere(map, channel, src) };
            chips.push(SegmentChip { source: src, index: k, shared });
        }
    }
    chips
}

/// The row of `channel` for the segment.
pub open spec fn row_matches(b: InputBindings, segment: ControlsSegment, channel: EChannel, row: SegmentRow) -> bool {
    let srcs = channel_sources(b.map@, channel);
    &&& row.channel == channel
    &&& row.chips@ == spec_chips(srcs, segment, b.map@, channel, false, srcs.len() as int)
    &&& row.unbound == (row.chips@.len() == 0)
}

/// Rows for the active segment, one per channel of `order`.
fn rows_in_order(b: &InputBindings, segment: ControlsSegment, order: &[EChannel]) -> (rows: Vec<SegmentRow>)
    ensures
        rows@.len() == order@.len(),
        forall|i: int| 0 <= i < order@.len() ==> row_matches(*b, segment, order@[i], #[trigger] rows@[i]),
{
    let mut rows: Vec<SegmentRow> = Vec::new();
    let empty: Vec<BindSource> = Vec::new();
    let n = order.len();
    for k in 0..n
        invariant
            n == order@.len(),
            empty@.len() == 0,
            rows@.len() == k,
            forall|i: int| 0 <= i < k ==> row_matches(*b, segment, order@[i], #[trigger] rows@[i]),
    {
        let channel = order[k];
        let chips = match find_channel(&b.map, channel) {
            Some(i) => chips_of(&b.map[i].sources, segment, &b.map, channel, false),
            None => {
                assert(empty@ =~= channel_sources(b.map@, channel));
                chips_of(&empty, segment, &b.map, channel, false)
            },
        };
        let unbound = chips.len() == 0;
        rows.push(SegmentRow { channel, chips, unbound });
    }
    rows
}

/// Rows for the active segment, one per bindable channel in the lanes'
/// display order (bindable channels on no lane come last): only that
/// segment's sources, each with its index in the channel's full source
/// list, `shared` when another channel holds the source too, `unbound` when
/// the channel has no source in this segment (though it may have some in
/// the other). `lane_chips` are the lanes' channels, primary first;
/// `bindable` lists the bindable channels.
pub fn segment_rows(
    b: &InputBindings,
    segment: ControlsSegment,
    lane_chips: &[Vec<EChannel>],
    bindable: &[EChannel],
) -> (rows: Vec<SegmentRow>)
    ensures
        ({
            let order = spec_bindable_order(lane_chips@.map_values(|c: Vec<EChannel>| c@), bindable@);
            &&& rows@.len() == order.len()
            &&& forall|i: int| 0 <= i < order.len() ==> row_matches(*b, segment, order[i], #[trigger] rows@[i])
        }),
{
    let order = bindable_channels_in_order(lane_chips, bindable);
    rows_in_order(b, segment, order.as_slice())
}

/// The row of `verb` for the segment.
pub open spec fn system_row_matches(b: InputBindings, segment: ControlsSegment, verb: SystemVerb, row: SystemSegmentRow) -> bool {
    let srcs = verb_sources(b.system@, verb);
    &&& row.verb == verb
    &&& row.chips@ == spec_chips(srcs, segment, b.map@, EChannel::Other(0), true, srcs.len() as int)
    &&& row.unbound == (row.chips@.len() == 0)
}

/// Rows for the System card in the active segment, one per verb of
/// `verbs`. A source a lane owns can never be bound to a verb, so a system
/// chip is never shared.
pub fn system_segment_rows(b: &InputBindings, segment: ControlsSegment, verbs: &[SystemVerb]) -> (rows: Vec<SystemSegmentRow>)
    ensures
        rows@.len() == verbs@.len(),
        forall|i: int| 0 <= i < verbs@.len() ==> system_row_matches(*b, segment, verbs@[i], #[trigger] rows@[i]),
{
    let mut rows: Vec<SystemSegmentRow> = Vec::new();
    let empty: Vec<BindSource> = Vec::new();
    let n = verbs.len();
    for k in 0..n
        invariant
            n == verbs@.len(),
            empty@.len() == 0,
            rows@.len() == k,
            forall|i: int| 0 <= i < k ==> system_row_matches(*b, segment, verbs@[i], #[trigger] rows@[i]),
    {
        let verb = verbs[k];
        let chips = match find_verb(&b.system, verb) {
            Some(i) => chips_of(&b.system[i].sources, segment, &b.map, EChannel::Other(0), true),
            None => {
                assert(empty@ =~= verb_sources(b.system@, verb));
                chips_of(&empty, segment, &b.map, EChannel::Other(0), true)
            },
        };
        let unbound = chips.len() == 0;
        rows.push(SystemSegmentRow { verb, chips, unbound });
    }
    rows
}

/// The sources of `srcs` in (`inside`) or outside the segment, in order.
pub open spec fn filter_segment(srcs: Seq<BindSource>, segment: ControlsSegment, inside: bool) -> Seq<BindSource>
    decreases srcs.len(),
{
    if srcs.len() == 0 {
        Seq::empty()
    } else {
        let rest = filter_segment(srcs.drop_last(), segment, inside);
        if spec_segment_matches(segment, srcs.last()) == inside { rest.push(srcs.last()) } else { rest }
    }
}

/// `ch` has an entry.
pub open spec fn present(map: Seq<ChannelSources>, ch: EChannel) -> bool {
    exists|i: int| 0 <= i < map.len() && (#[trigger] map[i]).channel == ch
}

/// Each channel has at most one entry.
pub open spec fn unique_channels(map: Seq<ChannelSources>) -> bool {
    forall|i: int, j: int| 0 <= i < map.len() && 0 <= j < map.len() && i != j ==> (#[trigger] map[i]).channel
        != (#[trigger] map[j]).channel
}

/// A channel's sources after resetting `segment`: its own sources of the
/// other segment, then the defaults of this one.
pub open spec fn reset_sources(
    live: Seq<ChannelSources>,
    defaults: Seq<ChannelSources>,
    segment: ControlsSegment,
    ch: EChannel,
) -> Seq<BindSource> {
    filter_segment(channel_sources(live, ch), segment, false) + filter_segment(
        channel_sources(defaults, ch),
        segment,
        true,
    )
}

proof fn lemma_absent_empty(map: Seq<ChannelSources>, ch: EChannel)
    requires
        !present(map, ch),
    ensures
        channel_sources(map, ch) == Seq::<BindSource>::empty(),
    decreases map.len(),
{
    if map.len() > 0 {
        assert(map[0].channel != ch);
        let d = map.drop_first();
        assert(!present(d, ch)) by {
            if present(d, ch) {
                let i = choose|i: int| 0 <= i < d.len() && (#[trigger] d[i]).channel == ch;
                assert(map[i + 1] == d[i]);
            }
        }
        lemma_absent_empty(d, ch);
    }
}

proof fn lemma_first_entry(map: Seq<ChannelSources>, ch: EChannel, i: int)
    requires
        0 <= i < map.len(),
        map[i].channel == ch,
        forall|j: int| 0 <= j < i ==> (#[trigger] map[j]).channel != ch,
    ensures
        channel_sources(map, ch) == map[i].sources@,
    decreases i,
{
    if i > 0 {
        let d = map.drop_first();
        assert(map[0].channel != ch);
        assert forall|j: int| 0 <= j < i - 1 implies (#[trigger] d[j]).channel != ch by {
            assert(d[j] == map[j + 1]);
        }
        assert(d[i - 1] == map[i]);
        lemma_first_entry(d, ch, i - 1);
    }
}

proof fn lemma_push_entry(map: Seq<ChannelSources>, e: ChannelSources, ch: EChannel)
    ensures
        channel_sources(map.push(e), ch) == if present(map, ch) {
            channel_sources(map, ch)
        } else if e.channel == ch {
            e.sources@
        } else {
            Seq::<BindSource>::empty()
        },
        present(map.push(e), ch) == (present(map, ch) || e.channel == ch),
    decreases map.len(),
{
    let t = map.push(e);
    if present(t, ch) && !present(map, ch) && e.channel != ch {
        let i = choose|i: int| 0 <= i < t.len() && (#[trigger] t[i]).channel == ch;
        if i < map.len() {
            assert(t[i] == map[i]);
        }
    }
    if present(map, ch) {
        let i = choose|i: int| 0 <= i < map.len() && (#[trigger] map[i]).channel == ch;
        assert(t[i] == map[i]);
    }
    if map.len() == 0 {
        assert(t[0] == e);
        if e.channel != ch {
            assert(t.drop_first().len() == 0);
            assert(channel_sources(t.drop_first(), ch) == Seq::<BindSource>::empty());
            assert(channel_sources(t, ch) == channel_sources(t.drop_first(), ch));
        } else {
            assert(channel_sources(t, ch) == t[0].sources@);
        }
        assert(!present(map, ch));
    } else {
        assert(t[0] == map[0]);
        if map[0].channel != ch {
            let d = map.drop_first();
            assert(t.drop_first() =~= d.push(e));
            lemma_push_entry(d, e, ch);
            assert(present(map, ch) == present(d, ch)) by {
                if present(map, ch) {
                    let i = choose|i: int| 0 <= i < map.len() && (#[trigger] map[i]).channel == ch;
                    assert(d[i - 1] == map[i]);
                }
                if present(d, ch) {
                    let i = choose|i: int| 0 <= i < d.len() && (#[trigger] d[i]).channel == ch;
                    assert(map[i + 1] == d[i]);
                }
            }
            assert(channel_sources(t, ch) == channel_sources(d.push(e), ch));
            assert(channel_sources(map, ch) == channel_sources(d, ch));
        } else {
            assert(present(map, ch)) by {
                assert(map[0].channel == ch);
            }
            assert(channel_sources(t, ch) == t[0].sources@);
            assert(channel_sources(map, ch) == map[0].sources@);
        }
    }
}

fn filter_sources(srcs: &Vec<BindSource>, segment: ControlsSegment, inside: bool, out: &mut Vec<BindSource>)
    ensures
        final(out)@ == old(out)@ + filter_segment(srcs@, segment, inside),
{
    let ghost o0 = out@;
    let n = srcs.len();
    for k in 0..n
        invariant
            n == srcs@.len(),
            out@ == o0 + filter_segment(srcs@.take(k as int), segment, inside),
    {
        assert(srcs@.take(k + 1).drop_last() =~= srcs@.take(k as int));
        if segment_matches(segment, srcs[k]) == inside {
            out.push(srcs[k]);
        }
    }
    assert(srcs@.take(n as int) =~= srcs@);
}

/// Reset only the active segment to `defaults`: each channel keeps its
/// sources of the other segment and takes the defaults of this one
/// (channels left without sources drop out); system verbs are untouched.
/// A MIDI reset also restores the device fields (port, velocity
/// threshold). The revision counter moves so the panel repaints.
pub fn reset_segment(live: &mut InputBindings, rev: &mut u64, segment: ControlsSegment, defaults: &InputBindings)
    requires
        unique_channels(old(live).map@),
        unique_channels(defaults.map@),
    ensures
        forall|ch: EChannel| #[trigger] channel_sources(final(live).map@, ch) == reset_sources(
            old(live).map@,
            defaults.map@,
            segment,
            ch,
        ),
        forall|i: int| 0 <= i < final(live).map@.len() ==> (#[trigger] final(live).map@[i]).sources@.len() > 0,
        unique_channels(final(live).map@),
        final(live).system@ == old(live).system@,
        final(live).midi == if segment == ControlsSegment::Midi { defaults.midi } else { old(live).midi },
        *final(rev) == (*old(rev) as int + 1) % 0x1_0000_0000_0000_0000,
{
    let ghost lm = live.map@;
    let ghost dm = defaults.map@;
    let mut next: Vec<ChannelSources> = Vec::new();
    let n = live.map.len();
    for k in 0..n
        invariant
            n == lm.len(),
            lm == live.map@,
            dm == defaults.map@,
            unique_channels(lm),
            unique_channels(next@),
            forall|i: int| 0 <= i < next@.len() ==> (#[trigger] next@[i]).sources@.len() > 0,
            forall|ch: EChannel| #[trigger] present(next@, ch) ==> present(lm.take(k as int), ch),
            forall|ch: EChannel|
                #[trigger] channel_sources(next@, ch) == if present(lm.take(k as int), ch) {
                    reset_sources(lm, dm, segment, ch)
                } else {
                    Seq::<BindSource>::empty()
                },
    {
        let ch = live.map[k].channel;
        let mut srcs: Vec<BindSource> = Vec::new();
        filter_sources(&live.map[k].sources, segment, false, &mut srcs);
        let d = find_channel(&defaults.map, ch);
        match d {
            Some(i) => filter_sources(&defaults.map[i].sources, segment, true, &mut srcs),
            None => {},
        }
        proof {
            assert forall|j: int| 0 <= j < k implies (#[trigger] lm[j]).channel != ch by {}
            lemma_first_entry(lm, ch, k as int);
            if d is None {
                assert(srcs@ =~= reset_sources(lm, dm, segment, ch));
            } else {
                assert(srcs@ == reset_sources(lm, dm, segment, ch));
            }
            assert(!present(lm.take(k as int), ch)) by {
                if present(lm.take(k as int), ch) {
                    let j = choose|j: int| 0 <= j < k && (#[trigger] lm.take(k as int)[j]).channel == ch;
                    assert(lm.take(k as int)[j] == lm[j]);
                }
            }
            assert forall|c: EChannel| present(lm.take(k + 1), c) == (present(lm.take(k as int), c) || c == ch) by {
                if present(lm.take(k + 1), c) {
                    let j = choose|j: int| 0 <= j < k + 1 && (#[trigger] lm.take(k + 1)[j]).channel == c;
                    if j < k {
                        assert(lm.take(k as int)[j] == lm.take(k + 1)[j]);
                    }
                }
                if present(lm.take(k as int), c) {
                    let j = choose|j: int| 0 <= j < k && (#[trigger] lm.take(k as int)[j]).channel == c;
                    assert(lm.take(k + 1)[j] == lm.take(k as int)[j]);
                }
                if c == ch {
                    assert(lm.take(k + 1)[k as int] == lm[k as int]);
                }
            }
        }
        if srcs.len() > 0 {
            let e = ChannelSources { channel: ch, sources: srcs };
            proof {
                assert(!present(next@, ch));
                assert forall|c: EChannel| #[trigger] channel_sources(next@.push(e), c) == if present(lm.take(k + 1), c) {
                    reset_sources(lm, dm, segment, c)
                } else {
                    Seq::<BindSource>::empty()
                } by {
                    lemma_push_entry(next@, e, c);
                    if !present(next@, c) {
                        lemma_absent_empty(next@, c);
                    }
                }
                assert forall|c: EChannel| #[trigger] present(next@.push(e), c) implies present(lm.take(k + 1), c) by {
                    lemma_push_entry(next@, e, c);
                }
                let t = next@.push(e);
                assert forall|a: int, b: int| 0 <= a < t.len() && 0 <= b < t.len() && a != b implies (#[trigger] t[a]).channel
                    != (#[trigger] t[b]).channel by {
                    if a == next@.len() {
                        assert(t[b] == next@[b]);
                    } else if b == next@.len() {
                        assert(t[a] == next@[a]);
                    } else {
                        assert(t[a] == next@[a] && t[b] == next@[b]);
                    }
                }
            }
            next.push(e);
        } else {
            proof {
                assert forall|c: EChannel| #[trigger] channel_sources(next@, c) == if present(lm.take(k + 1), c) {
                    reset_sources(lm, dm, segment, c)
                } else {
                    Seq::<BindSource>::empty()
                } by {
                    if c == ch {
                        lemma_absent_empty(next@, c);
                    }
                }
            }
        }
    }
    assert(lm.take(n as int) =~= lm);
    let m = defaults.map.len();
    for k in 0..m
        invariant
            n == lm.len(),
            m == dm.len(),
            lm == live.map@,
            dm == defaults.map@,
            unique_channels(dm),
            unique_channels(next@),
            forall|i: int| 0 <= i < next@.len() ==> (#[trigger] next@[i]).sources@.len() > 0,
            forall|ch: EChannel| #[trigger] present(next@, ch) ==> present(lm, ch) || present(dm.take(k as int), ch),
            forall|ch: EChannel|
                #[trigger] channel_sources(next@, ch) == if present(lm, ch) || present(dm.take(k as int), ch) {
                    reset_sources(lm, dm, segment, ch)
                } else {
                    Seq::<BindSource>::empty()
                },
    {
        let ch = defaults.map[k].channel;
        proof {
            assert forall|c: EChannel| present(dm.take(k + 1), c) == (present(dm.take(k as int), c) || c == ch) by {
                if present(dm.take(k + 1), c) {
                    let j = choose|j: int| 0 <= j < k + 1 && (#[trigger] dm.take(k + 1)[j]).channel == c;
                    if j < k {
                        assert(dm.take(k as int)[j] == dm.take(k + 1)[j]);
                    }
                }
                if present(dm.take(k as int), c) {
                    let j = choose|j: int| 0 <= j < k && (#[trigger] dm.take(k as int)[j]).channel == c;
                    assert(dm.take(k + 1)[j] == dm.take(k as int)[j]);
                }
                if c == ch {
                    assert(dm.take(k + 1)[k as int] == dm[k as int]);
                }
            }
            assert(!present(dm.take(k as int), ch)) by {
                if present(dm.take(k as int), ch) {
                    let j = choose|j: int| 0 <= j < k && (#[trigger] dm.take(k as int)[j]).channel == ch;
                    assert(dm.take(k as int)[j] == dm[j]);
                }
            }
        }
        let live_has = live_channel_present(&live.map, ch);
        if !live_has {
            let mut srcs: Vec<BindSource> = Vec::new();
            filter_sources(&defaults.map[k].sources, segment, true, &mut srcs);
            proof {
                lemma_absent_empty(lm, ch);
                assert forall|j: int| 0 <= j < k implies (#[trigger] dm[j]).channel != ch by {}
                lemma_first_entry(dm, ch, k as int);
                assert(filter_segment(Seq::<BindSource>::empty(), segment, false) =~= Seq::<BindSource>::empty());
                assert(srcs@ =~= reset_sources(lm, dm, segment, ch));
            }
            if srcs.len() > 0 {
                let e = ChannelSources { channel: ch, sources: srcs };
                proof {
                    assert(!present(next@, ch));
                    assert forall|c: EChannel| #[trigger] channel_sources(next@.push(e), c) == if present(lm, c)
                        || present(dm.take(k + 1), c) {
                        reset_sources(lm, dm, segment, c)
                    } else {
                        Seq::<BindSource>::empty()
                    } by {
                        lemma_push_entry(next@, e, c);
                        if !present(next@, c) {
                            lemma_absent_empty(next@, c);
                        }
                    }
                    assert forall|c: EChannel| #[trigger] present(next@.push(e), c) implies present(lm, c) || present(
                        dm.take(k + 1),
                        c,
                    ) by {
                        lemma_push_entry(next@, e, c);
                    }
                    let t = next@.push(e);
                    assert forall|a: int, b: int| 0 <= a < t.len() && 0 <= b < t.len() && a != b implies (#[trigger] t[a]).channel
                        != (#[trigger] t[b]).channel by {
                        if a == next@.len() {
                            assert(t[b] == next@[b]);
                        } else if b == next@.len() {
                            assert(t[a] == next@[a]);
                        } else {
                            assert(t[a] == next@[a] && t[b] == next@[b]);
                        }
                    }
                }
                next.push(e);
            } else {
                proof {
                    assert forall|c: EChannel| #[trigger] channel_sources(next@, c) == if present(lm, c) || present(
                        dm.take(k + 1),
                        c,
                    ) {
                        reset_sources(lm, dm, segment, c)
                    } else {
                        Seq::<BindSource>::empty()
                    } by {
                        if c == ch {
                            lemma_absent_empty(next@, c);
                        }
                    }
                }
            }
        }
    }
    proof {
        assert(dm.take(m as int) =~= dm);
        assert forall|ch: EChannel| #[trigger] channel_sources(next@, ch) == reset_sources(lm, dm, segment, ch) by {
            if !(present(lm, ch) || present(dm, ch)) {
                lemma_absent_empty(lm, ch);
                lemma_absent_empty(dm, ch);
                assert(reset_sources(lm, dm, segment, ch) =~= Seq::<BindSource>::empty());
            }
        }
    }
    live.map = next;
    if segment == ControlsSegment::Midi {
        live.midi = MidiSettings { velocity_threshold: defaults.midi.velocity_threshold, port: clone_port(&defaults.midi.port) };
    }
    *rev = rev.wrapping_add(1);
}

fn clone_port(p: &Option<String>) -> (r: Option<String>)
    ensures
        r == *p,
{
    match p {
        Some(s) => Some(s.clone()),
        None => None,
    }
}

fn live_channel_present(map: &Vec<ChannelSources>, ch: EChannel) -> (b: bool)
    ensures
        b == present(map@, ch),
{
    let n = map.len();
    for k in 0..n
        invariant
            n == map@.len(),
            forall|j: int| 0 <= j < k ==> (#[trigger] map@[j]).channel != ch,
    {
        if map[k].channel == ch {
            return true;
        }
    }
    false
}

} // verus!
