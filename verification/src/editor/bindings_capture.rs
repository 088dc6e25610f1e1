//! Binding-capture state machine for the Bindings tab.
//!
//! `+` on a channel row arms `Capturing(ch)`. The first input (keyboard key
//! or MIDI NoteOn) either binds at once or, when a MIDI note already
//! belongs to another channel, waits in `ConfirmSteal` so no binding is
//! stolen silently (Enter steals, Escape cancels). Escape cancels at any
//! stage and never binds.

use vstd::prelude::*;

use crate::autoplay::LaneHit;
use crate::editor::bindings_panel::{BindSource, ChannelSources, InputBindings};
use crate::editor::nav::CustomizeTab;
use crate::lane_map::{lane_of, spec_lane_of, EChannel};

verus! {

/// Keyboard/MIDI capture state.
#[derive(Debug, Clone, Copy, PartialEq, Eq, Structural)]
pub enum CaptureState {
    /// Not capturing.
    Idle,
    /// Listening for the first input to bind to this channel.
    Capturing(EChannel),
    /// The captured source already belongs to `from`; waiting for Enter
    /// (steal) or Escape.
    ConfirmSteal { channel: EChannel, source: BindSource, from: EChannel },
}

impl Default for CaptureState {
    fn default() -> (s: Self)
        ensures
            s == CaptureState::Idle,
    {
        CaptureState::Idle
    }
}

/// A capture is in progress (Escape then cancels it instead of closing
/// the surface).
pub fn capture_active(state: &CaptureState) -> (b: bool)
    ensures
        b == !(*state is Idle),
{
    match state {
        CaptureState::Idle => false,
        _ => true,
    }
}

/// The first channel (in entry order) holding the MIDI note.
pub open spec fn spec_channel_for_note(map: Seq<ChannelSources>, note: u8) -> Option<EChannel>
    decreases map.len(),
{
    if map.len() == 0 {
        None
    } else if map[0].sources@.contains(BindSource::Midi { note }) {
        Some(map[0].channel)
    } else {
        spec_channel_for_note(map.drop_first(), note)
    }
}

/// The channel a MIDI note is bound to, if any.
pub fn channel_for_note(b: &InputBindings, note: u8) -> (r: Option<EChannel>)
    ensures
        r == spec_channel_for_note(b.map@, note),
{
    let src = BindSource::Midi { note };
    let n = b.map.len();
    assert(b.map@.skip(0) =~= b.map@);
    for k in 0..n
        invariant
            n == b.map@.len(),
            src == (BindSource::Midi { note }),
            spec_channel_for_note(b.map@, note) == spec_channel_for_note(b.map@.skip(k as int), note),
    {
        let ghost s = b.map@.skip(k as int);
        assert(s[0] == b.map@[k as int]);
        assert(s.drop_first() =~= b.map@.skip(k + 1));
        let sources = &b.map[k].sources;
        let m = sources.len();
        let mut found = false;
        for j in 0..m
            invariant
                m == sources@.len(),
                found == exists|i: int| 0 <= i < j && sources@[i] == src,
        {
            if sources[j] == src {
                found = true;
            }
        }
        if found {
            return Some(b.map[k].channel);
        }
    }
    assert(b.map@.skip(n as int).len() == 0);
    None
}

/// The channel that holds `src` exclusively, if any. Keyboard binds are
/// shared by design, so only a MIDI note can conflict.
pub fn owner_of(b: &InputBindings, src: BindSource) -> (r: Option<EChannel>)
    ensures
        r == match src {
            BindSource::Key(_) => None,
            BindSource::Midi { note } => spec_channel_for_note(b.map@, note),
        },
{
    match src {
        BindSource::Key(_) => None,
        BindSource::Midi { note } => channel_for_note(b, note),
    }
}

/// What a capture step asks the caller to do to the bindings.
#[derive(Debug, Clone, Copy, PartialEq, Eq, Structural)]
pub enum CaptureEffect {
    Nothing,
    /// Bind `source` to `channel`: exclusively for a MIDI note (moving it
    /// from any other channel), shared for a key.
    Bind { channel: EChannel, source: BindSource, exclusive: bool },
}

/// This frame's capture inputs: the keys, and the first candidates (a
/// just-pressed non-reserved key, a new NoteOn) in that priority.
#[derive(Debug, Clone, Copy, PartialEq, Eq, Structural)]
pub struct CaptureInput {
    pub escape: bool,
    pub enter: bool,
    /// Ctrl/Alt/Super held: such chords are never bound.
    pub modifier_held: bool,
    pub key_candidate: Option<BindSource>,
    pub midi_candidate: Option<BindSource>,
}

/// The effect of binding `source` to `channel`.
pub open spec fn bind_effect(channel: EChannel, source: BindSource) -> CaptureEffect {
    CaptureEffect::Bind { channel, source, exclusive: source is Midi }
}

/// The capture transition.
pub open spec fn spec_capture_step(state: CaptureState, input: CaptureInput, map: Seq<ChannelSources>) -> (
    CaptureState,
    CaptureEffect,
) {
    match state {
        CaptureState::Idle => (state, CaptureEffect::Nothing),
        CaptureState::Capturing(channel) => if input.escape {
            (CaptureState::Idle, CaptureEffect::Nothing)
        } else if input.modifier_held {
            (state, CaptureEffect::Nothing)
        } else {
            let candidate = if input.key_candidate is Some { input.key_candidate } else { input.midi_candidate };
            match candidate {
                None => (state, CaptureEffect::Nothing),
                Some(src) => {
                    let owner = match src {
                        BindSource::Key(_) => None,
                        BindSource::Midi { note } => spec_channel_for_note(map, note),
                    };
                    match owner {
                        Some(other) => if other != channel {
                            (CaptureState::ConfirmSteal { channel, source: src, from: other }, CaptureEffect::Nothing)
                        } else {
                            (CaptureState::Idle, bind_effect(channel, src))
                        },
                        None => (CaptureState::Idle, bind_effect(channel, src)),
                    }
                },
            }
        },
        CaptureState::ConfirmSteal { channel, source, .. } => if input.enter {
            (CaptureState::Idle, bind_effect(channel, source))
        } else if input.escape {
            (CaptureState::Idle, CaptureEffect::Nothing)
        } else {
            (state, CaptureEffect::Nothing)
        },
    }
}

/// Drive the capture: Escape cancels first (and never binds); held
/// modifiers refuse the input; the first candidate (a key before a NoteOn
/// of the same frame) binds, unless it is a MIDI note owned by another
/// channel, which goes through the steal confirmation.
pub fn capture_step(state: CaptureState, input: CaptureInput, bindings: &InputBindings) -> (r: (CaptureState, CaptureEffect))
    ensures
        r == spec_capture_step(state, input, bindings.map@),
{
    match state {
        CaptureState::Idle => (state, CaptureEffect::Nothing),
        CaptureState::Capturing(channel) => {
            if input.escape {
                return (CaptureState::Idle, CaptureEffect::Nothing);
            }
            if input.modifier_held {
                return (state, CaptureEffect::Nothing);
            }
            let candidate = match input.key_candidate {
                Some(k) => Some(k),
                None => input.midi_candidate,
            };
            match candidate {
                None => (state, CaptureEffect::Nothing),
                Some(src) => {
                    let exclusive = match src {
                        BindSource::Midi { .. } => true,
                        BindSource::Key(_) => false,
                    };
                    match owner_of(bindings, src) {
                        Some(other) => if other != channel {
                            (CaptureState::ConfirmSteal { channel, source: src, from: other }, CaptureEffect::Nothing)
                        } else {
                            (CaptureState::Idle, CaptureEffect::Bind { channel, source: src, exclusive })
                        },
                        None => (CaptureState::Idle, CaptureEffect::Bind { channel, source: src, exclusive }),
                    }
                },
            }
        },
        CaptureState::ConfirmSteal { channel, source, .. } => {
            if input.enter {
                let exclusive = match source {
                    BindSource::Midi { .. } => true,
                    BindSource::Key(_) => false,
                };
                (CaptureState::Idle, CaptureEffect::Bind { channel, source, exclusive })
            } else if input.escape {
                (CaptureState::Idle, CaptureEffect::Nothing)
            } else {
                (state, CaptureEffect::Nothing)
            }
        },
    }
}

/// No binding is ever stolen silently: a capture binds a MIDI note owned
/// by another channel only after the steal confirmation, and Escape never
/// binds.
pub proof fn lemma_no_silent_steal(state: CaptureState, input: CaptureInput, map: Seq<ChannelSources>)
    ensures
        ({
            let (next, effect) = spec_capture_step(state, input, map);
            &&& (input.escape && !(state is ConfirmSteal && input.enter)) ==> effect == CaptureEffect::Nothing
            &&& (state is Capturing && effect is Bind && effect->source is Midi
                && spec_channel_for_note(map, effect->source->note) is Some)
                ==> spec_channel_for_note(map, effect->source->note) == Some(effect->channel)
        }),
{
}

/// The hit played as feedback when a capture binds `channel`: that
/// channel's lane at the current clock.
pub fn captured_lane_hit(channel: EChannel, audio_ms: i64) -> (h: Option<LaneHit>)
    ensures
        h is None <==> spec_lane_of(channel) is None,
        h matches Some(hit) ==> spec_lane_of(channel) == Some(hit.lane as int) && hit.audio_ms == audio_ms,
{
    match lane_of(channel) {
        Some(lane) => Some(LaneHit { lane, audio_ms }),
        None => None,
    }
}

/// A real hardware NoteOn on the Bindings tab selects the channel it is
/// bound to (autoplay never moves the selection).
pub fn midi_hit_autoselect(tab: CustomizeTab, new_note: Option<u8>, bindings: &InputBindings) -> (r: Option<EChannel>)
    ensures
        r == if tab == CustomizeTab::Bindings {
            match new_note {
                Some(note) => spec_channel_for_note(bindings.map@, note),
                None => None,
            }
        } else {
            None
        },
{
    if tab != CustomizeTab::Bindings {
        return None;
    }
    match new_note {
        Some(note) => channel_for_note(bindings, note),
        None => None,
    }
}

} // verus!
