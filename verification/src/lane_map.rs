//! Chart channels and the twelve judgment lanes they map to.

use vstd::prelude::*;

verus! {

/// A chart channel. The twelve drum channels are judged on lanes; the
/// others (background music, animation layers, ...) are not.
#[derive(Debug, Clone, Copy, PartialEq, Eq, Structural)]
pub enum EChannel {
    HiHatClose,
    Snare,
    BassDrum,
    HighTom,
    LowTom,
    FloorTom,
    Cymbal,
    HiHatOpen,
    RideCymbal,
    LeftCymbal,
    LeftPedal,
    LeftBassDrum,
    /// Background music.
    BGM,
    /// First background animation layer.
    BGALayer1,
    /// Any other channel, by its chart number.
    Other(u16),
}

/// Index of a judgment lane.
pub type LaneId = usize;

/// Number of judgment lanes.
pub const LANE_COUNT: usize = 12;

/// The drum channel judged on each lane, in lane order.
pub open spec fn spec_lane_channel(lane: int) -> EChannel {
    if lane == 0 {
        EChannel::HiHatClose
    } else if lane == 1 {
        EChannel::Snare
    } else if lane == 2 {
        EChannel::BassDrum
    } else if lane == 3 {
        EChannel::HighTom
    } else if lane == 4 {
        EChannel::LowTom
    } else if lane == 5 {
        EChannel::FloorTom
    } else if lane == 6 {
        EChannel::Cymbal
    } else if lane == 7 {
        EChannel::HiHatOpen
    } else if lane == 8 {
        EChannel::RideCymbal
    } else if lane == 9 {
        EChannel::LeftCymbal
    } else if lane == 10 {
        EChannel::LeftPedal
    } else {
        EChannel::LeftBassDrum
    }
}

/// The lane a channel is judged on, if any.
pub open spec fn spec_lane_of(ch: EChannel) -> Option<int> {
    match ch {
        EChannel::HiHatClose => Some(0),
        EChannel::Snare => Some(1),
        EChannel::BassDrum => Some(2),
        EChannel::HighTom => Some(3),
        EChannel::LowTom => Some(4),
        EChannel::FloorTom => Some(5),
        EChannel::Cymbal => Some(6),
        EChannel::HiHatOpen => Some(7),
        EChannel::RideCymbal => Some(8),
        EChannel::LeftCymbal => Some(9),
        EChannel::LeftPedal => Some(10),
        EChannel::LeftBassDrum => Some(11),
        _ => None,
    }
}

/// The drum channel judged on `lane`.
pub fn lane_channel(lane: LaneId) -> (ch: EChannel)
    requires
        lane < LANE_COUNT,
    ensures
        ch == spec_lane_channel(lane as int),
{
    match lane {
        0 => EChannel::HiHatClose,
        1 => EChannel::Snare,
        2 => EChannel::BassDrum,
        3 => EChannel::HighTom,
        4 => EChannel::LowTom,
        5 => EChannel::FloorTom,
        6 => EChannel::Cymbal,
        7 => EChannel::HiHatOpen,
        8 => EChannel::RideCymbal,
        9 => EChannel::LeftCymbal,
        10 => EChannel::LeftPedal,
        _ => EChannel::LeftBassDrum,
    }
}

/// The lane `ch` is judged on, or `None` for a channel that is not judged.
pub fn lane_of(ch: EChannel) -> (lane: Option<LaneId>)
    ensures
        lane matches Some(l) ==> spec_lane_of(ch) == Some(l as int),
        lane is None <==> spec_lane_of(ch) is None,
{
    match ch {
        EChannel::HiHatClose => Some(0),
        EChannel::Snare => Some(1),
        EChannel::BassDrum => Some(2),
        EChannel::HighTom => Some(3),
        EChannel::LowTom => Some(4),
        EChannel::FloorTom => Some(5),
        EChannel::Cymbal => Some(6),
        EChannel::HiHatOpen => Some(7),
        EChannel::RideCymbal => Some(8),
        EChannel::LeftCymbal => Some(9),
        EChannel::LeftPedal => Some(10),
        EChannel::LeftBassDrum => Some(11),
        _ => None,
    }
}

/// Lane order and channel lookup are inverse: each lane's channel maps back
/// to that lane, and each judged channel is the channel of its lane.
pub proof fn lemma_lane_map_inverse(lane: int, ch: EChannel)
    requires
        0 <= lane < LANE_COUNT,
    ensures
        spec_lane_of(spec_lane_channel(lane)) == Some(lane),
        spec_lane_of(ch) matches Some(l) ==> 0 <= l < LANE_COUNT && spec_lane_channel(l) == ch,
{
}

} // verus!
