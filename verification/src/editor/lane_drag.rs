//! Pad-drag reordering of display lanes.

use vstd::prelude::*;

verus! {

/// Move the lane at `from` to index `target`, shifting the lanes between
/// them by one: the same arrangement that walking it there by adjacent swaps
/// gives.
pub fn move_lane_to<T>(lanes: &mut Vec<T>, from: usize, target: usize)
    requires
        from < old(lanes)@.len(),
        target < old(lanes)@.len(),
    ensures
        final(lanes)@ == old(lanes)@.remove(from as int).insert(target as int, old(lanes)@[from as int]),
{
    if from == target {
        assert(old(lanes)@.remove(from as int).insert(target as int, old(lanes)@[from as int]) =~= old(lanes)@);
        return;
    }
    let lane = lanes.remove(from);
    lanes.insert(target, lane);
}

/// Moving a lane and moving it back restores the arrangement.
pub proof fn lemma_move_round_trip<T>(s: Seq<T>, from: int, target: int)
    requires
        0 <= from < s.len(),
        0 <= target < s.len(),
    ensures
        ({
            let moved = s.remove(from).insert(target, s[from]);
            moved[target] == s[from] && moved.remove(target).insert(from, moved[target]) == s
        }),
{
    let moved = s.remove(from).insert(target, s[from]);
    assert(moved.remove(target) =~= s.remove(from));
    assert(s.remove(from).insert(from, s[from]) =~= s);
}

} // verus!
