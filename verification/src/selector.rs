//! The move decision taken on every tick.
//!
//! A fixed one-tile reflex policy with no look-ahead: keep the current
//! heading while the cell above is free; otherwise dodge right if free;
//! otherwise go left unconditionally — even if left is also blocked, and
//! without ever considering down. The last-resort quirk is deliberate and
//! preserved as observed.

use crate::codec::Direction;
use crate::round::RoundState;
use vstd::prelude::*;

verus! {

/// Whether the one-cell move from the agent's own position in direction
/// `dir` runs into an occupied cell.
pub open spec fn own_move_blocked(r: RoundState, dir: Direction) -> bool {
    r.occupancy@[r.spec_next_offset(r.own_x as int, r.own_y as int, dir)] is Some
}

/// The policy's decision on a round snapshot: `None` keeps the current
/// heading (no move frame is sent this tick).
pub open spec fn spec_select_move(r: RoundState) -> Option<Direction> {
    if !own_move_blocked(r, Direction::Up) {
        None
    } else if !own_move_blocked(r, Direction::Right) {
        Some(Direction::Right)
    } else {
        Some(Direction::Left)
    }
}

/// Chooses this tick's move from the agent's own position, as
/// [`spec_select_move`] dictates.
pub fn select_move(r: &RoundState) -> (mv: Option<Direction>)
    requires
        r.wf(),
    ensures
        mv == spec_select_move(*r),
{
    if !r.is_move_blocked(r.own_x, r.own_y, Direction::Up) {
        None
    } else if !r.is_move_blocked(r.own_x, r.own_y, Direction::Right) {
        Some(Direction::Right)
    } else {
        Some(Direction::Left)
    }
}

} // verus!
