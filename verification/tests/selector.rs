use snek::codec::Direction;
use snek::round::RoundState;
use snek::selector::select_move;

/// A 5x5 round with the agent at (2, 2) and the given cells occupied by an
/// opponent.
fn round_with_blocks(blocks: &[(usize, usize)]) -> RoundState {
    let mut r = RoundState::new(0, 5, 5);
    r.record_position(0, 2, 2);
    for &(x, y) in blocks {
        r.record_position(1, x, y);
    }
    r
}

#[test]
fn keeps_heading_when_up_free() {
    let r = round_with_blocks(&[]);
    assert_eq!(select_move(&r), None);
}

#[test]
fn dodges_right_when_up_blocked() {
    // Up is blocked, right is free.
    let r = round_with_blocks(&[(2, 1)]);
    assert_eq!(select_move(&r), Some(Direction::Right));
}

#[test]
fn falls_back_left_when_up_and_right_blocked() {
    // Up and right blocked, left free.
    let r = round_with_blocks(&[(2, 1), (3, 2)]);
    assert_eq!(select_move(&r), Some(Direction::Left));
}

#[test]
fn goes_left_even_when_left_blocked() {
    // The last resort is unconditional: left is chosen even though it is
    // blocked too, and down is never considered.
    let r = round_with_blocks(&[(2, 1), (3, 2), (1, 2), (2, 3)]);
    assert_eq!(select_move(&r), Some(Direction::Left));
}

#[test]
fn only_up_matters_for_keeping_heading() {
    // Everything but up blocked: still no move frame.
    let r = round_with_blocks(&[(3, 2), (1, 2), (2, 3)]);
    assert_eq!(select_move(&r), None);
}
