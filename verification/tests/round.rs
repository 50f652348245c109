use snek::codec::Direction;
use snek::round::RoundState;

#[test]
fn offset_is_row_major() {
    let r = RoundState::new(0, 5, 5);
    assert_eq!(r.offset(0, 0), 0);
    assert_eq!(r.offset(4, 0), 4);
    assert_eq!(r.offset(0, 1), 5);
    assert_eq!(r.offset(3, 2), 13);
}

#[test]
fn next_offset_wraps_at_edges() {
    let r = RoundState::new(0, 5, 5);
    // Moving up from the top row wraps to the bottom row.
    assert_eq!(r.next_offset(0, 0, Direction::Up), r.offset(0, 4));
    // Moving right off the right edge wraps to the left column.
    assert_eq!(r.next_offset(4, 0, Direction::Right), r.offset(0, 0));
    assert_eq!(r.next_offset(0, 0, Direction::Left), r.offset(4, 0));
    assert_eq!(r.next_offset(2, 4, Direction::Down), r.offset(2, 0));
}

#[test]
fn next_offset_interior_moves() {
    let r = RoundState::new(0, 5, 5);
    assert_eq!(r.next_offset(2, 2, Direction::Up), r.offset(2, 1));
    assert_eq!(r.next_offset(2, 2, Direction::Down), r.offset(2, 3));
    assert_eq!(r.next_offset(2, 2, Direction::Left), r.offset(1, 2));
    assert_eq!(r.next_offset(2, 2, Direction::Right), r.offset(3, 2));
}

#[test]
fn next_offset_one_by_one_board() {
    let r = RoundState::new(0, 1, 1);
    assert_eq!(r.next_offset(0, 0, Direction::Up), 0);
    assert_eq!(r.next_offset(0, 0, Direction::Left), 0);
}

#[test]
fn blocked_iff_target_occupied() {
    let mut r = RoundState::new(0, 5, 5);
    assert!(!r.is_move_blocked(2, 2, Direction::Up));
    // Any occupant blocks, opponents and self alike.
    r.record_position(1, 2, 1);
    assert!(r.is_move_blocked(2, 2, Direction::Up));
    r.record_position(0, 3, 2);
    assert!(r.is_move_blocked(2, 2, Direction::Right));
    assert!(!r.is_move_blocked(2, 2, Direction::Down));
    assert!(!r.is_move_blocked(2, 2, Direction::Left));
    // Blocking tracks the wrap: a snake on the bottom row blocks an
    // upward move from the top row.
    r.record_position(1, 0, 4);
    assert!(r.is_move_blocked(0, 0, Direction::Up));
}

#[test]
fn record_position_overwrites_cell() {
    let mut r = RoundState::new(0, 5, 5);
    r.record_position(1, 2, 2);
    r.record_position(2, 2, 2);
    assert_eq!(r.occupancy[r.offset(2, 2)], Some(2));
}

#[test]
fn record_position_tracks_own_and_roster() {
    let mut r = RoundState::new(0, 5, 5);
    r.record_position(0, 1, 1);
    r.record_position(1, 3, 3);
    assert_eq!(r.alive_players, 2);
    assert_eq!((r.own_x, r.own_y), (1, 1));
    r.advance_tick();
    assert!(!r.first_tick);
    r.record_position(0, 2, 1);
    assert_eq!((r.own_x, r.own_y), (2, 1));
    assert_eq!(r.alive_players, 2);
}

#[test]
fn stale_cells_persist_on_movement() {
    // The protocol never vacates a previous cell on ordinary movement:
    // the old entry stays until a die frame clears that player.
    let mut r = RoundState::new(0, 5, 5);
    r.record_position(1, 2, 2);
    r.record_position(1, 3, 2);
    assert_eq!(r.occupancy[r.offset(2, 2)], Some(1));
    assert_eq!(r.occupancy[r.offset(3, 2)], Some(1));
}

#[test]
fn remove_players_clears_only_their_cells() {
    let mut r = RoundState::new(0, 5, 5);
    r.record_position(0, 1, 1);
    r.record_position(1, 2, 1);
    r.record_position(2, 4, 1);
    assert_eq!(r.alive_players, 3);
    r.advance_tick();
    // Player 1 moves on; the stale entry persists until the removal.
    r.record_position(1, 3, 1);
    r.remove_players(&vec![1]);
    // The alive count drops by exactly one, every cell of player 1 is
    // cleared, and all other cells are untouched.
    assert_eq!(r.alive_players, 2);
    assert_eq!(r.occupancy[r.offset(1, 1)], Some(0));
    assert_eq!(r.occupancy[r.offset(2, 1)], None);
    assert_eq!(r.occupancy[r.offset(3, 1)], None);
    assert_eq!(r.occupancy[r.offset(4, 1)], Some(2));
}

#[test]
fn remove_players_several_at_once() {
    let mut r = RoundState::new(0, 4, 4);
    r.record_position(0, 0, 0);
    r.record_position(1, 1, 0);
    r.record_position(2, 2, 0);
    r.remove_players(&vec![1, 2]);
    assert_eq!(r.alive_players, 1);
    assert_eq!(r.occupancy[0], Some(0));
    assert_eq!(r.occupancy[1], None);
    assert_eq!(r.occupancy[2], None);
}

#[test]
fn fresh_round_is_empty() {
    let r = RoundState::new(7, 3, 2);
    assert_eq!(r.width, 3);
    assert_eq!(r.height, 2);
    assert_eq!(r.own_id, 7);
    assert_eq!(r.alive_players, 0);
    assert!(r.first_tick);
    assert_eq!(r.occupancy.len(), 6);
    assert!(r.occupancy.iter().all(|c| c.is_none()));
}

#[test]
fn every_first_tick_report_counts() {
    // Roster learning counts reports: the server announces each live
    // player once before the first tick, so each report discovers one
    // participant.
    let mut r = RoundState::new(0, 5, 5);
    r.record_position(1, 1, 1);
    r.record_position(1, 2, 1);
    assert_eq!(r.alive_players, 2);
}
