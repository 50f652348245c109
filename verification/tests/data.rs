use snek::data::{GameState, PlayerState, Position, ServerGameState};

#[test]
fn server_game_state_starts_empty() {
    let s = ServerGameState::new(GameState::default());
    assert_eq!(s.current_game_id, "");
    assert_eq!(s.current_version, 0);
    assert_eq!(s.game_state.players.len(), 0);
}

#[test]
fn server_game_state_keeps_snapshot() {
    let snapshot = GameState {
        version: 3,
        height: 10,
        width: 12,
        id: String::from("round-one"),
        players: vec![PlayerState {
            alive: true,
            chat: None,
            name: String::from("snek"),
            pos: Position { x: 1, y: 2 },
            moves: vec![Position { x: 0, y: 2 }, Position { x: 1, y: 2 }],
        }],
    };
    let s = ServerGameState::new(snapshot);
    assert_eq!(s.game_state.version, 3);
    assert_eq!(s.game_state.id, "round-one");
    assert_eq!(s.game_state.players[0].pos, Position { x: 1, y: 2 });
}

#[test]
fn game_state_default_is_zeroed() {
    let g = GameState::default();
    assert_eq!(g.version, 0);
    assert_eq!(g.width, 0);
    assert_eq!(g.height, 0);
    assert_eq!(g.id, "");
    assert!(g.players.is_empty());
}

#[test]
fn positions_compare_by_fields() {
    assert_eq!(Position { x: 3, y: 4 }, Position { x: 3, y: 4 });
    assert_ne!(Position { x: 3, y: 4 }, Position { x: 4, y: 3 });
}
