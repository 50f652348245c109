//! Plain game-state snapshots for display tooling.
//!
//! The rendering side of the project is an external collaborator of the
//! agent: it merely consumes these values to draw the board and never feeds
//! anything back into the game logic. Only the plain data lives here; the
//! scene graph, textures and window handling stay with the renderer.

use vstd::prelude::*;

verus! {

/// A cell coordinate on the board.
#[derive(Debug, Clone, Copy, PartialEq, Eq, Structural)]
pub struct Position {
    pub x: usize,
    pub y: usize,
}

/// The cell a player occupied on the previous turn.
#[derive(Debug, Clone, Copy)]
pub struct PreviousPos(pub Position);

/// One player's publicly visible state within a snapshot.
#[derive(Debug, Clone)]
pub struct PlayerState {
    pub alive: bool,
    pub chat: Option<String>,
    pub name: String,
    pub pos: Position,
    pub moves: Vec<Position>,
}

/// One complete game snapshot as the server publishes it.
#[derive(Debug, Clone)]
pub struct GameState {
    pub version: usize,
    pub height: usize,
    pub width: usize,
    pub id: String,
    pub players: Vec<PlayerState>,
}

impl Default for GameState {
    /// The empty snapshot: version zero, no board, no players.
    fn default() -> (r: GameState)
        ensures
            r.version == 0,
            r.height == 0,
            r.width == 0,
            r.id@ == Seq::<char>::empty(),
            r.players@.len() == 0,
    {
        GameState { version: 0, height: 0, width: 0, id: String::new(), players: Vec::new() }
    }
}

/// Identifies one player within a snapshot.
#[derive(Debug, Clone, Copy, PartialEq, Eq, Structural)]
pub struct PlayerId(pub usize);

/// Identifies one published turn of a game.
#[derive(Debug, Clone, Copy, PartialEq, Eq, Structural)]
pub struct VersionId(pub usize);

/// The receiver-side record of the snapshot stream: the snapshot most
/// recently received, and which game and turn it belongs to.
pub struct ServerGameState {
    pub game_state: GameState,
    pub current_game_id: String,
    pub current_version: usize,
}

impl ServerGameState {
    /// Starts tracking snapshots: no game identified yet, version zero.
    pub fn new(game_state: GameState) -> (r: ServerGameState)
        ensures
            r.game_state == game_state,
            r.current_game_id@ == Seq::<char>::empty(),
            r.current_version == 0,
    {
        ServerGameState { game_state, current_game_id: String::new(), current_version: 0 }
    }
}

} // verus!
