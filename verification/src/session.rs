//! The connection and round state machine that sequences the agent.
//!
//! The driver that owns the socket is deliberately thin: it opens the
//! stream, reads one line at a time, and calls [`handle_line`]; the
//! returned [`Action`] tells it what single frame, if any, to write back.
//! Every decision — when to join, when a round starts and ends, how each
//! frame changes the round state, which move to send on a tick — is made
//! here. An `Err` result tears the current connection down; the driver then
//! sleeps a fixed backoff and retries without bound, so no error is fatal
//! to the process.

use crate::codec::Direction;
use crate::codec::Message;
use crate::codec::MessageV;
use crate::codec::ProtocolError;
use crate::codec::ProtocolErrorV;
use crate::codec::decode;
use crate::codec::spec_decode;
use crate::codec::spec_trim;
use crate::codec::trim_line;
use crate::round::RoundState;
use crate::selector::select_move;
use crate::selector::spec_select_move;
use vstd::prelude::*;

verus! {

/// Where the agent stands: no stream, a stream being opened, a stream with
/// no round running, or a round in progress.
#[derive(Debug)]
pub enum SessionState {
    Disconnected,
    Connecting,
    Connected,
    RoundActive(RoundState),
}

/// What the driver must do after a frame was handled: nothing, send the
/// `join` handshake, or send one `move` frame.
#[derive(Debug, Clone, Copy, PartialEq, Eq, Structural)]
pub enum Action {
    Idle,
    SendJoin,
    SendMove(Direction),
}

/// Why a connection was torn down. Every variant unwinds to the driver's
/// retry loop; none is fatal to the process.
#[derive(Debug, Clone, Copy, PartialEq, Eq, Structural)]
pub enum SessionError {
    /// A frame matched no grammar rule, or a well-formed frame made no
    /// sense in the current state: trust in the stream's framing is gone.
    ProtocolViolation,
    /// A frame field was present but not a valid non-negative integer.
    FieldParse,
    /// A read or write failed, or the stream ended. Raised by the driver,
    /// never by the state machine itself.
    ConnectionLost,
    /// The server sent an `error` frame.
    ServerError,
}

/// What must hold of a state before the next frame is dispatched into it:
/// a running round is well-formed, and its roster count has room to grow
/// while the roster is still being learned.
pub open spec fn session_inv(s: SessionState) -> bool {
    s matches SessionState::RoundActive(r) ==> r.wf() && (r.first_tick ==> r.alive_players
        < usize::MAX)
}

/// States a frame may arrive in.
pub open spec fn can_receive(s: SessionState) -> bool {
    s is Connected || s is RoundActive
}

/// Whether `b` is the same round snapshot as `a`.
pub open spec fn rounds_eq(a: RoundState, b: RoundState) -> bool {
    &&& b.width == a.width
    &&& b.height == a.height
    &&& b.own_id == a.own_id
    &&& b.alive_players == a.alive_players
    &&& b.first_tick == a.first_tick
    &&& b.occupancy@ == a.occupancy@
    &&& b.own_x == a.own_x
    &&& b.own_y == a.own_y
}

/// A round as a `game` frame creates it: an empty board of the announced
/// dimensions, the roster still to be learned.
pub open spec fn fresh_round(r: RoundState, width: int, height: int, player_id: int) -> bool {
    &&& r.width == width
    &&& r.height == height
    &&& r.own_id == player_id
    &&& r.alive_players == 0
    &&& r.first_tick
    &&& r.own_x == 0
    &&& r.own_y == 0
    &&& r.occupancy@.len() == width * height
    &&& forall|off: int| 0 <= off < r.occupancy@.len() ==> r.occupancy@[off] is None
}

/// How a `pos` frame changes a round: the reported cell is overwritten
/// with the reporting player, the own position follows reports about
/// `own_id`, and before the first tick the roster count grows by one.
pub open spec fn pos_recorded(
    r0: RoundState,
    player_id: int,
    x: int,
    y: int,
    r1: RoundState,
) -> bool {
    &&& r1.width == r0.width
    &&& r1.height == r0.height
    &&& r1.own_id == r0.own_id
    &&& r1.first_tick == r0.first_tick
    &&& r1.occupancy@ == r0.occupancy@.update(y * r0.width + x, Some(player_id as usize))
    &&& (player_id == r0.own_id ==> r1.own_x == x && r1.own_y == y)
    &&& (player_id != r0.own_id ==> r1.own_x == r0.own_x && r1.own_y == r0.own_y)
    &&& r1.alive_players == if r0.first_tick {
        r0.alive_players + 1
    } else {
        r0.alive_players as int
    }
}

/// How a `tick` frame changes a round: only the roster-learning phase ends.
pub open spec fn ticked(r0: RoundState, r1: RoundState) -> bool {
    &&& r1.width == r0.width
    &&& r1.height == r0.height
    &&& r1.own_id == r0.own_id
    &&& r1.alive_players == r0.alive_players
    &&& !r1.first_tick
    &&& r1.occupancy@ == r0.occupancy@
    &&& r1.own_x == r0.own_x
    &&& r1.own_y == r0.own_y
}

/// How a `die` frame changes a round: the alive count drops by the number
/// of reported ids, their cells are cleared, all else stays.
pub open spec fn players_removed(r0: RoundState, ids: Seq<int>, r1: RoundState) -> bool {
    &&& r1.width == r0.width
    &&& r1.height == r0.height
    &&& r1.own_id == r0.own_id
    &&& r1.first_tick == r0.first_tick
    &&& r1.own_x == r0.own_x
    &&& r1.own_y == r0.own_y
    &&& r1.alive_players == r0.alive_players - ids.len()
    &&& r1.occupancy@.len() == r0.occupancy@.len()
    &&& forall|off: int|
        0 <= off < r0.occupancy@.len() ==> r1.occupancy@[off] == (
        if r0.occupancy@[off] matches Some(p) && ids.contains(p as int) {
            None::<usize>
        } else {
            r0.occupancy@[off]
        })
}

/// The action that a move decision turns into.
pub open spec fn move_action(mv: Option<Direction>) -> Action {
    match mv {
        Some(d) => Action::SendMove(d),
        None => Action::Idle,
    }
}

/// The transition relation of the state machine, one decoded frame at a
/// time. `Err` means the connection is torn down. Frames that make no
/// sense in the current state are ignored, matching observed server
/// tolerance, except `error`, which always closes the connection.
pub open spec fn step_spec(
    s: SessionState,
    m: MessageV,
    res: Result<(SessionState, Action), SessionError>,
) -> bool {
    match m {
        MessageV::Error(_) => res == Err::<(SessionState, Action), SessionError>(
            SessionError::ServerError,
        ),
        MessageV::Motd(_) => match s {
            SessionState::Connected => res == Ok::<(SessionState, Action), SessionError>(
                (SessionState::Connected, Action::SendJoin),
            ),
            SessionState::RoundActive(r0) => res matches Ok(p)
                && p.0 matches SessionState::RoundActive(r1) && (p.1 == Action::Idle
                && rounds_eq(r0, r1)),
            _ => true,
        },
        MessageV::Game { width, height, player_id } => match s {
            SessionState::Connected => if 1 <= width && 1 <= height && width * height
                <= usize::MAX as int {
                res matches Ok(p) && p.0 matches SessionState::RoundActive(r1) && (p.1
                    == Action::Idle && fresh_round(r1, width, height, player_id))
            } else {
                res == Err::<(SessionState, Action), SessionError>(SessionError::ProtocolViolation)
            },
            SessionState::RoundActive(r0) => res matches Ok(p)
                && p.0 matches SessionState::RoundActive(r1) && (p.1 == Action::Idle
                && rounds_eq(r0, r1)),
            _ => true,
        },
        MessageV::Pos { player_id, x, y } => match s {
            SessionState::RoundActive(r0) => if 0 <= x && x < r0.width && 0 <= y && y
                < r0.height {
                res matches Ok(p) && p.0 matches SessionState::RoundActive(r1) && (p.1
                    == Action::Idle && pos_recorded(r0, player_id, x, y, r1))
            } else {
                res == Err::<(SessionState, Action), SessionError>(SessionError::ProtocolViolation)
            },
            SessionState::Connected => res == Ok::<(SessionState, Action), SessionError>(
                (SessionState::Connected, Action::Idle),
            ),
            _ => true,
        },
        MessageV::Tick => match s {
            SessionState::RoundActive(r0) => res matches Ok(p)
                && p.0 matches SessionState::RoundActive(r1) && ticked(r0, r1) && p.1
                == move_action(spec_select_move(r1)),
            SessionState::Connected => res == Ok::<(SessionState, Action), SessionError>(
                (SessionState::Connected, Action::Idle),
            ),
            _ => true,
        },
        MessageV::Die(ids) => match s {
            SessionState::RoundActive(r0) => if ids.len() <= r0.alive_players {
                res matches Ok(p) && p.0 matches SessionState::RoundActive(r1) && (p.1
                    == Action::Idle && players_removed(r0, ids, r1))
            } else {
                res == Err::<(SessionState, Action), SessionError>(SessionError::ProtocolViolation)
            },
            SessionState::Connected => res == Ok::<(SessionState, Action), SessionError>(
                (SessionState::Connected, Action::Idle),
            ),
            _ => true,
        },
        MessageV::Chat { .. } => match s {
            SessionState::Connected => res == Ok::<(SessionState, Action), SessionError>(
                (SessionState::Connected, Action::Idle),
            ),
            SessionState::RoundActive(r0) => res matches Ok(p)
                && p.0 matches SessionState::RoundActive(r1) && (p.1 == Action::Idle
                && rounds_eq(r0, r1)),
            _ => true,
        },
        MessageV::Win { .. } => res == Ok::<(SessionState, Action), SessionError>(
            (SessionState::Connected, Action::Idle),
        ),
        MessageV::Lose { .. } => res == Ok::<(SessionState, Action), SessionError>(
            (SessionState::Connected, Action::Idle),
        ),
    }
}

/// States the machine may hand back inside `Ok`.
pub open spec fn post_state_ok(s: SessionState) -> bool {
    &&& can_receive(s)
    &&& (s matches SessionState::RoundActive(r) ==> r.wf())
}

/// Dispatches one decoded frame into the state machine.
pub fn handle_message(state: SessionState, msg: &Message) -> (res: Result<
    (SessionState, Action),
    SessionError,
>)
    requires
        can_receive(state),
        session_inv(state),
    ensures
        step_spec(state, msg@, res),
        res matches Ok(p) ==> post_state_ok(p.0),
{
    match msg {
        Message::Error(_) => Err(SessionError::ServerError),
        Message::Motd(_) => match state {
            SessionState::Connected => Ok((SessionState::Connected, Action::SendJoin)),
            st => Ok((st, Action::Idle)),
        },
        Message::Game { width, height, player_id } => match state {
            SessionState::Connected => {
                if *width >= 1 && *height >= 1 {
                    match width.checked_mul(*height) {
                        Some(_) => Ok(
                            (
                                SessionState::RoundActive(
                                    RoundState::new(*player_id, *width, *height),
                                ),
                                Action::Idle,
                            ),
                        ),
                        None => Err(SessionError::ProtocolViolation),
                    }
                } else {
                    Err(SessionError::ProtocolViolation)
                }
            }
            st => Ok((st, Action::Idle)),
        },
        Message::Pos { player_id, x, y } => match state {
            SessionState::RoundActive(mut r) => {
                if *x < r.width && *y < r.height {
                    r.record_position(*player_id, *x, *y);
                    Ok((SessionState::RoundActive(r), Action::Idle))
                } else {
                    Err(SessionError::ProtocolViolation)
                }
            }
            st => Ok((st, Action::Idle)),
        },
        Message::Tick => match state {
            SessionState::RoundActive(mut r) => {
                r.advance_tick();
                let action = match select_move(&r) {
                    Some(d) => Action::SendMove(d),
                    None => Action::Idle,
                };
                Ok((SessionState::RoundActive(r), action))
            }
            st => Ok((st, Action::Idle)),
        },
        Message::Die(ids) => match state {
            SessionState::RoundActive(mut r) => {
                if ids.len() <= r.alive_players {
                    r.remove_players(ids);
                    proof {
                        let idsv = ids@.map_values(|id: usize| id as int);
                        assert forall|p: usize| #[trigger] idsv.contains(p as int) implies ids@
                            .contains(p) by {
                            let j = choose|j: int|
                                0 <= j < idsv.len() && idsv[j] == p as int;
                            assert(ids@[j] == p);
                        };
                        assert forall|p: usize| #[trigger] ids@.contains(p) implies idsv.contains(
                            p as int,
                        ) by {
                            let j = choose|j: int| 0 <= j < ids@.len() && ids@[j] == p;
                            assert(idsv[j] == p as int);
                        };
                    }
                    Ok((SessionState::RoundActive(r), Action::Idle))
                } else {
                    Err(SessionError::ProtocolViolation)
                }
            }
            st => Ok((st, Action::Idle)),
        },
        Message::Chat { .. } => match state {
            SessionState::Connected => Ok((SessionState::Connected, Action::Idle)),
            st => Ok((st, Action::Idle)),
        },
        Message::Win { .. } => Ok((SessionState::Connected, Action::Idle)),
        Message::Lose { .. } => Ok((SessionState::Connected, Action::Idle)),
    }
}

/// What [`handle_line`] promises: codec rejections map onto the error
/// taxonomy, and a decoded frame steps the machine.
pub open spec fn line_step_spec(
    s: SessionState,
    d: Result<MessageV, ProtocolErrorV>,
    res: Result<(SessionState, Action), SessionError>,
) -> bool {
    match d {
        Err(ProtocolErrorV::UnknownFrame(_)) => res == Err::<
            (SessionState, Action),
            SessionError,
        >(SessionError::ProtocolViolation),
        Err(ProtocolErrorV::FieldParse(_, _)) => res == Err::<
            (SessionState, Action),
            SessionError,
        >(SessionError::FieldParse),
        Ok(m) => step_spec(s, m, res),
    }
}

/// Handles one received line: strips the frame delimiter, decodes, and
/// dispatches. A malformed frame invalidates trust in the stream's framing
/// and terminates the connection rather than being skipped.
pub fn handle_line(state: SessionState, line: &str) -> (res: Result<
    (SessionState, Action),
    SessionError,
>)
    requires
        can_receive(state),
        session_inv(state),
    ensures
        line_step_spec(state, spec_decode(spec_trim(line@)), res),
        res matches Ok(p) ==> post_state_ok(p.0),
{
    match decode(trim_line(line)) {
        Ok(msg) => handle_message(state, &msg),
        Err(ProtocolError::UnknownFrame(_)) => Err(SessionError::ProtocolViolation),
        Err(ProtocolError::FieldParse(_, _)) => Err(SessionError::FieldParse),
    }
}

/// Whether the next frame may be dispatched into `state`; the unverified
/// driver calls this before every [`handle_line`] and treats a refusal as
/// it would a lost connection.
pub fn ready_for_frame(state: &SessionState) -> (b: bool)
    ensures
        b == (can_receive(*state) && session_inv(*state)),
{
    match state {
        SessionState::Connected => true,
        SessionState::RoundActive(r) => {
            if r.width >= 1 && r.height >= 1 && r.own_x < r.width && r.own_y < r.height {
                match r.width.checked_mul(r.height) {
                    Some(cells) => cells == r.occupancy.len() && (!r.first_tick
                        || r.alive_players < usize::MAX),
                    None => false,
                }
            } else {
                false
            }
        }
        _ => false,
    }
}

/// The driver is about to open the stream to the server.
pub fn begin_connect(state: SessionState) -> (next: SessionState)
    requires
        state is Disconnected,
    ensures
        next is Connecting,
{
    let _ = state;
    SessionState::Connecting
}

/// The stream opened; the server will now initiate the handshake with a
/// `motd` frame.
pub fn connection_opened(state: SessionState) -> (next: SessionState)
    requires
        state is Connecting,
    ensures
        next is Connected,
{
    let _ = state;
    SessionState::Connected
}

/// A failed open, a read or write failure, the end of the stream, or any
/// [`SessionError`] tears the connection down from any state; a running
/// round is destroyed with it.
pub fn connection_lost(state: SessionState) -> (next: SessionState)
    ensures
        next is Disconnected,
{
    let _ = state;
    SessionState::Disconnected
}

} // verus!
