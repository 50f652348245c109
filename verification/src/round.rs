//! Per-round bookkeeping: the occupancy grid and round-local counters.
//!
//! A round lives from a `game` frame to the matching `win` or `lose` frame.
//! The board is toroidal: coordinates wrap at every edge. The occupancy grid
//! is a log of *last-known reported* occupied cells, not an exclusive full
//! mapping: the protocol never vacates a player's previous cell on ordinary
//! movement, so a stale entry may persist until a `die` frame clears that
//! player. This mirrors observed server behaviour and is deliberate.

use crate::codec::Direction;
use vstd::arithmetic::div_mod::lemma_mod_add_multiples_vanish;
use vstd::arithmetic::div_mod::lemma_mod_self_0;
use vstd::arithmetic::div_mod::lemma_small_mod;
use vstd::prelude::*;

verus! {

/// The state of one round: board dimensions, this agent's identity and last
/// reported position, the occupancy grid, and the roster bookkeeping.
#[derive(Debug)]
pub struct RoundState {
    /// Board width in cells; positive.
    pub width: usize,
    /// Board height in cells; positive.
    pub height: usize,
    /// This agent's player id for the round.
    pub own_id: usize,
    /// Count of players (opponents and self) currently considered alive.
    pub alive_players: usize,
    /// True until the first `tick` is processed; while true, every `pos`
    /// frame is treated as discovering a new participant.
    pub first_tick: bool,
    /// For each linear cell offset `y * width + x`, the player last
    /// reported there, if any.
    pub occupancy: Vec<Option<usize>>,
    /// Column of this agent's last reported position.
    pub own_x: usize,
    /// Row of this agent's last reported position.
    pub own_y: usize,
}

impl RoundState {
    /// Well-formedness: positive board dimensions, a grid covering every
    /// cell, and an own position on the board.
    pub open spec fn wf(self) -> bool {
        &&& 1 <= self.width
        &&& 1 <= self.height
        &&& self.width * self.height <= usize::MAX
        &&& self.occupancy@.len() == self.width * self.height
        &&& self.own_x < self.width
        &&& self.own_y < self.height
    }

    /// The linear offset of cell `(x, y)`.
    pub open spec fn spec_offset(self, x: int, y: int) -> int {
        y * self.width + x
    }

    /// The linear offset of the cell one step from `(x, y)` in direction
    /// `dir`, each axis wrapping with floored modulo (toroidal board).
    pub open spec fn spec_next_offset(self, x: int, y: int, dir: Direction) -> int {
        let w = self.width as int;
        let h = self.height as int;
        let nx = match dir {
            Direction::Left => (x - 1) % w,
            Direction::Right => (x + 1) % w,
            _ => x,
        };
        let ny = match dir {
            Direction::Up => (y - 1) % h,
            Direction::Down => (y + 1) % h,
            _ => y,
        };
        self.spec_offset(nx, ny)
    }

    /// A fresh round on a `width` x `height` board, playing as `player_id`:
    /// every cell free, no participants discovered yet.
    pub fn new(player_id: usize, width: usize, height: usize) -> (r: RoundState)
        requires
            1 <= width,
            1 <= height,
            width * height <= usize::MAX,
        ensures
            r.wf(),
            r.width == width,
            r.height == height,
            r.own_id == player_id,
            r.alive_players == 0,
            r.first_tick,
            r.own_x == 0,
            r.own_y == 0,
            forall|off: int| 0 <= off < r.occupancy@.len() ==> r.occupancy@[off] is None,
    {
        let cells = width * height;
        let mut occupancy: Vec<Option<usize>> = Vec::new();
        let mut i: usize = 0;
        while i < cells
            invariant
                i <= cells,
                occupancy@.len() == i,
                forall|off: int| 0 <= off < i ==> occupancy@[off] is None,
            decreases cells - i,
        {
            occupancy.push(None);
            i += 1;
        }
        RoundState {
            width,
            height,
            own_id: player_id,
            alive_players: 0,
            first_tick: true,
            occupancy,
            own_x: 0,
            own_y: 0,
        }
    }

    /// The linear offset of cell `(x, y)`; always a valid grid index.
    pub fn offset(&self, x: usize, y: usize) -> (r: usize)
        requires
            self.wf(),
            x < self.width,
            y < self.height,
        ensures
            r == self.spec_offset(x as int, y as int),
            r < self.occupancy@.len(),
    {
        proof {
            assert(y * self.width + x < self.width * self.height) by (nonlinear_arith)
                requires
                    x < self.width,
                    y < self.height,
                    1 <= self.width,
            ;
        }
        y * self.width + x
    }

    /// The grid index one step from `(x, y)` in direction `dir`, wrapping
    /// at every board edge.
    pub fn next_offset(&self, x: usize, y: usize, dir: Direction) -> (r: usize)
        requires
            self.wf(),
            x < self.width,
            y < self.height,
        ensures
            r == self.spec_next_offset(x as int, y as int, dir),
            r < self.occupancy@.len(),
    {
        let nx = match dir {
            Direction::Left => if x == 0 {
                self.width - 1
            } else {
                x - 1
            },
            Direction::Right => if x + 1 == self.width {
                0
            } else {
                x + 1
            },
            _ => x,
        };
        let ny = match dir {
            Direction::Up => if y == 0 {
                self.height - 1
            } else {
                y - 1
            },
            Direction::Down => if y + 1 == self.height {
                0
            } else {
                y + 1
            },
            _ => y,
        };
        proof {
            lemma_wrap_dec(x as int, self.width as int);
            lemma_wrap_inc(x as int, self.width as int);
            lemma_wrap_dec(y as int, self.height as int);
            lemma_wrap_inc(y as int, self.height as int);
        }
        self.offset(nx, ny)
    }

    /// A move from `(x, y)` in direction `dir` is blocked exactly when some
    /// player — any player, this agent included — was last reported on the
    /// target cell.
    pub fn is_move_blocked(&self, x: usize, y: usize, dir: Direction) -> (r: bool)
        requires
            self.wf(),
            x < self.width,
            y < self.height,
        ensures
            r == (self.occupancy@[self.spec_next_offset(x as int, y as int, dir)] is Some),
    {
        let next = self.next_offset(x, y, dir);
        self.occupancy[next].is_some()
    }

    /// Records a `pos` broadcast: the reported cell now belongs to
    /// `player_id`, overwriting any prior occupant recorded there; the own
    /// position follows reports about `own_id`; while the roster is still
    /// being learned (before the first tick), each report counts a new
    /// participant.
    pub fn record_position(&mut self, player_id: usize, x: usize, y: usize)
        requires
            old(self).wf(),
            x < old(self).width,
            y < old(self).height,
            old(self).first_tick ==> old(self).alive_players < usize::MAX,
        ensures
            final(self).wf(),
            final(self).width == old(self).width,
            final(self).height == old(self).height,
            final(self).own_id == old(self).own_id,
            final(self).first_tick == old(self).first_tick,
            final(self).occupancy@ == old(self).occupancy@.update(
                old(self).spec_offset(x as int, y as int),
                Some(player_id),
            ),
            player_id == old(self).own_id ==> final(self).own_x == x && final(self).own_y == y,
            player_id != old(self).own_id ==> final(self).own_x == old(self).own_x
                && final(self).own_y == old(self).own_y,
            final(self).alive_players == if old(self).first_tick {
                old(self).alive_players + 1
            } else {
                old(self).alive_players as int
            },
    {
        let off = self.offset(x, y);
        self.occupancy.set(off, Some(player_id));
        if player_id == self.own_id {
            self.own_x = x;
            self.own_y = y;
        }
        if self.first_tick {
            self.alive_players = self.alive_players + 1;
        }
    }

    /// Ends the roster-learning phase. Choosing a move is left to the move
    /// selector, which reads the resulting state.
    pub fn advance_tick(&mut self)
        requires
            old(self).wf(),
        ensures
            final(self).wf(),
            !final(self).first_tick,
            final(self).width == old(self).width,
            final(self).height == old(self).height,
            final(self).own_id == old(self).own_id,
            final(self).alive_players == old(self).alive_players,
            final(self).occupancy == old(self).occupancy,
            final(self).own_x == old(self).own_x,
            final(self).own_y == old(self).own_y,
    {
        self.first_tick = false;
    }

    /// Removes eliminated players: the alive count drops by the number of
    /// ids given, every cell whose last-reported occupant is among `ids` is
    /// cleared, and every other cell is left unchanged.
    pub fn remove_players(&mut self, ids: &Vec<usize>)
        requires
            old(self).wf(),
            ids@.len() <= old(self).alive_players,
        ensures
            final(self).wf(),
            final(self).width == old(self).width,
            final(self).height == old(self).height,
            final(self).own_id == old(self).own_id,
            final(self).first_tick == old(self).first_tick,
            final(self).own_x == old(self).own_x,
            final(self).own_y == old(self).own_y,
            final(self).alive_players == old(self).alive_players - ids@.len(),
            final(self).occupancy@.len() == old(self).occupancy@.len(),
            forall|off: int|
                0 <= off < old(self).occupancy@.len() ==> final(self).occupancy@[off] == (
                if old(self).occupancy@[off] matches Some(p) && ids@.contains(p) {
                    None::<usize>
                } else {
                    old(self).occupancy@[off]
                }),
    {
        self.alive_players = self.alive_players - ids.len();
        let n = self.occupancy.len();
        let mut off: usize = 0;
        while off < n
            invariant
                off <= n,
                n == self.occupancy@.len(),
                n == old(self).occupancy@.len(),
                self.width == old(self).width,
                self.height == old(self).height,
                self.own_id == old(self).own_id,
                self.first_tick == old(self).first_tick,
                self.own_x == old(self).own_x,
                self.own_y == old(self).own_y,
                self.alive_players == old(self).alive_players - ids@.len(),
                forall|k: int|
                    0 <= k < off ==> self.occupancy@[k] == (
                    if old(self).occupancy@[k] matches Some(p) && ids@.contains(p) {
                        None::<usize>
                    } else {
                        old(self).occupancy@[k]
                    }),
                forall|k: int| off <= k < n ==> self.occupancy@[k] == old(self).occupancy@[k],
            decreases n - off,
        {
            match self.occupancy[off] {
                Some(p) => {
                    if contains_id(ids, p) {
                        self.occupancy.set(off, None);
                    }
                }
                None => {}
            }
            off += 1;
        }
    }
}

/// Whether `ids` holds `id`.
fn contains_id(ids: &Vec<usize>, id: usize) -> (r: bool)
    ensures
        r == ids@.contains(id),
{
    let mut i: usize = 0;
    while i < ids.len()
        invariant
            i <= ids@.len(),
            forall|j: int| 0 <= j < i ==> ids@[j] != id,
        decreases ids@.len() - i,
    {
        if ids[i] == id {
            return true;
        }
        i += 1;
    }
    false
}

/// Stepping one cell towards the low edge wraps to the high edge.
proof fn lemma_wrap_dec(v: int, n: int)
    requires
        1 <= n,
        0 <= v < n,
    ensures
        (v - 1) % n == if v == 0 {
            n - 1
        } else {
            v - 1
        },
{
    if v == 0 {
        lemma_mod_add_multiples_vanish(-1, n);
        lemma_small_mod((n - 1) as nat, n as nat);
    } else {
        lemma_small_mod((v - 1) as nat, n as nat);
    }
}

/// Stepping one cell towards the high edge wraps to the low edge.
proof fn lemma_wrap_inc(v: int, n: int)
    requires
        1 <= n,
        0 <= v < n,
    ensures
        (v + 1) % n == if v + 1 == n {
            0int
        } else {
            v + 1
        },
{
    if v + 1 == n {
        lemma_mod_self_0(n);
    } else {
        lemma_small_mod((v + 1) as nat, n as nat);
    }
}

} // verus!
