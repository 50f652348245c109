//! A network-playing agent for a tick-driven snake game on a toroidal grid.
//!
//! The library covers the whole decision-making core of the agent: the text
//! protocol codec ([`codec`]), the per-round occupancy tracker ([`round`]),
//! the one-tile reflex move policy ([`selector`]), and the connection and
//! round state machine that sequences them ([`session`]). A thin driver
//! owns the socket, feeds received lines into the state machine, and
//! performs the actions it returns; every decision the driver does not
//! make is verified here. [`data`] holds the plain game-state snapshots
//! consumed by display tooling.

pub mod codec;
pub mod data;
pub mod round;
pub mod selector;
pub mod session;
