//! Server-side runtime of a small multiplayer program: authenticated commands
//! over durable keyed records, and channel sessions that fan events out to
//! every connected caller.
//!
//! Commands go through [`command::Program`], which looks the handler up by
//! name, decodes the payload and runs the handler once against a
//! [`store::Store`]. Channels go through [`channel::Channels`], which hands
//! what arrives to the [`channel::Session`] of the channel; the session keeps
//! the state of [`chat::MainChannel`] and delivers its events over a
//! [`bus::Bus`]. [`game::GameState`] is the client: three screens that turn
//! a frame's input into drawing and sending.
//!
//! Nothing here does I/O. Handlers get the store, the bus and the log as
//! arguments, and each runs to its end on exclusive borrows of them, so that
//! two runs never interleave.

pub mod bus;
pub mod channel;
pub mod chat;
pub mod command;
pub mod counter;
pub mod error;
pub mod game;
pub mod hello;
pub mod host;
pub mod log;
pub mod store;
pub mod table;
pub mod wire;

pub use crate::game::GameState;
