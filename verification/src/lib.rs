//! Verified core of a turn-based Mancala game server.
//!
//! The crate contains the pure game-state engine (sowing, capture, turn
//! alternation, end-of-game collection), the session registry that tracks
//! connections, nicknames and games, the request handlers that the single
//! data-manager worker runs, and the wire-message types exchanged with
//! clients.  All networking and channel plumbing lives outside the library
//! and talks to it through plain values.

pub mod client_input_handler;
pub mod constants;
pub mod game_laws;
pub mod game_objects;
pub mod board;
pub mod numbers;
pub mod proto;
pub mod registry;
pub mod server;
pub mod server_input_handler;
