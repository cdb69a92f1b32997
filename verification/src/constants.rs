//! Board geometry and game set-up constants.
//!
//! The board has 14 slots: slot 0 is player two's store, slots 1 through 6
//! are player one's pits, slot 7 is player one's store, and slots 8 through
//! 13 are player two's pits.

use vstd::prelude::*;

verus! {

/// Number of slots on one player's half of the board: six pits plus a store.
pub const SLOTS: usize = 7;

/// Total number of slots on the board.
pub const BOARD_LENGTH: usize = SLOTS * 2;

/// Stones placed in each pit when a game starts.
pub const STARTING_STONES: u8 = 4;

/// Separates the nickname from the connection id in the set-up reply.
pub const SEPARATOR: char = '^';

/// Size in bytes of one wire frame.
pub const FRAME_SIZE: usize = 512;

} // verus!
