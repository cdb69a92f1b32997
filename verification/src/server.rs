//! Server-side connection teardown.
//!
//! A zero-byte read or an I/O error on a client socket is a normal
//! termination signal, not a fault.  The connection worker does not touch
//! shared state itself: it injects the request sequence built here into
//! the data manager's inbound queue, so registry cleanup flows through the
//! same single-writer path as every other mutation.

use vstd::prelude::*;
use crate::client_input_handler::{
    client_initiate_disconnect, in_game_request, leave_game, lobby_request,
};
use crate::proto::{Commands, Headers, Msg};

verus! {

/// The synthetic requests standing in for a client whose socket closed:
/// a leave-game request first if the client was in a game, then the
/// disconnect request.
pub fn handle_client_disconnect(in_game: bool) -> (r: Vec<Msg>)
    ensures
        in_game ==> r@.len() == 2 && r@[0]@ == in_game_request(Headers::Write, Commands::LeaveGame)
            && r@[1]@ == lobby_request(Headers::Read, Commands::KillMe),
        !in_game ==> r@.len() == 1 && r@[0]@ == lobby_request(Headers::Read, Commands::KillMe),
{
    let mut boot_msgs: Vec<Msg> = Vec::new();
    if in_game {
        boot_msgs.push(leave_game());
    }
    boot_msgs.push(client_initiate_disconnect());
    boot_msgs
}

} // verus!
