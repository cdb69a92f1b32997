//! The wire-message contract between client and server.
//!
//! Every request and response is one `Msg`: a status, a direction header,
//! a command verb, the sender's lobby/in-game phase, a text payload and a
//! game snapshot.  The fixed-shape wire format has no optional fields, so
//! lobby-only messages carry the empty sentinel game.  Messages travel in
//! fixed 512-byte frames; `pad_frame` checks and pads an encoded message to
//! exactly one frame.

use vstd::prelude::*;
use crate::constants::FRAME_SIZE;
use crate::game_objects::{GameState, GameView};

verus! {

/// Direction of a message: a read request, a write request, or a server
/// response.
#[derive(Clone, Copy, Debug, PartialEq, Eq, Structural)]
pub enum Headers {
    Read,
    Write,
    Response,
}

/// Whether the sender considers the exchange successful.
#[derive(Clone, Copy, Debug, PartialEq, Eq, Structural)]
pub enum Status {
    Okay,
    NotOk,
}

/// The sender's phase: in a game or in the lobby.
#[derive(Clone, Copy, Debug, PartialEq, Eq, Structural)]
pub enum GameStatus {
    InGame,
    NotInGame,
}

/// The command verbs: client requests, and the server's response-only
/// verbs (`Reply`, `GameIsOver`, `KillClient`).
#[derive(Clone, Copy, Debug, PartialEq, Eq, Structural)]
pub enum Commands {
    InitSetup,
    SetNick,
    ListGames,
    ListUsers,
    MakeNewGame,
    JoinGame,
    GetCurrentGamestate,
    MakeMove,
    LeaveGame,
    KillMe,
    KillClient,
    Reply,
    GameIsOver,
}

/// Specification-level image of a `Msg`.
#[verifier::ext_equal]
pub ghost struct MsgView {
    pub status: Status,
    pub headers: Headers,
    pub command: Commands,
    pub game_status: GameStatus,
    pub data: Seq<char>,
    pub game_state: GameView,
}

/// The request/response envelope exchanged over the socket.
#[derive(Debug)]
pub struct Msg {
    pub status: Status,
    pub headers: Headers,
    pub command: Commands,
    pub game_status: GameStatus,
    pub data: String,
    pub game_state: GameState,
}

impl View for Msg {
    type V = MsgView;

    open spec fn view(&self) -> MsgView {
        MsgView {
            status: self.status,
            headers: self.headers,
            command: self.command,
            game_status: self.game_status,
            data: self.data@,
            game_state: self.game_state@,
        }
    }
}

impl Clone for Msg {
    fn clone(&self) -> (r: Self)
        ensures
            r@ == self@,
    {
        Msg {
            status: self.status,
            headers: self.headers,
            command: self.command,
            game_status: self.game_status,
            data: self.data.clone(),
            game_state: self.game_state.clone(),
        }
    }
}

impl PartialEq for Msg {
    fn eq(&self, other: &Self) -> (r: bool) {
        self.status == other.status && self.headers == other.headers && self.command
            == other.command && self.game_status == other.game_status && self.data == other.data
            && self.game_state == other.game_state
    }
}

impl vstd::std_specs::cmp::PartialEqSpecImpl for Msg {
    open spec fn obeys_eq_spec() -> bool {
        true
    }

    open spec fn eq_spec(&self, other: &Msg) -> bool {
        self@ == other@
    }
}

/// Pads an encoded message out to one fixed-size frame with zero bytes;
/// a message too large for a frame is rejected.
pub fn pad_frame(encoded: Vec<u8>) -> (r: Option<Vec<u8>>)
    ensures
        encoded@.len() > FRAME_SIZE ==> r is None,
        encoded@.len() <= FRAME_SIZE ==> (r matches Some(f) && f@.len() == FRAME_SIZE
            && f@.subrange(0, encoded@.len() as int) == encoded@ && (forall|i: int|
            encoded@.len() <= i < FRAME_SIZE ==> f@[i] == 0)),
{
    if encoded.len() > FRAME_SIZE {
        return None;
    }
    let ghost payload = encoded@;
    let mut frame = encoded;
    while frame.len() < FRAME_SIZE
        invariant
            payload.len() <= frame@.len() <= FRAME_SIZE,
            frame@.subrange(0, payload.len() as int) == payload,
            forall|i: int| payload.len() <= i < frame@.len() ==> frame@[i] == 0,
        decreases FRAME_SIZE - frame@.len(),
    {
        frame.push(0);
        proof {
            assert(frame@.subrange(0, payload.len() as int) =~= payload);
        }
    }
    Some(frame)
}

} // verus!
