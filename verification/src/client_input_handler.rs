//! Client-side request building and input validation.
//!
//! The interactive shell around the client collects raw text from the
//! player; the functions here validate it and build the exact wire message
//! for each menu choice.  Each builder's message is pinned down by a spec
//! function, so the interactive layer cannot send anything the protocol
//! does not mean.

use vstd::prelude::*;
use vstd::string::StringExecFns;
use crate::constants::{BOARD_LENGTH, SEPARATOR, SLOTS};
use crate::game_objects::{empty_game_view, spec_move_in_range, GameState};
use crate::numbers::{all_digits, dec_str, dec_val, parse_u32, u64_to_string};
use crate::proto::{Commands, GameStatus, Headers, Msg, MsgView, Status};

verus! {

/// Generates connection string based on the user's inputs for hostname
/// and port number.  Used by the client to establish a connection to the
/// server.
pub fn get_connection(host: String, port: u32) -> (r: String)
    ensures
        r@ == host@ + ":"@ + dec_str(port as nat),
{
    let mut r = host;
    r.append(":");
    r.append(u64_to_string(port as u64).as_str());
    r
}

/// A usable host name: non-empty, with no space and no colon.
pub open spec fn spec_host_ok(s: Seq<char>) -> bool {
    &&& s.len() > 0
    &&& forall|i: int| 0 <= i < s.len() ==> #[trigger] s[i] != ' ' && s[i] != ':'
}

/// Checks a host name typed by the player.
pub fn verify_host(hostname: String) -> (r: bool)
    ensures
        r == spec_host_ok(hostname@),
{
    let s = hostname.as_str();
    let len = s.unicode_len();
    if len == 0 {
        return false;
    }
    let mut i: usize = 0;
    while i < len
        invariant
            i <= len,
            len == s@.len(),
            s@ == hostname@,
            forall|j: int| 0 <= j < i ==> #[trigger] s@[j] != ' ' && s@[j] != ':',
        decreases len - i,
    {
        let c = s.get_char(i);
        if c == ' ' || c == ':' {
            proof {
                assert(hostname@[i as int] == ' ' || hostname@[i as int] == ':');
                assert(!spec_host_ok(hostname@));
            }
            return false;
        }
        i = i + 1;
    }
    true
}

/// A parseable port number: a decimal that fits in a `u32`.
pub open spec fn spec_number_ok(s: Seq<char>) -> bool {
    &&& s.len() > 0
    &&& all_digits(s)
    &&& dec_val(s) <= u32::MAX as int
}

/// Checks a port number typed by the player.
pub fn verify_port(port: &str) -> (r: bool)
    ensures
        r == spec_number_ok(port@),
{
    match parse_u32(port) {
        Some(_) => true,
        None => {
            proof {
                if spec_number_ok(port@) {
                    assert(false);
                }
            }
            false
        },
    }
}

/// Checks a lobby menu choice typed by the player: the menu offers
/// entries 1 through 6.
pub fn verify_selection(selection: &str) -> (r: bool)
    ensures
        r == (spec_number_ok(selection@) && 0 < dec_val(selection@) < 7),
{
    match parse_u32(selection) {
        Some(choice) => choice > 0 && choice < 7,
        None => {
            proof {
                if spec_number_ok(selection@) {
                    assert(false);
                }
            }
            false
        },
    }
}

/// Checks a game id typed by the player.
pub fn verify_join_game(game_id: &str) -> (r: bool)
    ensures
        r == spec_number_ok(game_id@),
{
    match parse_u32(game_id) {
        Some(_) => true,
        None => {
            proof {
                if spec_number_ok(game_id@) {
                    assert(false);
                }
            }
            false
        },
    }
}

/// The first message the client sends after the handshake.
pub open spec fn hello_msg() -> MsgView {
    MsgView {
        status: Status::Okay,
        headers: Headers::Write,
        command: Commands::InitSetup,
        game_status: GameStatus::NotInGame,
        data: Seq::<char>::empty(),
        game_state: empty_game_view(),
    }
}

/// Returns the first message necessary for the client.
pub fn initial_hello_msg() -> (r: Msg)
    ensures
        r@ == hello_msg(),
{
    Msg {
        status: Status::Okay,
        headers: Headers::Write,
        command: Commands::InitSetup,
        game_status: GameStatus::NotInGame,
        data: String::new(),
        game_state: GameState::new_empty(),
    }
}

/// A lobby request carrying no payload.
pub open spec fn lobby_request(headers: Headers, command: Commands) -> MsgView {
    MsgView {
        status: Status::Okay,
        headers: headers,
        command: command,
        game_status: GameStatus::NotInGame,
        data: Seq::<char>::empty(),
        game_state: empty_game_view(),
    }
}

/// A lobby request carrying a payload typed by the player.
pub open spec fn lobby_request_with(headers: Headers, command: Commands, data: Seq<char>) -> MsgView {
    MsgView {
        status: Status::Okay,
        headers: headers,
        command: command,
        game_status: GameStatus::NotInGame,
        data: data,
        game_state: empty_game_view(),
    }
}

/// Builds the request to list joinable games.
pub fn list_available_games() -> (r: Msg)
    ensures
        r@ == lobby_request(Headers::Read, Commands::ListGames),
{
    Msg {
        status: Status::Okay,
        headers: Headers::Read,
        command: Commands::ListGames,
        game_status: GameStatus::NotInGame,
        data: String::new(),
        game_state: GameState::new_empty(),
    }
}

/// Builds the request to list connected users.
pub fn list_active_users() -> (r: Msg)
    ensures
        r@ == lobby_request(Headers::Read, Commands::ListUsers),
{
    Msg {
        status: Status::Okay,
        headers: Headers::Read,
        command: Commands::ListUsers,
        game_status: GameStatus::NotInGame,
        data: String::new(),
        game_state: GameState::new_empty(),
    }
}

/// Creates a message, given a game id, asking the server to add a player
/// to a game.
pub fn join_game(game_id: usize) -> (r: Msg)
    ensures
        r@ == lobby_request_with(
            Headers::Write,
            Commands::JoinGame,
            dec_str(game_id as nat),
        ),
{
    Msg {
        status: Status::Okay,
        headers: Headers::Write,
        command: Commands::JoinGame,
        game_status: GameStatus::NotInGame,
        data: u64_to_string(game_id as u64),
        game_state: GameState::new_empty(),
    }
}

/// Creates a message to ask the server to change the client's current
/// nickname.
pub fn set_nickname(nickname: String) -> (r: Msg)
    ensures
        r@ == lobby_request_with(Headers::Write, Commands::SetNick, nickname@),
{
    Msg {
        status: Status::Okay,
        headers: Headers::Write,
        command: Commands::SetNick,
        game_status: GameStatus::NotInGame,
        data: nickname,
        game_state: GameState::new_empty(),
    }
}

/// Creates a message to ask the server to start a new game under this
/// name, with the client as its first player.
pub fn start_new_game(game_name: String) -> (r: Msg)
    ensures
        r@ == lobby_request_with(Headers::Write, Commands::MakeNewGame, game_name@),
{
    Msg {
        status: Status::Okay,
        headers: Headers::Write,
        command: Commands::MakeNewGame,
        game_status: GameStatus::NotInGame,
        data: game_name,
        game_state: GameState::new_empty(),
    }
}

/// Builds the request that asks the server to drop this client.
pub fn client_initiate_disconnect() -> (r: Msg)
    ensures
        r@ == lobby_request(Headers::Read, Commands::KillMe),
{
    Msg {
        status: Status::Okay,
        headers: Headers::Read,
        command: Commands::KillMe,
        game_status: GameStatus::NotInGame,
        data: String::new(),
        game_state: GameState::new_empty(),
    }
}

/// Handle when a user is out of a game: turns a validated menu selection
/// and the input collected for it into the request to send.
pub fn handle_out_of_game(selection: u8, data: String) -> (r: Msg)
    ensures
        selection == 1 ==> r@ == lobby_request_with(Headers::Write, Commands::SetNick, data@),
        selection == 2 ==> r@ == lobby_request(Headers::Read, Commands::ListGames),
        selection == 3 ==> r@ == lobby_request(Headers::Read, Commands::ListUsers),
        selection == 4 ==> r@ == lobby_request_with(Headers::Write, Commands::MakeNewGame, data@),
        selection == 5 ==> r@ == lobby_request_with(Headers::Write, Commands::JoinGame, data@),
        !(1 <= selection <= 5) ==> r@ == lobby_request(Headers::Read, Commands::KillMe),
{
    match selection {
        1 => set_nickname(data),
        2 => list_available_games(),
        3 => list_active_users(),
        4 => start_new_game(data),
        5 => Msg {
            status: Status::Okay,
            headers: Headers::Write,
            command: Commands::JoinGame,
            game_status: GameStatus::NotInGame,
            data,
            game_state: GameState::new_empty(),
        },
        _ => client_initiate_disconnect(),
    }
}

/// An in-game request carrying no payload.
pub open spec fn in_game_request(headers: Headers, command: Commands) -> MsgView {
    MsgView {
        status: Status::Okay,
        headers: headers,
        command: command,
        game_status: GameStatus::InGame,
        data: Seq::<char>::empty(),
        game_state: empty_game_view(),
    }
}

/// Builds the request for a fresh snapshot of the client's game.
pub fn get_current_gamestate() -> (r: Msg)
    ensures
        r@ == in_game_request(Headers::Read, Commands::GetCurrentGamestate),
{
    Msg {
        status: Status::Okay,
        headers: Headers::Read,
        command: Commands::GetCurrentGamestate,
        game_status: GameStatus::InGame,
        data: String::new(),
        game_state: GameState::new_empty(),
    }
}

/// Builds the request that takes the client out of its game.
pub fn leave_game() -> (r: Msg)
    ensures
        r@ == in_game_request(Headers::Write, Commands::LeaveGame),
{
    Msg {
        status: Status::Okay,
        headers: Headers::Write,
        command: Commands::LeaveGame,
        game_status: GameStatus::InGame,
        data: String::new(),
        game_state: GameState::new_empty(),
    }
}

/// Builds the request that plays a move from the given slot.
pub fn make_move_request(slot: usize) -> (r: Msg)
    ensures
        r@ == (MsgView {
            status: Status::Okay,
            headers: Headers::Write,
            command: Commands::MakeMove,
            game_status: GameStatus::InGame,
            data: dec_str(slot as nat),
            game_state: empty_game_view(),
        }),
{
    Msg {
        status: Status::Okay,
        headers: Headers::Write,
        command: Commands::MakeMove,
        game_status: GameStatus::InGame,
        data: u64_to_string(slot as u64),
        game_state: GameState::new_empty(),
    }
}

/// Helper function to decide if the current game state allows the
/// requested move: the slot must be one of this player's six pits and
/// hold at least one stone.
pub fn check_is_move_valid(
    move_to_make: usize,
    game_state: &GameState,
    am_i_player_one: bool,
) -> (r: bool)
    requires
        game_state@.board.len() == BOARD_LENGTH,
    ensures
        r == (spec_move_in_range(am_i_player_one, move_to_make as int)
            && game_state@.board[move_to_make as int] != 0),
{
    let in_range = if am_i_player_one {
        1 <= move_to_make && move_to_make < SLOTS
    } else {
        SLOTS < move_to_make && move_to_make < BOARD_LENGTH
    };
    in_range && game_state.game_board[move_to_make] != 0
}

/// What the client should do next while in a game.
#[derive(Clone, Copy, Debug, PartialEq, Eq, Structural)]
pub enum InGameStep {
    /// The server failed outside the protocol: ask to be dropped.
    Disconnect,
    /// The game ended: leave it and return to the lobby.
    ConcludeGame,
    /// Not this client's turn (or no opponent yet), or the last request
    /// was refused as invalid: poll again and retry.
    AwaitTurn,
    /// This client's turn: collect a move and send it.
    PromptMove,
}

/// Main decision for client play while in game: picks the next step from
/// the server's last response and this client's id.  A `NotOk` reply is a
/// validation failure (an invalid move, or a game gone inactive) and is
/// retried with a fresh snapshot; a `NotOk` under any other verb is
/// unrecoverable.
pub fn handle_in_game(server_msg: &Msg, my_id: u32) -> (r: InGameStep)
    ensures
        server_msg@.status != Status::Okay ==> r == if server_msg@.command == Commands::Reply {
            InGameStep::AwaitTurn
        } else {
            InGameStep::Disconnect
        },
        server_msg@.status == Status::Okay && server_msg@.command == Commands::GameIsOver
            ==> r == InGameStep::ConcludeGame,
        server_msg@.status == Status::Okay && server_msg@.command != Commands::GameIsOver ==> r
            == if server_msg@.game_state.active && ((my_id == server_msg@.game_state.player_one)
            == server_msg@.game_state.player_one_turn) {
            InGameStep::PromptMove
        } else {
            InGameStep::AwaitTurn
        },
{
    if !matches!(server_msg.status, Status::Okay) {
        if matches!(server_msg.command, Commands::Reply) {
            return InGameStep::AwaitTurn;
        }
        return InGameStep::Disconnect;
    }
    if matches!(server_msg.command, Commands::GameIsOver) {
        return InGameStep::ConcludeGame;
    }
    if !server_msg.game_state.active {
        return InGameStep::AwaitTurn;
    }
    let am_i_player_one = my_id == server_msg.game_state.player_one;
    if (am_i_player_one && server_msg.game_state.player_one_turn) || (!am_i_player_one
        && !server_msg.game_state.player_one_turn) {
        InGameStep::PromptMove
    } else {
        InGameStep::AwaitTurn
    }
}

/// The nickname the client should display after a server response: a
/// successful nickname change takes effect, anything else keeps the
/// current one.
pub fn nickname_after_response(server_msg: &Msg, current: String) -> (r: String)
    ensures
        r@ == if server_msg@.command == Commands::SetNick && server_msg@.status == Status::Okay {
            server_msg@.data
        } else {
            current@
        },
{
    if matches!(server_msg.command, Commands::SetNick) && matches!(server_msg.status, Status::Okay) {
        server_msg.data.clone()
    } else {
        current
    }
}

/// Whether `sep` is the position of the first separator in `s` and what
/// follows it is a parseable connection id.
pub open spec fn splits_at(s: Seq<char>, sep: int) -> bool {
    &&& 0 <= sep < s.len()
    &&& s[sep] == SEPARATOR
    &&& forall|q: int| 0 <= q < sep ==> s[q] != SEPARATOR
    &&& spec_number_ok(s.subrange(sep + 1, s.len() as int))
}

/// A well-formed set-up reply payload: it has a separator, and everything
/// after the first one is a decimal connection id.
pub open spec fn spec_hello_data_ok(s: Seq<char>) -> bool {
    exists|sep: int| splits_at(s, sep)
}

/// Splits the set-up reply payload `nickname^id` into its two parts: the
/// text before the first separator, and the connection id after it.
/// Succeeds exactly on well-formed payloads.
pub fn split_nick_and_id(data: &str) -> (r: Option<(String, u32)>)
    ensures
        r is Some <==> spec_hello_data_ok(data@),
        r matches Some(p) ==> exists|sep: int|
            {
                &&& #[trigger] splits_at(data@, sep)
                &&& p.0@ == data@.subrange(0, sep)
                &&& p.1 as int == dec_val(data@.subrange(sep + 1, data@.len() as int))
            },
{
    let len = data.unicode_len();
    let mut i: usize = 0;
    while i < len
        invariant
            i <= len,
            len == data@.len(),
            forall|q: int| 0 <= q < i ==> data@[q] != SEPARATOR,
        decreases len - i,
    {
        if data.get_char(i) == SEPARATOR {
            let nick = data.substring_char(0, i);
            let rest = data.substring_char(i + 1, len);
            proof {
                assert(data@[i as int] == SEPARATOR);
                assert(rest@ == data@.subrange(i + 1, data@.len() as int));
                // i is the only candidate first-separator position
                assert forall|sep: int| #[trigger] splits_at(data@, sep) implies sep == i by {
                    if sep < i {
                        assert(data@[sep] != SEPARATOR);
                    } else if sep > i {
                        assert(data@[i as int] != SEPARATOR);
                    }
                }
            }
            match parse_u32(rest) {
                Some(id) => {
                    proof {
                        assert(splits_at(data@, i as int));
                    }
                    return Some((nick.to_owned(), id));
                },
                None => {
                    proof {
                        assert(!spec_number_ok(rest@));
                        assert(!spec_hello_data_ok(data@));
                    }
                    return None;
                },
            }
        }
        i = i + 1;
    }
    proof {
        assert forall|sep: int| !(#[trigger] splits_at(data@, sep)) by {
            if 0 <= sep < data@.len() {
                assert(data@[sep] != SEPARATOR);
            }
        }
    }
    None
}

} // verus!
