//! Server-side request handlers.
//!
//! The data-manager worker feeds every `(connection id, request)` pair to
//! `route_request`, which dispatches on the sender's phase: lobby requests
//! go through `handle_out_of_game`, in-game requests through
//! `handle_in_game`.  Each handler's effect on the registry and the exact
//! response it produces are stated by a `..._post` predicate.

use vstd::prelude::*;
use vstd::string::StringExecFns;
use crate::constants::{BOARD_LENGTH, SLOTS};
use crate::game_objects::{
    empty_game_view, new_game_view, spec_add_player, spec_make_move, spec_move_in_range,
    spec_remove_player, GameState, GameView,
};
use crate::numbers::{all_digits, dec_str, dec_val, parse_u32, u64_to_string};
use crate::proto::{Commands, GameStatus, Headers, Msg, MsgView, Status};
use crate::registry::{lemma_wf_push_game, lemma_wf_update_game, RegistryView, SessionRegistry};

verus! {

/// The lobby reply to `InitSetup`: the connection's nickname and id,
/// joined by the separator, with nothing changed.
pub open spec fn initial_setup_post(r0: RegistryView, r1: RegistryView, id: u32, m: MsgView) -> bool {
    &&& r1 == r0
    &&& m == (MsgView {
        status: Status::Okay,
        headers: Headers::Response,
        command: Commands::Reply,
        game_status: GameStatus::NotInGame,
        data: r0.nick_of(id) + "^"@ + dec_str(id as nat),
        game_state: empty_game_view(),
    })
}

/// Whether the game list holds a game that can still be joined.
pub open spec fn any_inactive(games: Seq<GameView>) -> bool {
    exists|i: int| 0 <= i < games.len() && !games[i].active
}

/// The text listing of joinable games: one `id: name` line per inactive
/// game, in creation order.
pub open spec fn games_listing(games: Seq<GameView>) -> Seq<char>
    decreases games.len(),
{
    if games.len() == 0 {
        Seq::<char>::empty()
    } else {
        games_listing(games.drop_last()) + (if !games.last().active {
            dec_str(games.last().game_id as nat) + ": "@ + games.last().game_name + "\n"@
        } else {
            Seq::<char>::empty()
        })
    }
}

/// The lobby reply to `ListGames`: the listing of joinable games, or an
/// explicit no-games message; nothing changed.
pub open spec fn list_games_post(r0: RegistryView, r1: RegistryView, m: MsgView) -> bool {
    &&& r1 == r0
    &&& m == (MsgView {
        status: Status::Okay,
        headers: Headers::Response,
        command: Commands::Reply,
        game_status: GameStatus::NotInGame,
        data: if any_inactive(r0.games) {
            "Available Games: \n"@ + games_listing(r0.games)
        } else {
            "No available games. Please start a new game to begin."@
        },
        game_state: empty_game_view(),
    })
}

/// The text listing of connected users, one nickname per line, in
/// registration order.
pub open spec fn users_listing(nicks: Seq<(u32, Seq<char>)>) -> Seq<char>
    decreases nicks.len(),
{
    if nicks.len() == 0 {
        Seq::<char>::empty()
    } else {
        users_listing(nicks.drop_last()) + nicks.last().1 + "\n"@
    }
}

/// The lobby reply to `ListUsers`: all current nicknames; nothing changed.
pub open spec fn list_users_post(r0: RegistryView, r1: RegistryView, m: MsgView) -> bool {
    &&& r1 == r0
    &&& m == (MsgView {
        status: Status::Okay,
        headers: Headers::Response,
        command: Commands::Reply,
        game_status: GameStatus::NotInGame,
        data: "Active Users: \n"@ + users_listing(r0.nicks),
        game_state: empty_game_view(),
    })
}

/// The effect of `SetNick`: a taken nickname is refused and nothing
/// changes; otherwise the old nickname entry is atomically replaced and
/// the new nickname is echoed back.
pub open spec fn set_nick_post(
    r0: RegistryView,
    r1: RegistryView,
    id: u32,
    requested: Seq<char>,
    m: MsgView,
) -> bool {
    if r0.nick_taken(requested) {
        &&& r1 == r0
        &&& m == (MsgView {
            status: Status::NotOk,
            headers: Headers::Response,
            command: Commands::SetNick,
            game_status: GameStatus::NotInGame,
            data: "nickname already in use"@,
            game_state: empty_game_view(),
        })
    } else {
        &&& r1 == (RegistryView {
            nicks: r0.nicks.remove(r0.nick_index(id)).push((id, requested)),
            ..r0
        })
        &&& m == (MsgView {
            status: Status::Okay,
            headers: Headers::Response,
            command: Commands::SetNick,
            game_status: GameStatus::NotInGame,
            data: requested,
            game_state: empty_game_view(),
        })
    }
}

/// The effect of `MakeNewGame`: a new inactive game with the requester as
/// player one is appended (a blank name defaults to "New Game"), the
/// requester is mapped to it, and its snapshot is returned.
pub open spec fn new_game_post(
    r0: RegistryView,
    r1: RegistryView,
    id: u32,
    name_arg: Seq<char>,
    m: MsgView,
) -> bool {
    let gid = r0.games.len() as u32;
    let name = if name_arg.len() == 0 {
        "New Game"@
    } else {
        name_arg
    };
    let g = new_game_view(id, name, gid);
    &&& r1.games == r0.games.push(g)
    &&& r1.conn_game == r0.conn_game_with(id, gid)
    &&& r1.nicks == r0.nicks
    &&& m == (MsgView {
        status: Status::Okay,
        headers: Headers::Response,
        command: Commands::MakeNewGame,
        game_status: GameStatus::InGame,
        data: "New Game^"@ + dec_str(gid as nat),
        game_state: g,
    })
}

/// The effect of `JoinGame`: an empty list, a bad or out-of-range id, and
/// a full (already active) game are each refused with a `NotOk` status and
/// without any change; otherwise the requester takes the open seat, the
/// game goes active, the requester is mapped to it and the fresh snapshot
/// is returned.
pub open spec fn join_game_post(
    r0: RegistryView,
    r1: RegistryView,
    id: u32,
    data: Seq<char>,
    m: MsgView,
) -> bool {
    let parsed = data.len() > 0 && all_digits(data) && dec_val(data) <= u32::MAX as int;
    let gid = dec_val(data);
    if r0.games.len() == 0 {
        &&& r1 == r0
        &&& m == (MsgView {
            status: Status::NotOk,
            headers: Headers::Response,
            command: Commands::JoinGame,
            game_status: GameStatus::NotInGame,
            data: "No games available. Please start a new game to begin."@,
            game_state: empty_game_view(),
        })
    } else if !parsed || gid > r0.games.len() - 1 {
        &&& r1 == r0
        &&& m == (MsgView {
            status: Status::NotOk,
            headers: Headers::Response,
            command: Commands::JoinGame,
            game_status: GameStatus::NotInGame,
            data: "Invalid game id entered. View available game list for valid game id's"@,
            game_state: empty_game_view(),
        })
    } else if r0.games[gid].active {
        &&& r1 == r0
        &&& m == (MsgView {
            status: Status::NotOk,
            headers: Headers::Response,
            command: Commands::JoinGame,
            game_status: GameStatus::NotInGame,
            data: "Game ID "@ + dec_str(gid as nat) + " is full, please pick a different one"@,
            game_state: empty_game_view(),
        })
    } else {
        let g1 = spec_add_player(r0.games[gid], id);
        &&& r1.games == r0.games.update(gid, g1)
        &&& r1.conn_game == r0.conn_game_with(id, r0.games[gid].game_id)
        &&& r1.nicks == r0.nicks
        &&& m == (MsgView {
            status: Status::Okay,
            headers: Headers::Response,
            command: Commands::JoinGame,
            game_status: GameStatus::InGame,
            data: "Joined Game "@ + r0.games[gid].game_name,
            game_state: g1,
        })
    }
}

/// The effect of `KillMe` in the lobby: the nickname entry is released
/// and the client is told to shut down.
pub open spec fn disconnect_post(r0: RegistryView, r1: RegistryView, id: u32, m: MsgView) -> bool {
    &&& r1 == (RegistryView { nicks: r0.nicks.remove(r0.nick_index(id)), ..r0 })
    &&& m == (MsgView {
        status: Status::Okay,
        headers: Headers::Response,
        command: Commands::KillClient,
        game_status: GameStatus::NotInGame,
        data: "Nick "@ + r0.nick_of(id) + " successfully booted"@,
        game_state: empty_game_view(),
    })
}

/// The reply to a command that has no meaning in the lobby: a bare
/// failure, with nothing changed.
pub open spec fn unknown_lobby_post(r0: RegistryView, r1: RegistryView, m: MsgView) -> bool {
    &&& r1 == r0
    &&& m == (MsgView {
        status: Status::NotOk,
        headers: Headers::Response,
        command: Commands::Reply,
        game_status: GameStatus::NotInGame,
        data: Seq::<char>::empty(),
        game_state: empty_game_view(),
    })
}

/// What `handle_out_of_game` does for each lobby command.
pub open spec fn lobby_post(
    r0: RegistryView,
    r1: RegistryView,
    cmd: Commands,
    data: Seq<char>,
    id: u32,
    m: MsgView,
) -> bool {
    &&& cmd == Commands::InitSetup ==> initial_setup_post(r0, r1, id, m)
    &&& cmd == Commands::ListGames ==> list_games_post(r0, r1, m)
    &&& cmd == Commands::ListUsers ==> list_users_post(r0, r1, m)
    &&& cmd == Commands::SetNick ==> set_nick_post(r0, r1, id, data, m)
    &&& cmd == Commands::KillMe ==> disconnect_post(r0, r1, id, m)
    &&& cmd == Commands::MakeNewGame ==> new_game_post(r0, r1, id, data, m)
    &&& cmd == Commands::JoinGame ==> join_game_post(r0, r1, id, data, m)
    &&& !(cmd == Commands::InitSetup || cmd == Commands::ListGames || cmd == Commands::ListUsers
        || cmd == Commands::SetNick || cmd == Commands::KillMe || cmd == Commands::MakeNewGame
        || cmd == Commands::JoinGame) ==> unknown_lobby_post(r0, r1, m)
}

/// When the player is in the "lobby", they will send messages to the
/// server and this is where they are handled.
pub fn handle_out_of_game(
    cmd: Commands,
    reg: &mut SessionRegistry,
    client_msg: &Msg,
    client_id: u32,
) -> (r: Msg)
    requires
        old(reg)@.wf(),
        cmd == Commands::InitSetup || cmd == Commands::SetNick || cmd == Commands::KillMe
            ==> old(reg)@.has_nick_for(client_id),
        cmd == Commands::MakeNewGame ==> old(reg)@.games.len() < u32::MAX as int,
    ensures
        final(reg)@.wf(),
        lobby_post(old(reg)@, final(reg)@, cmd, client_msg@.data, client_id, r@),
{
    match cmd {
        Commands::InitSetup => initial_setup(reg, client_id),
        Commands::ListGames => list_available_games(reg),
        Commands::ListUsers => list_active_users(reg),
        Commands::SetNick => set_nickname(reg, client_msg, client_id),
        Commands::KillMe => server_handle_client_disconnect(reg, client_id),
        Commands::MakeNewGame => start_new_game(reg, client_id, client_msg.data.clone()),
        Commands::JoinGame => join_game(reg, client_id, client_msg),
        _ => Msg {
            status: Status::NotOk,
            headers: Headers::Response,
            command: Commands::Reply,
            game_status: GameStatus::NotInGame,
            data: String::new(),
            game_state: GameState::new_empty(),
        },
    }
}

/// Replies with the requester's current nickname and connection id.
pub fn initial_setup(reg: &mut SessionRegistry, client_id: u32) -> (r: Msg)
    requires
        old(reg)@.wf(),
        old(reg)@.has_nick_for(client_id),
    ensures
        final(reg)@.wf(),
        initial_setup_post(old(reg)@, final(reg)@, client_id, r@),
{
    let mut data = reg.nickname_of(client_id);
    data.append("^");
    data.append(u64_to_string(client_id as u64).as_str());
    Msg {
        status: Status::Okay,
        headers: Headers::Response,
        command: Commands::Reply,
        game_status: GameStatus::NotInGame,
        data,
        game_state: GameState::new_empty(),
    }
}

/// Lists the games that are still waiting for a second player.
pub fn list_available_games(reg: &mut SessionRegistry) -> (r: Msg)
    requires
        old(reg)@.wf(),
    ensures
        final(reg)@.wf(),
        list_games_post(old(reg)@, final(reg)@, r@),
{
    let mut found = false;
    let mut listing = String::from_str("Available Games: \n");
    let mut i: usize = 0;
    while i < reg.games.len()
        invariant
            i <= reg@.games.len(),
            reg.games@.len() == reg@.games.len(),
            found == any_inactive(reg@.games.subrange(0, i as int)),
            listing@ == "Available Games: \n"@ + games_listing(reg@.games.subrange(0, i as int)),
        decreases reg@.games.len() - i,
    {
        let ghost prefix = reg@.games.subrange(0, i as int);
        let ghost prefix1 = reg@.games.subrange(0, i + 1);
        proof {
            assert(prefix1.drop_last() =~= prefix);
            assert(reg@.games[i as int] == reg.games@[i as int]@);
        }
        if !reg.games[i].active {
            found = true;
            listing.append(u64_to_string(reg.games[i].game_id as u64).as_str());
            listing.append(": ");
            listing.append(reg.games[i].game_name.as_str());
            listing.append("\n");
            proof {
                assert(!prefix1[i as int].active);
                assert(any_inactive(prefix1));
            }
        } else {
            proof {
                if any_inactive(prefix1) {
                    assert(any_inactive(prefix) || !prefix1[prefix1.len() - 1].active);
                }
            }
        }
        i = i + 1;
    }
    proof {
        assert(reg@.games.subrange(0, reg@.games.len() as int) =~= reg@.games);
    }
    let data = if !found {
        String::from_str("No available games. Please start a new game to begin.")
    } else {
        listing
    };
    Msg {
        status: Status::Okay,
        headers: Headers::Response,
        command: Commands::Reply,
        game_status: GameStatus::NotInGame,
        data,
        game_state: GameState::new_empty(),
    }
}

/// Lists every connected user's nickname.
pub fn list_active_users(reg: &mut SessionRegistry) -> (r: Msg)
    requires
        old(reg)@.wf(),
    ensures
        final(reg)@.wf(),
        list_users_post(old(reg)@, final(reg)@, r@),
{
    let mut listing = String::from_str("Active Users: \n");
    let mut i: usize = 0;
    while i < reg.nicks.len()
        invariant
            i <= reg@.nicks.len(),
            reg.nicks@.len() == reg@.nicks.len(),
            listing@ == "Active Users: \n"@ + users_listing(reg@.nicks.subrange(0, i as int)),
        decreases reg@.nicks.len() - i,
    {
        let ghost prefix = reg@.nicks.subrange(0, i as int);
        let ghost prefix1 = reg@.nicks.subrange(0, i + 1);
        proof {
            assert(prefix1.drop_last() =~= prefix);
            assert(reg@.nicks[i as int].1 == reg.nicks@[i as int].1@);
        }
        listing.append(reg.nicks[i].1.as_str());
        listing.append("\n");
        i = i + 1;
    }
    proof {
        assert(reg@.nicks.subrange(0, reg@.nicks.len() as int) =~= reg@.nicks);
    }
    Msg {
        status: Status::Okay,
        headers: Headers::Response,
        command: Commands::Reply,
        game_status: GameStatus::NotInGame,
        data: listing,
        game_state: GameState::new_empty(),
    }
}

/// Sets a client's nickname from the request payload.  Compares across
/// already registered nicknames and doesn't allow duplicate values.
pub fn set_nickname(reg: &mut SessionRegistry, client_msg: &Msg, client_id: u32) -> (r: Msg)
    requires
        old(reg)@.wf(),
        old(reg)@.has_nick_for(client_id),
    ensures
        final(reg)@.wf(),
        set_nick_post(old(reg)@, final(reg)@, client_id, client_msg@.data, r@),
{
    let nickname = client_msg.data.clone();
    if reg.nick_in_use(&nickname) {
        Msg {
            status: Status::NotOk,
            headers: Headers::Response,
            command: Commands::SetNick,
            game_status: GameStatus::NotInGame,
            data: String::from_str("nickname already in use"),
            game_state: GameState::new_empty(),
        }
    } else {
        let _old_nick = reg.remove_nick(client_id);
        reg.push_nick(client_id, nickname.clone());
        Msg {
            status: Status::Okay,
            headers: Headers::Response,
            command: Commands::SetNick,
            game_status: GameStatus::NotInGame,
            data: nickname,
            game_state: GameState::new_empty(),
        }
    }
}

/// Appends a new game with the requester as player one and maps the
/// requester to it.
pub fn start_new_game(reg: &mut SessionRegistry, client_id: u32, game_name: String) -> (r: Msg)
    requires
        old(reg)@.wf(),
        old(reg)@.games.len() < u32::MAX as int,
    ensures
        final(reg)@.wf(),
        new_game_post(old(reg)@, final(reg)@, client_id, game_name@, r@),
{
    let game_id = reg.games.len() as u32;
    let name = if game_name.as_str().is_empty() {
        String::from_str("New Game")
    } else {
        game_name
    };
    let new_game = GameState::new(client_id, name, game_id);
    let snapshot = new_game.clone();
    reg.games.push(new_game);
    proof {
        assert(reg@.games =~= old(reg)@.games.push(snapshot@));
        assert(reg@.nicks =~= old(reg)@.nicks);
        lemma_wf_push_game(old(reg)@, reg@, snapshot@);
    }
    reg.set_conn_game(client_id, game_id);
    let mut data = String::from_str("New Game^");
    data.append(u64_to_string(game_id as u64).as_str());
    Msg {
        status: Status::Okay,
        headers: Headers::Response,
        command: Commands::MakeNewGame,
        game_status: GameStatus::InGame,
        data,
        game_state: snapshot,
    }
}

/// Seats the requester in the chosen game if it exists and is not full.
pub fn join_game(reg: &mut SessionRegistry, client_id: u32, client_msg: &Msg) -> (r: Msg)
    requires
        old(reg)@.wf(),
    ensures
        final(reg)@.wf(),
        join_game_post(old(reg)@, final(reg)@, client_id, client_msg@.data, r@),
{
    if reg.games.len() == 0 {
        return Msg {
            status: Status::NotOk,
            headers: Headers::Response,
            command: Commands::JoinGame,
            game_status: GameStatus::NotInGame,
            data: String::from_str("No games available. Please start a new game to begin."),
            game_state: GameState::new_empty(),
        };
    }
    let parsed = parse_u32(client_msg.data.as_str());
    let game_id: usize = match parsed {
        Some(gid) => gid as usize,
        None => reg.games.len(),
    };
    if game_id > reg.games.len() - 1 {
        return Msg {
            status: Status::NotOk,
            headers: Headers::Response,
            command: Commands::JoinGame,
            game_status: GameStatus::NotInGame,
            data: String::from_str(
                "Invalid game id entered. View available game list for valid game id's",
            ),
            game_state: GameState::new_empty(),
        };
    }
    proof {
        assert(game_id as int == dec_val(client_msg@.data));
    }
    if reg.games[game_id].active {
        let mut data = String::from_str("Game ID ");
        data.append(u64_to_string(game_id as u64).as_str());
        data.append(" is full, please pick a different one");
        return Msg {
            status: Status::NotOk,
            headers: Headers::Response,
            command: Commands::JoinGame,
            game_status: GameStatus::NotInGame,
            data,
            game_state: GameState::new_empty(),
        };
    }
    let mut game = reg.games[game_id].clone();
    game.add_new_player(client_id);
    let joined_id = game.game_id;
    let mut joined_name = String::from_str("Joined Game ");
    joined_name.append(game.game_name.as_str());
    let snapshot = game.clone();
    reg.games[game_id] = game;
    proof {
        assert(reg@.games =~= old(reg)@.games.update(
            game_id as int,
            spec_add_player(old(reg)@.games[game_id as int], client_id),
        ));
        assert(reg@.nicks =~= old(reg)@.nicks);
        assert(old(reg)@.games[game_id as int].well_formed());
        assert(old(reg)@.games[game_id as int].seats_consistent());
        lemma_wf_update_game(
            old(reg)@,
            reg@,
            game_id as int,
            spec_add_player(old(reg)@.games[game_id as int], client_id),
        );
    }
    reg.set_conn_game(client_id, joined_id);
    Msg {
        status: Status::Okay,
        headers: Headers::Response,
        command: Commands::JoinGame,
        game_status: GameStatus::InGame,
        data: joined_name,
        game_state: snapshot,
    }
}

/// Releases a disconnecting client's nickname entry and returns it.
pub fn remove_client_from_shared_data(reg: &mut SessionRegistry, client_id: u32) -> (r: String)
    requires
        old(reg)@.wf(),
        old(reg)@.has_nick_for(client_id),
    ensures
        final(reg)@.wf(),
        r@ == old(reg)@.nick_of(client_id),
        final(reg)@ == (RegistryView {
            nicks: old(reg)@.nicks.remove(old(reg)@.nick_index(client_id)),
            ..old(reg)@
        }),
{
    reg.remove_nick(client_id)
}

/// Remove a client from the list of active users and send the message
/// that the client should be killed.
pub fn server_handle_client_disconnect(reg: &mut SessionRegistry, client_id: u32) -> (r: Msg)
    requires
        old(reg)@.wf(),
        old(reg)@.has_nick_for(client_id),
    ensures
        final(reg)@.wf(),
        disconnect_post(old(reg)@, final(reg)@, client_id, r@),
{
    let nickname = remove_client_from_shared_data(reg, client_id);
    let mut data = String::from_str("Nick ");
    data.append(nickname.as_str());
    data.append(" successfully booted");
    Msg {
        status: Status::Okay,
        headers: Headers::Response,
        command: Commands::KillClient,
        game_status: GameStatus::NotInGame,
        data,
        game_state: GameState::new_empty(),
    }
}

/// The reply forced for any request into an orphaned game: both seats were
/// taken but the game is no longer active, so the opponent left and the
/// requester is sent back to the lobby.
pub open spec fn orphan_post(r0: RegistryView, r1: RegistryView, gidx: int, m: MsgView) -> bool {
    &&& r1 == r0
    &&& m == (MsgView {
        status: Status::Okay,
        headers: Headers::Write,
        command: Commands::GameIsOver,
        game_status: GameStatus::NotInGame,
        data: "Game Over"@,
        game_state: r0.games[gidx],
    })
}

/// The reply to `GetCurrentGamestate`: a full snapshot of the game.
pub open spec fn current_state_post(g: GameView, m: MsgView) -> bool {
    m == (MsgView {
        status: Status::Okay,
        headers: Headers::Read,
        command: Commands::Reply,
        game_status: GameStatus::InGame,
        data: "Current Game State"@,
        game_state: g,
    })
}

/// The effect of `MakeMove` on one game: an inactive game rejects the
/// move with `NotOk` and no change (the opponent disconnected in the
/// meantime); a payload that is not a decimal number, names a slot outside
/// the turn-holder's six pits, or names an empty pit is rejected the same
/// way; otherwise the engine's move is applied and the new snapshot
/// returned.
pub open spec fn make_move_game_post(
    g0: GameView,
    g1: GameView,
    data: Seq<char>,
    id: u32,
    m: MsgView,
) -> bool {
    let parsed = data.len() > 0 && all_digits(data) && dec_val(data) <= u32::MAX as int;
    let slot = dec_val(data);
    if !g0.active {
        &&& g1 == g0
        &&& m == (MsgView {
            status: Status::NotOk,
            headers: Headers::Read,
            command: Commands::Reply,
            game_status: GameStatus::InGame,
            data: "Game not active! your opponent must've disconnected."@,
            game_state: g0,
        })
    } else if parsed && spec_move_in_range(g0.player_one_turn, slot) && g0.board[slot] != 0 {
        &&& g1 == spec_make_move(g0, slot)
        &&& m == (MsgView {
            status: Status::Okay,
            headers: Headers::Read,
            command: Commands::Reply,
            game_status: GameStatus::InGame,
            data: "Player Id "@ + dec_str(id as nat) + " made move from slot "@ + dec_str(
                slot as nat,
            ),
            game_state: g1,
        })
    } else {
        &&& g1 == g0
        &&& m == (MsgView {
            status: Status::NotOk,
            headers: Headers::Read,
            command: Commands::Reply,
            game_status: GameStatus::InGame,
            data: "Invalid move"@,
            game_state: g0,
        })
    }
}

/// The effect of `LeaveGame`: the requester's game mapping is dropped,
/// their seat is cleared (resetting the board for the remaining player)
/// and they are sent back to the lobby.
pub open spec fn leave_game_post(
    r0: RegistryView,
    r1: RegistryView,
    id: u32,
    gidx: int,
    m: MsgView,
) -> bool {
    &&& r1.games == r0.games.update(gidx, spec_remove_player(r0.games[gidx], id))
    &&& r1.conn_game == r0.conn_game.remove(r0.conn_index(id))
    &&& r1.nicks == r0.nicks
    &&& m == (MsgView {
        status: Status::Okay,
        headers: Headers::Write,
        command: Commands::GameIsOver,
        game_status: GameStatus::NotInGame,
        data: "Game Over - client id "@ + dec_str(id as nat) + " left!"@,
        game_state: empty_game_view(),
    })
}

/// The reply to a command that has no meaning in a game.
pub open spec fn unknown_in_game_post(
    r0: RegistryView,
    r1: RegistryView,
    gidx: int,
    m: MsgView,
) -> bool {
    &&& r1 == r0
    &&& m == (MsgView {
        status: Status::NotOk,
        headers: Headers::Read,
        command: Commands::Reply,
        game_status: GameStatus::NotInGame,
        data: "Somethings wrong"@,
        game_state: r0.games[gidx],
    })
}

/// What `handle_in_game` does: the orphaned-game check first, then the
/// per-command effect.
pub open spec fn in_game_post(
    r0: RegistryView,
    r1: RegistryView,
    cmd: Commands,
    data: Seq<char>,
    id: u32,
    m: MsgView,
) -> bool {
    let gidx = r0.game_of(id) as int;
    let g = r0.games[gidx];
    if !g.active && g.player_one != 0 && g.player_two != 0 {
        orphan_post(r0, r1, gidx, m)
    } else if cmd == Commands::GetCurrentGamestate {
        r1 == r0 && current_state_post(g, m)
    } else if cmd == Commands::MakeMove {
        &&& r1.conn_game == r0.conn_game
        &&& r1.nicks == r0.nicks
        &&& r1.games == r0.games.update(gidx, r1.games[gidx])
        &&& make_move_game_post(g, r1.games[gidx], data, id, m)
    } else if cmd == Commands::LeaveGame {
        leave_game_post(r0, r1, id, gidx, m)
    } else {
        unknown_in_game_post(r0, r1, gidx, m)
    }
}

/// Routes a request from a client that is currently in a game.
pub fn handle_in_game(
    cmd: Commands,
    reg: &mut SessionRegistry,
    client_msg: &Msg,
    client_id: u32,
) -> (r: Msg)
    requires
        old(reg)@.wf(),
        old(reg)@.has_conn(client_id),
    ensures
        final(reg)@.wf(),
        in_game_post(old(reg)@, final(reg)@, cmd, client_msg@.data, client_id, r@),
{
    let gid = reg.game_id_of(client_id);
    let gidx = gid as usize;
    let game = reg.games[gidx].clone();
    proof {
        assert(game@ == reg@.games[gidx as int]);
        assert(game@.well_formed());
    }
    if !game.active && game.player_one != 0 && game.player_two != 0 {
        return Msg {
            status: Status::Okay,
            headers: Headers::Write,
            command: Commands::GameIsOver,
            game_status: GameStatus::NotInGame,
            data: String::from_str("Game Over"),
            game_state: game,
        };
    }
    match cmd {
        Commands::GetCurrentGamestate => current_state(&game),
        Commands::MakeMove => {
            let mut moved = game;
            let ghost g0 = moved@;
            let response = make_move(client_msg, &mut moved, client_id);
            reg.games[gidx] = moved;
            proof {
                assert(reg@.games[gidx as int] == moved@);
                assert(reg@.games =~= old(reg)@.games.update(gidx as int, reg@.games[gidx as int]));
                assert(reg@.nicks =~= old(reg)@.nicks);
                crate::game_laws::lemma_move_keeps_seats(g0, dec_val(client_msg@.data));
                assert(old(reg)@.games[gidx as int].seats_consistent());
                lemma_wf_update_game(old(reg)@, reg@, gidx as int, moved@);
            }
            response
        },
        Commands::LeaveGame => leave_game(reg, client_id),
        _ => Msg {
            status: Status::NotOk,
            headers: Headers::Read,
            command: Commands::Reply,
            game_status: GameStatus::NotInGame,
            data: String::from_str("Somethings wrong"),
            game_state: game,
        },
    }
}

/// Replies with a full snapshot of the game.
pub fn current_state(game: &GameState) -> (r: Msg)
    ensures
        current_state_post(game@, r@),
{
    Msg {
        status: Status::Okay,
        headers: Headers::Read,
        command: Commands::Reply,
        game_status: GameStatus::InGame,
        data: String::from_str("Current Game State"),
        game_state: game.clone(),
    }
}

/// Applies a requested move to a game after validating it: the game must
/// be active, the payload a decimal slot number in the turn-holder's six
/// pits, and the pit non-empty.  Invalid moves change nothing.
pub fn make_move(client_msg: &Msg, game: &mut GameState, client_id: u32) -> (r: Msg)
    requires
        old(game)@.well_formed(),
    ensures
        final(game)@.well_formed(),
        final(game)@.game_id == old(game)@.game_id,
        make_move_game_post(old(game)@, final(game)@, client_msg@.data, client_id, r@),
{
    if !game.active {
        return Msg {
            status: Status::NotOk,
            headers: Headers::Read,
            command: Commands::Reply,
            game_status: GameStatus::InGame,
            data: String::from_str("Game not active! your opponent must\'ve disconnected."),
            game_state: game.clone(),
        };
    }
    let parsed = parse_u32(client_msg.data.as_str());
    let mut valid = false;
    let mut slot: usize = 0;
    match parsed {
        Some(s) => {
            let candidate = s as usize;
            if game.player_one_turn {
                valid = 1 <= candidate && candidate < SLOTS;
            } else {
                valid = SLOTS < candidate && candidate < BOARD_LENGTH;
            }
            if valid && game.game_board[candidate] == 0 {
                valid = false;
            }
            slot = candidate;
        },
        None => {},
    }
    if !valid {
        return Msg {
            status: Status::NotOk,
            headers: Headers::Read,
            command: Commands::Reply,
            game_status: GameStatus::InGame,
            data: String::from_str("Invalid move"),
            game_state: game.clone(),
        };
    }
    game.make_move(slot);
    let mut data = String::from_str("Player Id ");
    data.append(u64_to_string(client_id as u64).as_str());
    data.append(" made move from slot ");
    data.append(u64_to_string(slot as u64).as_str());
    Msg {
        status: Status::Okay,
        headers: Headers::Read,
        command: Commands::Reply,
        game_status: GameStatus::InGame,
        data,
        game_state: game.clone(),
    }
}

/// Takes the requester out of their game: the game mapping is dropped and
/// their seat cleared, resetting the board for whoever stays.
pub fn leave_game(reg: &mut SessionRegistry, client_id: u32) -> (r: Msg)
    requires
        old(reg)@.wf(),
        old(reg)@.has_conn(client_id),
    ensures
        final(reg)@.wf(),
        leave_game_post(
            old(reg)@,
            final(reg)@,
            client_id,
            old(reg)@.game_of(client_id) as int,
            r@,
        ),
{
    let gid = reg.game_id_of(client_id);
    let gidx = gid as usize;
    reg.remove_conn_game(client_id);
    let ghost mid = reg@;
    let mut game = reg.games[gidx].clone();
    game.remove_player(client_id);
    reg.games[gidx] = game;
    proof {
        crate::game_objects::lemma_starting_board_sum();
        assert(reg@.games =~= mid.games.update(
            gidx as int,
            spec_remove_player(mid.games[gidx as int], client_id),
        ));
        assert(reg@.nicks =~= mid.nicks);
        assert(mid.games[gidx as int].well_formed());
        lemma_wf_update_game(
            mid,
            reg@,
            gidx as int,
            spec_remove_player(mid.games[gidx as int], client_id),
        );
    }
    let mut data = String::from_str("Game Over - client id ");
    data.append(u64_to_string(client_id as u64).as_str());
    data.append(" left!");
    Msg {
        status: Status::Okay,
        headers: Headers::Write,
        command: Commands::GameIsOver,
        game_status: GameStatus::NotInGame,
        data,
        game_state: GameState::new_empty(),
    }
}

/// One step of the data manager: dispatches a request on the sender's
/// phase.  The single worker that owns the registry runs these steps one
/// at a time, end to end, which serializes every mutation system-wide.
pub fn route_request(reg: &mut SessionRegistry, client_id: u32, client_msg: &Msg) -> (r: Msg)
    requires
        old(reg)@.wf(),
        client_msg@.command == Commands::InitSetup || client_msg@.command == Commands::SetNick
            || client_msg@.command == Commands::KillMe ==> old(reg)@.has_nick_for(client_id),
        client_msg@.command == Commands::MakeNewGame ==> old(reg)@.games.len() < u32::MAX as int,
        client_msg@.game_status == GameStatus::InGame ==> old(reg)@.has_conn(client_id),
    ensures
        final(reg)@.wf(),
        client_msg@.game_status == GameStatus::NotInGame ==> lobby_post(
            old(reg)@,
            final(reg)@,
            client_msg@.command,
            client_msg@.data,
            client_id,
            r@,
        ),
        client_msg@.game_status == GameStatus::InGame ==> in_game_post(
            old(reg)@,
            final(reg)@,
            client_msg@.command,
            client_msg@.data,
            client_id,
            r@,
        ),
{
    match client_msg.game_status {
        GameStatus::NotInGame => handle_out_of_game(client_msg.command, reg, client_msg, client_id),
        GameStatus::InGame => handle_in_game(client_msg.command, reg, client_msg, client_id),
    }
}

/// Of two nickname requests for the same free nickname, handled one after
/// the other by the data manager, exactly the first succeeds: the second
/// is refused with the name-in-use reply and changes nothing.
pub proof fn lemma_nickname_exclusive(
    r: RegistryView,
    r1: RegistryView,
    r2: RegistryView,
    id1: u32,
    id2: u32,
    n: Seq<char>,
    m1: MsgView,
    m2: MsgView,
)
    requires
        r.wf(),
        r.has_nick_for(id1),
        !r.nick_taken(n),
        set_nick_post(r, r1, id1, n, m1),
        set_nick_post(r1, r2, id2, n, m2),
    ensures
        m1.status == Status::Okay,
        m2.status == Status::NotOk,
        m2.data == "nickname already in use"@,
        r2 == r1,
{
    assert(r1.nicks[r1.nicks.len() - 1].1 == n);
    assert(r1.nick_taken(n));
}


} // verus!
