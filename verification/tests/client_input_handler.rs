use rusty_mancala::client_input_handler::{
    check_is_move_valid, client_initiate_disconnect, get_connection, get_current_gamestate,
    handle_in_game, handle_out_of_game, initial_hello_msg, join_game, leave_game,
    list_active_users, list_available_games, make_move_request, nickname_after_response,
    set_nickname, split_nick_and_id, verify_host, verify_join_game, verify_port,
    verify_selection, InGameStep,
};
use rusty_mancala::game_objects::GameState;
use rusty_mancala::proto::{Commands, GameStatus, Headers, Msg, Status};

#[test]
fn test_get_connection() {
    let host: String = String::from("localhost");
    let port: u32 = 1234;
    let connection: String = String::from("localhost:1234");
    assert_eq!(get_connection(host, port), connection);
}

#[test]
fn test_verify_invalid_host() {
    let mut invalid_host = String::from("");
    assert!(!verify_host(invalid_host));
    invalid_host = String::from("with space");
    assert!(!verify_host(invalid_host));
    invalid_host = String::from("with:colon");
    assert!(!verify_host(invalid_host));
}

#[test]
fn test_verify_valid_host() {
    let mut valid_host = String::from("localhost");
    assert!(verify_host(valid_host));
    valid_host = String::from("0.0.0.0");
    assert!(verify_host(valid_host));
    valid_host = String::from("ec2-52-11-55-180.us-west-2.compute.amazonaws.com");
    assert!(verify_host(valid_host));
}

#[test]
fn test_verify_invalid_port() {
    let invalid_port = String::from("12k");
    assert!(!verify_port(&invalid_port));
}

#[test]
fn test_verify_valid_port() {
    let valid_port = String::from("1234");
    assert!(verify_port(&valid_port));
}

#[test]
fn test_initial_hello_msg() {
    let valid_hello_msg = Msg {
        status: Status::Okay,
        headers: Headers::Write,
        command: Commands::InitSetup,
        game_status: GameStatus::NotInGame,
        data: String::new(),
        game_state: GameState::new_empty(),
    };
    assert_eq!(initial_hello_msg(), valid_hello_msg);
}

#[test]
fn test_verify_invalid_selection() {
    let mut invalid_selection = String::from("invalid");
    assert!(!verify_selection(&invalid_selection));
    invalid_selection = String::from("8");
    assert!(!verify_selection(&invalid_selection));
}

#[test]
fn test_verify_valid_selection() {
    let mut valid_selection = String::from("6");
    assert!(verify_selection(&valid_selection));
    valid_selection = String::from("1");
    assert!(verify_selection(&valid_selection));
}

#[test]
fn test_handle_out_of_game() {
    let mut selection = handle_out_of_game(2, String::new());
    assert_eq!(selection, list_available_games());
    selection = handle_out_of_game(3, String::new());
    assert_eq!(selection, list_active_users());
}

#[test]
fn client_input_handler_test_list_available_games() {
    let available_games = list_available_games();
    assert_eq!(available_games.status, Status::Okay);
    assert_eq!(available_games.headers, Headers::Read);
    assert_eq!(available_games.command, Commands::ListGames);
    assert_eq!(available_games.game_status, GameStatus::NotInGame);
    assert_eq!(available_games.data, String::new());
    assert_eq!(available_games.game_state, GameState::new_empty());
}

#[test]
fn client_input_handler_test_list_active_users() {
    let active_users = list_active_users();
    assert_eq!(active_users.status, Status::Okay);
    assert_eq!(active_users.headers, Headers::Read);
    assert_eq!(active_users.command, Commands::ListUsers);
    assert_eq!(active_users.game_status, GameStatus::NotInGame);
    assert_eq!(active_users.data, String::new());
    assert_eq!(active_users.game_state, GameState::new_empty());
}

#[test]
fn test_verify_invalid_join_game() {
    let invalid_game = String::from("12k");
    assert!(!verify_join_game(&invalid_game));
}

#[test]
fn test_verify_valid_join_game() {
    let valid_game = String::from("1234");
    assert!(verify_join_game(&valid_game));
}

#[test]
fn client_input_handler_test_join_game() {
    let game_id: usize = 0;
    let join_game_msg = join_game(game_id);
    assert_eq!(join_game_msg.status, Status::Okay);
    assert_eq!(join_game_msg.headers, Headers::Write);
    assert_eq!(join_game_msg.command, Commands::JoinGame);
    assert_eq!(join_game_msg.game_status, GameStatus::NotInGame);
    assert_eq!(join_game_msg.data, game_id.to_string());
    assert_eq!(join_game_msg.game_state, GameState::new_empty());
}

#[test]
fn test_set_nickname() {
    let nickname: String = String::from("rooney");
    let set_nickname_msg = set_nickname(nickname);
    assert_eq!(set_nickname_msg.status, Status::Okay);
    assert_eq!(set_nickname_msg.headers, Headers::Write);
    assert_eq!(set_nickname_msg.command, Commands::SetNick);
    assert_eq!(set_nickname_msg.game_status, GameStatus::NotInGame);
    assert_eq!(set_nickname_msg.data, String::from("rooney"));
    assert_eq!(set_nickname_msg.game_state, GameState::new_empty());
}

#[test]
fn test_client_init_disconnect() {
    let client_disconnect = client_initiate_disconnect();
    assert_eq!(client_disconnect.status, Status::Okay);
    assert_eq!(client_disconnect.headers, Headers::Read);
    assert_eq!(client_disconnect.command, Commands::KillMe);
    assert_eq!(client_disconnect.game_status, GameStatus::NotInGame);
    assert_eq!(client_disconnect.data, String::new());
    assert_eq!(client_disconnect.game_state, GameState::new_empty());
}

#[test]
fn test_get_current_gamestate() {
    let current_gamestate = get_current_gamestate();
    assert_eq!(current_gamestate.status, Status::Okay);
    assert_eq!(current_gamestate.headers, Headers::Read);
    assert_eq!(current_gamestate.command, Commands::GetCurrentGamestate);
    assert_eq!(current_gamestate.game_status, GameStatus::InGame);
    assert_eq!(current_gamestate.data, String::new());
    assert_eq!(current_gamestate.game_state, GameState::new_empty());
}

#[test]
fn test_invalid_move() {
    let move_to_make: usize = 6;
    let mut gs: GameState = GameState::new(1, "name".to_string(), 0);
    gs.add_new_player(2);
    let player_one = false;
    assert!(!check_is_move_valid(move_to_make, &gs, player_one));
}

#[test]
fn test_valid_move() {
    let move_to_make: usize = 6;
    let mut gs: GameState = GameState::new(1, "name".to_string(), 0);
    gs.add_new_player(2);
    let player_one = true;
    assert!(check_is_move_valid(move_to_make, &gs, player_one));
}

#[test]
fn test_leave_game() {
    let leave_game_msg = leave_game();
    assert_eq!(leave_game_msg.status, Status::Okay);
    assert_eq!(leave_game_msg.headers, Headers::Write);
    assert_eq!(leave_game_msg.command, Commands::LeaveGame);
    assert_eq!(leave_game_msg.game_status, GameStatus::InGame);
    assert_eq!(leave_game_msg.data, String::new());
    assert_eq!(leave_game_msg.game_state, GameState::new_empty());
}

#[test]
fn test_make_move_request() {
    let msg = make_move_request(11);
    assert_eq!(msg.command, Commands::MakeMove);
    assert_eq!(msg.game_status, GameStatus::InGame);
    assert_eq!(msg.data, "11".to_string());
}

#[test]
fn test_handle_in_game_steps() {
    let mut game = GameState::new(7, "name".to_string(), 3);
    game.add_new_player(9);
    let mut msg = Msg {
        status: Status::Okay,
        headers: Headers::Read,
        command: Commands::Reply,
        game_status: GameStatus::InGame,
        data: String::new(),
        game_state: game,
    };
    // player one's turn: player 7 moves, player 9 waits
    assert_eq!(handle_in_game(&msg, 7), InGameStep::PromptMove);
    assert_eq!(handle_in_game(&msg, 9), InGameStep::AwaitTurn);
    msg.game_state.player_one_turn = false;
    assert_eq!(handle_in_game(&msg, 7), InGameStep::AwaitTurn);
    assert_eq!(handle_in_game(&msg, 9), InGameStep::PromptMove);
    msg.game_state.active = false;
    assert_eq!(handle_in_game(&msg, 9), InGameStep::AwaitTurn);
    // a refused request comes back as a NotOk reply: retry with a fresh
    // snapshot rather than hanging up
    msg.status = Status::NotOk;
    assert_eq!(handle_in_game(&msg, 9), InGameStep::AwaitTurn);
    msg.status = Status::Okay;
    msg.command = Commands::GameIsOver;
    assert_eq!(handle_in_game(&msg, 9), InGameStep::ConcludeGame);
    msg.status = Status::NotOk;
    assert_eq!(handle_in_game(&msg, 9), InGameStep::Disconnect);
}

#[test]
fn test_nickname_after_response() {
    let msg = Msg {
        status: Status::Okay,
        headers: Headers::Response,
        command: Commands::SetNick,
        game_status: GameStatus::NotInGame,
        data: "fresh".to_string(),
        game_state: GameState::new_empty(),
    };
    assert_eq!(nickname_after_response(&msg, "stale".to_string()), "fresh");
    let mut unrelated = msg.clone();
    unrelated.command = Commands::Reply;
    assert_eq!(nickname_after_response(&unrelated, "stale".to_string()), "stale");
    let mut failed = msg.clone();
    failed.status = Status::NotOk;
    assert_eq!(nickname_after_response(&failed, "stale".to_string()), "stale");
}

#[test]
fn test_split_nick_and_id() {
    assert_eq!(split_nick_and_id("nick^"), None);
    assert_eq!(
        split_nick_and_id("user_4^4"),
        Some(("user_4".to_string(), 4))
    );
    assert_eq!(split_nick_and_id("no separator"), None);
    assert_eq!(split_nick_and_id("nick^12k"), None);
}
