use rusty_mancala::game_objects::GameState;
use rusty_mancala::proto::{Commands, GameStatus, Headers, Msg, Status};
use rusty_mancala::registry::SessionRegistry;
use rusty_mancala::server_input_handler::{
    current_state, handle_in_game, handle_out_of_game, join_game, list_active_users,
    list_available_games, make_move, route_request, server_handle_client_disconnect,
    set_nickname, start_new_game,
};

#[test]
fn server_input_handler_test_list_available_games() {
    let mut reg = SessionRegistry::new();
    let mut cli_msg = list_available_games(&mut reg);
    assert_eq!(cli_msg.status, Status::Okay);
    assert_eq!(cli_msg.headers, Headers::Response);
    assert_eq!(cli_msg.command, Commands::Reply);
    assert_eq!(cli_msg.game_status, GameStatus::NotInGame);
    assert_eq!(cli_msg.game_state, GameState::new_empty());
    assert_eq!(
        cli_msg.data,
        "No available games. Please start a new game to begin."
    );
    let game_name = "name".to_string();
    let client_id: u32 = 1;
    start_new_game(&mut reg, client_id, game_name);
    cli_msg = list_available_games(&mut reg);
    assert_eq!(cli_msg.status, Status::Okay);
    assert_eq!(cli_msg.headers, Headers::Response);
    assert_eq!(cli_msg.command, Commands::Reply);
    assert_eq!(cli_msg.game_status, GameStatus::NotInGame);
    assert_eq!(cli_msg.game_state, GameState::new_empty());
    assert!(cli_msg.data.contains("name"));
    assert!(cli_msg.data.contains("0"));
    assert!(!cli_msg.data.contains("No available games"));
}

#[test]
fn server_input_handler_test_list_active_users() {
    let mut reg = SessionRegistry::new();
    reg.push_nick(1, "asdf1".to_string());
    reg.push_nick(2, "asdf2".to_string());
    reg.push_nick(3, "asdf3".to_string());
    let cli_msg = list_active_users(&mut reg);
    assert_eq!(cli_msg.status, Status::Okay);
    assert_eq!(cli_msg.headers, Headers::Response);
    assert_eq!(cli_msg.command, Commands::Reply);
    assert_eq!(cli_msg.game_status, GameStatus::NotInGame);
    assert_eq!(cli_msg.game_state, GameState::new_empty());
    assert!(cli_msg.data.contains("asdf1"));
    assert!(cli_msg.data.contains("asdf2"));
    assert!(cli_msg.data.contains("asdf3"));
}

#[test]
fn test_start_new_game() {
    let mut reg = SessionRegistry::new();
    let client_id: u32 = 10;
    let res_msg = start_new_game(&mut reg, client_id, "none".to_string());
    assert_eq!(res_msg.status, Status::Okay);
    assert_eq!(res_msg.headers, Headers::Response);
    assert_eq!(res_msg.command, Commands::MakeNewGame);
    assert_eq!(res_msg.game_status, GameStatus::InGame);
    assert_eq!(res_msg.data, "New Game^0".to_string());
    assert_eq!(res_msg.game_state, reg.games[0]);
    assert!(reg.is_in_game(client_id));
    assert_eq!(reg.game_id_of(client_id), 0);
}

#[test]
fn server_input_handler_test_join_game() {
    let mut reg = SessionRegistry::new();
    let cli_msg = Msg {
        status: Status::Okay,
        headers: Headers::Write,
        command: Commands::JoinGame,
        game_status: GameStatus::NotInGame,
        data: "0".to_string(),
        game_state: GameState::new_empty(),
    };
    let client_id: u32 = 10;
    let player_one_id: u32 = 5;
    let game_id: u32 = 0;
    let new_game = GameState::new(player_one_id, String::new(), game_id);
    reg.games.push(new_game);
    reg.conn_game.push((player_one_id, game_id));
    let res_msg = join_game(&mut reg, client_id, &cli_msg);
    assert_eq!(res_msg.status, Status::Okay);
    assert_eq!(res_msg.headers, Headers::Response);
    assert_eq!(res_msg.command, Commands::JoinGame);
    assert_eq!(res_msg.game_status, GameStatus::InGame);
    assert_eq!(res_msg.data, "Joined Game ".to_string());
    assert_eq!(res_msg.game_state, reg.games[game_id as usize]);
    assert!(reg.is_in_game(player_one_id));
    assert!(reg.is_in_game(client_id));
    assert_eq!(reg.game_id_of(player_one_id), game_id);
    assert_eq!(reg.game_id_of(client_id), game_id);
}

#[test]
fn test_cant_join_active_game() {
    let mut reg = SessionRegistry::new();
    let player_one_id: u32 = 5;
    let player_two_id: u32 = 10;
    let client_id: u32 = 15;
    let game_id: u32 = 0;
    let cli_msg = Msg {
        status: Status::Okay,
        headers: Headers::Write,
        command: Commands::JoinGame,
        game_status: GameStatus::NotInGame,
        data: "0".to_string(),
        game_state: GameState::new_empty(),
    };
    let new_game = GameState::new(player_one_id, String::new(), game_id);
    reg.games.push(new_game);
    reg.conn_game.push((player_one_id, game_id));
    join_game(&mut reg, player_two_id, &cli_msg);
    let res_msg = join_game(&mut reg, client_id, &cli_msg);
    assert_eq!(res_msg.status, Status::NotOk);
    assert_eq!(res_msg.headers, Headers::Response);
    assert_eq!(res_msg.command, Commands::JoinGame);
    assert_eq!(res_msg.game_status, GameStatus::NotInGame);
    assert_eq!(
        res_msg.data,
        "Game ID 0 is full, please pick a different one".to_string()
    );
    assert_eq!(res_msg.game_state, GameState::new_empty());
    assert!(!reg.is_in_game(client_id));
    // the refused join did not touch the player slots
    assert_eq!(reg.games[0].player_one, player_one_id);
    assert_eq!(reg.games[0].player_two, player_two_id);
}

#[test]
fn test_join_game_rejects_bad_ids() {
    let mut reg = SessionRegistry::new();
    let cli_msg = Msg {
        status: Status::Okay,
        headers: Headers::Write,
        command: Commands::JoinGame,
        game_status: GameStatus::NotInGame,
        data: "0".to_string(),
        game_state: GameState::new_empty(),
    };
    let res = join_game(&mut reg, 4, &cli_msg);
    assert_eq!(res.status, Status::NotOk);
    assert_eq!(
        res.data,
        "No games available. Please start a new game to begin."
    );
    start_new_game(&mut reg, 1, "first".to_string());
    let mut out_of_range = cli_msg.clone();
    out_of_range.data = "3".to_string();
    let res = join_game(&mut reg, 4, &out_of_range);
    assert_eq!(res.status, Status::NotOk);
    assert_eq!(
        res.data,
        "Invalid game id entered. View available game list for valid game id's"
    );
    let mut garbage = cli_msg.clone();
    garbage.data = "first".to_string();
    let res = join_game(&mut reg, 4, &garbage);
    assert_eq!(res.status, Status::NotOk);
    assert_eq!(
        res.data,
        "Invalid game id entered. View available game list for valid game id's"
    );
    assert!(!reg.is_in_game(4));
}

#[test]
fn test_listing_formats_are_exact() {
    let mut reg = SessionRegistry::new();
    reg.register_connection(1);
    reg.register_connection(2);
    start_new_game(&mut reg, 1, "alpha".to_string());
    start_new_game(&mut reg, 2, "beta".to_string());
    let join = Msg {
        status: Status::Okay,
        headers: Headers::Write,
        command: Commands::JoinGame,
        game_status: GameStatus::NotInGame,
        data: "0".to_string(),
        game_state: GameState::new_empty(),
    };
    join_game(&mut reg, 3, &join);
    let games = list_available_games(&mut reg);
    assert_eq!(games.data, "Available Games: \n1: beta\n");
    let users = list_active_users(&mut reg);
    assert_eq!(users.data, "Active Users: \nuser_1\nuser_2\n");
}

#[test]
fn test_client_disconnect() {
    let mut reg = SessionRegistry::new();
    let nick: String = "asdf".to_string();
    let client_id: u32 = 10;
    reg.push_nick(client_id, nick.clone());
    let res_msg = server_handle_client_disconnect(&mut reg, client_id);
    assert_eq!(res_msg.status, Status::Okay);
    assert_eq!(res_msg.headers, Headers::Response);
    assert_eq!(res_msg.command, Commands::KillClient);
    assert_eq!(res_msg.data, format!("Nick {} successfully booted", nick));
    assert!(!reg.nick_in_use(&nick));
    assert!(!reg.is_registered(client_id));
}

#[test]
fn test_current_state_message() {
    let game = GameState::new(1, "asdf".to_string(), 1);
    let ret_msg = current_state(&game);
    assert_eq!(ret_msg.status, Status::Okay);
    assert_eq!(ret_msg.headers, Headers::Read);
    assert_eq!(ret_msg.command, Commands::Reply);
    assert_eq!(ret_msg.game_status, GameStatus::InGame);
    assert_eq!(ret_msg.game_state, game);
    assert_eq!(ret_msg.data, "Current Game State".to_string());
}

#[test]
fn test_make_move_returns_message() {
    let mut game = GameState::new(1, "asdf".to_string(), 1);
    game.add_new_player(2);
    let cli_id: u32 = 1;
    let cli_msg = Msg {
        status: Status::Okay,
        headers: Headers::Write,
        command: Commands::MakeMove,
        game_status: GameStatus::InGame,
        data: "4".to_string(),
        game_state: game.clone(),
    };
    let ret_msg = make_move(&cli_msg, &mut game, cli_id);
    assert_eq!(ret_msg.status, Status::Okay);
    assert_eq!(ret_msg.headers, Headers::Read);
    assert_eq!(ret_msg.command, Commands::Reply);
    assert_eq!(ret_msg.game_status, GameStatus::InGame);
    assert_eq!(ret_msg.data, "Player Id 1 made move from slot 4".to_string());
}

#[test]
fn test_make_move_rejects_inactive_game() {
    let mut game = GameState::new(1, "asdf".to_string(), 1);
    let before = game.clone();
    let cli_msg = Msg {
        status: Status::Okay,
        headers: Headers::Write,
        command: Commands::MakeMove,
        game_status: GameStatus::InGame,
        data: "4".to_string(),
        game_state: game.clone(),
    };
    let ret_msg = make_move(&cli_msg, &mut game, 1);
    assert_eq!(ret_msg.status, Status::NotOk);
    assert_eq!(
        ret_msg.data,
        "Game not active! your opponent must've disconnected."
    );
    assert_eq!(game, before);
}

#[test]
fn test_make_move_rejects_invalid_slots() {
    let mut game = GameState::new(1, "asdf".to_string(), 1);
    game.add_new_player(2);
    let before = game.clone();
    for bad in ["0", "7", "8", "abc", ""] {
        let cli_msg = Msg {
            status: Status::Okay,
            headers: Headers::Write,
            command: Commands::MakeMove,
            game_status: GameStatus::InGame,
            data: bad.to_string(),
            game_state: game.clone(),
        };
        let ret_msg = make_move(&cli_msg, &mut game, 1);
        assert_eq!(ret_msg.status, Status::NotOk);
        assert_eq!(ret_msg.data, "Invalid move");
        assert_eq!(game, before);
    }
}

#[test]
fn test_set_nickname_handler() {
    let mut reg = SessionRegistry::new();
    reg.register_connection(1);
    let cli_msg = Msg {
        status: Status::Okay,
        headers: Headers::Write,
        command: Commands::SetNick,
        game_status: GameStatus::NotInGame,
        data: "rooney".to_string(),
        game_state: GameState::new_empty(),
    };
    let res = set_nickname(&mut reg, &cli_msg, 1);
    assert_eq!(res.status, Status::Okay);
    assert_eq!(res.command, Commands::SetNick);
    assert_eq!(res.data, "rooney");
    assert!(reg.nick_in_use(&"rooney".to_string()));
    assert!(!reg.nick_in_use(&"user_1".to_string()));
}

#[test]
fn test_nickname_race_one_winner() {
    // two connections ask for the same free nickname; the data manager
    // serializes them, so exactly one request wins
    let mut reg = SessionRegistry::new();
    reg.register_connection(1);
    reg.register_connection(2);
    let request = |data: &str| Msg {
        status: Status::Okay,
        headers: Headers::Write,
        command: Commands::SetNick,
        game_status: GameStatus::NotInGame,
        data: data.to_string(),
        game_state: GameState::new_empty(),
    };
    let first = set_nickname(&mut reg, &request("champ"), 1);
    let second = set_nickname(&mut reg, &request("champ"), 2);
    assert_eq!(first.status, Status::Okay);
    assert_eq!(second.status, Status::NotOk);
    assert_eq!(second.data, "nickname already in use");
    assert!(reg.nick_in_use(&"champ".to_string()));
    assert!(reg.nick_in_use(&"user_2".to_string()));
}

#[test]
fn test_initial_setup_reply() {
    let mut reg = SessionRegistry::new();
    reg.register_connection(4);
    let hello = Msg {
        status: Status::Okay,
        headers: Headers::Write,
        command: Commands::InitSetup,
        game_status: GameStatus::NotInGame,
        data: String::new(),
        game_state: GameState::new_empty(),
    };
    let res = route_request(&mut reg, 4, &hello);
    assert_eq!(res.status, Status::Okay);
    assert_eq!(res.command, Commands::Reply);
    assert_eq!(res.data, "user_4^4");
}

#[test]
fn test_unknown_lobby_command_is_refused() {
    let mut reg = SessionRegistry::new();
    reg.register_connection(4);
    let odd = Msg {
        status: Status::Okay,
        headers: Headers::Write,
        command: Commands::Reply,
        game_status: GameStatus::NotInGame,
        data: String::new(),
        game_state: GameState::new_empty(),
    };
    let res = handle_out_of_game(Commands::Reply, &mut reg, &odd, 4);
    assert_eq!(res.status, Status::NotOk);
    assert_eq!(res.data, "");
}

#[test]
fn test_disconnect_resets_game_for_remaining_player() {
    // a mid-game departure resets the board to the starting configuration,
    // and the remaining player's next snapshot request shows the reset
    let mut reg = SessionRegistry::new();
    reg.register_connection(1);
    reg.register_connection(2);
    start_new_game(&mut reg, 1, "duel".to_string());
    let join = Msg {
        status: Status::Okay,
        headers: Headers::Write,
        command: Commands::JoinGame,
        game_status: GameStatus::NotInGame,
        data: "0".to_string(),
        game_state: GameState::new_empty(),
    };
    route_request(&mut reg, 2, &join);
    let make = Msg {
        status: Status::Okay,
        headers: Headers::Write,
        command: Commands::MakeMove,
        game_status: GameStatus::InGame,
        data: "1".to_string(),
        game_state: GameState::new_empty(),
    };
    route_request(&mut reg, 1, &make);
    assert_ne!(reg.games[0].game_board, GameState::new(1, "duel".to_string(), 0).game_board);
    let leave = Msg {
        status: Status::Okay,
        headers: Headers::Write,
        command: Commands::LeaveGame,
        game_status: GameStatus::InGame,
        data: String::new(),
        game_state: GameState::new_empty(),
    };
    let gone = route_request(&mut reg, 2, &leave);
    assert_eq!(gone.command, Commands::GameIsOver);
    let current = Msg {
        status: Status::Okay,
        headers: Headers::Read,
        command: Commands::GetCurrentGamestate,
        game_status: GameStatus::InGame,
        data: String::new(),
        game_state: GameState::new_empty(),
    };
    let snapshot = route_request(&mut reg, 1, &current);
    assert_eq!(snapshot.command, Commands::Reply);
    assert!(!snapshot.game_state.active);
    assert_eq!(
        snapshot.game_state.game_board,
        vec![0, 4, 4, 4, 4, 4, 4, 0, 4, 4, 4, 4, 4, 4]
    );
}

#[test]
fn test_orphaned_game_forces_game_over() {
    let mut reg = SessionRegistry::new();
    reg.register_connection(1);
    reg.register_connection(2);
    start_new_game(&mut reg, 1, "duel".to_string());
    let join = Msg {
        status: Status::Okay,
        headers: Headers::Write,
        command: Commands::JoinGame,
        game_status: GameStatus::NotInGame,
        data: "0".to_string(),
        game_state: GameState::new_empty(),
    };
    route_request(&mut reg, 2, &join);
    // the game finished: both seats stay taken but it is inactive
    reg.games[0].make_move(3);
    reg.games[0].set_game_over();
    reg.games[0].active = false;
    let current = Msg {
        status: Status::Okay,
        headers: Headers::Read,
        command: Commands::GetCurrentGamestate,
        game_status: GameStatus::InGame,
        data: String::new(),
        game_state: GameState::new_empty(),
    };
    let res = handle_in_game(Commands::GetCurrentGamestate, &mut reg, &current, 1);
    assert_eq!(res.command, Commands::GameIsOver);
    assert_eq!(res.data, "Game Over");
}
