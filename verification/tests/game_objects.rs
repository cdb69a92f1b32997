use rusty_mancala::game_objects::GameState;

#[test]
fn test_game_state_can_be_initialized() {
    let gs: GameState = GameState::new(1, "name".to_string(), 0);
    assert!(!gs.active);
}

#[test]
fn test_game_state_init_values_are_correct() {
    let gs: GameState = GameState::new(1, "name".to_string(), 0);
    let mut init_game_board: Vec<u8> = vec![4; 14];
    init_game_board[7] = 0;
    init_game_board[0] = 0;
    assert_eq!(gs.player_one, 1);
    assert_eq!(gs.player_two, 0);
    assert_eq!(gs.game_name, "name");
    assert_eq!(gs.game_id, 0);
    assert_eq!(gs.game_board, init_game_board);
    assert!(gs.player_one_turn);
    assert!(!gs.active);
}

#[test]
fn test_game_becomes_active_after_adding_player_two() {
    let mut gs: GameState = GameState::new(1, "name".to_string(), 0);
    assert!(!gs.active);
    gs.add_new_player(1);
    assert!(gs.active);
}

#[test]
fn test_game_state_updates_after_one_move() {
    let mut gs: GameState = GameState::new(1, "name".to_string(), 0);
    gs.add_new_player(1);
    let mut init_game_board: Vec<u8> = vec![4; 14];
    init_game_board[7] = 0;
    init_game_board[0] = 0;
    gs.make_move(1);
    assert_ne!(gs.game_board, init_game_board);
}

#[test]
fn test_turn_changes_after_making_move() {
    let mut gs: GameState = GameState::new(1, "name".to_string(), 0);
    gs.add_new_player(1);
    let turn1: bool = gs.player_one_turn;
    gs.make_move(1);
    let turn2: bool = gs.player_one_turn;
    gs.make_move(2);
    let turn3: bool = gs.player_one_turn;
    gs.make_move(3);
    let turn4: bool = gs.player_one_turn;
    assert_eq!(turn1, turn3);
    assert_eq!(turn2, turn4);
    assert_ne!(turn1, turn2);
    assert_ne!(turn3, turn4);
}

#[test]
fn test_scoring_turns_dont_change_players() {
    let mut gs: GameState = GameState::new(1, "name".to_string(), 0);
    gs.add_new_player(1);
    let turn1: bool = gs.player_one_turn;
    gs.make_move(3);
    let turn2: bool = gs.player_one_turn;
    assert_eq!(turn1, turn2);
}

#[test]
fn test_captures() {
    // this test assumes SLOTS = 7 and starting_stones = 4
    let mut gs: GameState = GameState::new(1, "name".to_string(), 0);
    gs.add_new_player(1);
    gs.make_move(6);
    gs.make_move(11);
    let turn1: bool = gs.player_one_turn;
    gs.make_move(2);
    let turn2: bool = gs.player_one_turn;
    assert_eq!(turn1, turn2);
    assert_eq!(gs.game_board[gs.player_one_goal_slot], 7);
    assert_eq!(gs.game_board[gs.player_two_goal_slot], 1);
    assert_eq!(gs.game_board[8], 0);
    assert_eq!(gs.game_board[6], 0);
}

#[test]
fn test_collect_remaining() {
    let mut gs: GameState = GameState::new(1, "name".to_string(), 0);
    gs.add_new_player(1);
    let mut gs2: GameState = GameState::new(1, "name".to_string(), 0);
    gs.add_new_player(1);
    gs.collect_remaining_stones();
    gs2.make_move(6);
    gs2.collect_remaining_stones();
    assert_eq!(gs.game_board[gs.player_one_goal_slot], 24);
    assert_eq!(gs.game_board[gs.player_two_goal_slot], 24);
    assert_eq!(gs2.game_board[gs2.player_one_goal_slot], 21);
    assert_eq!(gs2.game_board[gs2.player_two_goal_slot], 27);
}

#[test]
fn test_worked_move_scenario() {
    // player one moves pit 6: four stones land in slots 7, 8, 9 and 10;
    // the last stone lands in pit 10, not the store, so the turn passes
    let mut gs: GameState = GameState::new(1, "name".to_string(), 0);
    gs.add_new_player(2);
    assert_eq!(gs.game_board, vec![0, 4, 4, 4, 4, 4, 4, 0, 4, 4, 4, 4, 4, 4]);
    gs.make_move(6);
    assert_eq!(gs.game_board, vec![0, 4, 4, 4, 4, 4, 0, 1, 5, 5, 5, 4, 4, 4]);
    assert!(!gs.player_one_turn);
}

#[test]
fn test_stone_count_is_conserved() {
    let mut gs: GameState = GameState::new(1, "name".to_string(), 0);
    gs.add_new_player(2);
    let total: u32 = gs.game_board.iter().map(|&x| x as u32).sum();
    assert_eq!(total, 48);
    for slot in [6usize, 11, 2, 9, 1] {
        gs.make_move(slot);
        let after: u32 = gs.game_board.iter().map(|&x| x as u32).sum();
        assert_eq!(after, 48);
    }
}

#[test]
fn test_game_over_collects_all_stones() {
    let mut gs: GameState = GameState::new(1, "name".to_string(), 0);
    gs.add_new_player(2);
    // hand-build a position where player one's last pit empties their side
    gs.game_board = vec![0, 0, 0, 0, 0, 0, 1, 20, 1, 1, 1, 1, 1, 1];
    gs.make_move(6);
    assert!(gs.game_over);
    assert!(!gs.active);
    assert_eq!(gs.game_board[7], 21);
    assert_eq!(gs.game_board[0], 6);
    assert_eq!(gs.game_board[7] + gs.game_board[0], 27);
    for pit in [1, 2, 3, 4, 5, 6, 8, 9, 10, 11, 12, 13] {
        assert_eq!(gs.game_board[pit], 0);
    }
}

#[test]
fn test_move_on_finished_game_changes_nothing() {
    let mut gs: GameState = GameState::new(1, "name".to_string(), 0);
    gs.add_new_player(2);
    gs.set_game_over();
    let before = gs.game_board.clone();
    let turn = gs.player_one_turn;
    gs.make_move(3);
    assert_eq!(gs.game_board, before);
    assert_eq!(gs.player_one_turn, turn);
}

#[test]
fn test_scores_and_board_accessors() {
    let mut gs: GameState = GameState::new(1, "name".to_string(), 0);
    gs.add_new_player(2);
    assert_eq!(gs.get_board(), gs.game_board);
    gs.make_move(6);
    assert_eq!(gs.get_player_one_score(), 1);
    assert_eq!(gs.get_player_two_score(), 0);
}
