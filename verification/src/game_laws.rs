//! Proved laws of the rules engine.
//!
//! Each proof function here states one property of `spec_make_move`, the
//! model that `GameState::make_move` is proved to implement exactly, so the
//! properties carry over to the executable engine.

use vstd::prelude::*;
use crate::constants::{BOARD_LENGTH, SLOTS};
use crate::board::{
    board_sum, lemma_capture_sum, lemma_collect_sum, lemma_elem_le_sum, lemma_sow_sum,
    lemma_sum_const, lemma_sum_update, next_slot, opposite_slot, spec_capture, spec_collect,
};
use crate::game_objects::{
    spec_captures, spec_keeps_turn, spec_landed, spec_make_move, spec_side_empty,
    spec_sowed_board, GameView,
};

verus! {

/// A move never creates or destroys stones: the board total is unchanged,
/// whatever the board.
pub proof fn lemma_move_conserves_stones(v: GameView, slot: int)
    requires
        v.well_formed(),
        v.game_over || v.valid_move(slot),
    ensures
        board_sum(spec_make_move(v, slot).board) == board_sum(v.board),
        spec_make_move(v, slot).board.len() == BOARD_LENGTH,
{
    if !v.game_over {
        let b0 = v.board.update(slot, 0);
        lemma_sum_update(v.board, slot, 0);
        lemma_sow_sum(b0, next_slot(slot, v.opp_goal()), v.board[slot] as nat, v.opp_goal());
        let landed = spec_landed(v, slot);
        let sown = spec_sowed_board(v, slot);
        if landed != v.own_goal() {
            lemma_capture_sum(sown, landed, v.player_one_turn, v.own_goal());
        }
        let moved = GameView {
            board: if landed != v.own_goal() {
                spec_capture(sown, landed, v.player_one_turn, v.own_goal()).0
            } else {
                sown
            },
            player_one_turn: if spec_keeps_turn(v, slot) {
                v.player_one_turn
            } else {
                !v.player_one_turn
            },
            ..v
        };
        if spec_side_empty(moved) {
            lemma_collect_sum(moved.board);
        }
    }
}

/// A move never changes who is seated, and can only end a game, not
/// revive one: an active game with both seats taken stays consistent.
pub proof fn lemma_move_keeps_seats(v: GameView, slot: int)
    ensures
        spec_make_move(v, slot).player_one == v.player_one,
        spec_make_move(v, slot).player_two == v.player_two,
        spec_make_move(v, slot).active ==> v.active,
        v.seats_consistent() ==> spec_make_move(v, slot).seats_consistent(),
{
}

/// The turn flag after a move: unchanged when the last stone lands in the
/// mover's own store or the move captures, toggled exactly once otherwise.
pub proof fn lemma_turn_change(v: GameView, slot: int)
    requires
        v.well_formed(),
        !v.game_over,
        v.valid_move(slot),
    ensures
        spec_landed(v, slot) == v.own_goal() || spec_captures(v, slot) ==> spec_make_move(
            v,
            slot,
        ).player_one_turn == v.player_one_turn,
        !(spec_landed(v, slot) == v.own_goal() || spec_captures(v, slot)) ==> spec_make_move(
            v,
            slot,
        ).player_one_turn == !v.player_one_turn,
{
}

/// The capture postcondition, stated against the board as sown: the landed
/// slot and its opposite both end at 0, and the mover's store ends exactly
/// `opposite count + 1` above its sown value — also when the capture
/// empties the mover's side and the end-of-game sweep follows.
pub proof fn lemma_capture_postcondition(v: GameView, slot: int)
    requires
        v.well_formed(),
        !v.game_over,
        v.valid_move(slot),
        spec_captures(v, slot),
    ensures
        ({
            let m = spec_make_move(v, slot);
            let sown = spec_sowed_board(v, slot);
            let landed = spec_landed(v, slot);
            let opposite = opposite_slot(landed, v.player_one_turn);
            &&& m.board[landed] == 0
            &&& m.board[opposite] == 0
            &&& m.board[v.own_goal()] == sown[v.own_goal()] + sown[opposite] + 1
        }),
{
    let b0 = v.board.update(slot, 0);
    lemma_sum_update(v.board, slot, 0);
    lemma_sow_sum(b0, next_slot(slot, v.opp_goal()), v.board[slot] as nat, v.opp_goal());
    let sown = spec_sowed_board(v, slot);
    let landed = spec_landed(v, slot);
    let own = v.own_goal();
    let opposite = opposite_slot(landed, v.player_one_turn);
    assert(1 <= landed < BOARD_LENGTH && landed != own && landed != v.opp_goal());
    // no slot count overflows during the capture
    lemma_sum_update(sown, landed, 0);
    lemma_elem_le_sum(sown.update(landed, 0), opposite);
    lemma_sum_update(sown.update(landed, 0), opposite, 0);
    lemma_elem_le_sum(sown.update(landed, 0).update(opposite, 0), own);
    let captured_board = spec_capture(sown, landed, v.player_one_turn, own).0;
    assert(captured_board[landed] == 0 && captured_board[opposite] == 0);
    assert(captured_board[own] == sown[own] + sown[opposite] + 1);
    let moved = GameView {
        board: captured_board,
        player_one_turn: v.player_one_turn,
        ..v
    };
    assert(spec_make_move(v, slot).player_one_turn == v.player_one_turn);
    if spec_side_empty(moved) {
        // the sweep adds the mover's already-empty side, so their store is
        // unchanged; the landed and opposite slots are pits and stay 0
        lemma_side_sum_zero(moved);
        assert(spec_make_move(v, slot).board =~= spec_collect(captured_board));
    }
}

/// When a move ends the game, every pit on the final turn-holder's side is
/// empty and the two stores together hold every stone that was on the board.
pub proof fn lemma_game_over_postcondition(v: GameView, slot: int)
    requires
        v.well_formed(),
        !v.game_over,
        v.valid_move(slot),
        spec_make_move(v, slot).game_over,
    ensures
        spec_side_empty(spec_make_move(v, slot)),
        spec_make_move(v, slot).board[0] + spec_make_move(v, slot).board[SLOTS as int]
            == board_sum(v.board),
{
    let b0 = v.board.update(slot, 0);
    lemma_sum_update(v.board, slot, 0);
    lemma_sow_sum(b0, next_slot(slot, v.opp_goal()), v.board[slot] as nat, v.opp_goal());
    let landed = spec_landed(v, slot);
    let sown = spec_sowed_board(v, slot);
    if landed != v.own_goal() {
        lemma_capture_sum(sown, landed, v.player_one_turn, v.own_goal());
    }
    let moved = GameView {
        board: if landed != v.own_goal() {
            spec_capture(sown, landed, v.player_one_turn, v.own_goal()).0
        } else {
            sown
        },
        player_one_turn: if spec_keeps_turn(v, slot) {
            v.player_one_turn
        } else {
            !v.player_one_turn
        },
        ..v
    };
    assert(spec_side_empty(moved));
    lemma_collect_sum(moved.board);
    let m = spec_make_move(v, slot);
    assert(m.board == spec_collect(moved.board));
    assert(spec_side_empty(m));
}

/// On a board whose turn-holder's side is empty, that side's pits sum to
/// zero, so the end-of-game sweep leaves the turn-holder's store unchanged.
proof fn lemma_side_sum_zero(v: GameView)
    requires
        v.sized(),
        spec_side_empty(v),
    ensures
        v.player_one_turn ==> board_sum(v.board.subrange(1, SLOTS as int)) == 0,
        !v.player_one_turn ==> board_sum(
            v.board.subrange(SLOTS as int + 1, BOARD_LENGTH as int),
        ) == 0,
{
    if v.player_one_turn {
        lemma_sum_const(v.board.subrange(1, SLOTS as int), 0);
    } else {
        lemma_sum_const(v.board.subrange(SLOTS as int + 1, BOARD_LENGTH as int), 0);
    }
}

} // verus!
