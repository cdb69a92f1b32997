//! The Mancala game state and rules engine.
//!
//! `GameState` owns one match: the two player ids, the 14-slot board, whose
//! turn it is and whether the game is active or over.  `make_move` is proved
//! to transform the state exactly as the mathematical model
//! `spec_make_move` describes: sowing with the opponent's store skipped, a
//! bonus turn when the last stone lands in the mover's own store, a capture
//! when it lands alone in one of the mover's pits opposite a non-empty
//! opponent pit, and the end-of-game sweep once the turn-holder's side is
//! empty.

use vstd::prelude::*;
use crate::constants::{BOARD_LENGTH, SLOTS, STARTING_STONES};
use crate::board::{
    board_sum, lemma_capture_sum, lemma_collect_sum, lemma_elem_le_sum, lemma_sow_sum,
    lemma_sum_concat, lemma_sum_const, lemma_sum_nonneg, lemma_sum_split, lemma_sum_update,
    next_slot, sow_at, spec_capture, spec_collect,
};

verus! {

/// Specification-level image of a `GameState`.
#[verifier::ext_equal]
pub ghost struct GameView {
    pub player_one: u32,
    pub player_two: u32,
    pub game_name: Seq<char>,
    pub game_id: u32,
    pub board: Seq<u8>,
    pub player_one_goal_slot: int,
    pub player_two_goal_slot: int,
    pub player_one_turn: bool,
    pub active: bool,
    pub game_over: bool,
}

impl GameView {
    /// The store of the player whose turn it is.
    pub open spec fn own_goal(self) -> int {
        if self.player_one_turn {
            self.player_one_goal_slot
        } else {
            self.player_two_goal_slot
        }
    }

    /// The store of the player waiting for their turn.
    pub open spec fn opp_goal(self) -> int {
        if self.player_one_turn {
            self.player_two_goal_slot
        } else {
            self.player_one_goal_slot
        }
    }

    /// Board shape: 14 slots, player one's store at slot 7, player two's at
    /// slot 0.
    pub open spec fn sized(self) -> bool {
        &&& self.board.len() == BOARD_LENGTH
        &&& self.player_one_goal_slot == SLOTS as int
        &&& self.player_two_goal_slot == 0
    }

    /// A playable game: correctly shaped, with few enough stones that no
    /// slot can ever overflow its 8-bit count.
    pub open spec fn well_formed(self) -> bool {
        &&& self.sized()
        &&& board_sum(self.board) <= u8::MAX
    }

    /// An active game has both seats taken.
    pub open spec fn seats_consistent(self) -> bool {
        self.active ==> self.player_one != 0 && self.player_two != 0
    }

    /// A slot that a move may be made from: on the board and non-empty.
    pub open spec fn valid_move(self, slot: int) -> bool {
        &&& 0 <= slot < BOARD_LENGTH
        &&& self.board[slot] > 0
    }
}

/// The state a freshly created game starts in: the creator seated as
/// player one, a starting board, player one to move, not yet active.
pub open spec fn new_game_view(p_one: u32, name: Seq<char>, id: u32) -> GameView {
    GameView {
        player_one: p_one,
        player_two: 0,
        game_name: name,
        game_id: id,
        board: starting_board(),
        player_one_goal_slot: SLOTS as int,
        player_two_goal_slot: 0,
        player_one_turn: true,
        active: false,
        game_over: false,
    }
}

/// The all-empty sentinel game that lobby-only messages carry.
pub open spec fn empty_game_view() -> GameView {
    GameView {
        player_one: 0,
        player_two: 0,
        game_name: "empty"@,
        game_id: 0,
        board: Seq::new(BOARD_LENGTH as nat, |i: int| 0u8),
        player_one_goal_slot: 0,
        player_two_goal_slot: 0,
        player_one_turn: false,
        active: false,
        game_over: false,
    }
}

/// The effect of seating a player: the first open slot takes the id, and
/// the game becomes active once both slots are filled.
pub open spec fn spec_add_player(v: GameView, player_id: u32) -> GameView {
    let p1 = if v.player_one == 0 {
        player_id
    } else {
        v.player_one
    };
    let p2 = if v.player_one != 0 && v.player_two == 0 {
        player_id
    } else {
        v.player_two
    };
    GameView {
        player_one: p1,
        player_two: p2,
        active: (p1 != 0 && p2 != 0) || v.active,
        ..v
    }
}

/// The effect of a player leaving: their slot is cleared, and with a slot
/// open the board resets to the starting configuration and the game stops
/// being active.
pub open spec fn spec_remove_player(v: GameView, player_id: u32) -> GameView {
    let p1 = if v.player_one == player_id {
        0u32
    } else {
        v.player_one
    };
    let p2 = if v.player_one != player_id && v.player_two == player_id {
        0u32
    } else {
        v.player_two
    };
    if p1 == 0 || p2 == 0 {
        GameView { player_one: p1, player_two: p2, board: starting_board(), active: false, ..v }
    } else {
        GameView { player_one: p1, player_two: p2, ..v }
    }
}

/// The slots a player may move from: their own six pits.
pub open spec fn spec_move_in_range(player_one_turn: bool, slot: int) -> bool {
    if player_one_turn {
        1 <= slot < SLOTS as int
    } else {
        (SLOTS as int) < slot < BOARD_LENGTH as int
    }
}

/// The board a game starts from: four stones in every pit, empty stores.
pub open spec fn starting_board() -> Seq<u8> {
    Seq::new(
        BOARD_LENGTH as nat,
        |i: int|
            if i == 0 || i == SLOTS as int {
                0u8
            } else {
                STARTING_STONES
            },
    )
}

/// Total stones in play on a starting board.
pub proof fn lemma_starting_board_sum()
    ensures
        starting_board().len() == BOARD_LENGTH,
        board_sum(starting_board()) == 48,
{
    let c = Seq::new(BOARD_LENGTH as nat, |i: int| STARTING_STONES);
    lemma_sum_const(c, STARTING_STONES);
    lemma_sum_update(c, 0, 0);
    lemma_sum_update(c.update(0, 0), SLOTS as int, 0);
    assert(starting_board() =~= c.update(0, 0).update(SLOTS as int, 0));
}

/// Whether every pit on the turn-holder's side is empty.
pub open spec fn spec_side_empty(v: GameView) -> bool {
    if v.player_one_turn {
        forall|i: int| 1 <= i < v.player_one_goal_slot ==> v.board[i] == 0
    } else {
        forall|i: int| v.player_one_goal_slot < i < v.board.len() ==> v.board[i] == 0
    }
}

/// The board after the mover has emptied `slot` and sown its stones.
pub open spec fn spec_sowed_board(v: GameView, slot: int) -> Seq<u8> {
    sow_at(
        v.board.update(slot, 0),
        next_slot(slot, v.opp_goal()),
        v.board[slot] as nat,
        v.opp_goal(),
    ).0
}

/// The slot the last sown stone lands in.
pub open spec fn spec_landed(v: GameView, slot: int) -> int {
    sow_at(
        v.board.update(slot, 0),
        next_slot(slot, v.opp_goal()),
        v.board[slot] as nat,
        v.opp_goal(),
    ).1
}

/// Whether the move from `slot` ends in a capture.
pub open spec fn spec_captures(v: GameView, slot: int) -> bool {
    let landed = spec_landed(v, slot);
    &&& landed != v.own_goal()
    &&& spec_capture(spec_sowed_board(v, slot), landed, v.player_one_turn, v.own_goal()).1
}

/// Whether the mover keeps the turn: the last stone landed in their own
/// store, or the move captured.
pub open spec fn spec_keeps_turn(v: GameView, slot: int) -> bool {
    spec_landed(v, slot) == v.own_goal() || spec_captures(v, slot)
}

/// The complete effect of a move: a no-op on a finished game; otherwise
/// sowing, then the capture check, then the turn switch unless the mover
/// scored or captured, and finally the end-of-game sweep if the new
/// turn-holder's side is empty.
pub open spec fn spec_make_move(v: GameView, slot: int) -> GameView {
    if v.game_over {
        v
    } else {
        let landed = spec_landed(v, slot);
        let sown = spec_sowed_board(v, slot);
        let after_capture = if landed != v.own_goal() {
            spec_capture(sown, landed, v.player_one_turn, v.own_goal()).0
        } else {
            sown
        };
        let turn = if spec_keeps_turn(v, slot) {
            v.player_one_turn
        } else {
            !v.player_one_turn
        };
        let moved = GameView { board: after_capture, player_one_turn: turn, ..v };
        if spec_side_empty(moved) {
            GameView { board: spec_collect(moved.board), game_over: true, active: false, ..moved }
        } else {
            moved
        }
    }
}

/// Object holding all of a game's state.
#[derive(Debug)]
pub struct GameState {
    pub player_one: u32,
    pub player_two: u32,
    pub game_name: String,
    pub game_id: u32,
    pub game_board: Vec<u8>,
    pub player_one_goal_slot: usize,
    pub player_two_goal_slot: usize,
    pub player_one_turn: bool,
    pub active: bool,
    pub game_over: bool,
}

impl View for GameState {
    type V = GameView;

    open spec fn view(&self) -> GameView {
        GameView {
            player_one: self.player_one,
            player_two: self.player_two,
            game_name: self.game_name@,
            game_id: self.game_id,
            board: self.game_board@,
            player_one_goal_slot: self.player_one_goal_slot as int,
            player_two_goal_slot: self.player_two_goal_slot as int,
            player_one_turn: self.player_one_turn,
            active: self.active,
            game_over: self.game_over,
        }
    }
}

impl Clone for GameState {
    fn clone(&self) -> (r: Self)
        ensures
            r@ == self@,
    {
        let board = self.game_board.clone();
        proof {
            assert(board@ =~= self.game_board@);
        }
        GameState {
            player_one: self.player_one,
            player_two: self.player_two,
            game_name: self.game_name.clone(),
            game_id: self.game_id,
            game_board: board,
            player_one_goal_slot: self.player_one_goal_slot,
            player_two_goal_slot: self.player_two_goal_slot,
            player_one_turn: self.player_one_turn,
            active: self.active,
            game_over: self.game_over,
        }
    }
}

impl PartialEq for GameState {
    fn eq(&self, other: &Self) -> (r: bool) {
        let boards_eq = self.game_board == other.game_board;
        proof {
            if boards_eq {
                assert(self.game_board@ =~= other.game_board@);
            }
        }
        self.player_one == other.player_one && self.player_two == other.player_two
            && self.game_name == other.game_name && self.game_id == other.game_id && boards_eq
            && self.player_one_goal_slot == other.player_one_goal_slot
            && self.player_two_goal_slot == other.player_two_goal_slot
            && self.player_one_turn == other.player_one_turn && self.active == other.active
            && self.game_over == other.game_over
    }
}

impl vstd::std_specs::cmp::PartialEqSpecImpl for GameState {
    open spec fn obeys_eq_spec() -> bool {
        true
    }

    open spec fn eq_spec(&self, other: &GameState) -> bool {
        self@ == other@
    }
}

impl GameState {
    /// Initialize new gamestate.  One player required.
    /// Other values set to sensible defaults.
    pub fn new(p_one: u32, name: String, id: u32) -> (g: GameState)
        ensures
            g@ == new_game_view(p_one, name@, id),
            g@.well_formed(),
            board_sum(g@.board) == 48,
    {
        let mut init_game_board: Vec<u8> = vec![STARTING_STONES; BOARD_LENGTH];
        init_game_board[SLOTS] = 0;
        init_game_board[0] = 0;
        proof {
            lemma_starting_board_sum();
            assert(init_game_board@ =~= starting_board());
        }
        GameState {
            player_one: p_one,
            player_two: 0,
            game_name: name,
            game_id: id,
            game_board: init_game_board,
            player_one_goal_slot: SLOTS,
            player_two_goal_slot: 0,
            player_one_turn: true,
            active: false,
            game_over: false,
        }
    }

    /// An all-empty sentinel game: the wire format always carries a game
    /// snapshot, so lobby-only messages ship this placeholder.
    pub fn new_empty() -> (g: GameState)
        ensures
            g@ == empty_game_view(),
    {
        let board: Vec<u8> = vec![0u8; BOARD_LENGTH];
        proof {
            assert(board@ =~= Seq::new(BOARD_LENGTH as nat, |i: int| 0u8));
        }
        GameState {
            player_one: 0,
            player_two: 0,
            game_name: String::from_str("empty"),
            game_id: 0,
            game_board: board,
            player_one_goal_slot: 0,
            player_two_goal_slot: 0,
            player_one_turn: false,
            active: false,
            game_over: false,
        }
    }

    /// Fills the first open player slot; the game becomes active once both
    /// slots are filled.
    pub fn add_new_player(&mut self, player_id: u32)
        ensures
            final(self)@ == spec_add_player(old(self)@, player_id),
    {
        if self.player_one == 0 {
            self.player_one = player_id;
        } else if self.player_two == 0 {
            self.player_two = player_id;
        }
        if self.player_one != 0 && self.player_two != 0 {
            self.active = true;
        }
    }

    /// Clears the departing player's slot; if a slot is then open, the
    /// board is reset to the starting configuration and the game goes back
    /// to waiting for players.
    pub fn remove_player(&mut self, player_id: u32)
        ensures
            final(self)@ == spec_remove_player(old(self)@, player_id),
    {
        if self.player_one == player_id {
            self.player_one = 0;
        } else if self.player_two == player_id {
            self.player_two = 0;
        }
        if self.player_one == 0 || self.player_two == 0 {
            let mut init_game_board: Vec<u8> = vec![STARTING_STONES; BOARD_LENGTH];
            init_game_board[SLOTS] = 0;
            init_game_board[0] = 0;
            proof {
                assert(init_game_board@ =~= starting_board());
            }
            self.game_board = init_game_board;
            self.active = false;
        }
    }

    /// Sum of the stones in `game_board[from..to]`.
    fn sum_range(&self, from: usize, to: usize) -> (r: u8)
        requires
            0 < from <= to <= self@.board.len(),
            board_sum(self@.board) <= u8::MAX,
        ensures
            r as int == board_sum(self@.board.subrange(from as int, to as int)),
    {
        let ghost whole = self@.board;
        proof {
            lemma_subrange_sum_le(whole, from as int, to as int);
        }
        let mut acc: u8 = 0;
        let mut i: usize = from;
        while i < to
            invariant
                from <= i <= to <= whole.len(),
                0 < from,
                whole == self@.board,
                board_sum(whole) <= u8::MAX,
                acc as int == board_sum(whole.subrange(from as int, i as int)),
            decreases to - i,
        {
            proof {
                assert(whole.subrange(from as int, i + 1).drop_last() =~= whole.subrange(
                    from as int,
                    i as int,
                ));
                lemma_subrange_sum_le(whole, from as int, i + 1);
            }
            acc = acc + self.game_board[i];
            i = i + 1;
        }
        acc
    }

    /// When game is over, add the remaining stones on each player's side to
    /// that side's store, emptying the pits: stones are relocated, never
    /// duplicated.
    pub fn collect_remaining_stones(&mut self)
        requires
            old(self)@.well_formed(),
        ensures
            final(self)@ == (GameView { board: spec_collect(old(self)@.board), ..old(self)@ }),
            final(self)@.well_formed(),
            board_sum(final(self)@.board) == board_sum(old(self)@.board),
    {
        let ghost b = self@.board;
        proof {
            lemma_sum_split(b);
            lemma_sum_nonneg(b.subrange(1, SLOTS as int));
            lemma_sum_nonneg(b.subrange(SLOTS as int + 1, BOARD_LENGTH as int));
            lemma_collect_sum(b);
        }
        let one_side = self.sum_range(1, SLOTS);
        let two_side = self.sum_range(SLOTS + 1, BOARD_LENGTH);
        let own_store = self.game_board[SLOTS];
        self.game_board[SLOTS] = own_store + one_side;
        let other_store = self.game_board[0];
        self.game_board[0] = other_store + two_side;
        let mut i: usize = 1;
        while i < SLOTS
            invariant
                1 <= i <= SLOTS,
                self.game_board@.len() == BOARD_LENGTH,
                forall|j: int| 1 <= j < i ==> self.game_board@[j] == 0,
                self.game_board@[0] == (b[0] + board_sum(
                    b.subrange(SLOTS as int + 1, BOARD_LENGTH as int),
                )) as u8,
                self.game_board@[SLOTS as int] == (b[SLOTS as int] + board_sum(
                    b.subrange(1, SLOTS as int),
                )) as u8,
                forall|j: int| i <= j < BOARD_LENGTH && j != 0 && j != SLOTS as int
                    ==> self.game_board@[j] == b[j],
                self.player_one == old(self).player_one,
                self.player_two == old(self).player_two,
                self.game_name == old(self).game_name,
                self.game_id == old(self).game_id,
                self.player_one_goal_slot == old(self).player_one_goal_slot,
                self.player_two_goal_slot == old(self).player_two_goal_slot,
                self.player_one_turn == old(self).player_one_turn,
                self.active == old(self).active,
                self.game_over == old(self).game_over,
            decreases SLOTS - i,
        {
            self.game_board[i] = 0;
            i = i + 1;
        }
        let mut k: usize = SLOTS + 1;
        while k < BOARD_LENGTH
            invariant
                SLOTS + 1 <= k <= BOARD_LENGTH,
                self.game_board@.len() == BOARD_LENGTH,
                forall|j: int| 1 <= j < SLOTS as int ==> self.game_board@[j] == 0,
                forall|j: int| (SLOTS as int) < j < k ==> self.game_board@[j] == 0,
                self.game_board@[0] == (b[0] + board_sum(
                    b.subrange(SLOTS as int + 1, BOARD_LENGTH as int),
                )) as u8,
                self.game_board@[SLOTS as int] == (b[SLOTS as int] + board_sum(
                    b.subrange(1, SLOTS as int),
                )) as u8,
                forall|j: int| k <= j < BOARD_LENGTH ==> self.game_board@[j] == b[j],
                self.player_one == old(self).player_one,
                self.player_two == old(self).player_two,
                self.game_name == old(self).game_name,
                self.game_id == old(self).game_id,
                self.player_one_goal_slot == old(self).player_one_goal_slot,
                self.player_two_goal_slot == old(self).player_two_goal_slot,
                self.player_one_turn == old(self).player_one_turn,
                self.active == old(self).active,
                self.game_over == old(self).game_over,
            decreases BOARD_LENGTH - k,
        {
            self.game_board[k] = 0;
            k = k + 1;
        }
        proof {
            assert(self.game_board@ =~= spec_collect(b));
        }
    }

    /// Whether every pit on the turn-holder's side is empty.
    pub fn is_game_over(&self) -> (r: bool)
        requires
            self@.sized(),
        ensures
            r == spec_side_empty(self@),
    {
        if self.player_one_turn {
            let mut i: usize = 1;
            while i < SLOTS
                invariant
                    1 <= i <= SLOTS,
                    self@.sized(),
                    self.player_one_turn,
                    forall|j: int| 1 <= j < i ==> self@.board[j] == 0,
                decreases SLOTS - i,
            {
                if self.game_board[i] != 0 {
                    proof {
                        assert(self@.board[i as int] != 0);
                    }
                    return false;
                }
                i = i + 1;
            }
            true
        } else {
            let mut i: usize = SLOTS + 1;
            while i < BOARD_LENGTH
                invariant
                    SLOTS + 1 <= i <= BOARD_LENGTH,
                    self@.sized(),
                    !self.player_one_turn,
                    forall|j: int| (SLOTS as int) < j < i ==> self@.board[j] == 0,
                decreases BOARD_LENGTH - i,
            {
                if self.game_board[i] != 0 {
                    proof {
                        assert(self@.board[i as int] != 0);
                    }
                    return false;
                }
                i = i + 1;
            }
            true
        }
    }

    /// The turn-holder's store and the opponent's store, in that order.
    pub fn get_players_goal_slots(&self) -> (r: (usize, usize))
        ensures
            r.0 as int == self@.own_goal(),
            r.1 as int == self@.opp_goal(),
    {
        if self.player_one_turn {
            (self.player_one_goal_slot, self.player_two_goal_slot)
        } else {
            (self.player_two_goal_slot, self.player_one_goal_slot)
        }
    }

    /// Adds captured stones to the turn-holder's store.
    pub fn add_capture_points(&mut self, points_to_add: u8)
        requires
            old(self)@.sized(),
            old(self)@.board[old(self)@.own_goal()] + points_to_add <= u8::MAX,
        ensures
            final(self)@ == (GameView {
                board: old(self)@.board.update(
                    old(self)@.own_goal(),
                    (old(self)@.board[old(self)@.own_goal()] + points_to_add) as u8,
                ),
                ..old(self)@
            }),
    {
        if self.player_one_turn {
            let goal = self.player_one_goal_slot;
            let current = self.game_board[goal];
            self.game_board[goal] = current + points_to_add;
        } else {
            let goal = self.player_two_goal_slot;
            let current = self.game_board[goal];
            self.game_board[goal] = current + points_to_add;
        }
    }

    /// "capturing" function: if the mover's last stone lands alone in one
    /// of their own pits and the opposite pit holds stones, both pits are
    /// emptied into the mover's store.
    pub fn capture(&mut self, cur_slot: usize) -> (captured: bool)
        requires
            old(self)@.well_formed(),
            1 <= cur_slot < BOARD_LENGTH,
            cur_slot != SLOTS,
        ensures
            final(self)@ == (GameView {
                board: spec_capture(
                    old(self)@.board,
                    cur_slot as int,
                    old(self)@.player_one_turn,
                    old(self)@.own_goal(),
                ).0,
                ..old(self)@
            }),
            captured == spec_capture(
                old(self)@.board,
                cur_slot as int,
                old(self)@.player_one_turn,
                old(self)@.own_goal(),
            ).1,
            final(self)@.well_formed(),
            board_sum(final(self)@.board) == board_sum(old(self)@.board),
    {
        proof {
            lemma_capture_sum(
                self@.board,
                cur_slot as int,
                self@.player_one_turn,
                self@.own_goal(),
            );
        }
        if self.game_board[cur_slot] != 1 {
            return false;
        }
        let mut opposite: usize = 0;
        if self.player_one_turn && cur_slot < SLOTS {
            opposite = SLOTS + (SLOTS - cur_slot);
        } else if !self.player_one_turn && cur_slot > SLOTS {
            opposite = SLOTS - (cur_slot - SLOTS);
        }
        if self.game_board[opposite] == 0 || opposite == 0 {
            return false;
        }
        let ghost b = self@.board;
        let ghost own = self@.own_goal();
        proof {
            lemma_sum_update(b, cur_slot as int, 0);
            lemma_elem_le_sum(b.update(cur_slot as int, 0), opposite as int);
            lemma_sum_update(b.update(cur_slot as int, 0), opposite as int, 0);
            lemma_elem_le_sum(b.update(cur_slot as int, 0).update(opposite as int, 0), own);
        }
        let points = self.game_board[opposite] + 1;
        self.add_capture_points(points);
        self.game_board[cur_slot] = 0;
        self.game_board[opposite] = 0;
        true
    }

    /// The sowing slot after `cur`: one step around the board, skipping the
    /// opponent's store.
    fn next_sowing_slot(cur: usize, opp_goal: usize) -> (r: usize)
        requires
            cur < BOARD_LENGTH,
            opp_goal < BOARD_LENGTH,
        ensures
            r as int == next_slot(cur as int, opp_goal as int),
            r < BOARD_LENGTH,
            r != opp_goal,
    {
        let n = (cur + 1) % BOARD_LENGTH;
        if n == opp_goal {
            (n + 1) % BOARD_LENGTH
        } else {
            n
        }
    }

    /// Makes a move from `slot_to_move`: a no-op on a finished game,
    /// otherwise exactly `spec_make_move`.  The total number of stones on
    /// the board never changes.
    pub fn make_move(&mut self, slot_to_move: usize)
        requires
            old(self)@.well_formed(),
            old(self)@.game_over || old(self)@.valid_move(slot_to_move as int),
        ensures
            final(self)@ == spec_make_move(old(self)@, slot_to_move as int),
            final(self)@.well_formed(),
            board_sum(final(self)@.board) == board_sum(old(self)@.board),
    {
        if self.game_over {
            return;
        }
        let ghost v0 = self@;
        let num_of_stones: u8 = self.game_board[slot_to_move];
        let goal_slots = self.get_players_goal_slots();
        self.game_board[slot_to_move] = 0;
        let ghost b0 = v0.board.update(slot_to_move as int, 0);
        proof {
            lemma_sum_update(v0.board, slot_to_move as int, 0);
            lemma_sow_sum(
                b0,
                next_slot(slot_to_move as int, v0.opp_goal()),
                num_of_stones as nat,
                v0.opp_goal(),
            );
        }
        let ghost target = sow_at(
            b0,
            next_slot(slot_to_move as int, v0.opp_goal()),
            num_of_stones as nat,
            v0.opp_goal(),
        );
        let mut num: u8 = num_of_stones;
        let mut cur: usize = Self::next_sowing_slot(slot_to_move, goal_slots.1);
        loop
            invariant_except_break
                1 <= num <= num_of_stones,
                cur < BOARD_LENGTH,
                cur != goal_slots.1,
                goal_slots.1 < BOARD_LENGTH,
                goal_slots.1 as int == v0.opp_goal(),
                self.game_board@.len() == BOARD_LENGTH,
                board_sum(self.game_board@) == board_sum(v0.board) - num,
                board_sum(v0.board) <= u8::MAX,
                sow_at(self.game_board@, cur as int, num as nat, v0.opp_goal()) == target,
                self.player_one == old(self).player_one,
                self.player_two == old(self).player_two,
                self.game_name == old(self).game_name,
                self.game_id == old(self).game_id,
                self.player_one_goal_slot == old(self).player_one_goal_slot,
                self.player_two_goal_slot == old(self).player_two_goal_slot,
                self.player_one_turn == old(self).player_one_turn,
                self.active == old(self).active,
                self.game_over == old(self).game_over,
            ensures
                self.game_board@ == target.0,
                cur as int == target.1,
                board_sum(self.game_board@) == board_sum(v0.board),
                self.player_one == old(self).player_one,
                self.player_two == old(self).player_two,
                self.game_name == old(self).game_name,
                self.game_id == old(self).game_id,
                self.player_one_goal_slot == old(self).player_one_goal_slot,
                self.player_two_goal_slot == old(self).player_two_goal_slot,
                self.player_one_turn == old(self).player_one_turn,
                self.active == old(self).active,
                self.game_over == old(self).game_over,
            decreases num,
        {
            proof {
                lemma_elem_le_sum(self.game_board@, cur as int);
            }
            let ghost before = self.game_board@;
            let ghost num_before = num;
            let placed = self.game_board[cur];
            self.game_board[cur] = placed + 1;
            num = num - 1;
            proof {
                lemma_sum_update(before, cur as int, (placed + 1) as u8);
                assert(sow_at(before, cur as int, num_before as nat, v0.opp_goal()) == (
                if num_before == 1 {
                    (self.game_board@, cur as int)
                } else {
                    sow_at(
                        self.game_board@,
                        next_slot(cur as int, v0.opp_goal()),
                        (num_before - 1) as nat,
                        v0.opp_goal(),
                    )
                }));
            }
            if num == 0 {
                break;
            }
            cur = Self::next_sowing_slot(cur, goal_slots.1);
        }
        proof {
            assert(self.game_board@ == spec_sowed_board(v0, slot_to_move as int));
            assert(cur as int == spec_landed(v0, slot_to_move as int));
        }
        if cur != goal_slots.0 {
            let captured = self.capture(cur);
            if !captured {
                self.player_one_turn = !self.player_one_turn;
            }
        }
        let ghost moved = GameView {
            board: if spec_landed(v0, slot_to_move as int) != v0.own_goal() {
                spec_capture(
                    spec_sowed_board(v0, slot_to_move as int),
                    spec_landed(v0, slot_to_move as int),
                    v0.player_one_turn,
                    v0.own_goal(),
                ).0
            } else {
                spec_sowed_board(v0, slot_to_move as int)
            },
            player_one_turn: if spec_keeps_turn(v0, slot_to_move as int) {
                v0.player_one_turn
            } else {
                !v0.player_one_turn
            },
            ..v0
        };
        proof {
            assert(self@ =~= moved);
        }
        if self.is_game_over() {
            self.game_over = true;
            self.collect_remaining_stones();
            self.active = false;
        }
        proof {
            assert(self@ =~= spec_make_move(v0, slot_to_move as int));
        }
    }

    /// A copy of the board.
    pub fn get_board(&self) -> (r: Vec<u8>)
        ensures
            r@ == self@.board,
    {
        let r = self.game_board.clone();
        proof {
            assert(r@ =~= self.game_board@);
        }
        r
    }

    /// Marks the game finished; no further moves change it.
    pub fn set_game_over(&mut self)
        ensures
            final(self)@ == (GameView { game_over: true, ..old(self)@ }),
    {
        self.game_over = true;
    }

    /// Stones in player one's store.
    pub fn get_player_one_score(&self) -> (r: u8)
        requires
            self@.player_one_goal_slot < self@.board.len(),
        ensures
            r == self@.board[self@.player_one_goal_slot],
    {
        self.game_board[self.player_one_goal_slot]
    }

    /// Stones in player two's store.
    pub fn get_player_two_score(&self) -> (r: u8)
        requires
            0 <= self@.player_two_goal_slot < self@.board.len(),
        ensures
            r == self@.board[self@.player_two_goal_slot],
    {
        self.game_board[self.player_two_goal_slot]
    }
}

/// The stones in any stretch of the board are at most the whole board's.
pub proof fn lemma_subrange_sum_le(s: Seq<u8>, a: int, b: int)
    requires
        0 <= a <= b <= s.len(),
    ensures
        0 <= board_sum(s.subrange(a, b)) <= board_sum(s),
{
    lemma_sum_nonneg(s.subrange(a, b));
    lemma_sum_nonneg(s.subrange(0, a));
    lemma_sum_nonneg(s.subrange(b, s.len() as int));
    lemma_sum_concat(s.subrange(0, a), s.subrange(a, b));
    lemma_sum_concat(s.subrange(0, a) + s.subrange(a, b), s.subrange(b, s.len() as int));
    assert(s =~= (s.subrange(0, a) + s.subrange(a, b)) + s.subrange(b, s.len() as int));
}

} // verus!
