//! Mathematical model of the Mancala board and of a single move.
//!
//! A board is a sequence of 14 stone counts.  The functions here define, at
//! the specification level, exactly what sowing, capturing and the
//! end-of-game collection do to a board; the executable engine is proved to
//! match them.

use vstd::prelude::*;
use crate::constants::{BOARD_LENGTH, SLOTS};

verus! {

/// Total number of stones on a board.
pub open spec fn board_sum(s: Seq<u8>) -> int
    decreases s.len(),
{
    if s.len() == 0 {
        0
    } else {
        board_sum(s.drop_last()) + s.last()
    }
}

pub proof fn lemma_sum_nonneg(s: Seq<u8>)
    ensures
        board_sum(s) >= 0,
    decreases s.len(),
{
    if s.len() > 0 {
        lemma_sum_nonneg(s.drop_last());
    }
}

/// Replacing one slot changes the total by the difference at that slot.
pub proof fn lemma_sum_update(s: Seq<u8>, i: int, v: u8)
    requires
        0 <= i < s.len(),
    ensures
        board_sum(s.update(i, v)) == board_sum(s) - s[i] + v,
    decreases s.len(),
{
    if i == s.len() - 1 {
        assert(s.update(i, v).drop_last() =~= s.drop_last());
    } else {
        lemma_sum_update(s.drop_last(), i, v);
        assert(s.update(i, v).drop_last() =~= s.drop_last().update(i, v));
        assert(s.update(i, v).last() == s.last());
    }
}

/// No slot holds more stones than the whole board.
pub proof fn lemma_elem_le_sum(s: Seq<u8>, i: int)
    requires
        0 <= i < s.len(),
    ensures
        s[i] <= board_sum(s),
    decreases s.len(),
{
    if i == s.len() - 1 {
        lemma_sum_nonneg(s.drop_last());
    } else {
        lemma_elem_le_sum(s.drop_last(), i);
    }
}

pub proof fn lemma_sum_concat(a: Seq<u8>, b: Seq<u8>)
    ensures
        board_sum(a + b) == board_sum(a) + board_sum(b),
    decreases b.len(),
{
    if b.len() == 0 {
        assert(a + b =~= a);
    } else {
        lemma_sum_concat(a, b.drop_last());
        assert((a + b).drop_last() =~= a + b.drop_last());
        assert((a + b).last() == b.last());
    }
}

pub proof fn lemma_sum_const(s: Seq<u8>, v: u8)
    requires
        forall|i: int| 0 <= i < s.len() ==> s[i] == v,
    ensures
        board_sum(s) == s.len() * v,
    decreases s.len(),
{
    if s.len() > 0 {
        lemma_sum_const(s.drop_last(), v);
        assert((s.len() - 1) * v + v == s.len() * v) by (nonlinear_arith);
    }
}

/// A full board splits into player two's store, player one's pits, player
/// one's store and player two's pits.
pub proof fn lemma_sum_split(s: Seq<u8>)
    requires
        s.len() == BOARD_LENGTH,
    ensures
        board_sum(s) == s[0] + board_sum(s.subrange(1, SLOTS as int)) + s[SLOTS as int]
            + board_sum(s.subrange(SLOTS as int + 1, BOARD_LENGTH as int)),
{
    let a = s.subrange(0, 1);
    let b = s.subrange(1, SLOTS as int);
    let c = s.subrange(SLOTS as int, SLOTS as int + 1);
    let d = s.subrange(SLOTS as int + 1, BOARD_LENGTH as int);
    assert(s =~= a + b + c + d);
    lemma_sum_concat(a + b + c, d);
    lemma_sum_concat(a + b, c);
    lemma_sum_concat(a, b);
    assert(board_sum(a) == s[0]) by {
        assert(a.drop_last() =~= Seq::<u8>::empty());
        assert(board_sum(Seq::<u8>::empty()) == 0);
    }
    assert(board_sum(c) == s[SLOTS as int]) by {
        assert(c.drop_last() =~= Seq::<u8>::empty());
        assert(board_sum(Seq::<u8>::empty()) == 0);
    }
}

/// The slot after `cur` in sowing order: one step around the board,
/// skipping the opponent's store.
pub open spec fn next_slot(cur: int, opp_goal: int) -> int {
    let n = (cur + 1) % (BOARD_LENGTH as int);
    if n == opp_goal {
        (n + 1) % (BOARD_LENGTH as int)
    } else {
        n
    }
}

/// Drops `n` stones one by one, the first into `cur`, then onward in sowing
/// order.  Returns the board and the slot that received the last stone.
pub open spec fn sow_at(b: Seq<u8>, cur: int, n: nat, opp_goal: int) -> (Seq<u8>, int)
    decreases n,
{
    if n == 0 {
        (b, cur)
    } else {
        let b2 = b.update(cur, (b[cur] + 1) as u8);
        if n == 1 {
            (b2, cur)
        } else {
            sow_at(b2, next_slot(cur, opp_goal), (n - 1) as nat, opp_goal)
        }
    }
}

/// The slot opposite a pit, from the mover's point of view; 0 when the slot
/// is not one of the mover's own pits.
pub open spec fn opposite_slot(cur: int, player_one_turn: bool) -> int {
    if player_one_turn && cur < SLOTS as int {
        SLOTS as int + (SLOTS as int - cur)
    } else if !player_one_turn && cur > SLOTS as int {
        SLOTS as int - (cur - SLOTS as int)
    } else {
        0
    }
}

/// Whether a move whose last stone landed in `cur` captures, and the board
/// afterwards: the landed slot must hold exactly the one stone just sown,
/// the opposite slot must be one of the opponent's pits and non-empty; the
/// mover's store then receives both slots' stones.
pub open spec fn spec_capture(b: Seq<u8>, cur: int, player_one_turn: bool, own_goal: int) -> (
    Seq<u8>,
    bool,
) {
    let opp = opposite_slot(cur, player_one_turn);
    if b[cur] != 1 {
        (b, false)
    } else if b[opp] == 0 || opp == 0 {
        (b, false)
    } else {
        let gained = (b[opp] + 1) as u8;
        ((b.update(own_goal, (b[own_goal] + gained) as u8)).update(cur, 0).update(opp, 0), true)
    }
}

/// Sweeps every pit into its side's store; only the two stores keep stones.
pub open spec fn spec_collect(b: Seq<u8>) -> Seq<u8> {
    let one_side = board_sum(b.subrange(1, SLOTS as int));
    let two_side = board_sum(b.subrange(SLOTS as int + 1, BOARD_LENGTH as int));
    Seq::new(
        b.len(),
        |i: int|
            if i == 0 {
                (b[0] + two_side) as u8
            } else if i == SLOTS as int {
                (b[SLOTS as int] + one_side) as u8
            } else {
                0u8
            },
    )
}

/// Sowing `n` stones adds `n` to the board total.
pub proof fn lemma_sow_sum(b: Seq<u8>, cur: int, n: nat, opp_goal: int)
    requires
        b.len() == BOARD_LENGTH,
        0 <= cur < BOARD_LENGTH,
        0 <= opp_goal < BOARD_LENGTH,
        cur != opp_goal,
        board_sum(b) + n <= u8::MAX,
    ensures
        board_sum(sow_at(b, cur, n, opp_goal).0) == board_sum(b) + n,
        sow_at(b, cur, n, opp_goal).0.len() == BOARD_LENGTH,
        board_sum(b) <= board_sum(sow_at(b, cur, n, opp_goal).0),
        0 <= sow_at(b, cur, n, opp_goal).1 < BOARD_LENGTH,
        sow_at(b, cur, n, opp_goal).1 != opp_goal,
    decreases n,
{
    if n == 0 {
        lemma_sum_nonneg(b);
    } else {
        lemma_elem_le_sum(b, cur);
        lemma_sum_nonneg(b);
        let b2 = b.update(cur, (b[cur] + 1) as u8);
        lemma_sum_update(b, cur, (b[cur] + 1) as u8);
        if n > 1 {
            lemma_sow_sum(b2, next_slot(cur, opp_goal), (n - 1) as nat, opp_goal);
        }
    }
}

/// A capture moves stones between slots without changing the total.
pub proof fn lemma_capture_sum(b: Seq<u8>, cur: int, player_one_turn: bool, own_goal: int)
    requires
        b.len() == BOARD_LENGTH,
        1 <= cur < BOARD_LENGTH,
        cur != SLOTS as int,
        own_goal == 0 || own_goal == SLOTS as int,
        board_sum(b) <= u8::MAX,
    ensures
        board_sum(spec_capture(b, cur, player_one_turn, own_goal).0) == board_sum(b),
        spec_capture(b, cur, player_one_turn, own_goal).0.len() == BOARD_LENGTH,
{
    let opp = opposite_slot(cur, player_one_turn);
    let (b2, captured) = spec_capture(b, cur, player_one_turn, own_goal);
    if b[cur] == 1 && b[opp] != 0 && opp != 0 {
        assert(1 <= opp < BOARD_LENGTH);
        assert(opp != cur && opp != own_goal && cur != own_goal);
        lemma_elem_le_sum(b.update(cur, 0), opp);
        lemma_sum_update(b, cur, 0);
        let gained = (b[opp] + 1) as u8;
        assert(b[own_goal] + gained <= u8::MAX) by {
            lemma_sum_update(b.update(cur, 0), opp, 0);
            lemma_elem_le_sum(b.update(cur, 0).update(opp, 0), own_goal);
        }
        let c1 = b.update(own_goal, (b[own_goal] + gained) as u8);
        lemma_sum_update(b, own_goal, (b[own_goal] + gained) as u8);
        lemma_sum_update(c1, cur, 0);
        lemma_sum_update(c1.update(cur, 0), opp, 0);
    }
}

/// The end-of-game sweep relocates every stone into a store: the total is
/// unchanged and both stores together hold it all.
pub proof fn lemma_collect_sum(b: Seq<u8>)
    requires
        b.len() == BOARD_LENGTH,
        board_sum(b) <= u8::MAX,
    ensures
        board_sum(spec_collect(b)) == board_sum(b),
        spec_collect(b)[0] + spec_collect(b)[SLOTS as int] == board_sum(b),
{
    let c = spec_collect(b);
    lemma_sum_split(b);
    lemma_sum_split(c);
    lemma_sum_nonneg(b.subrange(1, SLOTS as int));
    lemma_sum_nonneg(b.subrange(SLOTS as int + 1, BOARD_LENGTH as int));
    assert(c.subrange(1, SLOTS as int) =~= Seq::new((SLOTS - 1) as nat, |i: int| 0u8));
    assert(c.subrange(SLOTS as int + 1, BOARD_LENGTH as int) =~= Seq::new(
        (SLOTS - 1) as nat,
        |i: int| 0u8,
    ));
    lemma_sum_const(Seq::new((SLOTS - 1) as nat, |i: int| 0u8), 0);
}

} // verus!
