//! The game engine: win and draw detection over the board store, and the
//! exhaustive adversarial search that returns the optimal next move.
//!
//! The mathematical model is a sequence of nine cell values (0 empty,
//! 1 the minimizing player, 2 the maximizing player). `game_value` is the
//! game-theoretic score of a position under optimal play: +1 if the
//! maximizing player wins, -1 if the minimizing player wins, 0 on a draw,
//! and otherwise the max (or min) over all moves in the empty cells.

use vstd::prelude::*;
use crate::board::Board;

verus! {

broadcast use crate::board::lemma_view_len;

/// The given player occupies all three cells of one line.
pub open spec fn won_line(b: Seq<u8>, player: u8, i: int, j: int, k: int) -> bool {
    b[i] == player && b[j] == player && b[k] == player
}

/// The player owns at least one of the 8 fixed winning triples:
/// three rows, three columns, two diagonals.
pub open spec fn spec_winner(b: Seq<u8>, player: u8) -> bool {
    ||| won_line(b, player, 0, 1, 2)
    ||| won_line(b, player, 3, 4, 5)
    ||| won_line(b, player, 6, 7, 8)
    ||| won_line(b, player, 0, 3, 6)
    ||| won_line(b, player, 1, 4, 7)
    ||| won_line(b, player, 2, 5, 8)
    ||| won_line(b, player, 0, 4, 8)
    ||| won_line(b, player, 2, 4, 6)
}

/// Every cell is occupied.
pub open spec fn board_full(b: Seq<u8>) -> bool {
    forall|i: int| 0 <= i < 9 ==> b[i] != 0
}

/// The game is drawn: the board is full and neither player has won.
pub open spec fn spec_draw(b: Seq<u8>) -> bool {
    board_full(b) && !spec_winner(b, 1) && !spec_winner(b, 2)
}

/// How many of the cells `i..9` are empty.
pub open spec fn empties_from(b: Seq<u8>, i: int) -> nat
    decreases 9 - i,
{
    if i < 0 || i >= 9 {
        0
    } else {
        (if b[i] == 0 {
            1nat
        } else {
            0nat
        }) + empties_from(b, i + 1)
    }
}

/// How many cells of the board are empty.
pub open spec fn count_empty(b: Seq<u8>) -> nat {
    empties_from(b, 0)
}

proof fn lemma_empties_from_update(b: Seq<u8>, k: int, i: int, state: u8)
    requires
        b.len() == 9,
        0 <= k <= 9,
        0 <= i < 9,
        b[i] == 0,
        state != 0,
    ensures
        k <= i ==> empties_from(b.update(i, state), k) as int == empties_from(b, k) as int - 1,
        k > i ==> empties_from(b.update(i, state), k) == empties_from(b, k),
    decreases 9 - k,
{
    if k < 9 {
        lemma_empties_from_update(b, k + 1, i, state);
    }
}

/// Occupying an empty cell lowers the number of empty cells by exactly one.
pub proof fn lemma_count_empty_update(b: Seq<u8>, i: int, state: u8)
    requires
        b.len() == 9,
        0 <= i < 9,
        b[i] == 0,
        state != 0,
    ensures
        count_empty(b.update(i, state)) as int == count_empty(b) as int - 1,
{
    lemma_empties_from_update(b, 0, i, state);
}

proof fn lemma_empties_from_le(b: Seq<u8>, k: int)
    requires
        0 <= k <= 9,
    ensures
        empties_from(b, k) <= 9 - k,
    decreases 9 - k,
{
    if k < 9 {
        lemma_empties_from_le(b, k + 1);
    }
}

/// A board never has more than nine empty cells.
pub proof fn lemma_count_empty_le(b: Seq<u8>)
    ensures
        count_empty(b) <= 9,
{
    lemma_empties_from_le(b, 0);
}

proof fn lemma_empties_from_at_least(b: Seq<u8>, k: int, i: int)
    requires
        0 <= k <= i < 9,
        b[i] == 0,
    ensures
        empties_from(b, k) >= 1,
    decreases i - k,
{
    if k < i {
        lemma_empties_from_at_least(b, k + 1, i);
    }
}

/// A board with an empty cell has a positive empty-cell count.
pub proof fn lemma_count_empty_at_least_one(b: Seq<u8>, i: int)
    requires
        0 <= i < 9,
        b[i] == 0,
    ensures
        count_empty(b) >= 1,
{
    lemma_empties_from_at_least(b, 0, i);
}

/// The mark the player to move places: 2 when maximizing, 1 when minimizing.
pub open spec fn mover_mark(maximizing: bool) -> u8 {
    if maximizing {
        2u8
    } else {
        1u8
    }
}

/// The minimax score of a position, for the player given by `maximizing`.
/// Terminal positions score +1 / -1 / 0; elsewhere the score is the best
/// score over all moves in empty cells, scanned in ascending index order.
pub open spec fn game_value(b: Seq<u8>, maximizing: bool) -> int
    decreases count_empty(b), 10int,
    when b.len() == 9
{
    if spec_winner(b, 2) {
        1
    } else if spec_winner(b, 1) {
        -1
    } else if spec_draw(b) {
        0
    } else if maximizing {
        scan_value(b, true, 0, -100)
    } else {
        scan_value(b, false, 0, 100)
    }
}

/// The best score reachable by moving in one of the empty cells `i..9`,
/// folded over a running best `acc` (max when maximizing, min otherwise).
pub open spec fn scan_value(b: Seq<u8>, maximizing: bool, i: int, acc: int) -> int
    decreases count_empty(b), 9 - i,
    when b.len() == 9 && 0 <= i
{
    if i >= 9 {
        acc
    } else if b[i] == 0 {
        proof {
            lemma_count_empty_update(b, i, mover_mark(maximizing));
        }
        let s: int = game_value(b.update(i, mover_mark(maximizing)), !maximizing);
        let best: int = if maximizing {
            if s > acc {
                s
            } else {
                acc
            }
        } else {
            if s < acc {
                s
            } else {
                acc
            }
        };
        scan_value(b, maximizing, i + 1, best)
    } else {
        scan_value(b, maximizing, i + 1, acc)
    }
}

/// The move-selection scan: keeps the first cell whose score strictly
/// beats the best seen so far, over the empty cells `i..9`.
pub open spec fn best_move_scan(b: Seq<u8>, i: int, best: int, best_score: int) -> int
    decreases 9 - i,
    when b.len() == 9 && 0 <= i
{
    if i >= 9 {
        best
    } else if b[i] == 0 {
        let s: int = game_value(b.update(i, 2u8), false);
        if s > best_score {
            best_move_scan(b, i + 1, i, s)
        } else {
            best_move_scan(b, i + 1, best, best_score)
        }
    } else {
        best_move_scan(b, i + 1, best, best_score)
    }
}

/// The move the maximizing player should make: the first empty cell whose
/// score strictly beats every earlier empty cell's score.
pub open spec fn spec_best_move(b: Seq<u8>) -> int {
    best_move_scan(b, 0, 0, -100)
}

fn owns_triple(board: &Board, player: u8, a: usize, b: usize, c: usize) -> (r: bool)
    requires
        a < 9,
        b < 9,
        c < 9,
    ensures
        r == won_line(board@, player, a as int, b as int, c as int),
{
    board.get_state(a) == player && board.get_state(b) == player && board.get_state(c) == player
}

/// True iff `player` occupies all three cells of one of the 8 winning triples.
pub fn is_winner(board: &Board, player: u8) -> (r: bool)
    ensures
        r == spec_winner(board@, player),
{
    owns_triple(board, player, 0, 1, 2)
        || owns_triple(board, player, 3, 4, 5)
        || owns_triple(board, player, 6, 7, 8)
        || owns_triple(board, player, 0, 3, 6)
        || owns_triple(board, player, 1, 4, 7)
        || owns_triple(board, player, 2, 5, 8)
        || owns_triple(board, player, 0, 4, 8)
        || owns_triple(board, player, 2, 4, 6)
}

/// True iff the board is full and neither player has won.
pub fn is_draw(board: &Board) -> (r: bool)
    ensures
        r == spec_draw(board@),
{
    let mut i: usize = 0;
    let mut full: bool = true;
    while i < 9
        invariant
            i <= 9,
            full == (forall|j: int| 0 <= j < i ==> board@[j] != 0),
        decreases 9 - i,
    {
        if board.get_state(i) == 0 {
            full = false;
        }
        i = i + 1;
    }
    full && !is_winner(board, 1) && !is_winner(board, 2)
}

/// Full-depth minimax evaluation. Speculative moves are applied and then
/// undone, so the board is restored before returning; the result is the
/// exact game-theoretic score of the position for the player to move.
#[verifier::loop_isolation(false)]
pub fn minimax(board: &mut Board, depth: i32, is_maximizing: bool) -> (score: i32)
    requires
        depth as int + count_empty(old(board)@) as int <= i32::MAX as int,
    ensures
        final(board)@ == old(board)@,
        score as int == game_value(old(board)@, is_maximizing),
    decreases count_empty(board@),
{
    let ghost b0 = board@;
    if is_winner(board, 2) {
        return 1;
    }
    if is_winner(board, 1) {
        return -1;
    }
    if is_draw(board) {
        return 0;
    }
    if is_maximizing {
        let mut best_score: i32 = -100;
        let mut i: usize = 0;
        while i < 9
            invariant
                i <= 9,
                board@ == b0,
                b0.len() == 9,
                !spec_winner(b0, 2),
                !spec_winner(b0, 1),
                !spec_draw(b0),
                scan_value(b0, true, i as int, best_score as int) == scan_value(b0, true, 0, -100),
            decreases 9 - i,
        {
            if board.get_state(i) == 0 {
                proof {
                    lemma_count_empty_update(b0, i as int, 2u8);
                    lemma_count_empty_at_least_one(b0, i as int);
                }
                board.set_state(i, 2);
                let score = minimax(board, depth + 1, false);
                board.set_state(i, 0);
                proof {
                    assert(board@ =~= b0);
                }
                if score > best_score {
                    best_score = score;
                }
            }
            i = i + 1;
        }
        best_score
    } else {
        let mut best_score: i32 = 100;
        let mut i: usize = 0;
        while i < 9
            invariant
                i <= 9,
                board@ == b0,
                b0.len() == 9,
                !spec_winner(b0, 2),
                !spec_winner(b0, 1),
                !spec_draw(b0),
                scan_value(b0, false, i as int, best_score as int) == scan_value(b0, false, 0, 100),
            decreases 9 - i,
        {
            if board.get_state(i) == 0 {
                proof {
                    lemma_count_empty_update(b0, i as int, 1u8);
                    lemma_count_empty_at_least_one(b0, i as int);
                }
                board.set_state(i, 1);
                let score = minimax(board, depth + 1, true);
                board.set_state(i, 0);
                proof {
                    assert(board@ =~= b0);
                }
                if score < best_score {
                    best_score = score;
                }
            }
            i = i + 1;
        }
        best_score
    }
}

/// The optimal move for the maximizing player: scans the empty cells in
/// ascending index order and keeps the first cell achieving the strict
/// maximum score. The board is restored before returning.
pub fn find_best_move(board: &mut Board) -> (best: usize)
    requires
        exists|i: int| 0 <= i < 9 && old(board)@[i] == 0,
    ensures
        final(board)@ == old(board)@,
        best as int == spec_best_move(old(board)@),
        best < 9,
        old(board)@[best as int] == 0,
{
    let ghost b0 = board@;
    let mut best_move: usize = 0;
    let mut best_score: i32 = -100;
    let mut i: usize = 0;
    while i < 9
        invariant
            i <= 9,
            best_move < 9,
            board@ == b0,
            b0.len() == 9,
            best_move_scan(b0, i as int, best_move as int, best_score as int) == spec_best_move(
                b0,
            ),
        decreases 9 - i,
    {
        if board.get_state(i) == 0 {
            proof {
                lemma_count_empty_le(b0.update(i as int, 2u8));
            }
            board.set_state(i, 2);
            let score = minimax(board, 0, false);
            board.set_state(i, 0);
            proof {
                assert(board@ =~= b0);
            }
            if score > best_score {
                best_score = score;
                best_move = i;
            }
        }
        i = i + 1;
    }
    proof {
        crate::laws::lemma_best_move_optimal(b0);
    }
    best_move
}

} // verus!
