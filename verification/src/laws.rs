//! Proved properties of the game engine: the minimax score is bounded,
//! the selected move is optimal among all moves, a move that completes a
//! winning triple is never passed over, an unanswered immediate threat is
//! blocked, and a drawn board excludes a won one.

use vstd::prelude::*;
use crate::engine::{
    board_full, best_move_scan, count_empty, game_value, lemma_count_empty_update, mover_mark,
    scan_value, spec_best_move, spec_draw, spec_winner,
};

verus! {

/// A draw is exactly a full board that neither player has won, so a board
/// on which either player has won is never a draw.
pub proof fn lemma_draw_excludes_win(b: Seq<u8>)
    ensures
        spec_draw(b) <==> (board_full(b) && !spec_winner(b, 1) && !spec_winner(b, 2)),
        spec_winner(b, 1) || spec_winner(b, 2) ==> !spec_draw(b),
{
}

/// Every position's minimax score lies between -1 and +1.
pub proof fn lemma_game_value_bounds(b: Seq<u8>, maximizing: bool)
    requires
        b.len() == 9,
    ensures
        -1 <= game_value(b, maximizing) <= 1,
    decreases count_empty(b), 10int,
{
    if !spec_winner(b, 2) && !spec_winner(b, 1) && !spec_draw(b) {
        if maximizing {
            lemma_scan_value_bounds(b, true, 0, -100);
        } else {
            lemma_scan_value_bounds(b, false, 0, 100);
        }
    }
}

/// The scan never worsens its running best; every move it folds in scores
/// between -1 and +1, and it folds in at least one when an empty cell remains.
proof fn lemma_scan_value_bounds(b: Seq<u8>, maximizing: bool, i: int, acc: int)
    requires
        b.len() == 9,
        0 <= i <= 9,
        maximizing ==> acc <= 1,
        !maximizing ==> acc >= -1,
    ensures
        maximizing ==> acc <= scan_value(b, true, i, acc) <= 1,
        !maximizing ==> -1 <= scan_value(b, false, i, acc) <= acc,
        (exists|j: int| i <= j < 9 && b[j] == 0) ==> -1 <= scan_value(b, maximizing, i, acc) <= 1,
    decreases count_empty(b), 9 - i,
{
    if i < 9 {
        if b[i] == 0 {
            lemma_count_empty_update(b, i, mover_mark(maximizing));
            let bu = b.update(i, mover_mark(maximizing));
            lemma_game_value_bounds(bu, !maximizing);
            let s: int = game_value(bu, !maximizing);
            let acc2: int = if maximizing {
                if s > acc {
                    s
                } else {
                    acc
                }
            } else {
                if s < acc {
                    s
                } else {
                    acc
                }
            };
            lemma_scan_value_bounds(b, maximizing, i + 1, acc2);
        } else {
            lemma_scan_value_bounds(b, maximizing, i + 1, acc);
        }
    }
}

/// The minimizing player's score is at most the score of any single reply
/// available in an empty cell: the minimum never exceeds one of its options.
pub proof fn lemma_min_value_le_child(b: Seq<u8>, j: int)
    requires
        b.len() == 9,
        0 <= j < 9,
        b[j] == 0,
        !spec_winner(b, 1),
        !spec_winner(b, 2),
        !spec_draw(b),
    ensures
        game_value(b, false) <= game_value(b.update(j, 1), true),
{
    lemma_scan_value_le_child(b, 0, 100, j);
}

proof fn lemma_scan_value_le_child(b: Seq<u8>, i: int, acc: int, j: int)
    requires
        b.len() == 9,
        0 <= i <= j < 9,
        b[j] == 0,
        acc >= -1,
    ensures
        scan_value(b, false, i, acc) <= game_value(b.update(j, 1), true),
    decreases j - i,
{
    if b[i] == 0 {
        let bu = b.update(i, 1u8);
        lemma_game_value_bounds(bu, true);
        let s: int = game_value(bu, true);
        let acc2: int = if s < acc {
            s
        } else {
            acc
        };
        if i == j {
            lemma_scan_value_bounds(b, false, i + 1, acc2);
        } else {
            lemma_scan_value_le_child(b, i + 1, acc2, j);
        }
    } else {
        lemma_scan_value_le_child(b, i + 1, acc, j);
    }
}

/// The move-selection scan returns an empty cell whose score is at least
/// the score of every empty cell, given that its accumulator faithfully
/// summarises the cells already scanned.
proof fn lemma_best_move_scan_props(b: Seq<u8>, i: int, best: int, best_score: int)
    requires
        b.len() == 9,
        0 <= i <= 9,
        0 <= best < 9,
        best_score == -100 || (b[best] == 0 && best_score == game_value(b.update(best, 2), false)),
        best_score == -100 ==> forall|k: int| 0 <= k < i ==> b[k] != 0,
        forall|k: int| 0 <= k < i && b[k] == 0 ==> game_value(b.update(k, 2), false) <= best_score,
    ensures
        0 <= best_move_scan(b, i, best, best_score) < 9,
        (exists|k: int| 0 <= k < 9 && b[k] == 0) ==> b[best_move_scan(b, i, best, best_score)]
            == 0,
        (exists|k: int| 0 <= k < 9 && b[k] == 0) ==> forall|k: int|
            0 <= k < 9 && b[k] == 0 ==> game_value(b.update(k, 2), false) <= game_value(
                b.update(best_move_scan(b, i, best, best_score), 2),
                false,
            ),
    decreases 9 - i,
{
    if i < 9 {
        if b[i] == 0 {
            let s: int = game_value(b.update(i, 2u8), false);
            lemma_game_value_bounds(b.update(i, 2u8), false);
            if s > best_score {
                lemma_best_move_scan_props(b, i + 1, i, s);
            } else {
                lemma_best_move_scan_props(b, i + 1, best, best_score);
            }
        } else {
            lemma_best_move_scan_props(b, i + 1, best, best_score);
        }
    }
}

/// The selected move is optimal: it names an empty cell, and no move in any
/// empty cell scores strictly better for the maximizing player.
pub proof fn lemma_best_move_optimal(b: Seq<u8>)
    requires
        b.len() == 9,
        exists|k: int| 0 <= k < 9 && b[k] == 0,
    ensures
        0 <= spec_best_move(b) < 9,
        b[spec_best_move(b)] == 0,
        forall|k: int| 0 <= k < 9 && b[k] == 0 ==> game_value(b.update(k, 2), false) <= game_value(
            b.update(spec_best_move(b), 2),
            false,
        ),
{
    lemma_best_move_scan_props(b, 0, 0, -100);
}

/// When one empty cell scores strictly better than every other empty cell,
/// the scan settles on exactly that cell.
proof fn lemma_best_move_scan_strict(b: Seq<u8>, i: int, best: int, best_score: int, j: int)
    requires
        b.len() == 9,
        0 <= i <= 9,
        0 <= j < 9,
        b[j] == 0,
        forall|k: int| 0 <= k < 9 && b[k] == 0 && k != j ==> game_value(b.update(k, 2), false)
            < game_value(b.update(j, 2), false),
        i <= j ==> best_score < game_value(b.update(j, 2), false),
        j < i ==> best == j && best_score == game_value(b.update(j, 2), false),
    ensures
        best_move_scan(b, i, best, best_score) == j,
    decreases 9 - i,
{
    if i < 9 {
        if b[i] == 0 {
            let s: int = game_value(b.update(i, 2u8), false);
            if i == j {
                lemma_best_move_scan_strict(b, i + 1, j, s, j);
            } else if s > best_score {
                lemma_best_move_scan_strict(b, i + 1, i, s, j);
            } else {
                lemma_best_move_scan_strict(b, i + 1, best, best_score, j);
            }
        } else {
            lemma_best_move_scan_strict(b, i + 1, best, best_score, j);
        }
    }
}

/// A move that completes a winning triple for the maximizing player is worth
/// the maximal score, so the selected move is also worth that score: the
/// engine never passes over an immediate win.
pub proof fn lemma_best_move_secures_win(b: Seq<u8>, w: int)
    requires
        b.len() == 9,
        0 <= w < 9,
        b[w] == 0,
        spec_winner(b.update(w, 2), 2),
    ensures
        0 <= spec_best_move(b) < 9,
        b[spec_best_move(b)] == 0,
        game_value(b.update(spec_best_move(b), 2), false) == 1,
{
    lemma_best_move_optimal(b);
    let r = spec_best_move(b);
    assert(game_value(b.update(w, 2), false) == 1);
    lemma_game_value_bounds(b.update(r, 2), false);
}

/// A winning triple of one player survives any write that only touches
/// cells the player does not hold.
pub proof fn lemma_winner_monotone(b1: Seq<u8>, b2: Seq<u8>, player: u8)
    requires
        spec_winner(b1, player),
        forall|x: int| 0 <= x < 9 && b1[x] == player ==> b2[x] == player,
    ensures
        spec_winner(b2, player),
{
}

/// When the minimizing player threatens to win at `j`, the maximizing player
/// has no immediate win of its own, and blocking at `j` does not lose, the
/// engine selects exactly the blocking cell: every other move loses.
pub proof fn lemma_best_move_blocks(b: Seq<u8>, j: int)
    requires
        b.len() == 9,
        0 <= j < 9,
        b[j] == 0,
        spec_winner(b.update(j, 1), 1),
        forall|i: int| 0 <= i < 9 && b[i] == 0 ==> !spec_winner(b.update(i, 2), 2),
        game_value(b.update(j, 2), false) >= 0,
    ensures
        spec_best_move(b) == j,
{
    assert forall|i: int| 0 <= i < 9 && b[i] == 0 && i != j implies game_value(b.update(i, 2), false)
        < game_value(b.update(j, 2), false) by {
        let bp = b.update(i, 2u8);
        if !spec_winner(bp, 1) {
            let bpp = bp.update(j, 1u8);
            lemma_winner_monotone(b.update(j, 1u8), bpp, 1);
            if spec_winner(bpp, 2) {
                lemma_winner_monotone(bpp, bp, 2);
            }
            assert(game_value(bpp, true) == -1);
            assert(!spec_draw(bp));
            lemma_min_value_le_child(bp, j);
            lemma_game_value_bounds(bp, false);
        }
        assert(game_value(bp, false) == -1);
    }
    lemma_game_value_bounds(b.update(j, 2u8), false);
    lemma_best_move_scan_strict(b, 0, 0, -100, j);
}

} // verus!

