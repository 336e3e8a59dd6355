use tic_tac_toe::board::Board;
use tic_tac_toe::engine::find_best_move;
use tic_tac_toe::engine::is_draw;
use tic_tac_toe::engine::is_winner;
use tic_tac_toe::engine::minimax;
use tic_tac_toe::interface::numpad_to_index;
use tic_tac_toe::interface::to_marker;

fn board_of(cells: [u8; 9]) -> Board {
    let mut b = Board::new();
    for i in 0..9 {
        b.set_state(i, cells[i]);
    }
    b
}

#[test]
fn new_board_is_empty() {
    let b = Board::new();
    for i in 0..9 {
        assert_eq!(b.get_state(i), 0);
    }
}

#[test]
fn set_get_round_trip_and_non_interference() {
    let mut b = Board::new();
    let states: [u8; 9] = [1, 2, 1, 2, 1, 2, 1, 2, 1];
    for i in 0..9 {
        b.set_state(i, states[i]);
    }
    for i in 0..9 {
        assert_eq!(b.get_state(i), states[i]);
    }
    // Overwriting one cell leaves every other cell untouched.
    b.set_state(4, 2);
    assert_eq!(b.get_state(4), 2);
    for i in 0..9 {
        if i != 4 {
            assert_eq!(b.get_state(i), states[i]);
        }
    }
    // Clearing a cell only clears that cell.
    b.set_state(0, 0);
    assert_eq!(b.get_state(0), 0);
    assert_eq!(b.get_state(1), states[1]);
    assert_eq!(b.get_state(8), states[8]);
}

#[test]
fn winner_detected_for_each_triple() {
    let triples: [[usize; 3]; 8] = [
        [0, 1, 2],
        [3, 4, 5],
        [6, 7, 8],
        [0, 3, 6],
        [1, 4, 7],
        [2, 5, 8],
        [0, 4, 8],
        [2, 4, 6],
    ];
    for t in triples.iter() {
        for player in [1u8, 2u8] {
            let mut b = Board::new();
            for &i in t.iter() {
                b.set_state(i, player);
            }
            assert!(is_winner(&b, player));
            assert!(!is_winner(&b, 3 - player));
        }
    }
}

#[test]
fn no_winner_without_a_full_triple() {
    // x o x / x o o / o x x : full, but no line belongs to one player.
    let b = board_of([1, 2, 1, 1, 2, 2, 2, 1, 1]);
    assert!(!is_winner(&b, 1));
    assert!(!is_winner(&b, 2));
}

#[test]
fn draw_iff_full_and_no_winner() {
    // Full with no winner: a draw.
    let drawn = board_of([1, 2, 1, 1, 2, 2, 2, 1, 1]);
    assert!(is_draw(&drawn));
    // Full with a winner: not a draw.
    let won = board_of([1, 1, 1, 2, 2, 1, 2, 1, 2]);
    assert!(is_winner(&won, 1));
    assert!(!is_draw(&won));
    // Not full: not a draw.
    let open = board_of([1, 2, 1, 1, 2, 2, 2, 1, 0]);
    assert!(!is_draw(&open));
    // Empty: not a draw.
    assert!(!is_draw(&Board::new()));
}

#[test]
fn minimax_empty_board_is_a_draw() {
    let mut b = Board::new();
    assert_eq!(minimax(&mut b, 0, true), 0);
    assert_eq!(minimax(&mut b, 0, false), 0);
    // The search restores the board.
    for i in 0..9 {
        assert_eq!(b.get_state(i), 0);
    }
}

#[test]
fn minimax_scores_terminal_positions() {
    // The computer (2) has won: +1 whoever is to move.
    let mut won = board_of([2, 2, 2, 1, 1, 0, 0, 0, 0]);
    assert_eq!(minimax(&mut won, 0, true), 1);
    assert_eq!(minimax(&mut won, 0, false), 1);
    // The opponent (1) has won: -1 whoever is to move.
    let mut lost = board_of([1, 1, 1, 2, 2, 0, 0, 0, 0]);
    assert_eq!(minimax(&mut lost, 0, true), -1);
    assert_eq!(minimax(&mut lost, 0, false), -1);
    // A drawn board: 0.
    let mut drawn = board_of([1, 2, 1, 1, 2, 2, 2, 1, 1]);
    assert_eq!(minimax(&mut drawn, 0, true), 0);
}

#[test]
fn search_restores_the_board() {
    let cells: [u8; 9] = [1, 1, 0, 0, 2, 0, 0, 0, 0];
    let mut b = board_of(cells);
    find_best_move(&mut b);
    for i in 0..9 {
        assert_eq!(b.get_state(i), cells[i]);
    }
    minimax(&mut b, 0, true);
    for i in 0..9 {
        assert_eq!(b.get_state(i), cells[i]);
    }
}

#[test]
fn best_move_completes_a_winning_triple() {
    // Computer holds 0 and 1; cell 2 completes the top row.
    let mut b = board_of([2, 2, 0, 1, 1, 0, 0, 0, 0]);
    assert_eq!(find_best_move(&mut b), 2);
    // Computer holds 4 and 8; cell 0, the first empty cell, completes the
    // diagonal.
    let mut b = board_of([0, 1, 0, 0, 2, 0, 0, 1, 2]);
    assert_eq!(find_best_move(&mut b), 0);
}

#[test]
fn best_move_blocks_an_immediate_threat() {
    // Opponent holds 0 and 1 and threatens cell 2; the computer holds only
    // the centre, so it has no immediate win and must block.
    let mut b = board_of([1, 1, 0, 0, 2, 0, 0, 0, 0]);
    assert_eq!(find_best_move(&mut b), 2);
}

#[test]
fn double_threat_is_past_blocking() {
    // Opponent holds 0, 6 and 8 and threatens both 3 and 7; every reply
    // loses, so the scan keeps the first empty cell instead of a block.
    let mut b = board_of([1, 0, 2, 0, 2, 0, 1, 0, 1]);
    assert_eq!(find_best_move(&mut b), 1);
}

#[test]
fn best_move_blocks_row_completion() {
    // Opponent at 0 and 1, everything else empty: the first reply is 2.
    let mut b = board_of([1, 1, 0, 0, 0, 0, 0, 0, 0]);
    assert_eq!(find_best_move(&mut b), 2);
}

#[test]
fn optimal_play_from_empty_board_always_draws() {
    let mut b = Board::new();
    let mut human_turn = true;
    loop {
        // Along optimal play, every position is worth a draw to the mover.
        assert_eq!(minimax(&mut b, 0, !human_turn), 0);
        if human_turn {
            // A scripted optimal opponent: the first empty cell achieving
            // the strict minimum of the computer's resulting score.
            let mut best_move = 0usize;
            let mut best_score = 100i32;
            for i in 0..9 {
                if b.get_state(i) == 0 {
                    b.set_state(i, 1);
                    let score = minimax(&mut b, 0, true);
                    b.set_state(i, 0);
                    if score < best_score {
                        best_score = score;
                        best_move = i;
                    }
                }
            }
            b.set_state(best_move, 1);
        } else {
            let m = find_best_move(&mut b);
            b.set_state(m, 2);
        }
        assert!(!is_winner(&b, 1));
        assert!(!is_winner(&b, 2));
        if is_draw(&b) {
            break;
        }
        human_turn = !human_turn;
    }
    assert!(is_draw(&b));
}

#[test]
fn numpad_layout_maps_onto_the_board() {
    assert_eq!(numpad_to_index(7), Some(0));
    assert_eq!(numpad_to_index(8), Some(1));
    assert_eq!(numpad_to_index(9), Some(2));
    assert_eq!(numpad_to_index(4), Some(3));
    assert_eq!(numpad_to_index(5), Some(4));
    assert_eq!(numpad_to_index(6), Some(5));
    assert_eq!(numpad_to_index(1), Some(6));
    assert_eq!(numpad_to_index(2), Some(7));
    assert_eq!(numpad_to_index(3), Some(8));
    assert_eq!(numpad_to_index(0), None);
    assert_eq!(numpad_to_index(10), None);
    assert_eq!(numpad_to_index(usize::MAX), None);
}

#[test]
fn markers_for_each_state() {
    assert_eq!(to_marker(&1), "x");
    assert_eq!(to_marker(&2), "o");
    assert_eq!(to_marker(&0), " ");
    assert_eq!(to_marker(&3), " ");
}

#[test]
fn cells_lists_all_nine_states_in_order() {
    let b = board_of([1, 2, 0, 0, 1, 0, 2, 0, 1]);
    let cells = b.cells();
    assert_eq!(cells, vec![1, 2, 0, 0, 1, 0, 2, 0, 1]);
    for (i, &c) in cells.iter().enumerate() {
        assert_eq!(c, b.get_state(i));
    }
}
