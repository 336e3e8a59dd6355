//! Helpers for the interaction layer outside the core: mapping a cell state
//! to its display marker and a numpad key to a board index. The numpad
//! layout mirrors the board: keys 7-8-9, 4-5-6, 1-2-3 name the top, middle
//! and bottom rows, so key 7 is cell 0 and key 3 is cell 8.

use vstd::prelude::*;

verus! {

/// The marker text for a cell state: "x" for 1, "o" for 2, a space otherwise.
pub open spec fn spec_marker(state: u8) -> Seq<char> {
    if state == 1 {
        "x"@
    } else if state == 2 {
        "o"@
    } else {
        " "@
    }
}

/// The display marker of a cell state.
pub fn to_marker(state: &u8) -> (r: String)
    ensures
        r@ == spec_marker(*state),
{
    match *state {
        1 => "x".to_owned(),
        2 => "o".to_owned(),
        _ => " ".to_owned(),
    }
}

/// The cell index a numpad key names, or None for a key off the board.
pub open spec fn spec_numpad_to_index(num: usize) -> Option<usize> {
    if num == 7 {
        Some(0usize)
    } else if num == 8 {
        Some(1usize)
    } else if num == 9 {
        Some(2usize)
    } else if num == 4 {
        Some(3usize)
    } else if num == 5 {
        Some(4usize)
    } else if num == 6 {
        Some(5usize)
    } else if num == 1 {
        Some(6usize)
    } else if num == 2 {
        Some(7usize)
    } else if num == 3 {
        Some(8usize)
    } else {
        None
    }
}

/// Maps a numpad key to its board cell. Keys 1 through 9 map onto the nine
/// cells; anything else is rejected.
pub fn numpad_to_index(num: usize) -> (r: Option<usize>)
    ensures
        r == spec_numpad_to_index(num),
        r is Some <==> 1 <= num <= 9,
        r is Some ==> r->0 < 9,
{
    match num {
        7 => Some(0),
        8 => Some(1),
        9 => Some(2),
        4 => Some(3),
        5 => Some(4),
        6 => Some(5),
        1 => Some(6),
        2 => Some(7),
        3 => Some(8),
        _ => None,
    }
}

} // verus!
