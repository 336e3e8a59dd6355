//! The board store: nine three-valued cells packed two bits per cell.
//!
//! Cell `i` (row-major, 0 = top-left, 8 = bottom-right) lives in storage
//! unit `i / 4` at bit offset `(i % 4) * 2`; the mask `0b11` selects its
//! two bits. The abstract state of a board is the sequence of its nine
//! cell values, which is what every contract speaks of.

use vstd::prelude::*;

verus! {

/// A packed 3-by-3 board: three bytes hold nine 2-bit cells.
pub struct Board {
    units: [u8; 3],
}

impl View for Board {
    type V = Seq<u8>;

    /// The nine cell values, in index order.
    closed spec fn view(&self) -> Seq<u8> {
        Seq::new(9, |i: int| (self.units@[i / 4] >> (((i % 4) * 2) as u8)) & 3u8)
    }
}

/// A board always abstracts to exactly nine cells.
pub broadcast proof fn lemma_view_len(b: &Board)
    ensures
        (#[trigger] b@).len() == 9,
{
}

/// Clearing two bits and writing a two-bit value reads back as that value.
proof fn lemma_write_cell_same(b: u8, s: u8, off: u8)
    requires
        off == 0 || off == 2 || off == 4 || off == 6,
        s <= 3,
    ensures
        (((b & !(3u8 << off)) | ((s & 3) << off)) >> off) & 3 == s,
{
    assert((((b & !(3u8 << off)) | ((s & 3) << off)) >> off) & 3 == s) by (bit_vector)
        requires
            off == 0 || off == 2 || off == 4 || off == 6,
            s <= 3,
    ;
}

/// Writing one 2-bit field of a byte leaves every other 2-bit field as it was.
proof fn lemma_write_cell_other(b: u8, s: u8, off: u8, off2: u8)
    requires
        off == 0 || off == 2 || off == 4 || off == 6,
        off2 == 0 || off2 == 2 || off2 == 4 || off2 == 6,
        off != off2,
    ensures
        (((b & !(3u8 << off)) | ((s & 3) << off)) >> off2) & 3 == (b >> off2) & 3,
{
    assert((((b & !(3u8 << off)) | ((s & 3) << off)) >> off2) & 3 == (b >> off2) & 3)
        by (bit_vector)
        requires
            off == 0 || off == 2 || off == 4 || off == 6,
            off2 == 0 || off2 == 2 || off2 == 4 || off2 == 6,
            off != off2,
    ;
}

/// An all-zero byte reads 0 in each of its 2-bit fields.
proof fn lemma_zero_cell(off: u8)
    requires
        off == 0 || off == 2 || off == 4 || off == 6,
    ensures
        (0u8 >> off) & 3 == 0,
{
    assert((0u8 >> off) & 3 == 0) by (bit_vector)
        requires
            off == 0 || off == 2 || off == 4 || off == 6,
    ;
}

impl Board {
    /// A fresh board with every cell empty.
    pub fn new() -> (r: Board)
        ensures
            r@ =~= Seq::new(9, |i: int| 0u8),
    {
        let b = Board { units: [0u8, 0u8, 0u8] };
        proof {
            assert forall|i: int| 0 <= i < 9 implies b@[i] == 0u8 by {
                lemma_zero_cell(((i % 4) * 2) as u8);
            }
        }
        b
    }

    /// Reads the 2-bit state stored for `index`.
    pub fn get_state(&self, index: usize) -> (state: u8)
        requires
            index < 9,
        ensures
            state == self@[index as int],
            state <= 3,
    {
        let byte_index = index / 4;
        let bit_offset = ((index % 4) * 2) as u8;
        let unit = self.units[byte_index];
        let state = (unit >> bit_offset) & 0b11;
        proof {
            assert((unit >> bit_offset) & 0b11 <= 3) by (bit_vector);
        }
        state
    }

    /// Overwrites exactly the two bits belonging to `index` with `state`,
    /// leaving every other cell untouched.
    pub fn set_state(&mut self, index: usize, state: u8)
        requires
            index < 9,
            state <= 2,
        ensures
            final(self)@ =~= old(self)@.update(index as int, state),
    {
        let byte_index = index / 4;
        let bit_offset = ((index % 4) * 2) as u8;
        let cleared = self.units[byte_index] & !(0b11u8 << bit_offset);
        let written = cleared | ((state & 0b11) << bit_offset);
        self.units[byte_index] = written;
        proof {
            let i = index as int;
            let b = old(self).units@[i / 4];
            assert forall|j: int| 0 <= j < 9 implies self@[j] == old(self)@.update(
                i,
                state,
            )[j] by {
                let off2 = ((j % 4) * 2) as u8;
                if j == i {
                    lemma_write_cell_same(b, state, bit_offset);
                } else if j / 4 == i / 4 {
                    assert(off2 != bit_offset);
                    lemma_write_cell_other(b, state, bit_offset, off2);
                }
            }
        }
    }

    /// All nine cell states in index order, for rendering outside the core.
    pub fn cells(&self) -> (r: Vec<u8>)
        ensures
            r@ =~= self@,
    {
        let mut r: Vec<u8> = Vec::new();
        let mut i: usize = 0;
        while i < 9
            invariant
                i <= 9,
                r@.len() == i,
                forall|j: int| 0 <= j < i ==> r@[j] == self@[j],
            decreases 9 - i,
        {
            r.push(self.get_state(i));
            i = i + 1;
        }
        r
    }
}

} // verus!
