//! The seventeen four-cell patterns of a board that a learned value
//! function is keyed by: the four rows, the four columns and the nine
//! squares of two by two cells.

use crate::board::{lemma_shift_steps, Board};
use crate::row::{lemma_rows_equal, row_cells};
use crate::slide::line;
use vstd::prelude::*;

verus! {

/// The number of patterns of a board.
pub const N_V_TABLES: usize = 17;

/// The four cells of the square whose lowest cell is `pos`: that cell and
/// the next of its row, then the two cells above them.
pub open spec fn square(cells: Seq<int>, pos: int) -> Seq<int> {
    seq![cells[pos], cells[pos + 1], cells[pos + 4], cells[pos + 5]]
}

/// The lowest cell of square number `n`: the squares are counted row by
/// row, three to a row.
pub open spec fn square_cell(n: int) -> int {
    4 * (n / 3) + n % 3
}

/// The four nibbles of the code of a square are the square's four cells.
proof fn lemma_pattern_bits(x: u64, s: u64)
    by (bit_vector)
    requires
        s <= 40,
        s % 4 == 0,
    ensures
        ({
            let code = (((x >> s) & 0xff) | ((x >> ((s + 8) as u64)) & 0xff00)) as u16;
            &&& (code >> 0) & 0xf == (x >> s) & 0xf
            &&& (code >> 4) & 0xf == (x >> ((s + 4) as u64)) & 0xf
            &&& (code >> 8) & 0xf == (x >> ((s + 16) as u64)) & 0xf
            &&& (code >> 12) & 0xf == (x >> ((s + 20) as u64)) & 0xf
        }),
        x >> 0 == x,
{
}

impl Board {
    /// The codes of the seventeen patterns: entries 0 to 3 are the rows,
    /// entries 4 to 7 the columns, and entry `8 + n` is square number `n`.
    pub fn vpos(self) -> (codes: [u16; 17])
        ensures
            forall|k: int| 0 <= k < 4 ==> row_cells(#[trigger] codes[k]) == line(self@, 0, k),
            forall|k: int| 4 <= k < 8 ==> row_cells(#[trigger] codes[k]) == line(self@, 1, k - 4),
            forall|n: int|
                0 <= n < 9 ==> row_cells(#[trigger] codes[n + 8]) == square(
                    self@,
                    square_cell(n),
                ),
    {
        let mut res: [u16; 17] = [0u16; 17];
        let mut i: usize = 0;
        while i < 4
            invariant
                0 <= i <= 4,
                forall|k: int| 0 <= k < i ==> row_cells(#[trigger] res[k]) == line(self@, 0, k),
            decreases 4 - i,
        {
            let code = self.row_code(i as u32);
            res[i] = code;
            i += 1;
        }
        let t = self.transpose();
        let mut i: usize = 0;
        while i < 4
            invariant
                0 <= i <= 4,
                t@ == crate::board::transpose_cells(self@),
                forall|k: int| 0 <= k < 4 ==> row_cells(#[trigger] res[k]) == line(self@, 0, k),
                forall|k: int|
                    4 <= k < 4 + i ==> row_cells(#[trigger] res[k]) == line(self@, 1, k - 4),
            decreases 4 - i,
        {
            let code = t.row_code(i as u32);
            res[i + 4] = code;
            i += 1;
        }
        let mut b1: u64 = self.0;
        let mut b2: u64 = self.0 >> 8;
        let mut n: usize = 8;
        let mut row: usize = 0;
        proof {
            lemma_pattern_bits(self.0, 0);
        }
        while row < 3
            invariant
                0 <= row <= 3,
                n == 8 + 3 * row,
                row < 3 ==> b1 == self.0 >> ((16 * row) as u64),
                row < 3 ==> b2 == self.0 >> ((16 * row + 8) as u64),
                forall|k: int| 0 <= k < 4 ==> row_cells(#[trigger] res[k]) == line(self@, 0, k),
                forall|k: int| 4 <= k < 8 ==> row_cells(#[trigger] res[k]) == line(self@, 1, k - 4),
                forall|m: int|
                    0 <= m < n - 8 ==> row_cells(#[trigger] res[m + 8]) == square(
                        self@,
                        square_cell(m),
                    ),
            decreases 3 - row,
        {
            let mut col: usize = 0;
            while col < 3
                invariant
                    0 <= row < 3,
                    0 <= col <= 3,
                    n == 8 + 3 * row + col,
                    b1 == self.0 >> ((16 * row + 4 * col) as u64),
                    b2 == self.0 >> ((16 * row + 4 * col + 8) as u64),
                    forall|k: int| 0 <= k < 4 ==> row_cells(#[trigger] res[k]) == line(self@, 0, k),
                    forall|k: int|
                        4 <= k < 8 ==> row_cells(#[trigger] res[k]) == line(self@, 1, k - 4),
                    forall|m: int|
                        0 <= m < n - 8 ==> row_cells(#[trigger] res[m + 8]) == square(
                            self@,
                            square_cell(m),
                        ),
                decreases 3 - col,
            {
                let code = ((b1 & 0xff) | (b2 & 0xff00)) as u16;
                proof {
                    let s = (16 * row + 4 * col) as u64;
                    lemma_pattern_bits(self.0, s);
                    lemma_shift_steps(self.0, s, 0);
                    lemma_shift_steps(self.0, (s + 8) as u64, 0);
                    let m = n as int - 8;
                    lemma_rows_equal(row_cells(code), square(self@, square_cell(m)));
                }
                res[n] = code;
                n += 1;
                b1 = b1 >> 4;
                b2 = b2 >> 4;
                col += 1;
            }
            proof {
                let s = (16 * row + 12) as u64;
                lemma_shift_steps(self.0, s, 0);
                lemma_shift_steps(self.0, (s + 8) as u64, 0);
            }
            b1 = b1 >> 4;
            b2 = b2 >> 4;
            row += 1;
        }
        res
    }
}

} // verus!
