//! The two move tables: for every row code, the row after a slide to the
//! right and after a slide to the left.

use crate::row::{
    lemma_pack_row_cells, lemma_row_cells_pack, lemma_row_cells_valid, lemma_slide_line_valid,
    reverse_row, reversed_row, row_cells, slid_row_left, slid_row_right, slide_line,
    slide_row_right,
};
use vstd::prelude::*;

verus! {

/// The number of row codes.
pub const ROWS: usize = 65536;

/// The results of sliding each of the 65536 rows right and left.
pub struct MoveTables {
    right: Vec<u16>,
    left: Vec<u16>,
}

/// Reversing a row twice gives the row back.
pub proof fn lemma_reversed_row_twice(row: u16)
    ensures
        reversed_row(reversed_row(row)) == row,
{
    let cells = row_cells(row);
    lemma_row_cells_valid(row);
    lemma_row_cells_pack(cells.reverse());
    lemma_pack_row_cells(row);
}

/// A slide to the left is a slide to the right seen in a mirror: reverse the
/// row, slide it right, reverse the result.
pub proof fn lemma_left_mirrors_right(row: u16)
    ensures
        slid_row_left(row) == reversed_row(slid_row_right(reversed_row(row))),
{
    let cells = row_cells(row);
    lemma_row_cells_valid(row);
    lemma_row_cells_pack(cells.reverse());
    lemma_slide_line_valid(cells.reverse());
    lemma_row_cells_pack(slide_line(cells.reverse()));
}

/// The cells of a row after a slide, in either direction.
pub proof fn lemma_slid_row_cells(row: u16)
    ensures
        row_cells(slid_row_right(row)) == slide_line(row_cells(row)),
        row_cells(slid_row_left(row)) == slide_line(row_cells(row).reverse()).reverse(),
{
    let cells = row_cells(row);
    lemma_row_cells_valid(row);
    lemma_slide_line_valid(cells);
    lemma_row_cells_pack(slide_line(cells));
    lemma_slide_line_valid(cells.reverse());
    lemma_row_cells_pack(slide_line(cells.reverse()).reverse());
}

impl MoveTables {
    /// Both tables hold the slid row of every row code.
    #[verifier::type_invariant]
    spec fn complete(self) -> bool {
        &&& self.right.len() == ROWS
        &&& self.left.len() == ROWS
        &&& forall|row: int|
            0 <= row < ROWS ==> #[trigger] self.right@[row] == slid_row_right(row as u16)
        &&& forall|row: int|
            0 <= row < ROWS ==> #[trigger] self.left@[row] == slid_row_left(row as u16)
    }

    /// The entries of the table of slides to the right, by row code.
    pub closed spec fn right_table(self) -> Seq<u16> {
        self.right@
    }

    /// The entries of the table of slides to the left, by row code.
    pub closed spec fn left_table(self) -> Seq<u16> {
        self.left@
    }

    /// The row `row` after a slide to the right.
    pub fn right(&self, row: u16) -> (res: u16)
        ensures
            res == self.right_table()[row as int],
            res == slid_row_right(row),
            row_cells(res) == slide_line(row_cells(row)),
    {
        proof {
            use_type_invariant(self);
            lemma_slid_row_cells(row);
        }
        self.right[row as usize]
    }

    /// The row `row` after a slide to the left.
    pub fn left(&self, row: u16) -> (res: u16)
        ensures
            res == self.left_table()[row as int],
            res == slid_row_left(row),
            row_cells(res) == slide_line(row_cells(row).reverse()).reverse(),
    {
        proof {
            use_type_invariant(self);
            lemma_slid_row_cells(row);
        }
        self.left[row as usize]
    }
}

/// Builds both tables. Each row is slid to the right once; the entry of the
/// left table for the mirrored row is the mirrored result.
pub fn init() -> (tables: MoveTables)
    ensures
        tables.right_table().len() == ROWS,
        tables.left_table().len() == ROWS,
        forall|row: u16| #[trigger] tables.right_table()[row as int] == slid_row_right(row),
        forall|row: u16| #[trigger] tables.left_table()[row as int] == slid_row_left(row),
        forall|row: u16| #[trigger]
            tables.left_table()[row as int] == reversed_row(
                tables.right_table()[reversed_row(row) as int],
            ),
{
    let mut right: Vec<u16> = vec![0u16; ROWS];
    let mut left: Vec<u16> = vec![0u16; ROWS];
    let mut n: usize = 0;
    while n < ROWS
        invariant
            0 <= n <= ROWS,
            right.len() == ROWS,
            left.len() == ROWS,
            forall|row: int| 0 <= row < n ==> #[trigger] right@[row] == slid_row_right(row as u16),
            forall|row: u16|
                row < n ==> left@[#[trigger] reversed_row(row) as int] == slid_row_left(
                    reversed_row(row),
                ),
        decreases ROWS - n,
    {
        let row = n as u16;
        let res = slide_row_right(row);
        let mirrored = reverse_row(row);
        let mirrored_res = reverse_row(res);
        proof {
            lemma_left_mirrors_right(mirrored);
            lemma_reversed_row_twice(row);
            assert forall|other: u16| other < n implies #[trigger] reversed_row(other)
                != mirrored by {
                lemma_reversed_row_twice(other);
            }
        }
        right.set(n, res);
        left.set(mirrored as usize, mirrored_res);
        n += 1;
    }
    proof {
        assert forall|row: int| 0 <= row < ROWS implies #[trigger] left@[row] == slid_row_left(
            row as u16,
        ) by {
            lemma_reversed_row_twice(row as u16);
            assert(reversed_row(reversed_row(row as u16)) == row);
        }
        assert forall|row: u16| #[trigger]
            left@[row as int] == reversed_row(right@[reversed_row(row) as int]) by {
            lemma_left_mirrors_right(row);
        }
    }
    MoveTables { right, left }
}

} // verus!
