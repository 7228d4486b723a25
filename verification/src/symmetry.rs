//! The eight symmetries of the square, applied to a board.

use crate::board::{
    flip_horiz_cells, flip_vert_cells, lemma_pack_view, lemma_view_pack, lemma_view_valid,
    transpose_cells, valid_cells, Board,
};
use vstd::prelude::*;

verus! {

/// The board that step number `op` of the walk makes of `board`: the walk
/// alternates a flip of the rows with, in turn, a flip of the columns, a
/// transposition and another flip of the columns.
pub open spec fn symmetry_step(op: int, board: Board) -> Board {
    if op % 2 == 1 {
        board.flipped_horiz()
    } else if op == 2 || op == 6 {
        board.flipped_vert()
    } else if op == 4 {
        board.transposed()
    } else {
        board
    }
}

/// The boards that the walk still yields when `board` was the last one
/// yielded and step `op` comes next.
pub open spec fn symmetries_from(op: int, board: Board) -> Seq<Board>
    decreases 8 - op,
{
    if 0 <= op < 8 {
        seq![symmetry_step(op, board)] + symmetries_from(op + 1, symmetry_step(op, board))
    } else {
        Seq::empty()
    }
}

/// Transposing twice gives the cells back.
pub proof fn lemma_transpose_cells_twice(cells: Seq<int>)
    requires
        cells.len() == 16,
    ensures
        transpose_cells(transpose_cells(cells)) == cells,
{
}

/// Reversing the order of the rows twice gives the cells back.
pub proof fn lemma_flip_horiz_cells_twice(cells: Seq<int>)
    requires
        cells.len() == 16,
    ensures
        flip_horiz_cells(flip_horiz_cells(cells)) == cells,
{
}

/// Reversing each row twice gives the cells back.
pub proof fn lemma_flip_vert_cells_twice(cells: Seq<int>)
    requires
        cells.len() == 16,
    ensures
        flip_vert_cells(flip_vert_cells(cells)) == cells,
{
}

/// The three transforms rearrange cells, so they keep every rank in range.
pub proof fn lemma_transforms_valid(cells: Seq<int>)
    requires
        valid_cells(cells),
    ensures
        valid_cells(transpose_cells(cells)),
        valid_cells(flip_horiz_cells(cells)),
        valid_cells(flip_vert_cells(cells)),
{
}

/// The cells of a transformed board are the transformed cells.
pub proof fn lemma_transformed_views(b: Board)
    ensures
        b.transposed()@ == transpose_cells(b@),
        b.flipped_horiz()@ == flip_horiz_cells(b@),
        b.flipped_vert()@ == flip_vert_cells(b@),
{
    lemma_view_valid(b);
    lemma_transforms_valid(b@);
    lemma_view_pack(transpose_cells(b@));
    lemma_view_pack(flip_horiz_cells(b@));
    lemma_view_pack(flip_vert_cells(b@));
}

/// Each of the three transforms is its own inverse: transposing twice,
/// reversing the rows twice and reversing the columns twice all give the
/// board back.
pub proof fn lemma_transforms_self_inverse(b: Board)
    ensures
        b.transposed().transposed() == b,
        b.flipped_horiz().flipped_horiz() == b,
        b.flipped_vert().flipped_vert() == b,
{
    lemma_transformed_views(b);
    lemma_transpose_cells_twice(b@);
    lemma_flip_horiz_cells_twice(b@);
    lemma_flip_vert_cells_twice(b@);
    lemma_pack_view(b);
}

/// A walk over the eight symmetries of a board.
pub struct BoardSymIter {
    op: i32,
    board: Board,
}

impl BoardSymIter {
    /// The walk has made between none and all eight of its steps.
    #[verifier::type_invariant]
    spec fn in_range(self) -> bool {
        0 <= self.op <= 8
    }

    /// The boards that are still to come, in the order in which `next`
    /// hands them out.
    pub closed spec fn remaining(self) -> Seq<Board> {
        symmetries_from(self.op as int, self.board)
    }

    /// The next symmetry, or `None` when all eight have been handed out.
    pub fn next(&mut self) -> (item: Option<Board>)
        ensures
            old(self).remaining().len() == 0 ==> item.is_none(),
            old(self).remaining().len() == 0 ==> final(self).remaining().len() == 0,
            old(self).remaining().len() > 0 ==> item == Some(old(self).remaining()[0]),
            old(self).remaining().len() > 0 ==> final(self).remaining() == old(
                self).remaining().skip(1),
    {
        proof {
            use_type_invariant(&*self);
        }
        if self.op % 2 == 1 {
            self.board = self.board.flip_horiz();
        } else if self.op == 2 || self.op == 6 {
            self.board = self.board.flip_vert();
        } else if self.op == 4 {
            self.board = self.board.transpose();
        } else if self.op == 8 {
            return None;
        }
        self.op += 1;
        Some(self.board)
    }
}

impl Board {
    /// The eight images of this board under the symmetries of the square,
    /// in the order of the walk; the first is the board itself.
    pub open spec fn symmetry_seq(self) -> Seq<Board> {
        symmetries_from(0, self)
    }

    /// A walk over the eight symmetries of this board.
    pub fn symmetries(self) -> (walk: BoardSymIter)
        ensures
            walk.remaining() == self.symmetry_seq(),
    {
        BoardSymIter { op: 0, board: self }
    }
}

/// The walk yields exactly eight boards. It starts with the board itself
/// and goes on with its images under the row flip, the half turn and the
/// column flip, then with the transposed column flip and the three boards
/// that the same flips make of that one.
pub proof fn lemma_symmetries(b: Board)
    ensures
        b.symmetry_seq().len() == 8,
        b.symmetry_seq()[0] == b,
        b.symmetry_seq()[1] == b.flipped_horiz(),
        b.symmetry_seq()[2] == b.flipped_horiz().flipped_vert(),
        b.symmetry_seq()[3] == b.flipped_vert(),
        b.symmetry_seq()[4] == b.flipped_vert().transposed(),
        b.symmetry_seq()[5] == b.flipped_vert().transposed().flipped_horiz(),
        b.symmetry_seq()[6] == b.flipped_vert().transposed().flipped_horiz().flipped_vert(),
        b.symmetry_seq()[7] == b.flipped_vert().transposed().flipped_vert(),
        b.symmetry_seq().contains(b),
{
    reveal_with_fuel(symmetries_from, 9);
    let s = b.symmetry_seq();
    assert(s[0] == b);
    lemma_half_turn(b);
    lemma_half_turn(b.flipped_vert().transposed());
}

/// Reversing the rows, then the columns, then the rows again reverses the
/// columns alone.
proof fn lemma_half_turn(b: Board)
    ensures
        b.flipped_horiz().flipped_vert().flipped_horiz() == b.flipped_vert(),
{
    lemma_transformed_views(b);
    lemma_transformed_views(b.flipped_horiz());
    lemma_transformed_views(b.flipped_horiz().flipped_vert());
}

} // verus!
