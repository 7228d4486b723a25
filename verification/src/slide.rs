//! Moves: sliding the whole board right, down, left or up.

use crate::board::{
    flip_vert_cells, lemma_pack_view, lemma_view_pack, lemma_view_valid, transpose_cells,
    valid_cells, Board,
};
use crate::row::{
    lemma_rows_equal, lemma_slide_line_valid, lemma_tiles_of_bounds, merge_tiles, row_cells,
    slide_line, tiles_of,
};
use crate::tables::MoveTables;
use vstd::prelude::*;

verus! {

/// Direction number of a slide to the right, towards column 0.
pub const RIGHT: i32 = 0;

/// Direction number of a slide down, towards row 0.
pub const DOWN: i32 = 1;

/// Direction number of a slide to the left, towards column 3.
pub const LEFT: i32 = 2;

/// Direction number of a slide up, towards row 3.
pub const UP: i32 = 3;

/// The cell that lies at place `place` of line `line` for direction `dir`.
/// Place 0 is the cell against the wall that the tiles slide to.
pub open spec fn line_index(dir: int, line: int, place: int) -> int {
    if dir == 0 {
        4 * line + place
    } else if dir == 1 {
        4 * place + line
    } else if dir == 2 {
        4 * line + (3 - place)
    } else {
        4 * (3 - place) + line
    }
}

/// The line that cell `pos` belongs to for direction `dir`.
pub open spec fn line_of(dir: int, pos: int) -> int {
    if dir == 0 || dir == 2 {
        pos / 4
    } else {
        pos % 4
    }
}

/// The place of cell `pos` in its line for direction `dir`.
pub open spec fn place_of(dir: int, pos: int) -> int {
    if dir == 0 {
        pos % 4
    } else if dir == 1 {
        pos / 4
    } else if dir == 2 {
        3 - pos % 4
    } else {
        3 - pos / 4
    }
}

/// Line `line` of the board for direction `dir`, the cell at the wall first.
pub open spec fn line(cells: Seq<int>, dir: int, line: int) -> Seq<int> {
    Seq::new(4, |place: int| cells[line_index(dir, line, place)])
}

/// The board after a move in direction `dir`: each of its four lines has slid
/// towards its wall.
pub open spec fn slide_cells(cells: Seq<int>, dir: int) -> Seq<int> {
    Seq::new(16, |pos: int| slide_line(line(cells, dir, line_of(dir, pos)))[place_of(dir, pos)])
}

/// No two tiles of the line merge when it slides.
pub open spec fn slides_without_merge(cells: Seq<int>) -> bool {
    merge_tiles(tiles_of(cells)) == tiles_of(cells)
}

/// Nibble `t` of the row at bit `s` is the board's nibble at bit `s + t`.
proof fn lemma_board_rows(x: u64, s: u64, t: u64)
    by (bit_vector)
    requires
        s == 0 || s == 16 || s == 32 || s == 48,
        t == 0 || t == 4 || t == 8 || t == 12,
    ensures
        ((((x >> s) & 0xffff) as u16) >> (t as u16)) & 0xf == (x >> ((s + t) as u64)) & 0xf,
{
}

/// The nibbles of four rows put together are the nibbles of the rows.
proof fn lemma_rows_to_board(r0: u16, r1: u16, r2: u16, r3: u16, t: u64)
    by (bit_vector)
    requires
        t == 0 || t == 4 || t == 8 || t == 12,
    ensures
        ({
            let x = (r0 as u64) | ((r1 as u64) << 16) | ((r2 as u64) << 32) | ((r3 as u64) << 48);
            &&& (x >> t) & 0xf == (r0 >> (t as u16)) & 0xf
            &&& (x >> ((16 + t) as u64)) & 0xf == (r1 >> (t as u16)) & 0xf
            &&& (x >> ((32 + t) as u64)) & 0xf == (r2 >> (t as u16)) & 0xf
            &&& (x >> ((48 + t) as u64)) & 0xf == (r3 >> (t as u16)) & 0xf
        }),
{
}

/// A board whose lines are the slid lines of another is that board after the
/// move.
pub proof fn lemma_slide_by_lines(cells: Seq<int>, result: Seq<int>, dir: int)
    requires
        0 <= dir < 4,
        result.len() == 16,
        forall|k: int| 0 <= k < 4 ==> #[trigger] line(result, dir, k) == slide_line(
            line(cells, dir, k)),
    ensures
        result == slide_cells(cells, dir),
{
    assert forall|pos: int| 0 <= pos < 16 implies result[pos] == slide_cells(cells, dir)[pos] by {
        let k = line_of(dir, pos);
        let j = place_of(dir, pos);
        assert(line(result, dir, k)[j] == result[pos]);
    }
}

/// The lines of a board after a move are the slid lines of the board before.
pub proof fn lemma_lines_of_slide(cells: Seq<int>, dir: int, k: int)
    requires
        0 <= dir < 4,
        0 <= k < 4,
    ensures
        line(slide_cells(cells, dir), dir, k) == slide_line(line(cells, dir, k)),
{
    let result = slide_cells(cells, dir);
    let slid = slide_line(line(cells, dir, k));
    assert forall|j: int| 0 <= j < 4 implies line(result, dir, k)[j] == slid[j] by {
        let pos = line_index(dir, k, j);
    }
}

/// A move keeps every rank in range.
pub proof fn lemma_slide_cells_valid(cells: Seq<int>, dir: int)
    requires
        valid_cells(cells),
        0 <= dir < 4,
    ensures
        valid_cells(slide_cells(cells, dir)),
{
    assert forall|pos: int| 0 <= pos < 16 implies 0 <= #[trigger] slide_cells(cells, dir)[pos]
        <= 15 by {
        let k = line_of(dir, pos);
        let l = line(cells, dir, k);
        assert forall|j: int| 0 <= j < 4 implies 0 <= #[trigger] l[j] <= 15 by {
            assert(0 <= line_index(dir, k, j) < 16);
        }
        lemma_slide_line_valid(l);
    }
}

/// The tiles of a line that lies flush against its wall are the line's
/// first cells.
proof fn lemma_tiles_of_flush(tiles: Seq<int>, len: int)
    requires
        tiles.len() <= len,
        forall|pos: int| 0 <= pos < tiles.len() ==> #[trigger] tiles[pos] != 0,
    ensures
        tiles_of(
            Seq::new(
                len as nat,
                |pos: int|
                    if pos < tiles.len() {
                        tiles[pos]
                    } else {
                        0
                    },
            ),
        ) == tiles,
    decreases len,
{
    let flush = Seq::new(
        len as nat,
        |pos: int|
            if pos < tiles.len() {
                tiles[pos]
            } else {
                0
            },
    );
    if len > 0 {
        if tiles.len() > 0 {
            lemma_tiles_of_flush(tiles.skip(1), len - 1);
            let rest = Seq::new(
                (len - 1) as nat,
                |pos: int|
                    if pos < tiles.skip(1).len() {
                        tiles.skip(1)[pos]
                    } else {
                        0
                    },
            );
            assert(flush.skip(1) =~= rest);
        } else {
            lemma_tiles_of_flush(tiles, len - 1);
            let rest = Seq::new(
                (len - 1) as nat,
                |pos: int|
                    if pos < tiles.len() {
                        tiles[pos]
                    } else {
                        0
                    },
            );
            assert(flush.skip(1) =~= rest);
        }
    }
}

/// A line in which nothing merges is at rest after one slide: sliding it
/// again changes nothing.
pub proof fn lemma_slide_line_twice(cells: Seq<int>)
    requires
        forall|pos: int| 0 <= pos < cells.len() ==> 0 <= #[trigger] cells[pos] <= 15,
        slides_without_merge(cells),
    ensures
        slide_line(slide_line(cells)) == slide_line(cells),
{
    let tiles = tiles_of(cells);
    lemma_tiles_of_bounds(cells);
    lemma_tiles_of_flush(tiles, cells.len() as int);
}

impl Board {
    /// This board after a move in direction `dir`.
    pub open spec fn slid(self, dir: int) -> Board {
        Board::of_cells(slide_cells(self@, dir))
    }

    /// The code of row `k`: its four cells, column 0 in the lowest nibble.
    pub fn row_code(self, k: u32) -> (code: u16)
        requires
            k < 4,
        ensures
            row_cells(code) == line(self@, 0, k as int),
    {
        let code = ((self.0 >> (16 * k)) & 0xffff) as u16;
        proof {
            let s = (16 * k) as u64;
            lemma_board_rows(self.0, s, 0);
            lemma_board_rows(self.0, s, 4);
            lemma_board_rows(self.0, s, 8);
            lemma_board_rows(self.0, s, 12);
            lemma_rows_equal(row_cells(code), line(self@, 0, k as int));
        }
        code
    }

    /// The board with the four given row codes.
    fn from_rows(r0: u16, r1: u16, r2: u16, r3: u16) -> (board: Board)
        ensures
            line(board@, 0, 0) == row_cells(r0),
            line(board@, 0, 1) == row_cells(r1),
            line(board@, 0, 2) == row_cells(r2),
            line(board@, 0, 3) == row_cells(r3),
    {
        let board = Board((r0 as u64) | ((r1 as u64) << 16) | ((r2 as u64) << 32) | ((r3 as u64)
            << 48));
        proof {
            lemma_rows_to_board(r0, r1, r2, r3, 0);
            lemma_rows_to_board(r0, r1, r2, r3, 4);
            lemma_rows_to_board(r0, r1, r2, r3, 8);
            lemma_rows_to_board(r0, r1, r2, r3, 12);
            lemma_rows_equal(line(board@, 0, 0), row_cells(r0));
            lemma_rows_equal(line(board@, 0, 1), row_cells(r1));
            lemma_rows_equal(line(board@, 0, 2), row_cells(r2));
            lemma_rows_equal(line(board@, 0, 3), row_cells(r3));
        }
        board
    }

    /// Each row looked up in the table of slides to the right.
    fn rows_right(self, tables: &MoveTables) -> (board: Board)
        ensures
            forall|k: int| 0 <= k < 4 ==> #[trigger] line(board@, 0, k) == slide_line(
                line(self@, 0, k)),
    {
        Board::from_rows(
            tables.right(self.row_code(0)),
            tables.right(self.row_code(1)),
            tables.right(self.row_code(2)),
            tables.right(self.row_code(3)),
        )
    }

    /// Each row looked up in the table of slides to the left.
    fn rows_left(self, tables: &MoveTables) -> (board: Board)
        ensures
            forall|k: int| 0 <= k < 4 ==> #[trigger] line(board@, 2, k) == slide_line(
                line(self@, 2, k)),
    {
        let board = Board::from_rows(
            tables.left(self.row_code(0)),
            tables.left(self.row_code(1)),
            tables.left(self.row_code(2)),
            tables.left(self.row_code(3)),
        );
        proof {
            assert forall|k: int| 0 <= k < 4 implies #[trigger] line(board@, 2, k) == slide_line(
                line(self@, 2, k)) by {
                assert(line(self@, 2, k) =~= line(self@, 0, k).reverse());
                let slid = slide_line(line(self@, 2, k));
            }
        }
        board
    }

    /// Slides every row to the right, towards column 0.
    pub fn slide_right(self, tables: &MoveTables) -> (board: Board)
        ensures
            board@ == slide_cells(self@, 0),
            board == self.slid(0),
    {
        let board = self.rows_right(tables);
        proof {
            lemma_slide_by_lines(self@, board@, 0);
            lemma_pack_view(board);
        }
        board
    }

    /// Slides every row to the left, towards column 3.
    pub fn slide_left(self, tables: &MoveTables) -> (board: Board)
        ensures
            board@ == slide_cells(self@, 2),
            board == self.slid(2),
    {
        let board = self.rows_left(tables);
        proof {
            lemma_slide_by_lines(self@, board@, 2);
            lemma_pack_view(board);
        }
        board
    }

    /// Slides every column down, towards row 0.
    pub fn slide_down(self, tables: &MoveTables) -> (board: Board)
        ensures
            board@ == slide_cells(self@, 1),
            board == self.slid(1),
    {
        let t = self.transpose();
        let slid = t.rows_right(tables);
        let board = slid.transpose();
        proof {
            assert forall|k: int| 0 <= k < 4 implies #[trigger] line(board@, 1, k) == slide_line(
                line(self@, 1, k)) by {
                assert(line(board@, 1, k) =~= line(slid@, 0, k));
                assert(line(t@, 0, k) =~= line(self@, 1, k));
            }
            lemma_slide_by_lines(self@, board@, 1);
            lemma_pack_view(board);
        }
        board
    }

    /// Slides every column up, towards row 3.
    pub fn slide_up(self, tables: &MoveTables) -> (board: Board)
        ensures
            board@ == slide_cells(self@, 3),
            board == self.slid(3),
    {
        let t = self.transpose();
        let slid = t.rows_left(tables);
        let board = slid.transpose();
        proof {
            assert forall|k: int| 0 <= k < 4 implies #[trigger] line(board@, 3, k) == slide_line(
                line(self@, 3, k)) by {
                assert(line(board@, 3, k) =~= line(slid@, 2, k));
                assert(line(t@, 2, k) =~= line(self@, 3, k));
            }
            lemma_slide_by_lines(self@, board@, 3);
            lemma_pack_view(board);
        }
        board
    }

    /// The board after a move in direction `dir`: 0 is right, 1 down, 2 left
    /// and 3 up.
    pub fn slide(self, tables: &MoveTables, dir: i32) -> (board: Board)
        requires
            0 <= dir < 4,
        ensures
            board@ == slide_cells(self@, dir as int),
            board == self.slid(dir as int),
    {
        if dir == 0 {
            self.slide_right(tables)
        } else if dir == 1 {
            self.slide_down(tables)
        } else if dir == 2 {
            self.slide_left(tables)
        } else {
            self.slide_up(tables)
        }
    }
}

/// The cells of a board after a move.
pub proof fn lemma_slid_view(b: Board, dir: int)
    requires
        0 <= dir < 4,
    ensures
        b.slid(dir)@ == slide_cells(b@, dir),
{
    lemma_view_valid(b);
    lemma_slide_cells_valid(b@, dir);
    lemma_view_pack(slide_cells(b@, dir));
}

/// The cells of a line of the transposed board, and of the board with each
/// row reversed: a row of the one is a column of the other, and a row read
/// towards one wall is the reversed row read towards the other.
pub proof fn lemma_lines_of_images(cells: Seq<int>, k: int)
    requires
        cells.len() == 16,
        0 <= k < 4,
    ensures
        line(transpose_cells(cells), 0, k) == line(cells, 1, k),
        line(transpose_cells(cells), 1, k) == line(cells, 0, k),
        line(transpose_cells(cells), 2, k) == line(cells, 3, k),
        line(transpose_cells(cells), 3, k) == line(cells, 2, k),
        line(flip_vert_cells(cells), 0, k) == line(cells, 2, k),
        line(flip_vert_cells(cells), 2, k) == line(cells, 0, k),
{
}

/// Every move is the move to the right seen through a symmetry: a slide to
/// the left is a slide to the right of the board with its rows reversed,
/// a slide down is a slide to the right of the transposed board, and a
/// slide up is a slide to the left of the transposed board.
pub proof fn lemma_slides_by_symmetry(b: Board)
    ensures
        b.slid(2) == b.flipped_vert().slid(0).flipped_vert(),
        b.slid(1) == b.transposed().slid(0).transposed(),
        b.slid(3) == b.transposed().slid(2).transposed(),
{
    lemma_image_of_slide(b, true, 2, 0);
    lemma_image_of_slide(b, false, 1, 0);
    lemma_image_of_slide(b, false, 3, 2);
}

/// One case of the law above: the image of `b` is `b` with its rows
/// reversed if `flip` and `b` transposed if not, and direction `dir` of `b`
/// is direction `through` of the image.
proof fn lemma_image_of_slide(b: Board, flip: bool, dir: int, through: int)
    requires
        flip ==> dir == 2 && through == 0,
        !flip ==> (dir == 1 && through == 0) || (dir == 3 && through == 2),
    ensures
        flip ==> b.slid(dir) == b.flipped_vert().slid(through).flipped_vert(),
        !flip ==> b.slid(dir) == b.transposed().slid(through).transposed(),
{
    let cells = b@;
    lemma_view_valid(b);
    let image = if flip {
        b.flipped_vert()
    } else {
        b.transposed()
    };
    let image_cells = if flip {
        flip_vert_cells(cells)
    } else {
        transpose_cells(cells)
    };
    lemma_view_pack(image_cells);
    lemma_slid_view(image, through);
    let slid = slide_cells(image_cells, through);
    lemma_slide_cells_valid(image_cells, through);
    let back = if flip {
        flip_vert_cells(slid)
    } else {
        transpose_cells(slid)
    };
    assert forall|k: int| 0 <= k < 4 implies #[trigger] line(back, dir, k) == slide_line(
        line(cells, dir, k),
    ) by {
        lemma_lines_of_images(slid, k);
        lemma_lines_of_images(cells, k);
        lemma_lines_of_slide(image_cells, through, k);
    }
    lemma_slide_by_lines(cells, back, dir);
}

/// A move in which no two tiles merge leaves the board at rest: the same
/// move made again changes nothing.
pub proof fn lemma_slide_twice(b: Board, dir: int)
    requires
        0 <= dir < 4,
        forall|k: int| 0 <= k < 4 ==> slides_without_merge(#[trigger] line(b@, dir, k)),
    ensures
        b.slid(dir).slid(dir) == b.slid(dir),
{
    let once = slide_cells(b@, dir);
    lemma_slid_view(b, dir);
    lemma_view_valid(b);
    assert forall|k: int| 0 <= k < 4 implies #[trigger] line(once, dir, k) == slide_line(
        line(once, dir, k)) by {
        let l = line(b@, dir, k);
        lemma_lines_of_slide(b@, dir, k);
        assert forall|j: int| 0 <= j < 4 implies 0 <= #[trigger] l[j] <= 15 by {
            assert(0 <= line_index(dir, k, j) < 16);
        }
        lemma_slide_line_twice(l);
    }
    lemma_slide_by_lines(once, once, dir);
}

} // verus!
