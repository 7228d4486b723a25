//! The board: sixteen tile ranks packed into one 64-bit word.

use vstd::prelude::*;

verus! {

/// A 4x4 grid of tile ranks, four bits per cell. Cell `0` is the least
/// significant nibble; cell `4 * row + col` lies in row `row` (row 0 is the
/// lowest sixteen bits) and column `col`. A rank of 0 is an empty cell, a
/// rank `r > 0` is the tile `2^r`.
#[derive(Debug, Copy, Clone, PartialEq, Eq, Hash, Structural)]
pub struct Board(pub u64);

/// The rank held by nibble `pos` of `word`.
pub open spec fn nibble(word: u64, pos: int) -> int {
    ((word >> ((4 * pos) as u64)) & 0xf) as int
}

/// The word whose sixteen nibbles are `cells`, cell 0 in the lowest bits.
pub open spec fn pack(cells: Seq<int>) -> u64 {
    (cells[0] as u64) | ((cells[1] as u64) << 4) | ((cells[2] as u64) << 8)
        | ((cells[3] as u64) << 12) | ((cells[4] as u64) << 16) | ((cells[5] as u64) << 20)
        | ((cells[6] as u64) << 24) | ((cells[7] as u64) << 28) | ((cells[8] as u64) << 32)
        | ((cells[9] as u64) << 36) | ((cells[10] as u64) << 40) | ((cells[11] as u64) << 44)
        | ((cells[12] as u64) << 48) | ((cells[13] as u64) << 52) | ((cells[14] as u64) << 56)
        | ((cells[15] as u64) << 60)
}

/// A sequence of sixteen ranks, each in `0..=15`.
pub open spec fn valid_cells(cells: Seq<int>) -> bool {
    &&& cells.len() == 16
    &&& forall|pos: int| 0 <= pos < 16 ==> 0 <= #[trigger] cells[pos] <= 15
}

/// Rows and columns exchanged: cell `(row, col)` takes the rank of `(col, row)`.
pub open spec fn transpose_cells(cells: Seq<int>) -> Seq<int> {
    Seq::new(16, |pos: int| cells[4 * (pos % 4) + pos / 4])
}

/// The order of the rows reversed: row `r` takes the ranks of row `3 - r`.
pub open spec fn flip_horiz_cells(cells: Seq<int>) -> Seq<int> {
    Seq::new(16, |pos: int| cells[4 * (3 - pos / 4) + pos % 4])
}

/// Each row reversed: column `c` takes the ranks of column `3 - c`.
pub open spec fn flip_vert_cells(cells: Seq<int>) -> Seq<int> {
    Seq::new(16, |pos: int| cells[4 * (pos / 4) + (3 - pos % 4)])
}

impl View for Board {
    type V = Seq<int>;

    /// The sixteen ranks, cell 0 first.
    open spec fn view(&self) -> Seq<int> {
        Seq::new(16, |pos: int| nibble(self.0, pos))
    }
}

/// The bits of the transposed board: two rounds of masks and shifts, the
/// first within each half of the board, the second across the halves.
spec fn transpose_word(x: u64) -> u64 {
    let a = (x & 0xf0f0_0f0f_f0f0_0f0f) | ((x & 0x0000_f0f0_0000_f0f0) << 12) | ((x
        & 0x0f0f_0000_0f0f_0000) >> 12);
    (a & 0xff00_ff00_00ff_00ff) | ((a & 0x00ff_00ff_0000_0000) >> 24) | ((a
        & 0x0000_0000_ff00_ff00) << 24)
}

/// The bits of the board with its rows in the opposite order.
spec fn flip_horiz_word(x: u64) -> u64 {
    let a = (x & 0xffff_0000_ffff_0000) | ((x & 0x0000_ffff_0000_ffff) >> 32) | ((x
        & 0x0000_ffff_0000_ffff) << 32);
    (a << 16) | (a >> 48)
}

/// The bits of the board with the nibbles of each row in the opposite order.
spec fn flip_vert_word(x: u64) -> u64 {
    ((x & 0xf000_f000_f000_f000) >> 12) | ((x & 0x0f00_0f00_0f00_0f00) >> 4) | ((x
        & 0x00f0_00f0_00f0_00f0) << 4) | ((x & 0x000f_000f_000f_000f) << 12)
}

/// Shifts that stop at a nibble: a nibble is at most 15, shifting by four
/// more bits is one shift, and nothing is left above a shift that gives 0.
pub(crate) proof fn lemma_shift_steps(x: u64, s: u64, t: u64)
    by (bit_vector)
    requires
        s < 64,
        s % 4 == 0,
    ensures
        (x >> s) & 0xf <= 15,
        s < 60 ==> (x >> s) >> 4 == x >> ((s + 4) as u64),
        s == 60 ==> (x >> s) >> 4 == 0,
        x != 0 ==> x >> 4 < x,
        s <= t < 64 && x >> s == 0 ==> (x >> t) & 0xf == 0,
        x >> 0 == x,
{
}

/// A word is its sixteen nibbles put together.
proof fn lemma_word_from_nibbles(x: u64)
    by (bit_vector)
    ensures
        x == (x & 0xf) | (((x >> 4) & 0xf) << 4) | (((x >> 8) & 0xf) << 8) | (((x >> 12) & 0xf)
            << 12) | (((x >> 16) & 0xf) << 16) | (((x >> 20) & 0xf) << 20) | (((x >> 24) & 0xf)
            << 24) | (((x >> 28) & 0xf) << 28) | (((x >> 32) & 0xf) << 32) | (((x >> 36) & 0xf)
            << 36) | (((x >> 40) & 0xf) << 40) | (((x >> 44) & 0xf) << 44) | (((x >> 48) & 0xf)
            << 48) | (((x >> 52) & 0xf) << 52) | (((x >> 56) & 0xf) << 56) | (((x >> 60) & 0xf)
            << 60),
        x >> 0 == x,
{
}

/// The nibbles of sixteen ranks put together are those ranks.
proof fn lemma_nibbles_of_word(
    c0: u64,
    c1: u64,
    c2: u64,
    c3: u64,
    c4: u64,
    c5: u64,
    c6: u64,
    c7: u64,
    c8: u64,
    c9: u64,
    c10: u64,
    c11: u64,
    c12: u64,
    c13: u64,
    c14: u64,
    c15: u64,
)
    by (bit_vector)
    requires
        c0 <= 15,
        c1 <= 15,
        c2 <= 15,
        c3 <= 15,
        c4 <= 15,
        c5 <= 15,
        c6 <= 15,
        c7 <= 15,
        c8 <= 15,
        c9 <= 15,
        c10 <= 15,
        c11 <= 15,
        c12 <= 15,
        c13 <= 15,
        c14 <= 15,
        c15 <= 15,
    ensures
        ({
            let x = c0 | (c1 << 4) | (c2 << 8) | (c3 << 12) | (c4 << 16) | (c5 << 20) | (c6 << 24)
                | (c7 << 28) | (c8 << 32) | (c9 << 36) | (c10 << 40) | (c11 << 44) | (c12 << 48)
                | (c13 << 52) | (c14 << 56) | (c15 << 60);
            &&& (x >> 0) & 0xf == c0
            &&& (x >> 4) & 0xf == c1
            &&& (x >> 8) & 0xf == c2
            &&& (x >> 12) & 0xf == c3
            &&& (x >> 16) & 0xf == c4
            &&& (x >> 20) & 0xf == c5
            &&& (x >> 24) & 0xf == c6
            &&& (x >> 28) & 0xf == c7
            &&& (x >> 32) & 0xf == c8
            &&& (x >> 36) & 0xf == c9
            &&& (x >> 40) & 0xf == c10
            &&& (x >> 44) & 0xf == c11
            &&& (x >> 48) & 0xf == c12
            &&& (x >> 52) & 0xf == c13
            &&& (x >> 56) & 0xf == c14
            &&& (x >> 60) & 0xf == c15
        }),
{
}

/// Where the nibbles of a word go in its transposed form.
proof fn lemma_transpose_word(x: u64)
    by (bit_vector)
    ensures
        ({
            let t = transpose_word(x);
            &&& (t >> 0) & 0xf == (x >> 0) & 0xf
            &&& (t >> 4) & 0xf == (x >> 16) & 0xf
            &&& (t >> 8) & 0xf == (x >> 32) & 0xf
            &&& (t >> 12) & 0xf == (x >> 48) & 0xf
            &&& (t >> 16) & 0xf == (x >> 4) & 0xf
            &&& (t >> 20) & 0xf == (x >> 20) & 0xf
            &&& (t >> 24) & 0xf == (x >> 36) & 0xf
            &&& (t >> 28) & 0xf == (x >> 52) & 0xf
            &&& (t >> 32) & 0xf == (x >> 8) & 0xf
            &&& (t >> 36) & 0xf == (x >> 24) & 0xf
            &&& (t >> 40) & 0xf == (x >> 40) & 0xf
            &&& (t >> 44) & 0xf == (x >> 56) & 0xf
            &&& (t >> 48) & 0xf == (x >> 12) & 0xf
            &&& (t >> 52) & 0xf == (x >> 28) & 0xf
            &&& (t >> 56) & 0xf == (x >> 44) & 0xf
            &&& (t >> 60) & 0xf == (x >> 60) & 0xf
        }),
{
}

/// Where the nibbles of a word go when the rows change places.
proof fn lemma_flip_horiz_word(x: u64)
    by (bit_vector)
    ensures
        ({
            let t = flip_horiz_word(x);
            &&& (t >> 0) & 0xf == (x >> 48) & 0xf
            &&& (t >> 4) & 0xf == (x >> 52) & 0xf
            &&& (t >> 8) & 0xf == (x >> 56) & 0xf
            &&& (t >> 12) & 0xf == (x >> 60) & 0xf
            &&& (t >> 16) & 0xf == (x >> 32) & 0xf
            &&& (t >> 20) & 0xf == (x >> 36) & 0xf
            &&& (t >> 24) & 0xf == (x >> 40) & 0xf
            &&& (t >> 28) & 0xf == (x >> 44) & 0xf
            &&& (t >> 32) & 0xf == (x >> 16) & 0xf
            &&& (t >> 36) & 0xf == (x >> 20) & 0xf
            &&& (t >> 40) & 0xf == (x >> 24) & 0xf
            &&& (t >> 44) & 0xf == (x >> 28) & 0xf
            &&& (t >> 48) & 0xf == (x >> 0) & 0xf
            &&& (t >> 52) & 0xf == (x >> 4) & 0xf
            &&& (t >> 56) & 0xf == (x >> 8) & 0xf
            &&& (t >> 60) & 0xf == (x >> 12) & 0xf
        }),
{
}

/// Where the nibbles of a word go when each row is reversed.
proof fn lemma_flip_vert_word(x: u64)
    by (bit_vector)
    ensures
        ({
            let t = flip_vert_word(x);
            &&& (t >> 0) & 0xf == (x >> 12) & 0xf
            &&& (t >> 4) & 0xf == (x >> 8) & 0xf
            &&& (t >> 8) & 0xf == (x >> 4) & 0xf
            &&& (t >> 12) & 0xf == (x >> 0) & 0xf
            &&& (t >> 16) & 0xf == (x >> 28) & 0xf
            &&& (t >> 20) & 0xf == (x >> 24) & 0xf
            &&& (t >> 24) & 0xf == (x >> 20) & 0xf
            &&& (t >> 28) & 0xf == (x >> 16) & 0xf
            &&& (t >> 32) & 0xf == (x >> 44) & 0xf
            &&& (t >> 36) & 0xf == (x >> 40) & 0xf
            &&& (t >> 40) & 0xf == (x >> 36) & 0xf
            &&& (t >> 44) & 0xf == (x >> 32) & 0xf
            &&& (t >> 48) & 0xf == (x >> 60) & 0xf
            &&& (t >> 52) & 0xf == (x >> 56) & 0xf
            &&& (t >> 56) & 0xf == (x >> 52) & 0xf
            &&& (t >> 60) & 0xf == (x >> 48) & 0xf
        }),
{
}

/// Laying a rank over an empty nibble sets that nibble and no other.
proof fn lemma_set_nibble(x: u64, v: u64, shift: u64, other: u64)
    by (bit_vector)
    requires
        shift < 64,
        shift % 4 == 0,
        other < 64,
        other % 4 == 0,
        v <= 15,
        (x >> shift) & 0xf == 0,
    ensures
        ((x | (v << shift)) >> shift) & 0xf == v,
        other != shift ==> ((x | (v << shift)) >> other) & 0xf == (x >> other) & 0xf,
{
}

/// A word is 0 exactly when each of its nibbles is.
pub(crate) proof fn lemma_all_empty(x: u64)
    by (bit_vector)
    ensures
        x == 0 <==> ((x >> 0) & 0xf == 0 && (x >> 4) & 0xf == 0 && (x >> 8) & 0xf == 0 && (x >> 12)
            & 0xf == 0 && (x >> 16) & 0xf == 0 && (x >> 20) & 0xf == 0 && (x >> 24) & 0xf == 0 && (x
            >> 28) & 0xf == 0 && (x >> 32) & 0xf == 0 && (x >> 36) & 0xf == 0 && (x >> 40) & 0xf
            == 0 && (x >> 44) & 0xf == 0 && (x >> 48) & 0xf == 0 && (x >> 52) & 0xf == 0 && (x
            >> 56) & 0xf == 0 && (x >> 60) & 0xf == 0),
{
}

/// Two sequences of sixteen cells that agree cell by cell are equal.
pub proof fn lemma_cells_equal(a: Seq<int>, b: Seq<int>)
    requires
        a.len() == 16,
        b.len() == 16,
        a[0] == b[0],
        a[1] == b[1],
        a[2] == b[2],
        a[3] == b[3],
        a[4] == b[4],
        a[5] == b[5],
        a[6] == b[6],
        a[7] == b[7],
        a[8] == b[8],
        a[9] == b[9],
        a[10] == b[10],
        a[11] == b[11],
        a[12] == b[12],
        a[13] == b[13],
        a[14] == b[14],
        a[15] == b[15],
    ensures
        a == b,
{
}

/// Every cell of a board holds a rank in `0..=15`.
pub proof fn lemma_view_valid(b: Board)
    ensures
        valid_cells(b@),
{
    assert forall|pos: int| 0 <= pos < 16 implies 0 <= #[trigger] b@[pos] <= 15 by {
        lemma_shift_steps(b.0, (4 * pos) as u64, 0);
    }
}

/// A board is the packing of its own cells.
pub proof fn lemma_pack_view(b: Board)
    ensures
        Board(pack(b@)) == b,
{
    lemma_word_from_nibbles(b.0);
    lemma_view_valid(b);
}

/// The cells of a packed sequence are that sequence.
pub proof fn lemma_view_pack(cells: Seq<int>)
    requires
        valid_cells(cells),
    ensures
        Board(pack(cells))@ == cells,
{
    lemma_nibbles_of_word(
        cells[0] as u64,
        cells[1] as u64,
        cells[2] as u64,
        cells[3] as u64,
        cells[4] as u64,
        cells[5] as u64,
        cells[6] as u64,
        cells[7] as u64,
        cells[8] as u64,
        cells[9] as u64,
        cells[10] as u64,
        cells[11] as u64,
        cells[12] as u64,
        cells[13] as u64,
        cells[14] as u64,
        cells[15] as u64,
    );
    lemma_cells_equal(Board(pack(cells))@, cells);
}

/// Boards with the same cells are the same board.
pub proof fn lemma_view_injective(a: Board, b: Board)
    requires
        a@ == b@,
    ensures
        a == b,
{
    lemma_pack_view(a);
    lemma_pack_view(b);
}

/// Every cell of the board with no bit set is empty.
pub proof fn lemma_empty_board_cells()
    ensures
        forall|pos: int| 0 <= pos < 16 ==> #[trigger] Board(0)@[pos] == 0,
{
    assert forall|pos: int| 0 <= pos < 16 implies #[trigger] Board(0)@[pos] == 0 by {
        lemma_shift_steps(0, 0, (4 * pos) as u64);
    }
}

impl Board {
    /// The board whose cells are `cells`.
    pub open spec fn of_cells(cells: Seq<int>) -> Board {
        Board(pack(cells))
    }

    /// This board with rows and columns exchanged.
    pub open spec fn transposed(self) -> Board {
        Board::of_cells(transpose_cells(self@))
    }

    /// This board with the order of its rows reversed.
    pub open spec fn flipped_horiz(self) -> Board {
        Board::of_cells(flip_horiz_cells(self@))
    }

    /// This board with each row reversed.
    pub open spec fn flipped_vert(self) -> Board {
        Board::of_cells(flip_vert_cells(self@))
    }

    /// The rank of cell `tile`.
    pub fn get_tile(self, tile: i32) -> (rank: i32)
        requires
            0 <= tile < 16,
        ensures
            rank == self@[tile as int],
            0 <= rank <= 15,
    {
        let shift: u64 = (tile * 4) as u64;
        proof {
            lemma_shift_steps(self.0, shift, 0);
        }
        ((self.0 >> shift) & 0xf) as i32
    }

    /// Puts rank `val` into the empty cell `tile`. A `val` that is no rank
    /// is laid over the board bit by bit from that cell on.
    pub fn set_tile(self, tile: i32, val: i32) -> (board: Board)
        requires
            0 <= tile < 16,
            self@[tile as int] == 0,
        ensures
            board.0 == self.0 | ((val as u64) << ((4 * tile) as u64)),
            0 <= val <= 15 ==> board@ == self@.update(tile as int, val as int),
            0 <= val <= 15 ==> board == Board::of_cells(self@.update(tile as int, val as int)),
    {
        let shift: u64 = (tile * 4) as u64;
        let board = Board(self.0 | (val as u64) << shift);
        proof {
            if 0 <= val <= 15 {
                let want = self@.update(tile as int, val as int);
                assert forall|pos: int| 0 <= pos < 16 implies board@[pos] == want[pos] by {
                    lemma_set_nibble(self.0, val as u64, shift, (4 * pos) as u64);
                }
                lemma_pack_view(board);
            }
        }
        board
    }

    /// Exchanges rows and columns.
    pub fn transpose(self) -> (board: Board)
        ensures
            board@ == transpose_cells(self@),
            board == self.transposed(),
    {
        let a1 = self.0 & 0xf0f0_0f0f_f0f0_0f0f_u64;
        let a2 = self.0 & 0x0000_f0f0_0000_f0f0_u64;
        let a3 = self.0 & 0x0f0f_0000_0f0f_0000_u64;
        let a = a1 | (a2 << 12) | (a3 >> 12);
        let b1 = a & 0xff00_ff00_00ff_00ff_u64;
        let b2 = a & 0x00ff_00ff_0000_0000_u64;
        let b3 = a & 0x0000_0000_ff00_ff00_u64;
        let board = Board(b1 | (b2 >> 24) | (b3 << 24));
        proof {
            lemma_transpose_word(self.0);
            lemma_cells_equal(board@, transpose_cells(self@));
            lemma_pack_view(board);
        }
        board
    }

    /// Reverses the order of the rows.
    pub fn flip_horiz(self) -> (board: Board)
        ensures
            board@ == flip_horiz_cells(self@),
            board == self.flipped_horiz(),
    {
        let a1 = self.0 & 0xffff_0000_ffff_0000_u64;
        let a2 = self.0 & 0x0000_ffff_0000_ffff_u64;
        let a = a1 | (a2 >> 32) | (a2 << 32);
        let board = Board((a << 16) | (a >> 48));
        proof {
            lemma_flip_horiz_word(self.0);
            lemma_cells_equal(board@, flip_horiz_cells(self@));
            lemma_pack_view(board);
        }
        board
    }

    /// Reverses each row.
    pub fn flip_vert(self) -> (board: Board)
        ensures
            board@ == flip_vert_cells(self@),
            board == self.flipped_vert(),
    {
        let a1 = self.0 & 0xf000_f000_f000_f000_u64;
        let a2 = self.0 & 0x0f00_0f00_0f00_0f00_u64;
        let a3 = self.0 & 0x00f0_00f0_00f0_00f0_u64;
        let a4 = self.0 & 0x000f_000f_000f_000f_u64;
        let board = Board(a1 >> 12 | a2 >> 4 | a3 << 4 | a4 << 12);
        proof {
            lemma_flip_vert_word(self.0);
            lemma_cells_equal(board@, flip_vert_cells(self@));
            lemma_pack_view(board);
        }
        board
    }
}

} // verus!
