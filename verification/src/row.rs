//! One line of four cells: how it slides, and the same on its 16-bit code.

use vstd::prelude::*;

verus! {

/// The rank held by nibble `pos` of a row code.
pub open spec fn row_nibble(row: u16, pos: int) -> int {
    ((row >> ((4 * pos) as u16)) & 0xf) as int
}

/// The four cells of a row code, nibble 0 first.
pub open spec fn row_cells(row: u16) -> Seq<int> {
    Seq::new(4, |pos: int| row_nibble(row, pos))
}

/// The row code of four cells.
pub open spec fn pack_row(cells: Seq<int>) -> u16 {
    (cells[0] as u16) | ((cells[1] as u16) << 4) | ((cells[2] as u16) << 8) | ((cells[3] as u16)
        << 12)
}

/// Four ranks, each in `0..=15`.
pub open spec fn valid_row(cells: Seq<int>) -> bool {
    &&& cells.len() == 4
    &&& forall|pos: int| 0 <= pos < 4 ==> 0 <= #[trigger] cells[pos] <= 15
}

/// The tiles of a line in their order, the empty cells left out.
pub open spec fn tiles_of(cells: Seq<int>) -> Seq<int>
    decreases cells.len(),
{
    if cells.len() == 0 {
        Seq::empty()
    } else if cells[0] != 0 {
        seq![cells[0]] + tiles_of(cells.skip(1))
    } else {
        tiles_of(cells.skip(1))
    }
}

/// The rank that two merging tiles of rank `rank` make. Two tiles of the
/// highest rank still become one tile, of that same rank.
pub open spec fn promote(rank: int) -> int {
    if rank < 15 {
        rank + 1
    } else {
        rank
    }
}

/// The tiles after one move: going from the wall outwards, each tile merges
/// with its neighbour if that one has the same rank, and a merged tile does
/// not merge again.
pub open spec fn merge_tiles(tiles: Seq<int>) -> Seq<int>
    decreases tiles.len(),
{
    if tiles.len() < 2 {
        tiles
    } else if tiles[0] == tiles[1] {
        seq![promote(tiles[0])] + merge_tiles(tiles.skip(2))
    } else {
        seq![tiles[0]] + merge_tiles(tiles.skip(1))
    }
}

/// A line after sliding towards the wall at cell 0: the merged tiles lie
/// against the wall and the rest of the line is empty.
pub open spec fn slide_line(cells: Seq<int>) -> Seq<int> {
    let merged = merge_tiles(tiles_of(cells));
    Seq::new(
        cells.len(),
        |pos: int|
            if pos < merged.len() {
                merged[pos]
            } else {
                0
            },
    )
}

/// The row code after a slide to the right, towards nibble 0.
pub open spec fn slid_row_right(row: u16) -> u16 {
    pack_row(slide_line(row_cells(row)))
}

/// The row code after a slide to the left, towards nibble 3: the line is
/// read from nibble 3 down, slides, and is written back the same way.
pub open spec fn slid_row_left(row: u16) -> u16 {
    pack_row(slide_line(row_cells(row).reverse()).reverse())
}

/// The row code with its four nibbles in the opposite order.
pub open spec fn reversed_row(row: u16) -> u16 {
    pack_row(row_cells(row).reverse())
}

/// The bits of a row code with its nibbles in the opposite order.
spec fn reverse_row_word(row: u16) -> u16 {
    ((row & 0xf000) >> 12) | ((row & 0x0f00) >> 4) | ((row & 0x00f0) << 4) | ((row & 0x000f) << 12)
}

/// A row code is its four nibbles put together, each at most 15, and its
/// reversed form holds them in the opposite order.
proof fn lemma_row_from_nibbles(r: u16)
    by (bit_vector)
    ensures
        r == (r & 0xf) | (((r >> 4) & 0xf) << 4) | (((r >> 8) & 0xf) << 8) | (((r >> 12) & 0xf)
            << 12),
        r >> 0 == r,
        (r >> 0) & 0xf <= 15,
        (r >> 4) & 0xf <= 15,
        (r >> 8) & 0xf <= 15,
        (r >> 12) & 0xf <= 15,
        ({
            let t = reverse_row_word(r);
            &&& (t >> 0) & 0xf == (r >> 12) & 0xf
            &&& (t >> 4) & 0xf == (r >> 8) & 0xf
            &&& (t >> 8) & 0xf == (r >> 4) & 0xf
            &&& (t >> 12) & 0xf == (r >> 0) & 0xf
        }),
{
}

/// The nibbles of four ranks put together are those ranks.
proof fn lemma_nibbles_of_row(c0: u16, c1: u16, c2: u16, c3: u16)
    by (bit_vector)
    requires
        c0 <= 15,
        c1 <= 15,
        c2 <= 15,
        c3 <= 15,
    ensures
        ({
            let r = c0 | (c1 << 4) | (c2 << 8) | (c3 << 12);
            &&& (r >> 0) & 0xf == c0
            &&& (r >> 4) & 0xf == c1
            &&& (r >> 8) & 0xf == c2
            &&& (r >> 12) & 0xf == c3
        }),
        (c0 >> 0) & 0xf == c0,
        (c0 >> 4) & 0xf == 0,
        (c0 >> 8) & 0xf == 0,
        (c0 >> 12) & 0xf == 0,
{
}

/// Writing a rank into an empty nibble, or adding one to a nibble below
/// 15, changes that nibble and no other.
proof fn lemma_row_update(r: u16, v: u16, s: u16, o: u16)
    by (bit_vector)
    requires
        s < 16,
        s % 4 == 0,
        o < 16,
        o % 4 == 0,
        v <= 15,
    ensures
        (r >> s) & 0xf == 0 ==> ((r | (v << s)) >> s) & 0xf == v,
        (r >> s) & 0xf == 0 && o != s ==> ((r | (v << s)) >> o) & 0xf == (r >> o) & 0xf,
        (r >> s) & 0xf != 15 ==> r + (1u16 << s) <= 0xffff,
        (r >> s) & 0xf != 15 ==> (((r + (1u16 << s)) as u16) >> s) & 0xf == ((r >> s) & 0xf) + 1,
        (r >> s) & 0xf != 15 && o != s ==> (((r + (1u16 << s)) as u16) >> o) & 0xf == (r >> o)
            & 0xf,
{
}

/// Four-cell sequences that agree cell by cell are equal.
pub proof fn lemma_rows_equal(a: Seq<int>, b: Seq<int>)
    requires
        a.len() == 4,
        b.len() == 4,
        a[0] == b[0],
        a[1] == b[1],
        a[2] == b[2],
        a[3] == b[3],
    ensures
        a == b,
{
}

/// The cells of a row code are four ranks in range.
pub proof fn lemma_row_cells_valid(row: u16)
    ensures
        valid_row(row_cells(row)),
{
    lemma_row_from_nibbles(row);
}

/// The nibbles of a row code as its bits give them.
pub(crate) proof fn lemma_row_nibbles(row: u16)
    ensures
        row_cells(row)[0] == row & 0xf,
        row_cells(row)[1] == (row >> 4) & 0xf,
        row_cells(row)[2] == (row >> 8) & 0xf,
        row_cells(row)[3] == (row >> 12) & 0xf,
        valid_row(row_cells(row)),
{
    lemma_row_from_nibbles(row);
}

/// A row code is the packing of its own cells.
pub proof fn lemma_pack_row_cells(row: u16)
    ensures
        pack_row(row_cells(row)) == row,
{
    lemma_row_from_nibbles(row);
}

/// The cells of a packed row are the cells that were packed.
pub proof fn lemma_row_cells_pack(cells: Seq<int>)
    requires
        valid_row(cells),
    ensures
        row_cells(pack_row(cells)) == cells,
{
    lemma_nibbles_of_row(cells[0] as u16, cells[1] as u16, cells[2] as u16, cells[3] as u16);
    lemma_rows_equal(row_cells(pack_row(cells)), cells);
}

/// The tiles of a line that starts at cell `pos` are the tile on that cell,
/// if there is one, and then the tiles of the line after it.
proof fn lemma_tiles_of_step(cells: Seq<int>, pos: int)
    requires
        0 <= pos < cells.len(),
    ensures
        tiles_of(cells.skip(pos)) == if cells[pos] != 0 {
            seq![cells[pos]] + tiles_of(cells.skip(pos + 1))
        } else {
            tiles_of(cells.skip(pos + 1))
        },
{
    assert(cells.skip(pos).skip(1) =~= cells.skip(pos + 1));
}

/// What `merge_tiles` does with a first tile and the tile after it.
proof fn lemma_merge_step(first: int, second: int, rest: Seq<int>)
    ensures
        merge_tiles(seq![first] + (seq![second] + rest)) == if first == second {
            seq![promote(first)] + merge_tiles(rest)
        } else {
            seq![first] + merge_tiles(seq![second] + rest)
        },
{
    let tiles = seq![first] + (seq![second] + rest);
    assert(tiles.skip(2) =~= rest);
    assert(tiles.skip(1) =~= seq![second] + rest);
}

/// Merging never makes a line longer, and keeps ranks in `1..=15`.
pub proof fn lemma_merge_tiles_bounds(tiles: Seq<int>)
    requires
        forall|pos: int| 0 <= pos < tiles.len() ==> 1 <= #[trigger] tiles[pos] <= 15,
    ensures
        merge_tiles(tiles).len() <= tiles.len(),
        forall|pos: int|
            0 <= pos < merge_tiles(tiles).len() ==> 1 <= #[trigger] merge_tiles(tiles)[pos] <= 15,
    decreases tiles.len(),
{
    if tiles.len() >= 2 {
        if tiles[0] == tiles[1] {
            lemma_merge_tiles_bounds(tiles.skip(2));
        } else {
            lemma_merge_tiles_bounds(tiles.skip(1));
        }
    }
}

/// The tiles of a line are no more than its cells, and keep their ranks.
pub proof fn lemma_tiles_of_bounds(cells: Seq<int>)
    requires
        forall|pos: int| 0 <= pos < cells.len() ==> 0 <= #[trigger] cells[pos] <= 15,
    ensures
        tiles_of(cells).len() <= cells.len(),
        forall|pos: int|
            0 <= pos < tiles_of(cells).len() ==> 1 <= #[trigger] tiles_of(cells)[pos] <= 15,
    decreases cells.len(),
{
    if cells.len() > 0 {
        lemma_tiles_of_bounds(cells.skip(1));
    }
}

/// Sliding a valid row gives a valid row.
pub proof fn lemma_slide_line_valid(cells: Seq<int>)
    requires
        valid_row(cells),
    ensures
        valid_row(slide_line(cells)),
{
    lemma_tiles_of_bounds(cells);
    lemma_merge_tiles_bounds(tiles_of(cells));
}

/// The row code with its nibbles in the opposite order.
pub fn reverse_row(row: u16) -> (rev: u16)
    ensures
        row_cells(rev) == row_cells(row).reverse(),
        rev == reversed_row(row),
{
    let rev = ((row & 0xf000) >> 12) | ((row & 0x0f00) >> 4) | ((row & 0x00f0) << 4) | ((row
        & 0x000f) << 12);
    proof {
        lemma_row_from_nibbles(row);
        lemma_rows_equal(row_cells(rev), row_cells(row).reverse());
        lemma_pack_row_cells(rev);
    }
    rev
}

/// Slides one row to the right, towards nibble 0, merging equal neighbours.
pub fn slide_row_right(row: u16) -> (res: u16)
    ensures
        row_cells(res) == slide_line(row_cells(row)),
        res == slid_row_right(row),
{
    let vals: [u16; 4] = [row & 0xf, (row >> 4) & 0xf, (row >> 8) & 0xf, (row >> 12) & 0xf];
    let ghost cells = row_cells(row);
    proof {
        lemma_row_from_nibbles(row);
        lemma_nibbles_of_row(vals[0], 0, 0, 0);
    }
    let mut res: u16 = vals[0];
    let mut merge_val: u16 = vals[0];
    let mut dest_pos: i32 = if merge_val == 0 {
        -4
    } else {
        0
    };
    let ghost mut out: Seq<int> = if merge_val == 0 {
        Seq::empty()
    } else {
        seq![merge_val as int]
    };
    let mut pos: usize = 1;
    proof {
        lemma_tiles_of_step(cells, 0);
    }
    while pos < 4
        invariant
            1 <= pos <= 4,
            cells == row_cells(row),
            forall|j: int| 0 <= j < 4 ==> vals@[j] == #[trigger] cells[j],
            forall|j: int| 0 <= j < 4 ==> 0 <= #[trigger] cells[j] <= 15,
            dest_pos == 4 * out.len() - 4,
            out.len() <= pos,
            forall|j: int| 0 <= j < out.len() ==> 1 <= #[trigger] out[j] <= 15,
            forall|j: int|
                0 <= j < 4 ==> #[trigger] row_nibble(res, j) == if j < out.len() {
                    out[j]
                } else {
                    0
                },
            0 <= merge_val <= 15,
            merge_val != 0 ==> out.len() > 0 && out[out.len() - 1] == merge_val,
            merge_tiles(tiles_of(cells)) == if merge_val != 0 {
                out.drop_last() + merge_tiles(
                    seq![merge_val as int] + tiles_of(cells.skip(pos as int)),
                )
            } else {
                out + merge_tiles(tiles_of(cells.skip(pos as int)))
            },
        decreases 4 - pos,
    {
        let val = vals[pos];
        let ghost rest = tiles_of(cells.skip(pos as int + 1));
        let ghost before = out;
        let ghost old_res = res;
        proof {
            lemma_tiles_of_step(cells, pos as int);
        }
        if val == 0 {
        } else if val == merge_val {
            let shift: u16 = dest_pos as u16;
            proof {
                lemma_merge_step(merge_val as int, val as int, rest);
                lemma_row_update(res, 0, shift, 0);
                lemma_row_update(res, 0, shift, 4);
                lemma_row_update(res, 0, shift, 8);
                lemma_row_update(res, 0, shift, 12);
            }
            if (res >> shift) & 0xf != 15 {
                res += 1u16 << shift;
            }
            merge_val = 0;
            proof {
                out = before.update(before.len() - 1, promote(val as int));
                assert(row_nibble(old_res, 0) == if 0 < before.len() {
                    before[0]
                } else {
                    0
                });
                assert(row_nibble(old_res, 1) == if 1 < before.len() {
                    before[1]
                } else {
                    0
                });
                assert(row_nibble(old_res, 2) == if 2 < before.len() {
                    before[2]
                } else {
                    0
                });
                assert(row_nibble(old_res, 3) == if 3 < before.len() {
                    before[3]
                } else {
                    0
                });
            }
        } else {
            dest_pos += 4;
            let shift: u16 = dest_pos as u16;
            proof {
                if merge_val != 0 {
                    lemma_merge_step(merge_val as int, val as int, rest);
                }
                lemma_row_update(res, val, shift, 0);
                lemma_row_update(res, val, shift, 4);
                lemma_row_update(res, val, shift, 8);
                lemma_row_update(res, val, shift, 12);
            }
            merge_val = val;
            res |= val << shift;
            proof {
                out = before.push(val as int);
                assert(row_nibble(old_res, 0) == if 0 < before.len() {
                    before[0]
                } else {
                    0
                });
                assert(row_nibble(old_res, 1) == if 1 < before.len() {
                    before[1]
                } else {
                    0
                });
                assert(row_nibble(old_res, 2) == if 2 < before.len() {
                    before[2]
                } else {
                    0
                });
                assert(row_nibble(old_res, 3) == if 3 < before.len() {
                    before[3]
                } else {
                    0
                });
            }
        }
        pos += 1;
    }
    proof {
        assert(merge_tiles(tiles_of(cells)) =~= out);
        lemma_rows_equal(row_cells(res), slide_line(cells));
        lemma_pack_row_cells(res);
    }
    res
}

} // verus!
