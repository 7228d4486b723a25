//! What the static evaluation counts in a row before it weighs: the empty
//! cells, and the tiles that could merge.

use crate::census::empty_below;
use crate::row::{row_cells, tiles_of};
use vstd::prelude::*;

verus! {

/// The counts of one row.
#[derive(Debug, Copy, Clone, PartialEq, Eq, Structural)]
pub struct RowStats {
    /// The number of empty cells.
    pub empties: u8,
    /// The number of tiles that lie next to a tile of their own rank, empty
    /// cells between them not counted.
    pub merges: u8,
}

/// Tile `i` has a neighbour of its own rank.
pub open spec fn paired(tiles: Seq<int>, i: int) -> bool {
    ||| 0 < i < tiles.len() && tiles[i - 1] == tiles[i]
    ||| 0 <= i < tiles.len() - 1 && tiles[i + 1] == tiles[i]
}

/// The number of tiles among the first `n` that have a neighbour of their
/// own rank.
pub open spec fn paired_below(tiles: Seq<int>, n: int) -> int
    decreases n,
{
    if n <= 0 {
        0
    } else {
        paired_below(tiles, n - 1) + if paired(tiles, n - 1) {
            1int
        } else {
            0int
        }
    }
}

/// The number of tiles of a line that could merge with a neighbour.
pub open spec fn mergeable_tiles(cells: Seq<int>) -> int {
    paired_below(tiles_of(cells), tiles_of(cells).len() as int)
}

/// The state of the count after the first `n` cells: the empty cells, the
/// tiles counted in runs that have ended, the tiles after the first in the
/// run that is open, and the rank of the last tile.
spec fn counted(cells: Seq<int>, n: int) -> (int, int, int, int)
    decreases n,
{
    if n <= 0 {
        (0, 0, 0, 0)
    } else {
        let (empties, merges, counter, prev) = counted(cells, n - 1);
        let rank = cells[n - 1];
        if rank == 0 {
            (empties + 1, merges, counter, prev)
        } else if prev == rank {
            (empties, merges, counter + 1, rank)
        } else if counter > 0 {
            (empties, merges + 1 + counter, 0, rank)
        } else {
            (empties, merges, counter, rank)
        }
    }
}

/// After four cells the count holds the empty cells, and the runs that
/// have ended and the run that is open hold the tiles that could merge.
proof fn lemma_counted(cells: Seq<int>)
    requires
        cells.len() == 4,
    ensures
        ({
            let (empties, merges, counter, prev) = counted(cells, 4);
            &&& empties == empty_below(cells, 4)
            &&& 0 <= empties <= 4
            &&& 0 <= merges
            &&& 0 <= counter
            &&& merges + counter <= 3
            &&& mergeable_tiles(cells) == if counter > 0 {
                merges + 1 + counter
            } else {
                merges
            }
        }),
{
    reveal_with_fuel(counted, 5);
    reveal_with_fuel(empty_below, 5);
    reveal_with_fuel(tiles_of, 5);
    reveal_with_fuel(paired_below, 5);
    let tiles = tiles_of(cells);
}

/// Counts the empty cells of a row and the tiles of it that could merge.
pub fn row_stats(row: u16) -> (stats: RowStats)
    ensures
        stats.empties == empty_below(row_cells(row), 4),
        stats.merges == mergeable_tiles(row_cells(row)),
{
    let vals: [u16; 4] = [row & 0xf, (row >> 4) & 0xf, (row >> 8) & 0xf, (row >> 12) & 0xf];
    let ghost cells = row_cells(row);
    proof {
        crate::row::lemma_row_nibbles(row);
        lemma_counted(cells);
    }
    let mut empties: u8 = 0;
    let mut merges: u8 = 0;
    let mut counter: u8 = 0;
    let mut prev: u16 = 0;
    let mut pos: usize = 0;
    while pos < 4
        invariant
            0 <= pos <= 4,
            cells.len() == 4,
            forall|j: int| 0 <= j < 4 ==> vals@[j] == #[trigger] cells[j],
            counted(cells, pos as int) == (empties as int, merges as int, counter as int, prev as int),
            empties <= pos,
            merges + counter <= pos,
        decreases 4 - pos,
    {
        let rank = vals[pos];
        if rank == 0 {
            empties += 1;
        } else {
            if prev == rank {
                counter += 1;
            } else if counter > 0 {
                merges += 1 + counter;
                counter = 0;
            }
            prev = rank;
        }
        pos += 1;
    }
    if counter > 0 {
        merges += 1 + counter;
    }
    RowStats { empties, merges }
}

} // verus!
