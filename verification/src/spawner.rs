//! New tiles: a small deterministic generator and the placement of a tile
//! on an empty cell that it picks.

use crate::board::{lemma_empty_board_cells, Board};
use crate::census::{count_empty, empty_below, lemma_count_empty_bounds};
use vstd::prelude::*;

verus! {

/// The seed that a game starts from when none is given.
pub const DEFAULT_SEED: u32 = 0x17004711;

/// The state that follows `seed`: three shifts, each folded in by
/// exclusive or.
pub open spec fn next_seed(seed: u32) -> u32 {
    let a = seed ^ (seed << 13);
    let b = a ^ (a >> 17);
    b ^ (b << 5)
}

/// The first cell at or after `from` that is empty and has `n` empty cells
/// between `from` and itself; the length of `cells` if there is none.
pub open spec fn nth_empty_from(cells: Seq<int>, from: int, n: int) -> int
    decreases cells.len() - from,
{
    if from < 0 || from >= cells.len() {
        cells.len() as int
    } else if cells[from] != 0 {
        nth_empty_from(cells, from + 1, n)
    } else if n == 0 {
        from
    } else {
        nth_empty_from(cells, from + 1, n - 1)
    }
}

/// The empty cell that has exactly `n` empty cells before it.
pub open spec fn nth_empty(cells: Seq<int>, n: int) -> int {
    nth_empty_from(cells, 0, n)
}

/// The rank of a new tile: one draw in ten gives a 4, rank 2, the others a
/// 2, rank 1.
pub open spec fn spawn_rank(draw: u32) -> int {
    if draw % 10 == 0 {
        2
    } else {
        1
    }
}

/// The cell that a spawner at `seed` picks on a board with an empty cell:
/// its first draw, reduced modulo the number of empty cells, counts the
/// empty cells from cell 0 upwards.
pub open spec fn spawn_cell(cells: Seq<int>, seed: u32) -> int {
    nth_empty(cells, (next_seed(seed) as int) % count_empty(cells))
}

/// The rank of the tile that a spawner at `seed` places, from its second
/// draw.
pub open spec fn spawn_tile(seed: u32) -> int {
    spawn_rank(next_seed(next_seed(seed)))
}

/// The cells after a spawner at `seed` has placed a tile.
pub open spec fn spawn_cells(cells: Seq<int>, seed: u32) -> Seq<int> {
    cells.update(spawn_cell(cells, seed), spawn_tile(seed))
}

/// The source of the draws that place new tiles. Its whole state is one
/// 32-bit seed, so a game that starts from the same seed and makes the same
/// moves sees the same tiles.
#[derive(Debug, Copy, Clone, PartialEq, Eq)]
pub struct TileSpawner {
    seed: u32,
}

impl View for TileSpawner {
    type V = u32;

    /// The current seed.
    closed spec fn view(&self) -> u32 {
        self.seed
    }
}

impl TileSpawner {
    /// A spawner that starts from `seed`.
    pub fn new(seed: u32) -> (spawner: TileSpawner)
        ensures
            spawner@ == seed,
    {
        TileSpawner { seed }
    }

    /// The current seed.
    pub fn seed(&self) -> (seed: u32)
        ensures
            seed == self@,
    {
        self.seed
    }

    /// Steps the seed and returns the new seed reduced modulo `max`.
    pub fn draw(&mut self, max: u32) -> (draw: u32)
        requires
            max > 0,
        ensures
            final(self)@ == next_seed(old(self)@),
            draw == next_seed(old(self)@) % max,
            draw < max,
    {
        let mut x = self.seed;
        x ^= x << 13;
        x ^= x >> 17;
        x ^= x << 5;
        self.seed = x;
        x % max
    }

    /// Steps the seed and returns the new seed reduced modulo `max`, for a
    /// caller that counts in signed numbers.
    pub fn rng(&mut self, max: i32) -> (draw: i32)
        requires
            max > 0,
        ensures
            final(self)@ == next_seed(old(self)@),
            draw == next_seed(old(self)@) % (max as u32),
            0 <= draw < max,
    {
        self.draw(max as u32) as i32
    }
}

/// A board with an empty cell has a `n`-th empty cell for every `n` below
/// the number of its empty cells, and that cell has `n` empty cells before
/// it.
pub proof fn lemma_nth_empty(cells: Seq<int>, n: int)
    requires
        cells.len() == 16,
        0 <= n < count_empty(cells),
    ensures
        0 <= nth_empty(cells, n) < 16,
        cells[nth_empty(cells, n)] == 0,
        empty_below(cells, nth_empty(cells, n)) == n,
{
    lemma_nth_empty_from(cells, 0, n);
}

/// The search from cell `from` finds an empty cell, with `n` empty cells
/// between `from` and it, if the board has that many left.
proof fn lemma_nth_empty_from(cells: Seq<int>, from: int, n: int)
    requires
        cells.len() == 16,
        0 <= from <= 16,
        0 <= n,
        empty_below(cells, from) + n < count_empty(cells),
    ensures
        from <= nth_empty_from(cells, from, n) < 16,
        cells[nth_empty_from(cells, from, n)] == 0,
        empty_below(cells, nth_empty_from(cells, from, n)) == empty_below(cells, from) + n,
    decreases 16 - from,
{
    if from < 16 {
        if cells[from] != 0 {
            lemma_nth_empty_from(cells, from + 1, n);
        } else if n != 0 {
            lemma_nth_empty_from(cells, from + 1, n - 1);
        }
    }
}

/// On a line of empty cells the `n`-th empty cell from `from` is `n` cells
/// further on.
proof fn lemma_nth_empty_of_empty_line(cells: Seq<int>, from: int, n: int)
    requires
        0 <= from,
        0 <= n,
        from + n < cells.len(),
        forall|pos: int| 0 <= pos < cells.len() ==> #[trigger] cells[pos] == 0,
    ensures
        nth_empty_from(cells, from, n) == from + n,
    decreases n,
{
    if n > 0 {
        lemma_nth_empty_of_empty_line(cells, from + 1, n - 1);
    }
}

/// On the empty board every cell can be drawn: the tile lands on the cell
/// whose number is the first draw reduced modulo 16.
pub proof fn lemma_spawn_on_empty_board(seed: u32)
    ensures
        count_empty(Board(0)@) == 16,
        spawn_cell(Board(0)@, seed) == next_seed(seed) % 16,
{
    lemma_count_empty_bounds(Board(0));
    lemma_empty_board_cells();
    lemma_nth_empty_of_empty_line(Board(0)@, 0, (next_seed(seed) % 16) as int);
}

impl Board {
    /// Places a new tile: the spawner draws one of the empty cells, counted
    /// from cell 0 upwards, then draws the rank. Returns 1 if the tile is a
    /// 4 and 0 if it is a 2.
    pub fn comp_move(&mut self, spawner: &mut TileSpawner) -> (four: i32)
        requires
            count_empty(old(self)@) > 0,
        ensures
            final(spawner)@ == next_seed(next_seed(old(spawner)@)),
            0 <= spawn_cell(old(self)@, old(spawner)@) < 16,
            old(self)@[spawn_cell(old(self)@, old(spawner)@)] == 0,
            final(self)@ == spawn_cells(old(self)@, old(spawner)@),
            *final(self) == Board::of_cells(spawn_cells(old(self)@, old(spawner)@)),
            four == spawn_tile(old(spawner)@) - 1,
    {
        let ghost cells = self@;
        proof {
            lemma_count_empty_bounds(*self);
        }
        let size = if self.0 == 0 {
            16
        } else {
            self.empty()
        };
        let mut n = spawner.rng(size);
        let ghost wanted = n as int;
        proof {
            lemma_nth_empty(cells, wanted);
        }
        let mut pos: i32 = -1;
        while n >= 0
            invariant
                cells == self@,
                -1 <= pos < 16,
                -1 <= n <= wanted,
                0 <= wanted < count_empty(cells),
                n >= 0 ==> empty_below(cells, pos + 1) + n == wanted,
                n >= 0 ==> nth_empty_from(cells, pos + 1, n as int) == nth_empty(cells, wanted),
                n < 0 ==> 0 <= pos && pos == nth_empty(cells, wanted),
            decreases 16 - pos,
        {
            pos += 1;
            if self.get_tile(pos) == 0 {
                n -= 1;
            }
        }
        let four = spawner.rng(10) == 0;
        let rank: i32 = if four {
            2
        } else {
            1
        };
        let placed = self.set_tile(pos, rank);
        self.0 = placed.0;
        if four {
            1
        } else {
            0
        }
    }
}

} // verus!
