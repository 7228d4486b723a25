//! One game: the board, the count of tiles that entered as a 4, and the
//! spawner, moved on by the moves that the player chooses.

use crate::board::{lemma_empty_board_cells, lemma_view_injective, lemma_view_valid, Board};
use crate::census::{
    count_empty, lemma_count_empty_bounds, lemma_empty_cell_counted, lemma_score_below_bounds,
    tiles_score,
};
use crate::row::{merge_tiles, slide_line, tiles_of};
use crate::search::NO_MOVE;
use crate::slide::{lemma_slid_view, line, line_index, line_of, place_of, slide_cells};
use crate::spawner::{next_seed, spawn_cell, spawn_cells, spawn_tile, TileSpawner};
use crate::tables::MoveTables;
use vstd::prelude::*;

verus! {

/// The most tiles of rank 2 that a game keeps count of.
pub const MAX_FOURS: i32 = 0x1000_0000;

/// A line of tiles that all stay apart is the line.
proof fn lemma_full_line_of_tiles(cells: Seq<int>)
    requires
        tiles_of(cells).len() == cells.len(),
    ensures
        tiles_of(cells) == cells,
    decreases cells.len(),
{
    if cells.len() > 0 {
        lemma_tiles_of_len(cells.skip(1));
        lemma_full_line_of_tiles(cells.skip(1));
    }
}

/// A line has no more tiles than cells.
proof fn lemma_tiles_of_len(cells: Seq<int>)
    ensures
        tiles_of(cells).len() <= cells.len(),
    decreases cells.len(),
{
    if cells.len() > 0 {
        lemma_tiles_of_len(cells.skip(1));
    }
}

/// Merging makes a line no longer, and leaves a line of the same length
/// as it was.
proof fn lemma_merge_len(tiles: Seq<int>)
    ensures
        merge_tiles(tiles).len() <= tiles.len(),
        merge_tiles(tiles).len() == tiles.len() ==> merge_tiles(tiles) == tiles,
    decreases tiles.len(),
{
    if tiles.len() >= 2 {
        if tiles[0] == tiles[1] {
            lemma_merge_len(tiles.skip(2));
        } else {
            lemma_merge_len(tiles.skip(1));
        }
    }
}

/// A line that a slide changes has an empty cell at its far end afterwards.
pub proof fn lemma_changed_line_has_room(cells: Seq<int>)
    requires
        cells.len() == 4,
        slide_line(cells) != cells,
    ensures
        slide_line(cells)[3] == 0,
{
    let tiles = tiles_of(cells);
    let merged = merge_tiles(tiles);
    lemma_tiles_of_len(cells);
    lemma_merge_len(tiles);
    if merged.len() == 4 {
        lemma_full_line_of_tiles(cells);
        assert(slide_line(cells) =~= cells);
    }
}

/// A move that changes the board leaves an empty cell for the next tile.
pub proof fn lemma_changed_slide_has_room(b: Board, dir: int)
    requires
        0 <= dir < 4,
        b.slid(dir) != b,
    ensures
        count_empty(b.slid(dir)@) > 0,
{
    let before = b@;
    let after = slide_cells(before, dir);
    lemma_slid_view(b, dir);
    if forall|k: int| 0 <= k < 4 ==> slide_line(#[trigger] line(before, dir, k)) == line(
        before,
        dir,
        k,
    ) {
        assert forall|pos: int| 0 <= pos < 16 implies after[pos] == before[pos] by {
            let k = line_of(dir, pos);
            let j = place_of(dir, pos);
            assert(line(before, dir, k)[j] == before[pos]);
        }
        assert(after =~= before);
        lemma_view_injective(b.slid(dir), b);
    } else {
        let k = choose|k: int| 0 <= k < 4 && slide_line(#[trigger] line(before, dir, k)) != line(
            before,
            dir,
            k,
        );
        lemma_changed_line_has_room(line(before, dir, k));
        let pos = line_index(dir, k, 3);
        assert(after[pos] == slide_line(line(before, dir, k))[3]);
        lemma_empty_cell_counted(after, pos);
    }
}

/// The state of a game after a tile has been placed: the board with the
/// tile, the count of 4s, and the seed after the two draws.
pub open spec fn after_spawn(state: (Board, int, u32)) -> (Board, int, u32) {
    (
        Board::of_cells(spawn_cells(state.0@, state.2)),
        state.1 + spawn_tile(state.2) - 1,
        next_seed(next_seed(state.2)),
    )
}

/// Some tile on the board has rank `rank` or more.
pub open spec fn reaches(cells: Seq<int>, rank: int) -> bool {
    exists|pos: int| 0 <= pos < 16 && #[trigger] cells[pos] >= rank
}

/// A game in progress.
pub struct Game {
    board: Board,
    fours: i32,
    spawner: TileSpawner,
}

impl Game {
    /// The count of 4s stays within what the score can take.
    #[verifier::type_invariant]
    spec fn counted(self) -> bool {
        0 <= self.fours <= MAX_FOURS
    }

    /// The board, the number of tiles that entered as a 4, and the seed.
    pub closed spec fn state(self) -> (Board, int, u32) {
        (self.board, self.fours as int, self.spawner@)
    }

    /// The state of a new game from `seed`: the empty board with two tiles
    /// placed.
    pub open spec fn opening(seed: u32) -> (Board, int, u32) {
        after_spawn(after_spawn((Board(0), 0, seed)))
    }

    /// A new game: two tiles on an empty board.
    pub fn new(seed: u32) -> (game: Game)
        ensures
            game.state() == Game::opening(seed),
    {
        let mut board = Board(0);
        let mut spawner = TileSpawner::new(seed);
        proof {
            lemma_count_empty_bounds(board);
        }
        let first = board.comp_move(&mut spawner);
        proof {
            let cell = spawn_cell(Board(0)@, seed);
            let other = if cell == 0 {
                1int
            } else {
                0int
            };
            lemma_empty_board_cells();
            lemma_empty_cell_counted(board@, other);
        }
        let second = board.comp_move(&mut spawner);
        Game { board, fours: first + second, spawner }
    }

    /// The board.
    pub fn board(&self) -> (board: Board)
        ensures
            board == self.state().0,
    {
        self.board
    }

    /// The number of tiles that entered as a 4.
    pub fn fours(&self) -> (fours: i32)
        ensures
            fours == self.state().1,
            0 <= fours <= MAX_FOURS,
    {
        proof {
            use_type_invariant(self);
        }
        self.fours
    }

    /// The seed that the next tile will be drawn from.
    pub fn seed(&self) -> (seed: u32)
        ensures
            seed == self.state().2,
    {
        self.spawner.seed()
    }

    /// Makes the move `dir` if it changes the board, and then places a new
    /// tile. A move that changes nothing is not made: the game stays as it
    /// is and the answer is `false`.
    pub fn step(&mut self, tables: &MoveTables, dir: i32) -> (moved: bool)
        requires
            0 <= dir < 4,
            old(self).state().1 < MAX_FOURS,
        ensures
            moved == (old(self).state().0.slid(dir as int) != old(self).state().0),
            !moved ==> final(self).state() == old(self).state(),
            moved ==> final(self).state() == after_spawn(
                (old(self).state().0.slid(dir as int), old(self).state().1, old(self).state().2),
            ),
    {
        proof {
            use_type_invariant(&*self);
        }
        let next = self.board.slide(tables, dir);
        if next == self.board {
            return false;
        }
        proof {
            lemma_changed_slide_has_room(self.board, dir as int);
        }
        let mut board = next;
        let mut spawner = self.spawner;
        let four = board.comp_move(&mut spawner);
        self.board = board;
        self.spawner = spawner;
        self.fours = self.fours + four;
        true
    }

    /// Whether the game ends here: the player found no move, or a limit
    /// `until` above 0 was set and some tile has reached that rank.
    pub fn finished(&self, until: i32, bestdir: i32) -> (over: bool)
        ensures
            over == (bestdir == NO_MOVE || (until > 0 && reaches(self.state().0@, until as int))),
    {
        let max = self.board.max_val();
        proof {
            let cells = self.board@;
            if max >= until {
                let at = choose|pos: int| 0 <= pos < 16 && cells[pos] == max;
                assert(cells[at] >= until);
            }
        }
        (until > 0 && max >= until) || bestdir == NO_MOVE
    }

    /// The score of the game.
    pub fn score(&self) -> (score: i32)
        ensures
            score == tiles_score(self.state().0@) - 4 * self.state().1,
    {
        proof {
            use_type_invariant(self);
            lemma_view_valid(self.board);
            lemma_score_below_bounds(self.board@, 16);
        }
        self.board.game_score(self.fours)
    }
}

} // verus!
