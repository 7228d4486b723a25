//! The parts of the search that decide rather than weigh: which moves a
//! player node may make, which cells a chance node may fill, where the
//! search stops, and which of the moves searched is the best.

use crate::board::Board;
use crate::single::{Single, ONE_BITS, ZERO_BITS};
use crate::tables::MoveTables;
use vstd::prelude::*;

verus! {

/// The direction number that stands for "no move".
pub const NO_MOVE: i32 = -1;

/// The bit pattern of one ten-thousandth: a node that is reached with less
/// probability than this is not searched further.
pub const CUTOFF_BITS: u32 = 0x38d1_b717;

/// One candidate move with what the search found for it: the expected
/// score and the probability that the game ends within the horizon.
#[derive(Debug, Copy, Clone, PartialEq, Eq, Structural)]
pub struct Choice {
    /// The direction of the move, or `NO_MOVE`.
    pub dir: i32,
    /// The expected score.
    pub score: Single,
    /// The probability of the end of the game.
    pub end_prob: Single,
}

impl Choice {
    /// The choice of a player who cannot move: no direction, a score of
    /// zero and certain death.
    pub open spec fn none() -> Choice {
        Choice { dir: NO_MOVE, score: Single(ZERO_BITS), end_prob: Single(ONE_BITS) }
    }

    /// The choice of a player who cannot move.
    pub fn no_move() -> (choice: Choice)
        ensures
            choice == Choice::none(),
    {
        Choice { dir: NO_MOVE, score: Single(ZERO_BITS), end_prob: Single(ONE_BITS) }
    }
}

/// The best of the first `n` results: going through them in order, a result
/// takes the lead only with a score greater than that of the leader, and
/// the lead starts with "no move" at a score of zero.
pub open spec fn best_below(results: Seq<Choice>, n: int) -> Choice
    decreases n,
{
    if n <= 0 {
        Choice::none()
    } else {
        let leader = best_below(results, n - 1);
        if results[n - 1].score.above(leader.score) {
            results[n - 1]
        } else {
            leader
        }
    }
}

/// The best of all the results.
pub open spec fn best_of(results: Seq<Choice>) -> Choice {
    best_below(results, results.len() as int)
}

/// The moves that change the board among directions `0..n`, each with the
/// board it leads to, in the order of the directions.
pub open spec fn moves_below(board: Board, n: int) -> Seq<(i32, Board)>
    decreases n,
{
    if n <= 0 {
        Seq::empty()
    } else if board.slid(n - 1) != board {
        moves_below(board, n - 1).push(((n - 1) as i32, board.slid(n - 1)))
    } else {
        moves_below(board, n - 1)
    }
}

/// The empty cells among the first `n` cells, in rising order.
pub open spec fn empty_cells_below(cells: Seq<int>, n: int) -> Seq<i32>
    decreases n,
{
    if n <= 0 {
        Seq::empty()
    } else if cells[n - 1] == 0 {
        empty_cells_below(cells, n - 1).push((n - 1) as i32)
    } else {
        empty_cells_below(cells, n - 1)
    }
}

/// The best of the results of a search: the first result whose score no
/// other exceeds, if that score is above zero, and "no move" otherwise.
pub fn select_best(results: &Vec<Choice>) -> (best: Choice)
    ensures
        best == best_of(results@),
{
    let mut best = Choice::no_move();
    let mut i: usize = 0;
    while i < results.len()
        invariant
            0 <= i <= results.len(),
            best == best_below(results@, i as int),
        decreases results.len() - i,
    {
        let candidate = results[i];
        if candidate.score.gt(best.score) {
            best = candidate;
        }
        i += 1;
    }
    best
}

/// What makes the best of the results the best: its score is a number and
/// is not below zero, no result has a greater score, and a result that
/// comes before it has a smaller score or none. It is "no move" exactly
/// when no result has a score above zero.
pub proof fn lemma_best_of(results: Seq<Choice>)
    ensures
        !best_of(results).score.nan(),
        best_of(results).score.key() >= 0,
        forall|i: int| 0 <= i < results.len() ==> !(#[trigger] results[i]).score.above(
            best_of(results).score),
        best_of(results) == Choice::none() || exists|i: int| 0 <= i < results.len() && results[i]
            == best_of(results) && results[i].score.above(Single(0)) && forall|j: int| 0 <= j < i
            ==> !(#[trigger] results[j]).score.nan() ==> best_of(results).score.above(
            results[j].score),
        (forall|i: int| 0 <= i < results.len() ==> !(#[trigger] results[i]).score.above(Single(0)))
            ==> best_of(results) == Choice::none(),
{
    lemma_best_below(results, results.len() as int);
}

/// What makes the best of the first `n` results the best.
proof fn lemma_best_below(results: Seq<Choice>, n: int)
    requires
        0 <= n <= results.len(),
    ensures
        !best_below(results, n).score.nan(),
        best_below(results, n).score.key() >= 0,
        forall|i: int| 0 <= i < n ==> !(#[trigger] results[i]).score.above(
            best_below(results, n).score),
        best_below(results, n) == Choice::none() || exists|i: int| 0 <= i < n && results[i]
            == best_below(results, n) && results[i].score.above(Single(0)) && forall|j: int| 0 <= j
            < i ==> !(#[trigger] results[j]).score.nan() ==> best_below(results, n).score.above(
            results[j].score),
        (forall|i: int| 0 <= i < n ==> !(#[trigger] results[i]).score.above(Single(0)))
            ==> best_below(results, n) == Choice::none(),
    decreases n,
{
    if n > 0 {
        lemma_best_below(results, n - 1);
        let leader = best_below(results, n - 1);
        let last = results[n - 1];
        if last.score.above(leader.score) {
            assert forall|j: int| 0 <= j < n - 1 && !(#[trigger] results[j]).score.nan() implies
                last.score.above(results[j].score) by {
                assert(!results[j].score.above(leader.score));
            }
        } else {
            if leader != Choice::none() {
                let i = choose|i: int|
                    0 <= i < n - 1 && results[i] == leader && results[i].score.above(Single(0))
                        && forall|j: int|
                        0 <= j < i ==> !(#[trigger] results[j]).score.nan()
                            ==> leader.score.above(results[j].score);
                assert(0 <= i < n && results[i] == best_below(results, n));
            }
        }
    }
}

/// Whether the search stops at a chance node with `depth` levels left that
/// is reached with probability `prob`: at depth 0, and below the cutoff
/// probability.
pub fn cutoff(depth: u8, prob: Single) -> (stop: bool)
    ensures
        stop == (depth == 0 || prob.below(Single(CUTOFF_BITS))),
{
    depth == 0 || prob.lt(Single(CUTOFF_BITS))
}

impl Board {
    /// The moves that change this board, each with the board it leads to,
    /// in the order right, down, left, up. A board without such a move is
    /// lost.
    pub fn moves(self, tables: &MoveTables) -> (moves: Vec<(i32, Board)>)
        ensures
            moves@ == moves_below(self, 4),
    {
        let mut moves: Vec<(i32, Board)> = Vec::new();
        let mut dir: i32 = 0;
        while dir < 4
            invariant
                0 <= dir <= 4,
                moves@ == moves_below(self, dir as int),
            decreases 4 - dir,
        {
            let next = self.slide(tables, dir);
            if next != self {
                moves.push((dir, next));
            }
            dir += 1;
        }
        moves
    }

    /// The empty cells of this board in rising order: the cells that a new
    /// tile may land on.
    pub fn empty_cells(self) -> (cells: Vec<i32>)
        ensures
            cells@ == empty_cells_below(self@, 16),
    {
        let mut cells: Vec<i32> = Vec::new();
        let mut pos: i32 = 0;
        while pos < 16
            invariant
                0 <= pos <= 16,
                cells@ == empty_cells_below(self@, pos as int),
            decreases 16 - pos,
        {
            if self.get_tile(pos) == 0 {
                cells.push(pos);
            }
            pos += 1;
        }
        cells
    }
}

} // verus!
