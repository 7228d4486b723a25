//! The search of the game tree: chance nodes, where a tile appears, and
//! player nodes, where a move is chosen, each searched to a depth and with
//! the probability of reaching it in hand.
//!
//! The search says exactly which nodes are visited, what is kept in the
//! cache and which move is chosen. What it does not do is arithmetic on
//! scores and probabilities: those are real numbers, and the sums and means
//! of them are asked of a function that the caller brings.

use crate::board::Board;
use crate::cache::{CacheEntry, TranspositionCache};
use crate::search::{
    best_of, cutoff, empty_cells_below, moves_below, select_best, Choice, CUTOFF_BITS,
};
use crate::single::{Single, ZERO_BITS};
use crate::tables::MoveTables;
use vstd::prelude::*;

verus! {

/// A question that the search asks of the caller's arithmetic. Every answer
/// is a pair of numbers.
#[derive(Debug, Copy, Clone)]
pub enum Ask {
    /// The value of a board at the horizon of the search, as the first
    /// number of the answer.
    Leaf(Board),
    /// The probabilities of the two nodes below one empty cell, the one
    /// with a 2 and the one with a 4, when the node above is reached with
    /// the probability given and has so many empty cells.
    Split(Single, u32),
    /// The sums of scores and of end probabilities, with one more cell
    /// taken in: the sums so far, then what the search found with a 2 on
    /// the cell, then what it found with a 4.
    Add((Single, Single), (Single, Single), (Single, Single)),
    /// The means that the sums over so many empty cells give.
    Mean((Single, Single), u32),
}

/// The caller's arithmetic may be asked anything.
pub open spec fn answers_all<F: Fn(Ask) -> (Single, Single)>(f: F) -> bool {
    forall|ask: Ask| call_requires(f, (ask,))
}

/// The caller's arithmetic gives one answer to one question.
pub open spec fn answers_once<F: Fn(Ask) -> (Single, Single)>(f: F) -> bool {
    forall|ask: Ask, first: (Single, Single), second: (Single, Single)|
        #![trigger call_ensures(f, (ask,), first), call_ensures(f, (ask,), second)]
        call_ensures(f, (ask,), first) && call_ensures(f, (ask,), second) ==> first == second
}

/// The answer to `ask`.
pub open spec fn answer<F: Fn(Ask) -> (Single, Single)>(f: F, ask: Ask) -> (Single, Single) {
    choose|reply: (Single, Single)| call_ensures(f, (ask,), reply)
}

/// What the search of a chance node finds, and the cache that it leaves:
/// at the horizon the value of the board and no risk; else what the cache
/// holds from a search at least as deep; else the means over the empty
/// cells, which are then kept in the cache.
pub open spec fn chance<F: Fn(Ask) -> (Single, Single)>(
    f: F,
    board: Board,
    depth: nat,
    prob: Single,
    cache: Map<u64, CacheEntry>,
) -> ((Single, Single), Map<u64, CacheEntry>)
    decreases depth, 3int, 0int,
{
    if depth == 0 || prob.below(Single(CUTOFF_BITS)) {
        ((answer(f, Ask::Leaf(board)).0, Single(ZERO_BITS)), cache)
    } else if TranspositionCache::hit(cache, board, depth as u8) is Some {
        let entry = TranspositionCache::hit(cache, board, depth as u8)->0;
        ((entry.score, entry.end_prob), cache)
    } else {
        let cells = empty_cells_below(board@, 16);
        let probs = answer(f, Ask::Split(prob, cells.len() as u32));
        let (sums, searched) = chance_cells(
            f,
            board,
            depth,
            probs,
            cells,
            cells.len() as int,
            cache,
        );
        let means = answer(f, Ask::Mean(sums, cells.len() as u32));
        (
            means,
            searched.insert(
                board.0,
                (CacheEntry { depth: depth as i32, score: means.0, end_prob: means.1 }),
            ),
        )
    }
}

/// The sums over the first `n` of the empty cells `cells`, and the cache
/// after the searches below them: for each cell a player node with a 2 on
/// it, then one with a 4.
pub open spec fn chance_cells<F: Fn(Ask) -> (Single, Single)>(
    f: F,
    board: Board,
    depth: nat,
    probs: (Single, Single),
    cells: Seq<i32>,
    n: int,
    cache: Map<u64, CacheEntry>,
) -> ((Single, Single), Map<u64, CacheEntry>)
    decreases depth, 2int, n,
{
    if n <= 0 || depth == 0 {
        ((Single(ZERO_BITS), Single(ZERO_BITS)), cache)
    } else {
        let (sums, before) = chance_cells(f, board, depth, probs, cells, n - 1, cache);
        let cell = cells[n - 1] as int;
        let (with_two, between) = player(
            f,
            Board::of_cells(board@.update(cell, 1)),
            depth,
            probs.0,
            before,
        );
        let (with_four, after) = player(
            f,
            Board::of_cells(board@.update(cell, 2)),
            depth,
            probs.1,
            between,
        );
        (answer(f, Ask::Add(sums, with_two, with_four)), after)
    }
}

/// What the search of a player node finds, and the cache that it leaves:
/// the best of the moves that change the board, each searched as a chance
/// node one level down, and "no move" where there is none.
pub open spec fn player<F: Fn(Ask) -> (Single, Single)>(
    f: F,
    board: Board,
    depth: nat,
    prob: Single,
    cache: Map<u64, CacheEntry>,
) -> ((Single, Single), Map<u64, CacheEntry>)
    decreases depth, 1int, 0int,
{
    if depth == 0 {
        ((Single(ZERO_BITS), Single(ZERO_BITS)), cache)
    } else {
        let moves = moves_below(board, 4);
        let (results, searched) = player_moves(f, depth, prob, moves, moves.len() as int, cache);
        ((best_of(results).score, best_of(results).end_prob), searched)
    }
}

/// What the searches below the first `n` of the moves `moves` find, and
/// the cache after them.
pub open spec fn player_moves<F: Fn(Ask) -> (Single, Single)>(
    f: F,
    depth: nat,
    prob: Single,
    moves: Seq<(i32, Board)>,
    n: int,
    cache: Map<u64, CacheEntry>,
) -> (Seq<Choice>, Map<u64, CacheEntry>)
    decreases depth, 0int, n,
{
    if n <= 0 || depth == 0 {
        (Seq::empty(), cache)
    } else {
        let (results, before) = player_moves(f, depth, prob, moves, n - 1, cache);
        let (found, after) = chance(f, moves[n - 1].1, (depth - 1) as nat, prob, before);
        (
            results.push((Choice { dir: moves[n - 1].0, score: found.0, end_prob: found.1 })),
            after,
        )
    }
}

/// The empty cells are cells of the board, and empty.
proof fn lemma_empty_cells(cells: Seq<int>, n: int)
    requires
        0 <= n <= 16,
    ensures
        empty_cells_below(cells, n).len() <= n,
        forall|i: int|
            0 <= i < empty_cells_below(cells, n).len() ==> 0 <= #[trigger] empty_cells_below(
                cells,
                n,
            )[i] < n && cells[empty_cells_below(cells, n)[i] as int] == 0,
    decreases n,
{
    if n > 0 {
        lemma_empty_cells(cells, n - 1);
    }
}

/// Whatever the caller's arithmetic replies to a question is the answer to
/// it.
pub proof fn lemma_answer<F: Fn(Ask) -> (Single, Single)>(
    f: F,
    question: Ask,
    reply: (Single, Single),
)
    requires
        answers_once(f),
        call_ensures(f, (question,), reply),
    ensures
        reply == answer(f, question),
{
    assert(call_ensures(f, (question,), answer(f, question)));
}

/// Asks the caller's arithmetic.
fn ask<F: Fn(Ask) -> (Single, Single)>(f: &F, question: Ask) -> (reply: (Single, Single))
    requires
        answers_all(*f),
        answers_once(*f),
    ensures
        reply == answer(*f, question),
{
    let reply = f(question);
    proof {
        lemma_answer(*f, question, reply);
    }
    reply
}

/// Searches the chance node `board` to `depth` levels, reached with
/// probability `prob`: gives the expected score and the end probability,
/// and keeps what it works out in `cache`.
pub fn chance_node<F: Fn(Ask) -> (Single, Single)>(
    f: &F,
    tables: &MoveTables,
    board: Board,
    depth: u8,
    prob: Single,
    cache: &mut TranspositionCache,
) -> (found: (Single, Single))
    requires
        answers_all(*f),
        answers_once(*f),
    ensures
        (found, final(cache)@) == chance(*f, board, depth as nat, prob, old(cache)@),
        final(cache).spec_generation() == old(cache).spec_generation(),
    decreases depth, 3int, 0int,
{
    if cutoff(depth, prob) {
        let leaf = ask(f, Ask::Leaf(board));
        return (leaf.0, Single(ZERO_BITS));
    }
    match cache.lookup(board, depth) {
        Some(entry) => {
            return (entry.score, entry.end_prob);
        },
        None => {},
    }
    let cells = board.empty_cells();
    proof {
        lemma_empty_cells(board@, 16);
    }
    let count = cells.len() as u32;
    let probs = ask(f, Ask::Split(prob, count));
    let ghost start = cache@;
    let mut sums = (Single(ZERO_BITS), Single(ZERO_BITS));
    let mut i: usize = 0;
    while i < cells.len()
        invariant
            answers_all(*f),
            answers_once(*f),
            depth > 0,
            0 <= i <= cells.len() <= 16,
            cells@ == empty_cells_below(board@, 16),
            forall|k: int|
                0 <= k < cells.len() ==> 0 <= #[trigger] cells@[k] < 16 && board@[cells@[k] as int]
                    == 0,
            (sums, cache@) == chance_cells(*f, board, depth as nat, probs, cells@, i as int, start),
            cache.spec_generation() == old(cache).spec_generation(),
        decreases cells.len() - i,
    {
        let cell = cells[i];
        let with_two = player_node(f, tables, board.set_tile(cell, 1), depth, probs.0, cache);
        let with_four = player_node(f, tables, board.set_tile(cell, 2), depth, probs.1, cache);
        sums = ask(f, Ask::Add(sums, with_two, with_four));
        i += 1;
    }
    let means = ask(f, Ask::Mean(sums, count));
    cache.store(board, depth, means.0, means.1);
    means
}

/// Searches the player node `board` with `depth` levels left, reached with
/// probability `prob`: gives the score and the end probability of the best
/// move, or a score of zero and certain death where no move is left.
pub fn player_node<F: Fn(Ask) -> (Single, Single)>(
    f: &F,
    tables: &MoveTables,
    board: Board,
    depth: u8,
    prob: Single,
    cache: &mut TranspositionCache,
) -> (found: (Single, Single))
    requires
        answers_all(*f),
        answers_once(*f),
        depth > 0,
    ensures
        (found, final(cache)@) == player(*f, board, depth as nat, prob, old(cache)@),
        final(cache).spec_generation() == old(cache).spec_generation(),
    decreases depth, 1int, 0int,
{
    let moves = board.moves(tables);
    let ghost start = cache@;
    let mut results: Vec<Choice> = Vec::new();
    let mut i: usize = 0;
    while i < moves.len()
        invariant
            answers_all(*f),
            answers_once(*f),
            depth > 0,
            0 <= i <= moves.len(),
            moves@ == moves_below(board, 4),
            (results@, cache@) == player_moves(
                *f,
                depth as nat,
                prob,
                moves@,
                i as int,
                start,
            ),
            cache.spec_generation() == old(cache).spec_generation(),
        decreases moves.len() - i,
    {
        let next = moves[i];
        let found = chance_node(f, tables, next.1, depth - 1, prob, cache);
        results.push(Choice { dir: next.0, score: found.0, end_prob: found.1 });
        i += 1;
    }
    let best = select_best(&results);
    (best.score, best.end_prob)
}

} // verus!
