//! How deep to search: the risk state that one turn's result leaves behind,
//! the depth that each state asks for, and the rounds of one turn.

use crate::board::Board;
use crate::cache::{CacheEntry, TranspositionCache};
use crate::census::{count_distinct, lemma_count_distinct_bounds};
use crate::expectimax::{answers_all, answers_once, chance, chance_node, Ask};
use crate::search::{best_of, moves_below, select_best, Choice};
use crate::single::{Single, ONE_BITS};
use crate::tables::MoveTables;
use vstd::prelude::*;

verus! {

/// The bit pattern of five hundredths, above which death is very likely.
pub const VERY_HIGH_BITS: u32 = 0x3d4c_cccd;

/// The bit pattern of one thousandth, above which death is likely.
pub const HIGH_BITS: u32 = 0x3a83_126f;

/// The least depth that is ever searched.
pub const MIN_DEPTH: u8 = 3;

/// The depth that is searched when death is very likely.
pub const MAX_DEPTH: u8 = 17;

/// How likely the last search found the end of the game to be.
#[derive(Debug, Copy, Clone, PartialEq, Eq, Structural)]
pub enum PlayState {
    /// The search saw no way to lose.
    ZeroProbDeath,
    /// Losing is possible, at no more than one in a thousand.
    LowProbDeath,
    /// Losing is likely, at no more than five in a hundred.
    HighPropDeath,
    /// Losing is very likely.
    VeryHighProbDeath,
}

impl PlayState {
    /// The states by rising risk: 0 for `ZeroProbDeath`, 3 for
    /// `VeryHighProbDeath`.
    pub open spec fn level(self) -> int {
        match self {
            PlayState::ZeroProbDeath => 0,
            PlayState::LowProbDeath => 1,
            PlayState::HighPropDeath => 2,
            PlayState::VeryHighProbDeath => 3,
        }
    }

    /// The state that an end probability of `prob` puts the player in.
    pub open spec fn of_prob(prob: Single) -> PlayState {
        if prob.above(Single(VERY_HIGH_BITS)) {
            PlayState::VeryHighProbDeath
        } else if prob.above(Single(HIGH_BITS)) {
            PlayState::HighPropDeath
        } else if prob.above(Single(0)) {
            PlayState::LowProbDeath
        } else {
            PlayState::ZeroProbDeath
        }
    }

    /// The depth that this state asks for on a board with `distinct`
    /// different ranks.
    pub open spec fn depth_for(self, distinct: int) -> int {
        match self {
            PlayState::ZeroProbDeath => if distinct - 4 > 3 {
                distinct - 4
            } else {
                3
            },
            PlayState::LowProbDeath => if distinct - 2 > 3 {
                distinct - 2
            } else {
                3
            },
            PlayState::HighPropDeath => if distinct > 3 {
                distinct
            } else {
                3
            },
            PlayState::VeryHighProbDeath => 17,
        }
    }

    /// The state that follows a search which found the end probability
    /// `prob`. The state before plays no part.
    pub fn from_prob(prob: Single) -> (state: PlayState)
        ensures
            state == PlayState::of_prob(prob),
    {
        if prob.gt(Single(VERY_HIGH_BITS)) {
            PlayState::VeryHighProbDeath
        } else if prob.gt(Single(HIGH_BITS)) {
            PlayState::HighPropDeath
        } else if prob.gt(Single(0)) {
            PlayState::LowProbDeath
        } else {
            PlayState::ZeroProbDeath
        }
    }

    /// The depth to search to in this state on a board with `distinct`
    /// different ranks.
    pub fn target_depth(self, distinct: u8) -> (depth: u8)
        ensures
            depth == self.depth_for(distinct as int),
            depth >= MIN_DEPTH,
    {
        match self {
            PlayState::ZeroProbDeath => {
                let base = if distinct > 4 {
                    distinct - 4
                } else {
                    0
                };
                if base > MIN_DEPTH {
                    base
                } else {
                    MIN_DEPTH
                }
            },
            PlayState::LowProbDeath => {
                let base = if distinct > 2 {
                    distinct - 2
                } else {
                    0
                };
                if base > MIN_DEPTH {
                    base
                } else {
                    MIN_DEPTH
                }
            },
            PlayState::HighPropDeath => {
                if distinct > MIN_DEPTH {
                    distinct
                } else {
                    MIN_DEPTH
                }
            },
            PlayState::VeryHighProbDeath => MAX_DEPTH,
        }
    }
}

/// The state follows the thresholds alone: a probability that is not higher
/// than another never gives a state of higher risk.
pub proof fn lemma_state_follows_prob(higher: Single, lower: Single)
    requires
        !higher.nan(),
        !lower.nan(),
        higher.key() >= lower.key(),
    ensures
        PlayState::of_prob(higher).level() >= PlayState::of_prob(lower).level(),
{
}

/// The thresholds of the four states: above five hundredths, above one
/// thousandth, above zero, and the rest.
pub proof fn lemma_state_thresholds(prob: Single)
    requires
        !prob.nan(),
    ensures
        PlayState::of_prob(prob) == PlayState::VeryHighProbDeath <==> prob.key() > VERY_HIGH_BITS,
        PlayState::of_prob(prob) == PlayState::HighPropDeath <==> HIGH_BITS < prob.key()
            <= VERY_HIGH_BITS,
        PlayState::of_prob(prob) == PlayState::LowProbDeath <==> 0 < prob.key() <= HIGH_BITS,
        PlayState::of_prob(prob) == PlayState::ZeroProbDeath <==> prob.key() <= 0,
{
}

/// A state of higher risk never asks for less depth, and no state asks for
/// less than the least depth or more than the greatest.
pub proof fn lemma_depth_rises_with_risk(calm: PlayState, tense: PlayState, distinct: int)
    requires
        0 <= distinct <= 15,
        calm.level() <= tense.level(),
    ensures
        3 <= calm.depth_for(distinct) <= tense.depth_for(distinct) <= 17,
{
}

/// The rounds of one turn. A turn starts in the state that the turn before
/// left, searches to the depth that the state asks for, and searches again,
/// deeper, as long as the state that a round leaves asks for more depth
/// than was searched.
pub struct Turn {
    state: PlayState,
    best: Choice,
    searched_depth: u8,
    searches: u8,
}

impl Turn {
    /// Each round searched deeper than the one before, so there were no more
    /// rounds than the depth of the last.
    #[verifier::type_invariant]
    spec fn counted(self) -> bool {
        self.searches <= self.searched_depth
    }

    /// The risk state after the rounds so far.
    pub closed spec fn spec_state(self) -> PlayState {
        self.state
    }

    /// The choice of the last round; no move before the first round.
    pub closed spec fn spec_best(self) -> Choice {
        self.best
    }

    /// The depth of the last round; 0 before the first round.
    pub closed spec fn spec_searched_depth(self) -> u8 {
        self.searched_depth
    }

    /// The number of rounds so far.
    pub closed spec fn spec_searches(self) -> u8 {
        self.searches
    }

    /// The depth of the round that is due on `board`, if one is due.
    pub open spec fn due(self, board: Board) -> Option<int> {
        let depth = self.spec_state().depth_for(count_distinct(board@));
        if depth > self.spec_searched_depth() {
            Some(depth)
        } else {
            None
        }
    }

    /// A turn before its first round, in the state `state`.
    pub fn begin(state: PlayState) -> (turn: Turn)
        ensures
            turn.spec_state() == state,
            turn.spec_best() == Choice::none(),
            turn.spec_searched_depth() == 0,
            turn.spec_searches() == 0,
    {
        Turn { state, best: Choice::no_move(), searched_depth: 0, searches: 0 }
    }

    /// The risk state after the rounds so far.
    pub fn state(&self) -> (state: PlayState)
        ensures
            state == self.spec_state(),
    {
        self.state
    }

    /// The choice of the last round.
    pub fn best(&self) -> (best: Choice)
        ensures
            best == self.spec_best(),
    {
        self.best
    }

    /// The depth of the last round.
    pub fn searched_depth(&self) -> (depth: u8)
        ensures
            depth == self.spec_searched_depth(),
    {
        self.searched_depth
    }

    /// The number of rounds so far.
    pub fn searches(&self) -> (rounds: u8)
        ensures
            rounds == self.spec_searches(),
    {
        self.searches
    }

    /// The depth to search `board` to next, or `None` when the turn has
    /// searched as deep as its state asks for.
    pub fn next_depth(&self, board: Board) -> (depth: Option<u8>)
        ensures
            match depth {
                Some(d) => self.due(board) == Some(d as int),
                None => self.due(board).is_none(),
            },
    {
        let depth = self.state.target_depth(board.distinct());
        if depth > self.searched_depth {
            Some(depth)
        } else {
            None
        }
    }

    /// Takes in the results of a round that searched to `depth`: the best
    /// of them is the turn's choice, and its end probability alone decides
    /// the state.
    pub fn record(&mut self, depth: u8, results: &Vec<Choice>)
        requires
            depth > old(self).spec_searched_depth(),
        ensures
            final(self).spec_best() == best_of(results@),
            final(self).spec_state() == PlayState::of_prob(best_of(results@).end_prob),
            final(self).spec_searched_depth() == depth,
            final(self).spec_searches() == old(self).spec_searches() + 1,
    {
        proof {
            use_type_invariant(&*self);
        }
        let best = select_best(results);
        self.best = best;
        self.searched_depth = depth;
        self.searches = self.searches + 1;
        self.state = PlayState::from_prob(best.end_prob);
    }
}

/// What the searches of the first `n` of the moves `moves` of the root
/// find: each move is searched as a chance node that is reached for
/// certain, to the depth given and with an empty cache of its own.
pub open spec fn root_results<F: Fn(Ask) -> (Single, Single)>(
    f: F,
    moves: Seq<(i32, Board)>,
    depth: nat,
    n: int,
) -> Seq<Choice>
    decreases n,
{
    if n <= 0 {
        Seq::empty()
    } else {
        let found = chance(
            f,
            moves[n - 1].1,
            depth,
            Single(ONE_BITS),
            Map::<u64, CacheEntry>::empty(),
        ).0;
        root_results(f, moves, depth, n - 1).push(
            (Choice { dir: moves[n - 1].0, score: found.0, end_prob: found.1 }),
        )
    }
}

/// The generation that lies `n` generations after `generation`.
pub open spec fn generation_after(generation: u32, n: int) -> u32
    decreases n,
{
    if n <= 0 {
        generation
    } else {
        TranspositionCache::following(generation_after(generation, n - 1))
    }
}

/// The rounds of a turn that are still to come, gone through: the state,
/// the choice, the depth searched and the number of rounds at the end of
/// the turn, from what they are now.
pub open spec fn rounds<F: Fn(Ask) -> (Single, Single)>(
    f: F,
    board: Board,
    now: (PlayState, Choice, int, int),
) -> (PlayState, Choice, int, int)
    decreases 17 - now.2,
{
    let depth = now.0.depth_for(count_distinct(board@));
    if now.2 < depth <= 17 {
        let moves = moves_below(board, 4);
        let best = best_of(root_results(f, moves, depth as nat, moves.len() as int));
        rounds(f, board, (PlayState::of_prob(best.end_prob), best, depth, now.3 + 1))
    } else {
        now
    }
}

/// Searches every move that changes `board` to `depth`, one after the other
/// and each in a cache generation of its own, and gives what the searches
/// found, in the order of the moves.
pub fn search_moves<F: Fn(Ask) -> (Single, Single)>(
    f: &F,
    tables: &MoveTables,
    board: Board,
    depth: u8,
    cache: &mut TranspositionCache,
) -> (results: Vec<Choice>)
    requires
        answers_all(*f),
        answers_once(*f),
    ensures
        results@ == root_results(
            *f,
            moves_below(board, 4),
            depth as nat,
            moves_below(board, 4).len() as int,
        ),
        final(cache).spec_generation() == generation_after(
            old(cache).spec_generation(),
            moves_below(board, 4).len() as int,
        ),
{
    let moves = board.moves(tables);
    let mut results: Vec<Choice> = Vec::new();
    let mut i: usize = 0;
    while i < moves.len()
        invariant
            answers_all(*f),
            answers_once(*f),
            0 <= i <= moves.len(),
            moves@ == moves_below(board, 4),
            results@ == root_results(*f, moves@, depth as nat, i as int),
            cache.spec_generation() == generation_after(old(cache).spec_generation(), i as int),
        decreases moves.len() - i,
    {
        let next = moves[i];
        cache.begin_next();
        let found = chance_node(f, tables, next.1, depth, Single(ONE_BITS), cache);
        results.push(Choice { dir: next.0, score: found.0, end_prob: found.1 });
        i += 1;
    }
    results
}

/// Decides one turn: searches the moves of `board` to the depth that the
/// state asks for, and again, deeper, as long as the state that the last
/// search left asks for more depth than was searched.
pub fn evaluate_turn<F: Fn(Ask) -> (Single, Single)>(
    f: &F,
    tables: &MoveTables,
    board: Board,
    state: PlayState,
    cache: &mut TranspositionCache,
) -> (turn: Turn)
    requires
        answers_all(*f),
        answers_once(*f),
    ensures
        (
            turn.spec_state(),
            turn.spec_best(),
            turn.spec_searched_depth() as int,
            turn.spec_searches() as int,
        ) == rounds(*f, board, (state, Choice::none(), 0, 0)),
        turn.due(board).is_none(),
{
    let mut turn = Turn::begin(state);
    let mut next = turn.next_depth(board);
    proof {
        lemma_count_distinct_bounds(board@);
    }
    while next.is_some()
        invariant
            answers_all(*f),
            answers_once(*f),
            0 <= count_distinct(board@) <= 15,
            turn.spec_searched_depth() <= 17,
            match next {
                Some(d) => turn.due(board) == Some(d as int),
                None => turn.due(board).is_none(),
            },
            rounds(
                *f,
                board,
                (
                    turn.spec_state(),
                    turn.spec_best(),
                    turn.spec_searched_depth() as int,
                    turn.spec_searches() as int,
                ),
            ) == rounds(*f, board, (state, Choice::none(), 0, 0)),
        decreases 17 - turn.spec_searched_depth(),
    {
        let depth = next.unwrap();
        let results = search_moves(f, tables, board, depth, cache);
        turn.record(depth, &results);
        next = turn.next_depth(board);
    }
    turn
}

} // verus!
