use std::collections::HashMap;

use expectimax2048::board::Board;
use expectimax2048::cache::{CacheEntry, TranspositionCache};
use expectimax2048::expectimax::{chance_node, player_node, Ask};
use expectimax2048::game::Game;
use expectimax2048::policy::{evaluate_turn, search_moves, PlayState};
use expectimax2048::search::{Choice, NO_MOVE};
use expectimax2048::single::Single;
use expectimax2048::tables::{init, MoveTables};

fn num(x: f32) -> Single {
    Single(x.to_bits())
}

fn val(x: Single) -> f32 {
    f32::from_bits(x.0)
}

fn heur_score(board: Board) -> f32 {
    let mut score = 200000.0f32;
    for pos in 0..16 {
        let rank = board.get_tile(pos) as f32;
        score += if rank == 0.0 { 270.0 } else { -11.0 * rank.powf(3.5) };
        score += (pos as f32) * rank * 0.25;
    }
    score
}

fn arithmetic(ask: Ask) -> (Single, Single) {
    match ask {
        Ask::Leaf(board) => (num(heur_score(board)), num(0f32)),
        Ask::Split(prob, cells) => {
            let prob = val(prob);
            (num(prob / (cells as f32) * 0.9), num(prob / (cells as f32) * 0.1))
        }
        Ask::Add(sums, with_two, with_four) => (
            num(val(sums.0) + (val(with_two.0) * 0.9 + val(with_four.0) * 0.1)),
            num(val(sums.1) + (val(with_two.1) * 0.9 + val(with_four.1) * 0.1)),
        ),
        Ask::Mean(sums, cells) => {
            (num(val(sums.0) / (cells as f32)), num(val(sums.1) / (cells as f32)))
        }
    }
}

fn plain_comp_move(
    tables: &MoveTables,
    board: Board,
    depth: u8,
    hash: &mut HashMap<u64, (i32, f32, f32)>,
    prob: f32,
) -> (f32, f32) {
    if depth == 0 || prob < 0.0001 {
        return (heur_score(board), 0f32);
    }
    if let Some(entry) = hash.get(&board.0) {
        let (hash_depth, score, end_prob) = *entry;
        if hash_depth >= depth as i32 {
            return (score, end_prob);
        }
    }
    let empty = (0..16).filter(|pos| board.get_tile(*pos) == 0).count();
    let prob1 = prob / (empty as f32) * 0.9;
    let prob2 = prob / (empty as f32) * 0.1;
    let mut score = 0f32;
    let mut end_prob = 0f32;
    for tile in 0..16 {
        if board.get_tile(tile) == 0 {
            let (move_score_1, move_end_prob_1) =
                plain_player_move(tables, board.set_tile(tile, 1), depth, hash, prob1);
            let (move_score_2, move_end_prob_2) =
                plain_player_move(tables, board.set_tile(tile, 2), depth, hash, prob2);
            score += move_score_1 * 0.9 + move_score_2 * 0.1;
            end_prob += move_end_prob_1 * 0.9 + move_end_prob_2 * 0.1;
        }
    }
    score /= empty as f32;
    end_prob /= empty as f32;
    hash.insert(board.0, (depth as i32, score, end_prob));
    (score, end_prob)
}

fn plain_player_move(
    tables: &MoveTables,
    board: Board,
    depth: u8,
    hash: &mut HashMap<u64, (i32, f32, f32)>,
    prob: f32,
) -> (f32, f32) {
    let mut score = 0f32;
    let mut end_prob = 1f32;
    for dir in 0..4 {
        let new_board = board.slide(tables, dir);
        if new_board == board {
            continue;
        }
        let (move_score, move_end_prob) = plain_comp_move(tables, new_board, depth - 1, hash, prob);
        if move_score > score {
            score = move_score;
            end_prob = move_end_prob;
        }
    }
    (score, end_prob)
}

fn boards() -> Vec<Board> {
    vec![
        Board(0x0000_0000_0000_0011),
        Board(0x1234_5678_0000_0000),
        Board(0x1212_2121_1212_2120),
        Board(0x1212_2121_1212_2121),
        Board(0x0123_1234_2345_3456),
        Board(0x1100_0000_0000_0022),
        Board(0xfedc_ba98_7654_3210),
        Board(0x3210_0123_3210_0123),
    ]
}

#[test]
fn chance_node_at_the_horizon_is_the_value_of_the_board() {
    let tables = init();
    for board in boards() {
        let mut cache = TranspositionCache::new();
        let found = chance_node(&arithmetic, &tables, board, 0, num(1.0), &mut cache);
        assert_eq!(found, (num(heur_score(board)), num(0.0)));
        assert_eq!(cache.lookup(board, 0), None);
        let found = chance_node(&arithmetic, &tables, board, 4, num(0.00009), &mut cache);
        assert_eq!(found, (num(heur_score(board)), num(0.0)));
        assert_eq!(cache.lookup(board, 0), None);
    }
}

#[test]
fn chance_node_takes_what_the_cache_holds() {
    let tables = init();
    let board = Board(0x1234_5678_0000_0000);
    let mut cache = TranspositionCache::new();
    cache.store(board, 3, num(123.0), num(0.5));
    assert_eq!(
        chance_node(&arithmetic, &tables, board, 2, num(1.0), &mut cache),
        (num(123.0), num(0.5))
    );
    assert_eq!(
        chance_node(&arithmetic, &tables, board, 3, num(1.0), &mut cache),
        (num(123.0), num(0.5))
    );
    let mut fresh = TranspositionCache::new();
    let found = chance_node(&arithmetic, &tables, board, 1, num(1.0), &mut fresh);
    assert!(found != (num(123.0), num(0.5)));
    assert_eq!(
        fresh.lookup(board, 1),
        Some(CacheEntry { depth: 1, score: found.0, end_prob: found.1 })
    );
}

#[test]
fn player_node_without_a_move_is_lost() {
    let tables = init();
    let mut cache = TranspositionCache::new();
    let found =
        player_node(&arithmetic, &tables, Board(0x1212_2121_1212_2121), 3, num(1.0), &mut cache);
    assert_eq!(found, (num(0.0), num(1.0)));
}

#[test]
fn search_matches_the_plain_recursion() {
    let tables = init();
    for board in boards() {
        for depth in 0..=3u8 {
            if depth == 3 && (0..16).filter(|pos| board.get_tile(*pos) == 0).count() > 9 {
                continue;
            }
            let mut cache = TranspositionCache::new();
            let mut hash = HashMap::new();
            let found = chance_node(&arithmetic, &tables, board, depth, num(1.0), &mut cache);
            let plain = plain_comp_move(&tables, board, depth, &mut hash, 1.0);
            assert_eq!(found.0 .0, plain.0.to_bits(), "score of {:#x} at {}", board.0, depth);
            assert_eq!(found.1 .0, plain.1.to_bits(), "risk of {:#x} at {}", board.0, depth);
            for (key, (hash_depth, score, end_prob)) in hash.iter() {
                assert_eq!(
                    cache.lookup(Board(*key), *hash_depth as u8),
                    Some(CacheEntry {
                        depth: *hash_depth,
                        score: num(*score),
                        end_prob: num(*end_prob)
                    })
                );
            }
            if depth > 0 {
                let mut cache = TranspositionCache::new();
                let mut hash = HashMap::new();
                let found = player_node(&arithmetic, &tables, board, depth, num(0.5), &mut cache);
                let plain = plain_player_move(&tables, board, depth, &mut hash, 0.5);
                assert_eq!(found.0 .0, plain.0.to_bits());
                assert_eq!(found.1 .0, plain.1.to_bits());
            }
        }
    }
}

#[test]
fn search_is_cut_where_the_probability_runs_out() {
    let tables = init();
    let board = Board(0x0000_0000_0000_0011);
    let mut cache = TranspositionCache::new();
    let mut hash = HashMap::new();
    let found = chance_node(&arithmetic, &tables, board, 2, num(0.002), &mut cache);
    let plain = plain_comp_move(&tables, board, 2, &mut hash, 0.002);
    assert_eq!(found.0 .0, plain.0.to_bits());
    assert_eq!(found.1 .0, plain.1.to_bits());
    assert!(hash.len() > 0);
}

fn plain_root(tables: &MoveTables, board: Board, depth: u8) -> Vec<(i32, f32, f32)> {
    let mut results = Vec::new();
    for dir in 0..4 {
        let new_board = board.slide(tables, dir);
        if new_board == board {
            continue;
        }
        let mut hash = HashMap::new();
        let (exp, end_prob) = plain_comp_move(tables, new_board, depth, &mut hash, 1.0);
        results.push((dir, exp, end_prob));
    }
    results
}

#[test]
fn root_moves_are_searched_one_by_one() {
    let tables = init();
    for board in boards() {
        for depth in 0..=2u8 {
            let mut cache = TranspositionCache::new();
            cache.begin(u32::MAX - 1);
            cache.store(board.slide(&tables, 0), 9, num(1.0), num(1.0));
            let results = search_moves(&arithmetic, &tables, board, depth, &mut cache);
            let plain = plain_root(&tables, board, depth);
            assert_eq!(results.len(), plain.len());
            for (found, (dir, exp, end_prob)) in results.iter().zip(plain.iter()) {
                assert_eq!(
                    *found,
                    Choice { dir: *dir, score: num(*exp), end_prob: num(*end_prob) }
                );
            }
            assert_eq!(
                cache.generation(),
                (u32::MAX - 1).wrapping_add(plain.len() as u32)
            );
        }
    }
}

#[test]
fn calm_turn_searches_once() {
    let tables = init();
    let board = Board(0x0000_0000_0000_0011);
    let mut cache = TranspositionCache::new();
    let turn = evaluate_turn(&arithmetic, &tables, board, PlayState::ZeroProbDeath, &mut cache);
    let plain = plain_root(&tables, board, 3);
    let mut best = (NO_MOVE, 0f32, 1f32);
    for (dir, exp, end_prob) in plain {
        if exp > best.1 {
            best = (dir, exp, end_prob);
        }
    }
    assert_eq!(turn.searches(), 1);
    assert_eq!(turn.searched_depth(), 3);
    assert_eq!(turn.best(), Choice { dir: best.0, score: num(best.1), end_prob: num(best.2) });
    assert_eq!(turn.state(), PlayState::ZeroProbDeath);
    assert_eq!(turn.next_depth(board), None);
}

#[test]
fn lost_turn_looks_as_deep_as_it_can_and_finds_nothing() {
    let tables = init();
    let board = Board(0x1212_2121_1212_2121);
    let mut cache = TranspositionCache::new();
    let turn = evaluate_turn(&arithmetic, &tables, board, PlayState::ZeroProbDeath, &mut cache);
    assert_eq!(turn.best(), Choice { dir: NO_MOVE, score: num(0.0), end_prob: num(1.0) });
    assert_eq!(turn.state(), PlayState::VeryHighProbDeath);
    assert_eq!(turn.searched_depth(), 17);
    assert_eq!(turn.searches(), 2);
    assert_eq!(cache.generation(), 0);
}

#[test]
fn turn_that_starts_at_full_depth_searches_once() {
    let tables = init();
    let board = Board(0x1212_2121_1212_2121);
    let mut cache = TranspositionCache::new();
    let turn = evaluate_turn(&arithmetic, &tables, board, PlayState::VeryHighProbDeath, &mut cache);
    assert_eq!(turn.searched_depth(), 17);
    assert_eq!(turn.searches(), 1);
}

fn searched_game(seed: u32, turns: usize) -> (Vec<Board>, Vec<i32>, i32) {
    let tables = init();
    let mut game = Game::new(seed);
    let mut cache = TranspositionCache::new();
    let mut state = PlayState::ZeroProbDeath;
    let mut boards = vec![game.board()];
    let mut dirs = Vec::new();
    for _ in 0..turns {
        let turn = evaluate_turn(&arithmetic, &tables, game.board(), state, &mut cache);
        state = turn.state();
        let best = turn.best();
        if game.finished(0, best.dir) {
            break;
        }
        assert!(game.step(&tables, best.dir));
        dirs.push(best.dir);
        boards.push(game.board());
    }
    (boards, dirs, game.score())
}

#[test]
fn searched_game_repeats_from_the_same_seed() {
    let first = searched_game(0x17004711, 20);
    let second = searched_game(0x17004711, 20);
    assert_eq!(first.0.len(), 21);
    assert_eq!(first, second);
    let other = searched_game(0x17004712, 20);
    assert!(other.0 != first.0);
}
