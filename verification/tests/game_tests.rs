use expectimax2048::board::Board;
use expectimax2048::cache::{CacheEntry, TranspositionCache};
use expectimax2048::game::{Game, MAX_FOURS};
use expectimax2048::search::NO_MOVE;
use expectimax2048::single::Single;
use expectimax2048::spawner::{TileSpawner, DEFAULT_SEED};
use expectimax2048::tables::init;

fn xorshift(seed: u32) -> u32 {
    let mut x = seed;
    x ^= x << 13;
    x ^= x >> 17;
    x ^= x << 5;
    x
}

fn num(x: f32) -> Single {
    Single(x.to_bits())
}

#[test]
fn rng_steps_the_seed() {
    let mut spawner = TileSpawner::new(DEFAULT_SEED);
    assert_eq!(DEFAULT_SEED, 0x17004711);
    assert_eq!(spawner.seed(), 0x17004711);
    let first = xorshift(0x17004711);
    assert_eq!(spawner.rng(16), (first % 16) as i32);
    assert_eq!(spawner.seed(), first);
    let second = xorshift(first);
    assert_eq!(spawner.rng(10), (second % 10) as i32);
    assert_eq!(spawner.seed(), second);
    assert_eq!(spawner.rng(1), 0);
}

#[test]
fn rng_exact_values() {
    let mut spawner = TileSpawner::new(1);
    assert_eq!(spawner.rng(i32::MAX), (270369u32 % (i32::MAX as u32)) as i32);
    assert_eq!(spawner.seed(), 270369);
    assert_eq!(spawner.rng(1000), (67634689u32 % 1000) as i32);
    assert_eq!(spawner.seed(), 67634689);
    let mut stuck = TileSpawner::new(0);
    assert_eq!(stuck.rng(7), 0);
    assert_eq!(stuck.seed(), 0);
}

#[test]
fn empty_board_draws_among_all_sixteen_cells() {
    let mut hit = [false; 16];
    let mut seed = DEFAULT_SEED;
    for _ in 0..2000 {
        let mut board = Board(0);
        let mut spawner = TileSpawner::new(seed);
        let first = xorshift(seed);
        let second = xorshift(first);
        let four = board.comp_move(&mut spawner);
        let cell = (first % 16) as i32;
        let rank = if second % 10 == 0 { 2 } else { 1 };
        assert_eq!(board, Board(0).set_tile(cell, rank));
        assert_eq!(four, rank - 1);
        assert_eq!(spawner.seed(), second);
        hit[cell as usize] = true;
        seed = second;
    }
    assert!(hit.iter().all(|h| *h));
}

#[test]
fn tile_lands_on_the_drawn_empty_cell() {
    let mut seed = 0x0bad_cafe;
    for _ in 0..2000 {
        let start = Board((xorshift(seed) as u64) << 20 | (seed as u64 & 0x0f0f_0f00));
        if start.0 != 0 && start.empty() == 0 {
            continue;
        }
        let empties: Vec<i32> = (0..16).filter(|pos| start.get_tile(*pos) == 0).collect();
        let first = xorshift(seed);
        let second = xorshift(first);
        let cell = empties[(first % empties.len() as u32) as usize];
        let rank = if second % 10 == 0 { 2 } else { 1 };
        let mut board = start;
        let mut spawner = TileSpawner::new(seed);
        let four = board.comp_move(&mut spawner);
        assert_eq!(board, start.set_tile(cell, rank));
        assert_eq!(four, rank - 1);
        seed = second;
    }
}

#[test]
fn last_empty_cell_is_found() {
    let start = Board(0x1234_5670_1234_5671);
    let mut board = start;
    let mut spawner = TileSpawner::new(77);
    let four = board.comp_move(&mut spawner);
    assert_eq!(board.get_tile(8), four + 1);
    assert_eq!(board.0 & !(0xf << 32), start.0);
}

#[test]
fn new_game_has_two_tiles() {
    let game = Game::new(DEFAULT_SEED);
    let board = game.board();
    assert_eq!(board.empty(), 14);
    assert!(board.max_val() <= 2);
    let twos = (0..16).filter(|pos| board.get_tile(*pos) == 2).count() as i32;
    assert_eq!(game.fours(), twos);
    assert_eq!(game.seed(), xorshift(xorshift(xorshift(xorshift(DEFAULT_SEED)))));
    assert_eq!(game.score(), 0);
    assert!(game.fours() <= MAX_FOURS);
}

fn play_out(seed: u32) -> (Vec<Board>, i32) {
    let tables = init();
    let mut game = Game::new(seed);
    let mut boards = vec![game.board()];
    loop {
        let mut moved = false;
        for dir in [1, 0, 2, 3] {
            if game.step(&tables, dir) {
                moved = true;
                break;
            }
        }
        if !moved {
            break;
        }
        boards.push(game.board());
    }
    (boards, game.score())
}

#[test]
fn same_seed_same_game() {
    let (first_boards, first_score) = play_out(DEFAULT_SEED);
    let (second_boards, second_score) = play_out(DEFAULT_SEED);
    assert!(first_boards.len() > 10);
    assert_eq!(first_boards, second_boards);
    assert_eq!(first_score, second_score);
    let (other_boards, _) = play_out(DEFAULT_SEED + 1);
    assert!(other_boards != first_boards);
}

#[test]
fn game_ends_without_moves() {
    let tables = init();
    let (boards, score) = play_out(42);
    let last = *boards.last().unwrap();
    assert!(last.moves(&tables).is_empty());
    assert_eq!(last.empty(), 0);
    assert!(score > 0);
}

#[test]
fn step_that_changes_nothing_is_not_made() {
    let tables = init();
    let mut game = Game::new(5);
    let mut tried = 0;
    for _ in 0..50 {
        for dir in 0..4 {
            let before = (game.board(), game.fours(), game.seed());
            let changes = game.board().slide(&tables, dir) != game.board();
            let moved = game.step(&tables, dir);
            assert_eq!(moved, changes);
            if !moved {
                assert_eq!((game.board(), game.fours(), game.seed()), before);
                tried += 1;
            } else {
                assert_eq!(game.seed(), xorshift(xorshift(before.2)));
                let slid = before.0.slide(&tables, dir);
                let added: Vec<i32> =
                    (0..16).filter(|pos| game.board().get_tile(*pos) != slid.get_tile(*pos)).collect();
                assert_eq!(added.len(), 1);
                assert_eq!(slid.get_tile(added[0]), 0);
                assert_eq!(game.fours() - before.1, game.board().get_tile(added[0]) - 1);
            }
        }
    }
    assert!(tried > 0);
}

#[test]
fn game_is_over_without_a_move_or_at_the_limit() {
    let game = Game::new(9);
    assert!(game.finished(0, NO_MOVE));
    assert!(game.finished(-1, NO_MOVE));
    assert!(!game.finished(0, 2));
    assert!(!game.finished(-1, 0));
    assert!(!game.finished(3, 1));
    let top = game.board().max_val();
    assert!(game.finished(top, 1));
    assert!(game.finished(1, 3));
    assert!(!game.finished(top + 1, 1));
}

#[test]
fn moves_are_those_that_change_the_board() {
    let tables = init();
    let board = Board(0x0000_0000_0000_0001);
    let moves = board.moves(&tables);
    assert_eq!(
        moves,
        vec![
            (2, Board(0x0000_0000_0000_1000)),
            (3, Board(0x0001_0000_0000_0000)),
        ]
    );
    assert!(Board(0).moves(&tables).is_empty());
    assert!(Board(0x1212_2121_1212_2121).moves(&tables).is_empty());
    let all = Board(0x0000_0110_0000_0000).moves(&tables);
    assert_eq!(all.iter().map(|m| m.0).collect::<Vec<i32>>(), vec![0, 1, 2, 3]);
    for (dir, next) in all {
        assert_eq!(next, Board(0x0000_0110_0000_0000).slide(&tables, dir));
    }
}

#[test]
fn empty_cells_in_rising_order() {
    assert_eq!(Board(0).empty_cells(), (0..16).collect::<Vec<i32>>());
    assert_eq!(Board(0xffff_ffff_ffff_ffff).empty_cells(), Vec::<i32>::new());
    assert_eq!(Board(0x1234_5670_1234_0671).empty_cells(), vec![3, 8]);
    assert_eq!(Board(0x0fff_ffff_ffff_fff0).empty_cells(), vec![0, 15]);
}

#[test]
fn cache_answers_only_deep_enough() {
    let mut cache = TranspositionCache::new();
    assert_eq!(cache.generation(), 0);
    let board = Board(0x1234);
    assert_eq!(cache.lookup(board, 1), None);
    cache.store(board, 5, num(12.5), num(0.25));
    let entry = CacheEntry { depth: 5, score: num(12.5), end_prob: num(0.25) };
    assert_eq!(cache.lookup(board, 5), Some(entry));
    assert_eq!(cache.lookup(board, 3), Some(entry));
    assert_eq!(cache.lookup(board, 0), Some(entry));
    assert_eq!(cache.lookup(board, 6), None);
    assert_eq!(cache.lookup(Board(0x1235), 1), None);
    cache.store(board, 2, num(1.0), num(0.0));
    assert_eq!(cache.lookup(board, 3), None);
    assert_eq!(
        cache.lookup(board, 2),
        Some(CacheEntry { depth: 2, score: num(1.0), end_prob: num(0.0) })
    );
    cache.store(Board(0), 255, num(0.0), num(1.0));
    assert_eq!(
        cache.lookup(Board(0), 255),
        Some(CacheEntry { depth: 255, score: num(0.0), end_prob: num(1.0) })
    );
}

#[test]
fn cache_forgets_at_a_new_generation() {
    let mut cache = TranspositionCache::new();
    let board = Board(0xabc);
    cache.begin(0);
    cache.store(board, 4, num(3.0), num(0.5));
    cache.begin(0);
    assert!(cache.lookup(board, 4).is_some());
    cache.begin(7);
    assert_eq!(cache.generation(), 7);
    assert_eq!(cache.lookup(board, 0), None);
    cache.store(board, 1, num(3.0), num(0.5));
    cache.begin(7);
    assert!(cache.lookup(board, 1).is_some());
    cache.begin(6);
    assert_eq!(cache.generation(), 6);
    assert_eq!(cache.lookup(board, 1), None);
}
