use expectimax2048::board::Board;
use expectimax2048::slide::{DOWN, LEFT, RIGHT, UP};
use expectimax2048::tables::init;

#[test]
fn sliding() {
    let tables = init();
    assert_eq!(
        Board(0x0001_0001_0002_0003).slide_up(&tables),
        Board(0x0002_0002_0003_0000)
    );
    assert_eq!(
        Board(0x0001_0001_0002_0003).slide_down(&tables),
        Board(0x0000_0002_0002_0003)
    );
    assert_eq!(
        Board(0x0001_0020_0300_1000).slide_down(&tables),
        Board(0x0000_0000_0000_1321)
    );
    assert_eq!(
        Board(0x0001_0020_0300_1001).slide_up(&tables),
        Board(0x1322_0000_0000_0000)
    );
    assert_eq!(
        Board(0x0001_0022_0300_1001).slide_up(&tables),
        Board(0x1321_0002_0001_0000)
    );
    assert_eq!(
        Board(0x1111_0000_0000_0000).slide_right(&tables),
        Board(0x0022_0000_0000_0000)
    );
    assert_eq!(
        Board(0x2235_0000_0000_0000).slide_left(&tables),
        Board(0x3350_0000_0000_0000)
    );
    assert_eq!(
        Board(0xcbbc_0010_0600_8000).slide_right(&tables),
        Board(0x0ccc_0001_0006_0008)
    );
    assert_eq!(
        Board(0x5550_0333_aa0a_c0cc).slide_right(&tables),
        Board(0x0056_0034_00ab_00cd)
    );
    assert_eq!(
        Board(0x1110_0222_bb0b_e0ee).slide_left(&tables),
        Board(0x2100_3200_cb00_fe00)
    );
    assert_eq!(
        Board(0x530c_50ac_53a0_03ac).slide_up(&tables),
        Board(0x64bd_53ac_0000_0000)
    );
    assert_eq!(
        Board(0x02be_10be_12b0_120e).slide_down(&tables),
        Board(0x0000_0000_12be_23cf)
    );
}

#[test]
fn flipping() {
    assert_eq!(
        Board(0x0001_0a01_0002_0003).flip_vert(),
        Board(0x1000_10a0_2000_3000)
    );
    assert_eq!(
        Board(0x1234_5678_9abc_def0).flip_vert(),
        Board(0x4321_8765_cba9_0fed)
    );
    assert_eq!(
        Board(0x1234_5678_9abc_def0).flip_horiz(),
        Board(0xdef0_9abc_5678_1234)
    );
    assert_eq!(
        Board(0x0101_2233_feef_ddee).flip_horiz(),
        Board(0xddee_feef_2233_0101)
    );
    assert_eq!(
        Board(0x1234_5678_9abc_def0).transpose(),
        Board(0x159d_26ae_37bf_48c0)
    );
    assert_eq!(
        Board(0x100a_02b0_0c30_d004).transpose(),
        Board(0x100d_02c0_0b30_a004)
    );
}

#[test]
fn iter() {
    let mut ans = vec![
        Board(0x1234_0000_0000_0000),
        Board(0x1000_2000_3000_4000),
        Board(0x4321_0000_0000_0000),
        Board(0x0001_0002_0003_0004),
        Board(0x0000_0000_0000_4321),
        Board(0x0004_0003_0002_0001),
        Board(0x0000_0000_0000_1234),
        Board(0x4000_3000_2000_1000),
    ];
    let mut walk = Board(0x1234_0000_0000_0000).symmetries();
    while let Some(board) = walk.next() {
        let pos = ans.iter().position(|x| *x == board);
        ans.remove(pos.unwrap());
    }
    assert!(ans.is_empty());
}

#[test]
fn slide_by_direction_number() {
    let tables = init();
    let board = Board(0x0001_0020_0300_1001);
    assert_eq!(board.slide(&tables, RIGHT), board.slide_right(&tables));
    assert_eq!(board.slide(&tables, DOWN), board.slide_down(&tables));
    assert_eq!(board.slide(&tables, LEFT), board.slide_left(&tables));
    assert_eq!(board.slide(&tables, UP), board.slide_up(&tables));
}

fn sample_boards() -> Vec<Board> {
    let mut boards = vec![
        Board(0x0000_0000_0000_0001),
        Board(0x1000_0000_0000_0000),
        Board(0xffff_ffff_ffff_ffff),
        Board(0x1234_5678_9abc_def0),
        Board(0x0101_2233_feef_ddee),
        Board(0x0000_0000_0001_0000),
        Board(0x1111_1111_1111_1110),
    ];
    let mut x: u64 = 0x9e37_79b9_7f4a_7c15;
    for _ in 0..500 {
        x ^= x << 13;
        x ^= x >> 7;
        x ^= x << 17;
        boards.push(Board(x));
        boards.push(Board(x & 0x0f0f_00ff_f000_0f0f));
        boards.push(Board(x & 0x3333_3333_3333_3333));
    }
    boards
}

fn naive_tile(board: Board, pos: i32) -> i32 {
    ((board.0 >> (4 * pos)) & 0xf) as i32
}

#[test]
fn get_tile_reads_each_nibble() {
    let board = Board(0xfedc_ba98_7654_3210);
    for pos in 0..16 {
        assert_eq!(board.get_tile(pos), pos);
    }
}

#[test]
fn set_tile_fills_one_empty_cell() {
    assert_eq!(Board(0).set_tile(0, 1), Board(0x1));
    assert_eq!(Board(0).set_tile(15, 2), Board(0x2000_0000_0000_0000));
    assert_eq!(
        Board(0x1234_5678_0abc_def0).set_tile(7, 15),
        Board(0x1234_5678_fabc_def0)
    );
    assert_eq!(Board(0x10).set_tile(0, 0), Board(0x10));
}

#[test]
fn set_tile_lays_other_values_over_the_bits() {
    assert_eq!(Board(0).set_tile(0, 0x21), Board(0x21));
    assert_eq!(Board(0x0f00).set_tile(1, 0x10), Board(0x0f00));
    assert_eq!(Board(0).set_tile(15, -1), Board(0xf000_0000_0000_0000));
    assert_eq!(Board(0).set_tile(14, -1), Board(0xff00_0000_0000_0000));
}

#[test]
fn empty_count_matches_cell_scan() {
    for board in sample_boards() {
        if board.0 == 0 {
            continue;
        }
        let mut naive = 0;
        for pos in 0..16 {
            if naive_tile(board, pos) == 0 {
                naive += 1;
            }
        }
        assert_eq!(board.empty(), naive, "board {:#x}", board.0);
    }
}

#[test]
fn empty_count_exact_values() {
    assert_eq!(Board(0x0000_0000_0000_0001).empty(), 15);
    assert_eq!(Board(0xffff_ffff_ffff_ffff).empty(), 0);
    assert_eq!(Board(0x1234_5678_9abc_def0).empty(), 1);
    assert_eq!(Board(0x8000_0000_0000_0000).empty(), 15);
    assert_eq!(Board(0x0101_0000_2020_0003).empty(), 11);
}

#[test]
fn distinct_counts_ranks_not_cells() {
    assert_eq!(Board(0).distinct(), 0);
    assert_eq!(Board(0x1111_1111_1111_1111).distinct(), 1);
    assert_eq!(Board(0x1234_5678_9abc_def0).distinct(), 15);
    assert_eq!(Board(0x0000_0000_0000_000f).distinct(), 1);
    assert_eq!(Board(0x0001_0002_0001_0002).distinct(), 2);
    assert_eq!(Board(0xf000_0000_0000_0000).distinct(), 1);
    for board in sample_boards() {
        let mut seen = [false; 16];
        for pos in 0..16 {
            seen[naive_tile(board, pos) as usize] = true;
        }
        let naive = (1..16).filter(|r| seen[*r]).count() as u8;
        assert_eq!(board.distinct(), naive, "board {:#x}", board.0);
    }
}

#[test]
fn max_val_is_the_highest_rank() {
    assert_eq!(Board(0).max_val(), 0);
    assert_eq!(Board(0x1234_5678_9abc_def0).max_val(), 15);
    assert_eq!(Board(0x0000_0300_0000_0021).max_val(), 3);
    for board in sample_boards() {
        let naive = (0..16).map(|pos| naive_tile(board, pos)).max().unwrap();
        assert_eq!(board.max_val(), naive);
    }
}

#[test]
fn game_score_exact_values() {
    assert_eq!(Board(0).game_score(0), 0);
    assert_eq!(Board(0x1).game_score(0), 0);
    assert_eq!(Board(0x2).game_score(0), 4);
    assert_eq!(Board(0x3).game_score(0), 16);
    assert_eq!(Board(0xb).game_score(0), 20480);
    assert_eq!(Board(0xf).game_score(0), 458752);
    assert_eq!(Board(0x0000_0000_0000_0032).game_score(1), 16);
    assert_eq!(Board(0x2).game_score(1), 0);
    assert_eq!(Board(0x1).game_score(2), -8);
    assert_eq!(Board(0xffff_ffff_ffff_ffff).game_score(0), 16 * 458752);
    assert_eq!(Board(0x1234_0000_0000_0000).game_score(3), 4 + 16 + 48 - 12);
}

#[test]
fn transforms_are_their_own_inverse() {
    for board in sample_boards() {
        assert_eq!(board.transpose().transpose(), board);
        assert_eq!(board.flip_horiz().flip_horiz(), board);
        assert_eq!(board.flip_vert().flip_vert(), board);
    }
}

#[test]
fn transforms_move_cells_as_stated() {
    for board in sample_boards() {
        let t = board.transpose();
        let h = board.flip_horiz();
        let v = board.flip_vert();
        for row in 0..4 {
            for col in 0..4 {
                let pos = 4 * row + col;
                assert_eq!(t.get_tile(pos), board.get_tile(4 * col + row));
                assert_eq!(h.get_tile(pos), board.get_tile(4 * (3 - row) + col));
                assert_eq!(v.get_tile(pos), board.get_tile(4 * row + (3 - col)));
            }
        }
    }
}

#[test]
fn symmetries_are_eight_and_start_with_the_board() {
    for board in sample_boards() {
        let mut walk = board.symmetries();
        let mut seen = Vec::new();
        while let Some(image) = walk.next() {
            seen.push(image);
        }
        assert_eq!(seen.len(), 8);
        assert_eq!(seen[0], board);
        assert_eq!(seen[1], board.flip_horiz());
        assert_eq!(seen[2], board.flip_horiz().flip_vert());
        assert_eq!(seen[3], board.flip_vert());
        assert_eq!(seen[4], board.flip_vert().transpose());
        assert_eq!(seen[7], board.flip_vert().transpose().flip_vert());
        assert!(walk.next().is_none());
        assert!(walk.next().is_none());
    }
}

#[test]
fn symmetries_of_a_symmetric_board_repeat() {
    let board = Board(0x1111_1111_1111_1111);
    let mut walk = board.symmetries();
    let mut count = 0;
    while let Some(image) = walk.next() {
        assert_eq!(image, board);
        count += 1;
    }
    assert_eq!(count, 8);
}

#[test]
fn symmetries_can_be_walked_again() {
    let board = Board(0x1234_0000_0000_0000);
    let mut first = Vec::new();
    let mut walk = board.symmetries();
    while let Some(image) = walk.next() {
        first.push(image);
    }
    let mut second = Vec::new();
    let mut walk = board.symmetries();
    while let Some(image) = walk.next() {
        second.push(image);
    }
    assert_eq!(first, second);
}

#[test]
fn slide_twice_changes_nothing_when_nothing_merges() {
    let tables = init();
    for board in sample_boards() {
        for dir in 0..4 {
            let once = board.slide(&tables, dir);
            let tiles_before = 16 - if board.0 == 0 { 16 } else { board.empty() };
            let tiles_after = 16 - if once.0 == 0 { 16 } else { once.empty() };
            if tiles_before == tiles_after {
                assert_eq!(once.slide(&tables, dir), once);
            }
        }
    }
    let merging = Board(0x0000_0000_0000_0211);
    assert_eq!(merging.slide(&tables, RIGHT), Board(0x0000_0000_0000_0022));
    assert_eq!(
        merging.slide(&tables, RIGHT).slide(&tables, RIGHT),
        Board(0x0000_0000_0000_0003)
    );
}

#[test]
fn slides_agree_through_the_symmetries() {
    let tables = init();
    for board in sample_boards() {
        assert_eq!(
            board.slide_left(&tables),
            board.flip_vert().slide_right(&tables).flip_vert()
        );
        assert_eq!(
            board.slide_down(&tables),
            board.transpose().slide_right(&tables).transpose()
        );
        assert_eq!(
            board.slide_up(&tables),
            board.flip_horiz().slide_down(&tables).flip_horiz()
        );
    }
}
