use expectimax2048::policy::{PlayState, Turn, HIGH_BITS, MAX_DEPTH, MIN_DEPTH, VERY_HIGH_BITS};
use expectimax2048::board::Board;
use expectimax2048::search::{cutoff, select_best, Choice, CUTOFF_BITS, NO_MOVE};
use expectimax2048::single::{Single, INFINITY_BITS, ONE_BITS, SIGN_BIT, ZERO_BITS};

fn num(x: f32) -> Single {
    Single(x.to_bits())
}

fn samples() -> Vec<f32> {
    let mut values = vec![
        0.0f32,
        -0.0,
        1.0,
        -1.0,
        0.05,
        0.001,
        0.0001,
        0.9,
        0.1,
        f32::MIN_POSITIVE,
        -f32::MIN_POSITIVE,
        1.0e-45,
        -1.0e-45,
        f32::MAX,
        f32::MIN,
        f32::INFINITY,
        f32::NEG_INFINITY,
        f32::NAN,
        -f32::NAN,
        f32::EPSILON,
        200000.0,
        -575000.0,
        3.5,
        0.050000004,
        0.049999997,
    ];
    let mut x: u32 = 0x1234_5678;
    for _ in 0..200 {
        x ^= x << 13;
        x ^= x >> 17;
        x ^= x << 5;
        values.push(f32::from_bits(x));
    }
    values
}

#[test]
fn bit_patterns_of_the_constants() {
    assert_eq!(ZERO_BITS, 0.0f32.to_bits());
    assert_eq!(ONE_BITS, 1.0f32.to_bits());
    assert_eq!(SIGN_BIT, (-0.0f32).to_bits());
    assert_eq!(INFINITY_BITS, f32::INFINITY.to_bits());
    assert_eq!(VERY_HIGH_BITS, 0.05f32.to_bits());
    assert_eq!(HIGH_BITS, 0.001f32.to_bits());
    assert_eq!(CUTOFF_BITS, 0.0001f32.to_bits());
}

#[test]
fn order_of_patterns_is_order_of_numbers() {
    let values = samples();
    for a in values.iter() {
        assert_eq!(num(*a).is_nan(), a.is_nan(), "{}", a);
        for b in values.iter() {
            assert_eq!(num(*a).gt(num(*b)), a > b, "{} > {}", a, b);
            assert_eq!(num(*a).lt(num(*b)), a < b, "{} < {}", a, b);
        }
    }
}

#[test]
fn state_follows_the_thresholds() {
    assert_eq!(PlayState::from_prob(num(1.0)), PlayState::VeryHighProbDeath);
    assert_eq!(PlayState::from_prob(num(0.06)), PlayState::VeryHighProbDeath);
    assert_eq!(PlayState::from_prob(num(0.050000004)), PlayState::VeryHighProbDeath);
    assert_eq!(PlayState::from_prob(num(0.05)), PlayState::HighPropDeath);
    assert_eq!(PlayState::from_prob(num(0.002)), PlayState::HighPropDeath);
    assert_eq!(PlayState::from_prob(num(0.001)), PlayState::LowProbDeath);
    assert_eq!(PlayState::from_prob(num(1.0e-10)), PlayState::LowProbDeath);
    assert_eq!(PlayState::from_prob(num(1.0e-45)), PlayState::LowProbDeath);
    assert_eq!(PlayState::from_prob(num(0.0)), PlayState::ZeroProbDeath);
    assert_eq!(PlayState::from_prob(num(-0.0)), PlayState::ZeroProbDeath);
    assert_eq!(PlayState::from_prob(num(-1.0)), PlayState::ZeroProbDeath);
    assert_eq!(PlayState::from_prob(num(f32::NAN)), PlayState::ZeroProbDeath);
    assert_eq!(PlayState::from_prob(num(f32::INFINITY)), PlayState::VeryHighProbDeath);
}

fn reference_state(prob: f32) -> PlayState {
    if prob > 0.05 {
        PlayState::VeryHighProbDeath
    } else if prob > 0.001 {
        PlayState::HighPropDeath
    } else if prob > 0.0 {
        PlayState::LowProbDeath
    } else {
        PlayState::ZeroProbDeath
    }
}

#[test]
fn state_of_every_sample() {
    for value in samples() {
        assert_eq!(PlayState::from_prob(num(value)), reference_state(value), "{}", value);
    }
}

#[test]
fn falling_probabilities_give_states_without_memory() {
    let probs = [0.9f32, 0.2, 0.05, 0.01, 0.001, 0.0005, 0.0, 0.0];
    let expected = [
        PlayState::VeryHighProbDeath,
        PlayState::VeryHighProbDeath,
        PlayState::HighPropDeath,
        PlayState::HighPropDeath,
        PlayState::LowProbDeath,
        PlayState::LowProbDeath,
        PlayState::ZeroProbDeath,
        PlayState::ZeroProbDeath,
    ];
    let board = Board(0x1234_5678_0000_0000);
    let mut depth = 0u8;
    let mut state = PlayState::ZeroProbDeath;
    for (prob, want) in probs.iter().zip(expected.iter()) {
        let mut turn = Turn::begin(state);
        depth += 1;
        let results = vec![Choice { dir: 2, score: num(10.0), end_prob: num(*prob) }];
        turn.record(depth, &results);
        assert_eq!(turn.state(), *want);
        assert_eq!(turn.state(), PlayState::from_prob(num(*prob)));
        assert_eq!(turn.searches(), 1);
        assert_eq!(turn.searched_depth(), depth);
        state = turn.state();
        let _ = turn.next_depth(board);
    }
}

#[test]
fn target_depth_exact_values() {
    assert_eq!(MIN_DEPTH, 3);
    assert_eq!(MAX_DEPTH, 17);
    for distinct in 0..=7u8 {
        assert_eq!(PlayState::ZeroProbDeath.target_depth(distinct), 3);
    }
    assert_eq!(PlayState::ZeroProbDeath.target_depth(8), 4);
    assert_eq!(PlayState::ZeroProbDeath.target_depth(15), 11);
    assert_eq!(PlayState::LowProbDeath.target_depth(0), 3);
    assert_eq!(PlayState::LowProbDeath.target_depth(5), 3);
    assert_eq!(PlayState::LowProbDeath.target_depth(6), 4);
    assert_eq!(PlayState::LowProbDeath.target_depth(15), 13);
    assert_eq!(PlayState::HighPropDeath.target_depth(0), 3);
    assert_eq!(PlayState::HighPropDeath.target_depth(3), 3);
    assert_eq!(PlayState::HighPropDeath.target_depth(4), 4);
    assert_eq!(PlayState::HighPropDeath.target_depth(15), 15);
    for distinct in 0..=15u8 {
        assert_eq!(PlayState::VeryHighProbDeath.target_depth(distinct), 17);
    }
}

#[test]
fn depth_never_falls_as_risk_rises() {
    let states = [
        PlayState::ZeroProbDeath,
        PlayState::LowProbDeath,
        PlayState::HighPropDeath,
        PlayState::VeryHighProbDeath,
    ];
    for distinct in 0..=15u8 {
        for pair in states.windows(2) {
            assert!(pair[0].target_depth(distinct) <= pair[1].target_depth(distinct));
        }
    }
}

#[test]
fn turn_searches_deeper_when_the_risk_jumps() {
    let board = Board(0x1234_5678_9ab0_0000);
    assert_eq!(board.distinct(), 11);
    let mut turn = Turn::begin(PlayState::ZeroProbDeath);
    assert_eq!(turn.searches(), 0);
    assert_eq!(turn.searched_depth(), 0);
    assert_eq!(turn.best().dir, NO_MOVE);
    assert_eq!(turn.next_depth(board), Some(7));
    turn.record(7, &vec![Choice { dir: 1, score: num(5.0), end_prob: num(0.01) }]);
    assert_eq!(turn.state(), PlayState::HighPropDeath);
    assert_eq!(turn.next_depth(board), Some(11));
    turn.record(11, &vec![Choice { dir: 3, score: num(4.0), end_prob: num(0.2) }]);
    assert_eq!(turn.state(), PlayState::VeryHighProbDeath);
    assert_eq!(turn.best().dir, 3);
    assert_eq!(turn.next_depth(board), Some(17));
    turn.record(17, &vec![Choice { dir: 0, score: num(3.0), end_prob: num(0.0) }]);
    assert_eq!(turn.state(), PlayState::ZeroProbDeath);
    assert_eq!(turn.next_depth(board), None);
    assert_eq!(turn.searches(), 3);
    assert_eq!(turn.searched_depth(), 17);
    assert_eq!(turn.best(), Choice { dir: 0, score: num(3.0), end_prob: num(0.0) });
}

#[test]
fn turn_without_a_move_is_certain_death() {
    let board = Board(0x1212_2121_1212_2121);
    let mut turn = Turn::begin(PlayState::LowProbDeath);
    assert_eq!(turn.next_depth(board), Some(3));
    turn.record(3, &Vec::new());
    assert_eq!(turn.best(), Choice { dir: NO_MOVE, score: num(0.0), end_prob: num(1.0) });
    assert_eq!(turn.state(), PlayState::VeryHighProbDeath);
    assert_eq!(turn.next_depth(board), Some(17));
}

#[test]
fn best_keeps_the_first_of_equals() {
    let results = vec![
        Choice { dir: 0, score: num(2.0), end_prob: num(0.5) },
        Choice { dir: 1, score: num(7.5), end_prob: num(0.25) },
        Choice { dir: 2, score: num(7.5), end_prob: num(0.125) },
        Choice { dir: 3, score: num(-3.0), end_prob: num(0.0) },
    ];
    assert_eq!(select_best(&results), results[1]);
}

#[test]
fn best_needs_a_score_above_zero() {
    let none = Choice { dir: NO_MOVE, score: num(0.0), end_prob: num(1.0) };
    assert_eq!(select_best(&Vec::new()), none);
    let results = vec![
        Choice { dir: 0, score: num(-1.0), end_prob: num(1.0) },
        Choice { dir: 1, score: num(0.0), end_prob: num(0.0) },
        Choice { dir: 2, score: num(f32::NAN), end_prob: num(0.0) },
    ];
    assert_eq!(select_best(&results), none);
    let results = vec![
        Choice { dir: 0, score: num(-1.0), end_prob: num(1.0) },
        Choice { dir: 3, score: num(1.0e-40), end_prob: num(0.5) },
    ];
    assert_eq!(select_best(&results), results[1]);
}

#[test]
fn best_matches_a_plain_scan() {
    let values = samples();
    for start in 0..values.len() - 4 {
        let results: Vec<Choice> = (0..4)
            .map(|i| Choice {
                dir: i as i32,
                score: num(values[start + i]),
                end_prob: num(values[(start + 2 * i) % values.len()]),
            })
            .collect();
        let mut bestdir = -1;
        let mut bestexp = 0f32;
        let mut best_end_prob = 1f32;
        for (dir, choice) in results.iter().enumerate() {
            let exp = f32::from_bits(choice.score.0);
            if exp > bestexp {
                bestexp = exp;
                bestdir = dir as i32;
                best_end_prob = f32::from_bits(choice.end_prob.0);
            }
        }
        let best = select_best(&results);
        assert_eq!(best.dir, bestdir);
        assert_eq!(best.score.0, bestexp.to_bits());
        assert_eq!(best.end_prob.0, best_end_prob.to_bits());
    }
}

#[test]
fn search_stops_at_depth_zero_and_below_the_cutoff() {
    assert!(cutoff(0, num(1.0)));
    assert!(cutoff(5, num(0.00009)));
    assert!(cutoff(5, num(0.0)));
    assert!(!cutoff(5, num(0.0001)));
    assert!(!cutoff(1, num(1.0)));
    assert!(!cutoff(1, num(f32::NAN)));
    for value in samples() {
        assert_eq!(cutoff(3, num(value)), value < 0.0001, "{}", value);
    }
}
