//! Tests of the multi-agent auto-move state and the local searches.

use maze_search::auto_maze::AutoMoveMazeState;
use maze_search::coord::Coord;
use maze_search::local_search::{hill_climb, hill_climb_step, random_action, Annealer};

const HEIGHT: usize = 5;
const WIDTH: usize = 5;
const END_TURN: usize = 5;
const CHARACTER_N: usize = 3;
const GAME_NUMBER: usize = 20;

fn fresh_state() -> AutoMoveMazeState {
    AutoMoveMazeState::new(HEIGHT, WIDTH, END_TURN, CHARACTER_N)
}

/// A fixed 4x4 grid with three agents, for deterministic rollouts.
fn fixed_state() -> AutoMoveMazeState {
    AutoMoveMazeState::from_parts(
        4,
        4,
        3,
        vec![9, 0, 1, 2, 0, 3, 0, 4, 5, 0, 6, 0, 7, 0, 0, 8],
        vec![
            Coord::from_point(0, 0),
            Coord::from_point(3, 0),
            Coord::from_point(0, 3),
        ],
    )
}

#[test]
fn test_random_action() {
    let mut mean = 0.0;
    for _ in 0..GAME_NUMBER {
        let mut state = fresh_state();
        let state = random_action(&mut state);
        let score = state.get_score();
        mean += score as f64;
    }
    mean /= GAME_NUMBER as f64;
    println!("Score of random Action: {}", mean);
}

#[test]
fn test_hill_climb_action() {
    let mut mean = 0.0;
    for _ in 0..GAME_NUMBER {
        let state = fresh_state();
        let state = hill_climb(&state, 10000);
        let score = state.get_score();
        mean += score as f64;
    }
    mean /= GAME_NUMBER as f64;
    println!("Score of Hill Climb Action: {}", mean);
}

#[test]
fn test_get_score_is_pure_and_bounded() {
    let state = fixed_state();
    let s1 = state.get_score();
    let s2 = state.get_score();
    assert_eq!(s1, s2);
    assert!(s1 >= 0);
    assert!(s1 <= 4 * 4 * 9);
    // the receiver is untouched
    assert_eq!(state.turn, 0);
    assert_eq!(state.game_score, 0);
}

#[test]
fn test_advance_determined_and_single_collection() {
    let mut state = fixed_state();
    let total_before: i64 = state.points.iter().sum();
    let mut collected: i64 = 0;
    while !state.is_done() {
        let before = state.game_score;
        state.advance();
        assert!(state.game_score >= before);
        collected = state.game_score;
    }
    let total_after: i64 = state.points.iter().sum();
    // every point earned left the grid exactly once
    assert_eq!(total_before - total_after, collected);
    assert_eq!(state.turn, 3);
}

#[test]
fn test_set_character_places_agent() {
    let mut state = fixed_state();
    state.set_character(1, 2, 3);
    assert_eq!(state.characters[1].y, 2);
    assert_eq!(state.characters[1].x, 3);
    assert_eq!(state.characters[0].y, 0);
}

#[test]
fn test_hill_climb_accepted_scores_never_decrease() {
    let mut state = fresh_state();
    state.init_characters();
    let mut now = state.clone();
    let mut score = now.get_score();
    let mut last = score;
    for _ in 0..50 {
        let (accepted, s) = hill_climb_step(&now, score);
        now = accepted;
        score = s;
        assert!(score >= last);
        last = score;
    }
}

#[test]
fn test_annealer_accepts_better_rejects_worse_without_coin() {
    let mut state = fixed_state();
    state.init_characters();
    let mut annealer = Annealer::new(&state);
    for _ in 0..50 {
        let (now_score, next_score) = annealer.propose();
        let best_before = annealer.best_score;
        annealer.resolve(false);
        if next_score > now_score {
            assert_eq!(annealer.now_score, next_score);
        } else {
            assert_eq!(annealer.now_score, now_score);
        }
        assert!(annealer.best_score >= best_before);
        assert!(annealer.best_score >= annealer.now_score);
    }
}

#[test]
fn test_annealer_forced_acceptance_takes_worse_candidate() {
    let mut state = fixed_state();
    state.init_characters();
    let mut annealer = Annealer::new(&state);
    for _ in 0..50 {
        let (_now_score, next_score) = annealer.propose();
        let best_before = annealer.best_score;
        annealer.resolve(true);
        // a forced coin always moves the walk to the candidate
        assert_eq!(annealer.now_score, next_score);
        // yet the best-ever score never falls
        assert!(annealer.best_score >= best_before);
    }
    assert!(annealer.best_score >= 0);
}

#[test]
fn test_annealer_best_is_best_of_walk() {
    let mut state = fixed_state();
    state.init_characters();
    let mut annealer = Annealer::new(&state);
    let mut top = annealer.best_score;
    for _ in 0..30 {
        let (_now_score, next_score) = annealer.propose();
        annealer.resolve(next_score % 2 == 0);
        if next_score > top {
            top = next_score;
        }
    }
    assert_eq!(annealer.best_score, top);
    let best_state = annealer.into_best();
    assert_eq!(best_state.get_score(), top);
}
