//! Whole-episode score runs for each action-search strategy, averaged over a
//! few random games.

use maze_search::maze::MazeState;
use maze_search::search::{
    beam_search_action, beam_search_with_time_threshold_action, chokudai_search_action,
    chokudai_search_with_time_threshold_action, greedy_action, random_action,
};

const HEIGHT: usize = 30;
const WIDTH: usize = 30;
const END_TURN: u64 = 100;
const GAME_NUMBER: usize = 3;

#[test]
fn test_random_score() {
    let mut mean = 0.0;
    for _ in 0..GAME_NUMBER {
        let mut state = MazeState::new(HEIGHT, WIDTH, END_TURN);
        while !state.is_done() {
            let act = random_action(&state);
            state.advance(act)
        }
        mean += state.game_score as f64;
    }
    mean /= GAME_NUMBER as f64;
    println!("Random Score:\t{}", mean)
}

#[test]
fn test_greedy_score() {
    let mut mean = 0.0;
    for _ in 0..GAME_NUMBER {
        let mut state = MazeState::new(HEIGHT, WIDTH, END_TURN);
        while !state.is_done() {
            let act = greedy_action(&state);
            state.advance(act)
        }
        mean += state.game_score as f64;
    }
    mean /= GAME_NUMBER as f64;
    println!("Greedy Score:\t{}", mean)
}

#[test]
fn test_beam_search_score() {
    let mut mean = 0.0;
    for _ in 0..GAME_NUMBER {
        let mut state = MazeState::new(HEIGHT, WIDTH, END_TURN);
        while !state.is_done() {
            let act = beam_search_action(&state, 2, END_TURN);
            state.advance(act)
        }
        mean += state.game_score as f64;
    }
    mean /= GAME_NUMBER as f64;
    println!("Beam Search Score:\t{}", mean)
}

#[test]
fn test_beam_search_with_time_threshold_score() {
    let mut mean = 0.0;
    for _ in 0..GAME_NUMBER {
        let mut state = MazeState::new(HEIGHT, WIDTH, END_TURN);
        while !state.is_done() {
            let act = beam_search_with_time_threshold_action(&state, 5, 10);
            state.advance(act)
        }
        mean += state.game_score as f64;
    }
    mean /= GAME_NUMBER as f64;
    println!("Beam Search 10ms Score:\t{}", mean)
}

#[test]
fn test_chokudai_search_score() {
    let mut mean = 0.0;
    for _ in 0..GAME_NUMBER {
        let mut state = MazeState::new(HEIGHT, WIDTH, END_TURN);
        while !state.is_done() {
            let act = chokudai_search_action(&state, 1, END_TURN as usize, 2).unwrap();
            state.advance(act)
        }
        mean += state.game_score as f64;
    }
    mean /= GAME_NUMBER as f64;
    println!("Chokudai Search Score:\t{}", mean)
}

#[test]
fn test_chokudai_search_1ms_score() {
    let mut mean = 0.0;
    for _ in 0..GAME_NUMBER {
        let mut state = MazeState::new(HEIGHT, WIDTH, END_TURN);
        while !state.is_done() {
            let act =
                chokudai_search_with_time_threshold_action(&state, 5, END_TURN as usize, 1)
                    .unwrap();
            state.advance(act)
        }
        mean += state.game_score as f64;
    }
    mean /= GAME_NUMBER as f64;
    println!("Beam Search 1ms Score:\t{}", mean)
}
