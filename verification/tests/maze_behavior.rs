//! Behavioral tests of the single-agent state and the searches on fixed,
//! hand-checkable grids.

use maze_search::beam::Beam;
use maze_search::coord::Coord;
use maze_search::maze::MazeState;
use maze_search::search::{
    beam_search_action, chokudai_search_action, deepest_best_action, greedy_action,
};
use maze_search::timekeeper::TimeKeeper;

/// A 3x3 grid holding `[[0, 1, 2], [3, 4, 5], [6, 7, 8]]`, agent at `(0, 0)`.
fn three_by_three(end_turn: u64) -> MazeState {
    MazeState::from_grid(
        3,
        3,
        end_turn,
        Coord::from_point(0, 0),
        vec![0, 1, 2, 3, 4, 5, 6, 7, 8],
    )
}

#[test]
fn test_coord_constructors() {
    let origin = Coord::new();
    assert_eq!(origin.x, 0);
    assert_eq!(origin.y, 0);
    let p = Coord::from_point(2, 5);
    assert_eq!(p.x, 2);
    assert_eq!(p.y, 5);
}

#[test]
fn test_legal_actions_at_corner_and_center() {
    let mut state = three_by_three(4);
    // at (0, 0): +x and +y only, in the fixed order 0, 2
    assert_eq!(state.legal_actions(), vec![0, 2]);
    state.character = Coord::from_point(1, 1);
    // at the center all four are legal
    assert_eq!(state.legal_actions(), vec![0, 1, 2, 3]);
    state.character = Coord::from_point(2, 2);
    // at (2, 2): -x and -y only
    assert_eq!(state.legal_actions(), vec![1, 3]);
}

#[test]
fn test_advance_collects_each_cell_once() {
    let mut state = three_by_three(4);
    state.advance(2); // down to (1, 0), collects 3
    assert_eq!(state.game_score, 3);
    assert_eq!(state.turn, 1);
    state.advance(3); // back up to (0, 0), collects nothing
    assert_eq!(state.game_score, 3);
    state.advance(2); // down again: the cell was zeroed, nothing to collect
    assert_eq!(state.game_score, 3);
    state.advance(0); // right to (1, 1), collects 4
    assert_eq!(state.game_score, 7);
    assert!(state.is_done());
}

#[test]
fn test_evaluate_score_sets_key() {
    let mut state = three_by_three(4);
    state.advance(2);
    assert_eq!(state.evaluated_score, 0);
    state.evaluate_score();
    assert_eq!(state.evaluated_score, 3);
}

#[test]
fn test_greedy_picks_highest_neighbor() {
    // from (0, 0) the reachable values are 1 at (0, 1) and 3 at (1, 0):
    // greedy must move toward (1, 0), which is action 2 (+y)
    let state = three_by_three(2);
    assert_eq!(greedy_action(&state), 2);
}

#[test]
fn test_greedy_full_episode_score_bounded() {
    let mut state = three_by_three(8);
    while !state.is_done() {
        let act = greedy_action(&state);
        state.advance(act);
    }
    assert!(state.game_score >= 0);
    assert!(state.game_score <= 3 * 3 * 9);
}

#[test]
fn test_random_episode_score_bounded() {
    for _ in 0..10 {
        let mut state = MazeState::new(4, 4, 30);
        while !state.is_done() {
            let act = maze_search::search::random_action(&state);
            state.advance(act);
        }
        assert!(state.game_score >= 0);
        assert!(state.game_score <= 4 * 4 * 9);
    }
}

#[test]
fn test_new_grid_values_in_range() {
    let state = MazeState::new(30, 30, 100);
    assert_eq!(state.points.len(), 900);
    for &v in state.points.iter() {
        assert!((0..=9).contains(&v));
    }
    assert!(state.character.y < 30);
    assert!(state.character.x < 30);
    // the starting cell holds no value
    assert_eq!(state.points[state.character.y * 30 + state.character.x], 0);
}

#[test]
fn test_beam_search_on_fixed_grid() {
    // depth 2, width 2: the best depth-2 node reaches 3 + 6 = 9 via two +y
    // steps, so the first action is 2
    let state = three_by_three(2);
    assert_eq!(beam_search_action(&state, 2, 2), 2);
}

#[test]
fn test_chokudai_search_on_fixed_grid() {
    let state = three_by_three(2);
    assert_eq!(chokudai_search_action(&state, 1, 2, 2), Some(2));
}

#[test]
fn test_deepest_frontier_wins() {
    // two frontiers hold nodes; the answer must come from the deeper one even
    // though the shallow node scores higher
    let mut shallow = three_by_three(4);
    shallow.evaluated_score = 100;
    shallow.first_action = Some(0);
    let mut deep = three_by_three(4);
    deep.evaluated_score = 1;
    deep.first_action = Some(3);
    let mut b1 = Beam::new();
    b1.push(shallow);
    let mut b2 = Beam::new();
    b2.push(deep);
    let beams = vec![b1, b2];
    assert_eq!(deepest_best_action(&beams), Some(3));

    let empty = vec![Beam::new(), Beam::new()];
    assert_eq!(deepest_best_action(&empty), None);
}

#[test]
fn test_beam_pops_highest_score_first() {
    let mut a = three_by_three(4);
    a.evaluated_score = 5;
    a.first_action = Some(0);
    let mut b = three_by_three(4);
    b.evaluated_score = 9;
    b.first_action = Some(1);
    let mut beam = Beam::new();
    beam.push(a);
    beam.push(b);
    assert_eq!(beam.len(), 2);
    let first = beam.pop_best().unwrap();
    assert_eq!(first.evaluated_score, 9);
    let second = beam.pop_best().unwrap();
    assert_eq!(second.evaluated_score, 5);
    assert!(beam.pop_best().is_none());
}

#[test]
fn test_time_keeper_zero_budget_expires() {
    let keeper = TimeKeeper::new(0);
    assert!(keeper.is_time_over());
}

#[test]
fn test_time_keeper_monotone_once_over() {
    let keeper = TimeKeeper::new(1);
    while !keeper.is_time_over() {}
    // elapsed time never decreases, so the deadline stays expired
    assert!(keeper.is_time_over());
    assert!(keeper.is_time_over());
}
