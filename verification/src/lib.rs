//! A small heuristic state-space search toolkit for a grid collection game:
//! an agent (or several) moves on a bounded grid collecting point values, and
//! several strategies -- greedy, beam search, chokudai search, hill climbing,
//! simulated annealing -- choose actions to maximize the accumulated score.

pub mod auto_maze;
pub mod beam;
pub mod coord;
pub mod local_search;
pub mod maze;
mod rng;
pub mod search;
pub mod timekeeper;

pub use coord::Coord;
pub use maze::MazeState;
pub use timekeeper::TimeKeeper;
