//! Local search over agent placements: hill climbing, and the accept/track
//! state of simulated annealing. Both perturb a placement with `transition`,
//! score it with `get_score`, and keep or drop the candidate by score; the
//! annealing temperature schedule and its acceptance coin live with the
//! caller, which hands the decision in as a boolean.

use vstd::prelude::*;
use vstd::pervasive::unreached;

use crate::auto_maze::AutoMoveMazeState;

verus! {

/// Gives every agent an independent uniformly random position and returns the
/// resulting state.
pub fn random_action(state: &mut AutoMoveMazeState) -> (r: AutoMoveMazeState)
    requires
        old(state).wf(),
    ensures
        final(state).wf(),
        r.model() == final(state).model(),
        final(state).points@ == old(state).points@,
        final(state).turn == old(state).turn,
        final(state).game_score == old(state).game_score,
        final(state).characters@.len() == old(state).characters@.len(),
    {
    state.init_characters();
    state.clone()
}

/// One hill-climbing trial: perturb a copy of the placement, roll it out, and
/// accept the copy only if it scores strictly higher. The accepted score never
/// decreases, so the accepted-score sequence of a climb is non-decreasing.
pub fn hill_climb_step(now_state: &AutoMoveMazeState, best_score: i64) -> (r: (
    AutoMoveMazeState,
    i64,
))
    requires
        now_state.wf(),
        best_score as int == now_state.model().placement_value(),
    ensures
        r.0.wf(),
        r.1 as int == r.0.model().placement_value(),
        r.1 >= best_score,
        r.0.model().grid == now_state.model().grid,
        r.0.model().turn == now_state.model().turn,
        r.0.model().score == now_state.model().score,
        r.0.model().height == now_state.model().height,
        r.0.model().width == now_state.model().width,
        r.0.model().end_turn == now_state.model().end_turn,
        r.0.model().chars.len() == now_state.model().chars.len(),
{
    let mut next_state = now_state.clone();
    next_state.transition();
    let next_score = next_state.get_score();
    if best_score < next_score {
        (next_state, next_score)
    } else {
        (now_state.clone(), best_score)
    }
}

/// Hill climbing: start from a random placement, then `number` times perturb
/// and keep the perturbation only when it scores strictly higher. Returns the
/// last accepted state; its grid, turn and banked score are the input's.
pub fn hill_climb(state: &AutoMoveMazeState, number: usize) -> (r: AutoMoveMazeState)
    requires
        state.wf(),
    ensures
        r.wf(),
        r.model().grid == state.model().grid,
        r.model().turn == state.model().turn,
        r.model().score == state.model().score,
        r.model().height == state.model().height,
        r.model().width == state.model().width,
        r.model().end_turn == state.model().end_turn,
        r.model().chars.len() == state.model().chars.len(),
{
    let mut now_state = state.clone();
    now_state.init_characters();
    let mut best_score = now_state.get_score();
    let mut i: usize = 0;
    while i < number
        invariant
            now_state.wf(),
            best_score as int == now_state.model().placement_value(),
            now_state.model().grid == state.model().grid,
            now_state.model().turn == state.model().turn,
            now_state.model().score == state.model().score,
            now_state.model().height == state.model().height,
            now_state.model().width == state.model().width,
            now_state.model().end_turn == state.model().end_turn,
            now_state.model().chars.len() == state.model().chars.len(),
        decreases number - i,
    {
        let (accepted, score) = hill_climb_step(&now_state, best_score);
        now_state = accepted;
        best_score = score;
        i = i + 1;
    }
    now_state
}

/// The decision state of simulated annealing: the walk's current placement,
/// the best placement ever seen, their rollout scores, and at most one pending
/// candidate. The caller draws the acceptance coin (the temperature schedule
/// is its business) and hands it to `resolve`; a strictly better candidate is
/// accepted regardless of the coin, and the best-ever state only improves.
pub struct Annealer {
    pub now: AutoMoveMazeState,
    pub now_score: i64,
    pub best: AutoMoveMazeState,
    pub best_score: i64,
    pub pending: Option<(AutoMoveMazeState, i64)>,
}

impl Annealer {
    /// The annealer's bookkeeping is consistent: scores are the states'
    /// placement values and the best score is never behind the current one.
    pub open spec fn wf(self) -> bool {
        &&& self.now.wf()
        &&& self.best.wf()
        &&& self.now_score as int == self.now.model().placement_value()
        &&& self.best_score as int == self.best.model().placement_value()
        &&& self.best_score >= self.now_score
        &&& (self.pending matches Some(p) ==> p.0.wf() && p.1 as int
            == p.0.model().placement_value())
    }

    /// A walk starting at the given placement: it is both the current and the
    /// best state so far.
    pub fn new(placed: &AutoMoveMazeState) -> (r: Annealer)
        requires
            placed.wf(),
        ensures
            r.wf(),
            r.now.model() == placed.model(),
            r.best.model() == placed.model(),
            r.pending is None,
    {
        let score = placed.get_score();
        Annealer {
            now: placed.clone(),
            now_score: score,
            best: placed.clone(),
            best_score: score,
            pending: None,
        }
    }

    /// Perturbs a copy of the current placement and rolls it out; the
    /// candidate waits for `resolve`. Returns the current and candidate
    /// scores, from which the caller computes its acceptance probability.
    pub fn propose(&mut self) -> (r: (i64, i64))
        requires
            old(self).wf(),
        ensures
            final(self).wf(),
            final(self).now == old(self).now,
            final(self).now_score == old(self).now_score,
            final(self).best == old(self).best,
            final(self).best_score == old(self).best_score,
            r.0 == old(self).now_score,
            final(self).pending matches Some(p) && p.1 == r.1 && p.0.model().grid == old(
                self,
            ).now.model().grid,
    {
        let mut candidate = self.now.clone();
        candidate.transition();
        let candidate_score = candidate.get_score();
        let now_score = self.now_score;
        self.pending = Some((candidate, candidate_score));
        (now_score, candidate_score)
    }

    /// Settles the pending candidate: it replaces the current state when it
    /// scores strictly higher or when the caller's coin forces acceptance, and
    /// it replaces the best state exactly when it scores strictly higher than
    /// the best. The best score never decreases.
    pub fn resolve(&mut self, accept_worse: bool)
        requires
            old(self).wf(),
            old(self).pending is Some,
        ensures
            final(self).wf(),
            final(self).pending is None,
            old(self).pending matches Some(p) && {
                &&& (if old(self).now_score < p.1 || accept_worse {
                    final(self).now == p.0 && final(self).now_score == p.1
                } else {
                    final(self).now == old(self).now && final(self).now_score == old(
                        self,
                    ).now_score
                })
                &&& (if old(self).best_score < p.1 {
                    final(self).best.model() == p.0.model() && final(self).best_score == p.1
                } else {
                    final(self).best == old(self).best && final(self).best_score == old(
                        self,
                    ).best_score
                })
            },
            final(self).best_score >= old(self).best_score,
    {
        let mut taken: Option<(AutoMoveMazeState, i64)> = None;
        core::mem::swap(&mut self.pending, &mut taken);
        match taken {
            Some((candidate, candidate_score)) => {
                if self.best_score < candidate_score {
                    self.best = candidate.clone();
                    self.best_score = candidate_score;
                }
                if self.now_score < candidate_score || accept_worse {
                    self.now = candidate;
                    self.now_score = candidate_score;
                }
            },
            None => unreached(),
        }
    }

    /// The best placement the walk has seen.
    pub fn into_best(self) -> (r: AutoMoveMazeState)
        ensures
            r == self.best,
    {
        self.best
    }
}

} // verus!
