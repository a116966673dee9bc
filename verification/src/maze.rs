//! The single-agent grid state: an agent at a coordinate collects the value of
//! every cell it enters, once, over a fixed number of turns.
//!
//! Actions are indices `0..4`: `0` steps `+x`, `1` steps `-x`, `2` steps `+y`,
//! `3` steps `-y`. The grid is stored row-major in a flat vector.

use vstd::prelude::*;

use crate::coord::Coord;
use crate::rng::{gen_index, new_rng};

verus! {

/// Column step of an action: `0` is `+x`, `1` is `-x`, others leave `x`.
pub open spec fn step_x(a: int) -> int {
    if a == 0 {
        1
    } else if a == 1 {
        -1
    } else {
        0
    }
}

/// Row step of an action: `2` is `+y`, `3` is `-y`, others leave `y`.
pub open spec fn step_y(a: int) -> int {
    if a == 2 {
        1
    } else if a == 3 {
        -1
    } else {
        0
    }
}

/// Sum of all cell values of a grid.
pub open spec fn sum_cells(s: Seq<i64>) -> int
    decreases s.len(),
{
    if s.len() == 0 {
        0
    } else {
        sum_cells(s.drop_last()) + s.last()
    }
}

/// A grid of values in `[0, 9]` sums to at most nine per cell, and never below zero.
pub proof fn lemma_sum_cells_bounds(s: Seq<i64>)
    requires
        forall|i: int| 0 <= i < s.len() ==> 0 <= #[trigger] s[i] <= 9,
    ensures
        0 <= sum_cells(s) <= 9 * s.len(),
    decreases s.len(),
{
    if s.len() > 0 {
        lemma_sum_cells_bounds(s.drop_last());
    }
}

/// Replacing one cell changes the sum by exactly the difference.
pub proof fn lemma_sum_cells_update(s: Seq<i64>, i: int, v: i64)
    requires
        0 <= i < s.len(),
    ensures
        sum_cells(s.update(i, v)) == sum_cells(s) - s[i] + v,
    decreases s.len(),
{
    let t = s.update(i, v);
    if i == s.len() - 1 {
        assert(t.drop_last() =~= s.drop_last());
    } else {
        assert(t.drop_last() =~= s.drop_last().update(i, v));
        lemma_sum_cells_update(s.drop_last(), i, v);
        assert(t.last() == s.last());
    }
}

/// In a grid of non-negative values, one cell is at most the whole sum.
pub proof fn lemma_sum_cells_element(s: Seq<i64>, i: int)
    requires
        0 <= i < s.len(),
        forall|j: int| 0 <= j < s.len() ==> 0 <= #[trigger] s[j],
    ensures
        s[i] <= sum_cells(s),
        0 <= sum_cells(s),
    decreases s.len(),
{
    if s.len() == 1 {
    } else if i == s.len() - 1 {
        lemma_sum_cells_element(s.drop_last(), 0);
    } else {
        lemma_sum_cells_element(s.drop_last(), i);
    }
}

/// The single-agent game state.
///
/// `points` holds the grid row-major: the value of cell `(y, x)` sits at
/// index `y * width + x`. A cell's value is added to `game_score` and zeroed
/// the first time the agent enters it. The episode ends when `turn` reaches
/// `end_turn`. `evaluated_score` is the ordering key used by the searches and
/// is set explicitly by `evaluate_score`; `first_action` lets a search recover
/// the depth-zero decision from a deep node.
pub struct MazeState {
    pub height: usize,
    pub width: usize,
    pub end_turn: u64,
    pub character: Coord,
    pub game_score: i64,
    pub evaluated_score: i64,
    pub first_action: Option<usize>,
    pub points: Vec<i64>,
    pub turn: u64,
}

impl MazeState {
    /// Is `(y, x)` a cell of the grid?
    pub open spec fn in_bounds(self, y: int, x: int) -> bool {
        0 <= y < self.height && 0 <= x < self.width
    }

    /// Flat index of cell `(y, x)`.
    pub open spec fn cell_idx(self, y: int, x: int) -> int {
        y * (self.width as int) + x
    }

    /// Value of cell `(y, x)`.
    pub open spec fn cell(self, y: int, x: int) -> i64 {
        self.points@[self.cell_idx(y, x)]
    }

    /// Row the agent would reach by action `a`.
    pub open spec fn target_y(self, a: int) -> int {
        self.character.y + step_y(a)
    }

    /// Column the agent would reach by action `a`.
    pub open spec fn target_x(self, a: int) -> int {
        self.character.x + step_x(a)
    }

    /// An action is legal when its destination lies on the grid.
    pub open spec fn is_legal(self, a: int) -> bool {
        0 <= a < 4 && self.in_bounds(self.target_y(a), self.target_x(a))
    }

    /// Well-formedness: the grid has positive extent, every cell value lies in
    /// `[0, 9]`, the agent stands on the grid, the score is non-negative, and
    /// the score plus the value still on the grid never exceeds nine per cell
    /// (so a completed episode's score is bounded and sums cannot overflow).
    pub open spec fn wf(self) -> bool {
        &&& 1 <= self.height
        &&& 1 <= self.width
        &&& (self.height as int) * (self.width as int) * 9 <= i64::MAX
        &&& self.points@.len() == (self.height as int) * (self.width as int)
        &&& (forall|i: int| 0 <= i < self.points@.len() ==> 0 <= #[trigger] self.points@[i] <= 9)
        &&& self.in_bounds(self.character.y as int, self.character.x as int)
        &&& 0 <= self.game_score
        &&& self.game_score + sum_cells(self.points@) <= (self.height as int) * (self.width as int)
            * 9
        &&& self.turn <= self.end_turn
    }

    /// The episode is over.
    pub open spec fn spec_is_done(self) -> bool {
        self.turn == self.end_turn
    }

    /// Same grid extent and episode length.
    pub open spec fn same_shape(self, o: MazeState) -> bool {
        self.height == o.height && self.width == o.width && self.end_turn == o.end_turn
    }

    /// Equal in every observable part (grids compared by contents).
    pub open spec fn eqv(self, o: MazeState) -> bool {
        &&& self.same_shape(o)
        &&& self.character == o.character
        &&& self.game_score == o.game_score
        &&& self.evaluated_score == o.evaluated_score
        &&& self.first_action == o.first_action
        &&& self.points@ == o.points@
        &&& self.turn == o.turn
    }

    /// The game score after taking action `a` from this state: the destination
    /// cell's value is collected on entry.
    pub open spec fn one_step_score(self, a: int) -> int {
        self.game_score + self.cell(self.target_y(a), self.target_x(a))
    }

    /// How `advance` transforms a state: the agent moves by action `a`, the
    /// destination cell's value moves into the score and the cell is zeroed,
    /// and the turn counter grows by one. Nothing else changes.
    pub open spec fn advance_rel(self, post: MazeState, a: int) -> bool {
        &&& post.same_shape(self)
        &&& post.character.y == self.target_y(a)
        &&& post.character.x == self.target_x(a)
        &&& post.turn == self.turn + 1
        &&& post.game_score == self.one_step_score(a)
        &&& post.points@ == self.points@.update(
            self.cell_idx(self.target_y(a), self.target_x(a)),
            0i64,
        )
        &&& post.evaluated_score == self.evaluated_score
        &&& post.first_action == self.first_action
    }

    /// The legal actions in their fixed order `0, 1, 2, 3`.
    pub open spec fn spec_legal_actions(self) -> Seq<usize> {
        (if self.is_legal(0) {
            seq![0usize]
        } else {
            Seq::<usize>::empty()
        }) + (if self.is_legal(1) {
            seq![1usize]
        } else {
            Seq::<usize>::empty()
        }) + (if self.is_legal(2) {
            seq![2usize]
        } else {
            Seq::<usize>::empty()
        }) + (if self.is_legal(3) {
            seq![3usize]
        } else {
            Seq::<usize>::empty()
        })
    }

    /// A fresh episode: the agent starts at a uniformly random position and
    /// every other cell holds a uniformly random value in `[0, 9]`; the
    /// starting cell holds zero.
    pub fn new(height: usize, width: usize, end_turn: u64) -> (r: MazeState)
        requires
            1 <= height,
            1 <= width,
            (height as int) * (width as int) * 9 <= i64::MAX,
            (height as int) * (width as int) <= usize::MAX,
        ensures
            r.wf(),
            r.height == height,
            r.width == width,
            r.end_turn == end_turn,
            r.turn == 0,
            r.game_score == 0,
            r.evaluated_score == 0,
            r.first_action is None,
    {
        let mut rng = new_rng();
        let cy = gen_index(&mut rng, height);
        let cx = gen_index(&mut rng, width);
        let total: usize = height * width;
        assert(cy * width + cx < total) by (nonlinear_arith)
            requires
                cy < height,
                cx < width,
                1 <= width,
                total == (height as int) * (width as int),
        ;
        let char_index: usize = cy * width + cx;
        let mut points: Vec<i64> = Vec::new();
        let mut i: usize = 0;
        while i < total
            invariant
                i <= total,
                points@.len() == i,
                forall|j: int| 0 <= j < i ==> 0 <= #[trigger] points@[j] <= 9,
            decreases total - i,
        {
            if i == char_index {
                points.push(0);
            } else {
                let v = gen_index(&mut rng, 10);
                points.push(v as i64);
            }
            i = i + 1;
        }
        proof {
            lemma_sum_cells_bounds(points@);
        }
        MazeState {
            height,
            width,
            end_turn,
            character: Coord { x: cx, y: cy },
            game_score: 0,
            evaluated_score: 0,
            first_action: None,
            points,
            turn: 0,
        }
    }

    /// An episode over a given grid, with the agent at a given start; the
    /// start cell must hold zero, as the agent never collects where it stands.
    pub fn from_grid(
        height: usize,
        width: usize,
        end_turn: u64,
        start: Coord,
        values: Vec<i64>,
    ) -> (r: MazeState)
        requires
            1 <= height,
            1 <= width,
            (height as int) * (width as int) * 9 <= i64::MAX,
            values@.len() == (height as int) * (width as int),
            forall|i: int| 0 <= i < values@.len() ==> 0 <= #[trigger] values@[i] <= 9,
            start.y < height,
            start.x < width,
            values@[(start.y as int) * (width as int) + start.x] == 0,
        ensures
            r.wf(),
            r.height == height,
            r.width == width,
            r.end_turn == end_turn,
            r.character == start,
            r.turn == 0,
            r.game_score == 0,
            r.evaluated_score == 0,
            r.first_action is None,
            r.points@ == values@,
    {
        proof {
            lemma_sum_cells_bounds(values@);
        }
        MazeState {
            height,
            width,
            end_turn,
            character: start,
            game_score: 0,
            evaluated_score: 0,
            first_action: None,
            points: values,
            turn: 0,
        }
    }

    /// Whether the episode is over (the turn counter reached the episode length).
    pub fn is_done(&self) -> (r: bool)
        ensures
            r == self.spec_is_done(),
    {
        self.turn == self.end_turn
    }

    /// Sets the evaluation key to the raw game score. Called once per
    /// generated node before it enters a frontier.
    pub fn evaluate_score(&mut self)
        ensures
            final(self).evaluated_score == old(self).game_score,
            final(self).height == old(self).height,
            final(self).width == old(self).width,
            final(self).end_turn == old(self).end_turn,
            final(self).character == old(self).character,
            final(self).game_score == old(self).game_score,
            final(self).first_action == old(self).first_action,
            final(self).points@ == old(self).points@,
            final(self).turn == old(self).turn,
            old(self).wf() ==> final(self).wf(),
    {
        self.evaluated_score = self.game_score;
    }

    /// Applies a legal action: moves the agent, collects the destination
    /// cell's value into the score and zeroes the cell, and advances the turn.
    pub fn advance(&mut self, action: usize)
        requires
            old(self).wf(),
            old(self).is_legal(action as int),
            old(self).turn < old(self).end_turn,
        ensures
            final(self).wf(),
            old(self).advance_rel(*final(self), action as int),
    {
        let ghost pre = *self;
        let (ny, nx): (usize, usize) = if action == 0 {
            (self.character.y, self.character.x + 1)
        } else if action == 1 {
            (self.character.y, self.character.x - 1)
        } else if action == 2 {
            (self.character.y + 1, self.character.x)
        } else {
            (self.character.y - 1, self.character.x)
        };
        self.character.y = ny;
        self.character.x = nx;
        let glen: usize = self.points.len();
        assert(ny * self.width + nx < glen) by (nonlinear_arith)
            requires
                ny < self.height,
                nx < self.width,
                1 <= self.width,
                glen == (self.height as int) * (self.width as int),
        ;
        let index: usize = ny * self.width + nx;
        let p: i64 = self.points[index];
        proof {
            lemma_sum_cells_element(self.points@, index as int);
        }
        if 0 < p {
            self.game_score = self.game_score + p;
            self.points.set(index, 0);
        }
        self.turn = self.turn + 1;
        proof {
            lemma_sum_cells_update(pre.points@, index as int, 0i64);
            if p == 0 {
                assert(self.points@ =~= pre.points@.update(index as int, 0i64));
            }
        }
    }

    /// Every action whose destination lies on the grid, in the fixed order
    /// `+x, -x, +y, -y`.
    pub fn legal_actions(&self) -> (r: Vec<usize>)
        requires
            self.wf(),
        ensures
            r@ == self.spec_legal_actions(),
            forall|i: int| 0 <= i < r@.len() ==> self.is_legal(#[trigger] r@[i] as int),
    {
        let mut actions: Vec<usize> = Vec::new();
        if self.character.x + 1 < self.width {
            actions.push(0);
        }
        if self.character.x >= 1 {
            actions.push(1);
        }
        if self.character.y + 1 < self.height {
            actions.push(2);
        }
        if self.character.y >= 1 {
            actions.push(3);
        }
        proof {
            assert(actions@ =~= self.spec_legal_actions());
            assert forall|i: int| 0 <= i < actions@.len() implies self.is_legal(
                #[trigger] actions@[i] as int,
            ) by {
                let s = self.spec_legal_actions();
                assert(s[i] == actions@[i]);
            }
        }
        actions
    }

    /// The legal-action list is strictly increasing and holds every legal action.
    pub proof fn lemma_legal_actions_complete(self)
        ensures
            forall|j: int, k: int|
                0 <= j < k < self.spec_legal_actions().len() ==> self.spec_legal_actions()[j]
                    < self.spec_legal_actions()[k],
            forall|a: int|
                self.is_legal(a) ==> exists|j: int|
                    0 <= j < self.spec_legal_actions().len() && self.spec_legal_actions()[j] == a,
    {
        let s = self.spec_legal_actions();
        assert forall|a: int| self.is_legal(a) implies exists|j: int|
            0 <= j < s.len() && s[j] == a by {
            if a == 0 {
                assert(s[0] == 0usize);
            } else if a == 1 {
                let j = if self.is_legal(0) {
                    1int
                } else {
                    0int
                };
                assert(s[j] == 1usize);
            } else if a == 2 {
                let j = (if self.is_legal(0) {
                    1int
                } else {
                    0int
                }) + (if self.is_legal(1) {
                    1int
                } else {
                    0int
                });
                assert(s[j] == 2usize);
            } else {
                let j = s.len() - 1;
                assert(s[j] == 3usize);
            }
        }
    }

    /// On a grid with at least two cells every position has a legal action.
    pub proof fn lemma_legal_actions_nonempty(self)
        requires
            self.wf(),
            self.height >= 2 || self.width >= 2,
        ensures
            self.spec_legal_actions().len() >= 1,
    {
        if self.width >= 2 {
            assert(self.is_legal(0) || self.is_legal(1));
        } else {
            assert(self.is_legal(2) || self.is_legal(3));
        }
    }

    /// A legal action keeps the agent on the grid.
    pub proof fn lemma_legal_action_stays_in_bounds(self, a: int)
        requires
            self.wf(),
            self.is_legal(a),
        ensures
            self.in_bounds(self.target_y(a), self.target_x(a)),
    {
    }

    /// The score is bounded by nine per grid cell on every well-formed state,
    /// so also at the end of any completed episode.
    pub proof fn lemma_score_bounds(self)
        requires
            self.wf(),
        ensures
            0 <= self.game_score <= (self.height as int) * (self.width as int) * 9,
    {
        lemma_sum_cells_bounds(self.points@);
    }

    /// Each cell contributes its value to the score at most once: a step moves
    /// exactly the entered cell's value from the grid into the score (their
    /// total is conserved), the entered cell is left at zero, and no cell ever
    /// grows back.
    pub proof fn lemma_single_collection(self, post: MazeState, a: int)
        requires
            self.wf(),
            self.is_legal(a),
            self.advance_rel(post, a),
        ensures
            post.game_score + sum_cells(post.points@) == self.game_score + sum_cells(
                self.points@,
            ),
            post.cell(self.target_y(a), self.target_x(a)) == 0,
            forall|i: int|
                0 <= i < self.points@.len() ==> #[trigger] post.points@[i] <= self.points@[i],
    {
        let index = self.cell_idx(self.target_y(a), self.target_x(a));
        assert(0 <= index < self.points@.len()) by (nonlinear_arith)
            requires
                0 <= self.target_y(a) < self.height,
                0 <= self.target_x(a) < self.width,
                index == self.target_y(a) * (self.width as int) + self.target_x(a),
                self.points@.len() == (self.height as int) * (self.width as int),
        ;
        lemma_sum_cells_update(self.points@, index, 0i64);
    }
}

impl Clone for MazeState {
    /// A clone is equal in every observable part.
    fn clone(&self) -> (r: Self)
        ensures
            r.eqv(*self),
    {
        let points = self.points.clone();
        proof {
            assert(points@ =~= self.points@);
        }
        MazeState {
            height: self.height,
            width: self.width,
            end_turn: self.end_turn,
            character: self.character,
            game_score: self.game_score,
            evaluated_score: self.evaluated_score,
            first_action: self.first_action,
            points,
            turn: self.turn,
        }
    }
}

} // verus!
