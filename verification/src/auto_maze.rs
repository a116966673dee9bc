//! The multi-agent auto-move state: several agents stand on the grid; once
//! their placement is fixed, the whole remaining trajectory is determined.
//! Each turn every agent steps to its best-valued adjacent cell, then every
//! agent's cell is collected. Local search perturbs only the placement.

use vstd::prelude::*;

use crate::coord::Coord;
use crate::maze::{lemma_sum_cells_bounds, lemma_sum_cells_element, lemma_sum_cells_update, step_x, step_y, sum_cells};
use crate::rng::{gen_index, new_rng};

verus! {

/// Is `(y, x)` a cell of an `h` by `w` grid?
pub open spec fn on_grid(h: int, w: int, y: int, x: int) -> bool {
    0 <= y < h && 0 <= x < w
}

/// The best move among the first `n` actions for an agent at `(y, x)` on grid
/// `g` (`h` by `w`, row-major): the earliest in-bounds action whose
/// destination holds the maximal value, or `-1` when none of them is in
/// bounds.
pub open spec fn move_cand(g: Seq<i64>, h: int, w: int, y: int, x: int, n: int) -> int
    decreases n,
{
    if n <= 0 {
        -1
    } else {
        let p = move_cand(g, h, w, y, x, n - 1);
        let a = n - 1;
        if on_grid(h, w, y + step_y(a), x + step_x(a)) && (p == -1 || g[(y + step_y(a)) * w + (x
            + step_x(a))] > g[(y + step_y(p)) * w + (x + step_x(p))]) {
            a
        } else {
            p
        }
    }
}

/// The move an agent at (y, x) takes: its best move among all four actions.
pub open spec fn best_move(g: Seq<i64>, h: int, w: int, y: int, x: int) -> int {
    move_cand(g, h, w, y, x, 4)
}

/// Where an agent at `c` ends up after its automatic step.
pub open spec fn moved_char(g: Seq<i64>, h: int, w: int, c: Coord) -> Coord {
    let a = best_move(g, h, w, c.y as int, c.x as int);
    Coord { x: (c.x + step_x(a)) as usize, y: (c.y + step_y(a)) as usize }
}

/// On a grid with at least two cells, an agent anywhere on it has an in-bounds
/// best move.
pub proof fn lemma_best_move_on_grid(g: Seq<i64>, h: int, w: int, y: int, x: int)
    requires
        on_grid(h, w, y, x),
        h >= 2 || w >= 2,
    ensures
        0 <= best_move(g, h, w, y, x) < 4,
        on_grid(
            h,
            w,
            y + step_y(best_move(g, h, w, y, x)),
            x + step_x(best_move(g, h, w, y, x)),
        ),
{
    let c1 = move_cand(g, h, w, y, x, 1);
    let c2 = move_cand(g, h, w, y, x, 2);
    let c3 = move_cand(g, h, w, y, x, 3);
    let c4 = move_cand(g, h, w, y, x, 4);
    assert(move_cand(g, h, w, y, x, 0) == -1);
    assert(c1 == -1 ==> !on_grid(h, w, y, x + 1));
    assert(c1 != -1 ==> on_grid(h, w, y + step_y(c1), x + step_x(c1)) && 0 <= c1 < 1);
    assert(c2 != -1 ==> on_grid(h, w, y + step_y(c2), x + step_x(c2)) && 0 <= c2 < 2);
    assert(c3 != -1 ==> on_grid(h, w, y + step_y(c3), x + step_x(c3)) && 0 <= c3 < 3);
    assert(c4 != -1 ==> on_grid(h, w, y + step_y(c4), x + step_x(c4)) && 0 <= c4 < 4);
    if w >= 2 {
        assert(x + 1 < w || x >= 1);
    } else {
        assert(y + 1 < h || y >= 1);
    }
}

/// The mathematical value of an auto-move state: plain integers and sequences.
#[verifier::ext_equal]
pub struct AutoModel {
    pub height: int,
    pub width: int,
    pub end_turn: int,
    pub turn: int,
    pub score: int,
    pub grid: Seq<i64>,
    pub chars: Seq<Coord>,
}

impl AutoModel {
    /// Well-formedness of the model: positive extent with at least two cells,
    /// cell values in `[0, 9]`, agents on the grid, non-negative score, and
    /// score plus remaining grid value bounded by nine per cell.
    pub open spec fn wf(self) -> bool {
        &&& 1 <= self.height
        &&& 1 <= self.width
        &&& self.height >= 2 || self.width >= 2
        &&& self.height * self.width * 9 <= i64::MAX
        &&& self.grid.len() == self.height * self.width
        &&& (forall|i: int| 0 <= i < self.grid.len() ==> 0 <= #[trigger] self.grid[i] <= 9)
        &&& 0 <= self.score
        &&& self.score + sum_cells(self.grid) <= self.height * self.width * 9
        &&& 0 <= self.turn <= self.end_turn
        &&& self.chars.len() >= 1
        &&& (forall|i: int|
            0 <= i < self.chars.len() ==> on_grid(
                self.height,
                self.width,
                (#[trigger] self.chars[i]).y as int,
                self.chars[i].x as int,
            ))
    }

    /// Every agent takes its automatic step; moves are independent because
    /// each depends only on the agent's own cell and the unchanged grid.
    pub open spec fn move_all(self) -> AutoModel {
        AutoModel {
            chars: Seq::new(
                self.chars.len(),
                |i: int| moved_char(self.grid, self.height, self.width, self.chars[i]),
            ),
            ..self
        }
    }

    /// Collects the cells under the first `k` agents, in order: each agent
    /// adds its cell's value to the score and zeroes the cell, so a cell
    /// shared by two agents is collected once.
    pub open spec fn collect_upto(self, k: int) -> AutoModel
        decreases k,
    {
        if k <= 0 {
            self
        } else {
            let m = self.collect_upto(k - 1);
            let c = self.chars[k - 1];
            AutoModel {
                score: m.score + m.grid[(c.y as int) * m.width + c.x as int],
                grid: m.grid.update((c.y as int) * m.width + c.x as int, 0i64),
                ..m
            }
        }
    }

    /// Zeroes the cells under the first `k` agents without scoring them: the
    /// cells agents are placed on are pre-collected, not earned.
    pub open spec fn clear_upto(self, k: int) -> AutoModel
        decreases k,
    {
        if k <= 0 {
            self
        } else {
            let m = self.clear_upto(k - 1);
            let c = self.chars[k - 1];
            AutoModel { grid: m.grid.update((c.y as int) * m.width + c.x as int, 0i64), ..m }
        }
    }

    /// One full turn: every agent steps, every agent's cell is collected, the
    /// turn counter grows by one.
    pub open spec fn step(self) -> AutoModel {
        let collected = self.move_all().collect_upto(self.chars.len() as int);
        AutoModel {
            height: self.height,
            width: self.width,
            end_turn: self.end_turn,
            turn: self.turn + 1,
            score: collected.score,
            grid: collected.grid,
            chars: collected.chars,
        }
    }

    /// The final score of the fully determined playout from this model.
    pub open spec fn rollout(self) -> int
        decreases self.end_turn - self.turn,
    {
        if self.turn >= self.end_turn {
            self.score
        } else {
            self.step().rollout()
        }
    }

    /// What a placement is worth: pre-collect the agents' own cells, then play
    /// the automatic game to the end.
    pub open spec fn placement_value(self) -> int {
        self.clear_upto(self.chars.len() as int).rollout()
    }
}

/// The banked score of a well-formed multi-agent state is bounded by nine per
/// grid cell, so also at the end of any completed episode.
pub proof fn lemma_auto_score_bounds(m: AutoModel)
    requires
        m.wf(),
    ensures
        0 <= m.score <= m.height * m.width * 9,
{
    lemma_sum_cells_bounds(m.grid);
}

/// Collection moves value, never makes it: collecting under the first `k`
/// agents conserves the total of score and grid, cells never grow and never go
/// negative, so each cell feeds the score at most once.
pub proof fn lemma_collect_conserves(m: AutoModel, k: int)
    requires
        m.wf(),
        0 <= k <= m.chars.len(),
    ensures
        m.collect_upto(k).score + sum_cells(m.collect_upto(k).grid) == m.score + sum_cells(m.grid),
        m.collect_upto(k).grid.len() == m.grid.len(),
        m.collect_upto(k).width == m.width,
        m.collect_upto(k).height == m.height,
        m.collect_upto(k).chars == m.chars,
        forall|i: int|
            0 <= i < m.grid.len() ==> 0 <= #[trigger] m.collect_upto(k).grid[i] <= m.grid[i],
    decreases k,
{
    if k > 0 {
        lemma_collect_conserves(m, k - 1);
        let prev = m.collect_upto(k - 1);
        let c = m.chars[k - 1];
        let idx = (c.y as int) * m.width + c.x as int;
        assert(on_grid(m.height, m.width, c.y as int, c.x as int));
        assert(0 <= idx < m.grid.len()) by (nonlinear_arith)
            requires
                0 <= (c.y as int) < m.height,
                0 <= (c.x as int) < m.width,
                idx == (c.y as int) * m.width + c.x as int,
                m.grid.len() == m.height * m.width,
        ;
        lemma_sum_cells_update(prev.grid, idx, 0i64);
        assert(m.collect_upto(k).grid == prev.grid.update(idx, 0i64));
        assert(prev.grid.len() == m.grid.len());
        assert forall|i: int| 0 <= i < m.grid.len() implies 0 <= #[trigger] m.collect_upto(
            k,
        ).grid[i] <= m.grid[i] by {
            assert(0 <= prev.grid[i] <= m.grid[i]);
            if i == idx {
                assert(m.collect_upto(k).grid[i] == 0);
            } else {
                assert(m.collect_upto(k).grid[i] == prev.grid[i]);
            }
        }
    }
}

/// The multi-agent game state. `points` holds the grid row-major as in the
/// single-agent state; `characters` holds one coordinate per agent.
pub struct AutoMoveMazeState {
    pub height: usize,
    pub width: usize,
    pub end_turn: usize,
    pub game_score: i64,
    pub evaluated_score: i64,
    pub points: Vec<i64>,
    pub turn: usize,
    pub characters: Vec<Coord>,
}

impl AutoMoveMazeState {
    /// The mathematical value of this state.
    pub open spec fn model(self) -> AutoModel {
        AutoModel {
            height: self.height as int,
            width: self.width as int,
            end_turn: self.end_turn as int,
            turn: self.turn as int,
            score: self.game_score as int,
            grid: self.points@,
            chars: self.characters@,
        }
    }

    /// Well-formedness of the state is that of its model.
    pub open spec fn wf(self) -> bool {
        self.model().wf()
    }

    /// A fresh episode: every cell holds a uniformly random value in `[0, 9]`
    /// and every agent starts at the origin.
    pub fn new(height: usize, width: usize, end_turn: usize, character_n: usize) -> (r:
        AutoMoveMazeState)
        requires
            1 <= height,
            1 <= width,
            height >= 2 || width >= 2,
            (height as int) * (width as int) * 9 <= i64::MAX,
            (height as int) * (width as int) <= usize::MAX,
            character_n >= 1,
        ensures
            r.wf(),
            r.height == height,
            r.width == width,
            r.end_turn == end_turn,
            r.turn == 0,
            r.game_score == 0,
            r.evaluated_score == 0,
            r.characters@.len() == character_n,
    {
        let mut rng = new_rng();
        let total: usize = height * width;
        let mut points: Vec<i64> = Vec::new();
        let mut i: usize = 0;
        while i < total
            invariant
                i <= total,
                points@.len() == i,
                forall|j: int| 0 <= j < i ==> 0 <= #[trigger] points@[j] <= 9,
            decreases total - i,
        {
            let v = gen_index(&mut rng, 10);
            points.push(v as i64);
            i = i + 1;
        }
        let mut characters: Vec<Coord> = Vec::new();
        let mut k: usize = 0;
        while k < character_n
            invariant
                k <= character_n,
                characters@.len() == k,
                forall|j: int|
                    0 <= j < k ==> (#[trigger] characters@[j]).x == 0 && characters@[j].y == 0,
            decreases character_n - k,
        {
            characters.push(Coord::new());
            k = k + 1;
        }
        proof {
            lemma_sum_cells_bounds(points@);
        }
        AutoMoveMazeState {
            height,
            width,
            end_turn,
            game_score: 0,
            evaluated_score: 0,
            points,
            turn: 0,
            characters,
        }
    }

    /// An episode over a given grid with given agent placements.
    pub fn from_parts(
        height: usize,
        width: usize,
        end_turn: usize,
        values: Vec<i64>,
        characters: Vec<Coord>,
    ) -> (r: AutoMoveMazeState)
        requires
            1 <= height,
            1 <= width,
            height >= 2 || width >= 2,
            (height as int) * (width as int) * 9 <= i64::MAX,
            values@.len() == (height as int) * (width as int),
            forall|i: int| 0 <= i < values@.len() ==> 0 <= #[trigger] values@[i] <= 9,
            characters@.len() >= 1,
            forall|i: int|
                0 <= i < characters@.len() ==> (#[trigger] characters@[i]).y < height
                    && characters@[i].x < width,
        ensures
            r.wf(),
            r.height == height,
            r.width == width,
            r.end_turn == end_turn,
            r.turn == 0,
            r.game_score == 0,
            r.evaluated_score == 0,
            r.points@ == values@,
            r.characters@ == characters@,
    {
        proof {
            lemma_sum_cells_bounds(values@);
        }
        AutoMoveMazeState {
            height,
            width,
            end_turn,
            game_score: 0,
            evaluated_score: 0,
            points: values,
            turn: 0,
            characters,
        }
    }

    /// Whether the episode is over.
    pub fn is_done(&self) -> (r: bool)
        ensures
            r == (self.turn == self.end_turn),
    {
        self.turn == self.end_turn
    }

    /// Places one agent at `(y, x)`.
    pub fn set_character(&mut self, character_id: usize, y: usize, x: usize)
        requires
            old(self).wf(),
            character_id < old(self).characters@.len(),
            y < old(self).height,
            x < old(self).width,
        ensures
            final(self).wf(),
            final(self).characters@ == old(self).characters@.update(
                character_id as int,
                Coord { x, y },
            ),
            final(self).points@ == old(self).points@,
            final(self).height == old(self).height,
            final(self).width == old(self).width,
            final(self).end_turn == old(self).end_turn,
            final(self).turn == old(self).turn,
            final(self).game_score == old(self).game_score,
            final(self).evaluated_score == old(self).evaluated_score,
    {
        self.characters.set(character_id, Coord { x, y });
    }

    /// Gives every agent an independent uniformly random position.
    pub fn init_characters(&mut self)
        requires
            old(self).wf(),
        ensures
            final(self).wf(),
            final(self).characters@.len() == old(self).characters@.len(),
            final(self).points@ == old(self).points@,
            final(self).height == old(self).height,
            final(self).width == old(self).width,
            final(self).end_turn == old(self).end_turn,
            final(self).turn == old(self).turn,
            final(self).game_score == old(self).game_score,
            final(self).evaluated_score == old(self).evaluated_score,
    {
        let mut rng = new_rng();
        let mut id: usize = 0;
        while id < self.characters.len()
            invariant
                self.wf(),
                self.characters@.len() == old(self).characters@.len(),
                self.points@ == old(self).points@,
                self.height == old(self).height,
                self.width == old(self).width,
                self.end_turn == old(self).end_turn,
                self.turn == old(self).turn,
                self.game_score == old(self).game_score,
                self.evaluated_score == old(self).evaluated_score,
            decreases self.characters@.len() - id,
        {
            let y = gen_index(&mut rng, self.height);
            let x = gen_index(&mut rng, self.width);
            self.set_character(id, y, x);
            id = id + 1;
        }
    }

    /// Flat index of cell `(y, x)`, shown to lie inside the grid vector.
    fn cell_index(&self, y: usize, x: usize) -> (r: usize)
        requires
            self.wf(),
            y < self.height,
            x < self.width,
        ensures
            r == (y as int) * (self.width as int) + x as int,
            r < self.points@.len(),
    {
        let glen = self.points.len();
        assert(y * self.width + x < glen) by (nonlinear_arith)
            requires
                y < self.height,
                x < self.width,
                1 <= self.width,
                glen == (self.height as int) * (self.width as int),
        ;
        y * self.width + x
    }

    /// Value of cell `(y, x)`.
    fn cell_at(&self, y: usize, x: usize) -> (r: i64)
        requires
            self.wf(),
            y < self.height,
            x < self.width,
        ensures
            r == self.points@[(y as int) * (self.width as int) + x as int],
    {
        let i = self.cell_index(y, x);
        self.points[i]
    }

    /// Moves one agent to its best adjacent cell: among the in-bounds actions,
    /// the earliest one whose destination holds the maximal value.
    pub fn move_player(&mut self, character_id: usize)
        requires
            old(self).wf(),
            character_id < old(self).characters@.len(),
        ensures
            final(self).wf(),
            final(self).characters@ == old(self).characters@.update(
                character_id as int,
                moved_char(
                    old(self).points@,
                    old(self).height as int,
                    old(self).width as int,
                    old(self).characters@[character_id as int],
                ),
            ),
            final(self).points@ == old(self).points@,
            final(self).height == old(self).height,
            final(self).width == old(self).width,
            final(self).end_turn == old(self).end_turn,
            final(self).turn == old(self).turn,
            final(self).game_score == old(self).game_score,
            final(self).evaluated_score == old(self).evaluated_score,
    {
        let ghost g = self.points@;
        let ghost h = self.height as int;
        let ghost w = self.width as int;
        let c = self.characters[character_id];
        let ghost cy = c.y as int;
        let ghost cx = c.x as int;
        proof {
            assert(on_grid(h, w, cy, cx));
            assert(move_cand(g, h, w, cy, cx, 0) == -1);
        }
        let mut found: bool = false;
        let mut best_act: usize = 0;
        let mut best_point: i64 = 0;
        if c.x + 1 < self.width {
            found = true;
            best_act = 0;
            best_point = self.cell_at(c.y, c.x + 1);
        }
        proof {
            let m = move_cand(g, h, w, cy, cx, 1);
            assert(found <==> m != -1);
            assert(found ==> best_act as int == m && best_point == g[(cy + step_y(m)) * w + (cx
                + step_x(m))]);
        }
        if c.x >= 1 {
            let p = self.cell_at(c.y, c.x - 1);
            if !found || best_point < p {
                found = true;
                best_act = 1;
                best_point = p;
            }
        }
        proof {
            let m = move_cand(g, h, w, cy, cx, 2);
            assert(found <==> m != -1);
            assert(found ==> best_act as int == m && best_point == g[(cy + step_y(m)) * w + (cx
                + step_x(m))]);
        }
        if c.y + 1 < self.height {
            let p = self.cell_at(c.y + 1, c.x);
            if !found || best_point < p {
                found = true;
                best_act = 2;
                best_point = p;
            }
        }
        proof {
            let m = move_cand(g, h, w, cy, cx, 3);
            assert(found <==> m != -1);
            assert(found ==> best_act as int == m && best_point == g[(cy + step_y(m)) * w + (cx
                + step_x(m))]);
        }
        if c.y >= 1 {
            let p = self.cell_at(c.y - 1, c.x);
            if !found || best_point < p {
                found = true;
                best_act = 3;
                best_point = p;
            }
        }
        proof {
            let m = move_cand(g, h, w, cy, cx, 4);
            assert(found <==> m != -1);
            assert(found ==> best_act as int == m && best_point == g[(cy + step_y(m)) * w + (cx
                + step_x(m))]);
            lemma_best_move_on_grid(g, h, w, cy, cx);
        }
        let target: Coord = if best_act == 0 {
            Coord { x: c.x + 1, y: c.y }
        } else if best_act == 1 {
            Coord { x: c.x - 1, y: c.y }
        } else if best_act == 2 {
            Coord { x: c.x, y: c.y + 1 }
        } else {
            Coord { x: c.x, y: c.y - 1 }
        };
        proof {
            assert(target == moved_char(g, h, w, old(self).characters@[character_id as int]));
        }
        self.characters.set(character_id, target);
    }

    /// One full turn of the automatic game: every agent steps to its best
    /// adjacent cell (on the unchanged grid), then every agent's cell is
    /// collected in agent order — a cell shared by several agents is collected
    /// once — and the turn counter grows by one.
    pub fn advance(&mut self)
        requires
            old(self).wf(),
            old(self).turn < old(self).end_turn,
        ensures
            final(self).wf(),
            final(self).model() == old(self).model().step(),
            final(self).evaluated_score == old(self).evaluated_score,
    {
        let ghost m0 = self.model();
        let n = self.characters.len();
        let mut id: usize = 0;
        while id < n
            invariant
                self.wf(),
                n == self.characters@.len(),
                n == m0.chars.len(),
                self.points@ == m0.grid,
                self.height as int == m0.height,
                self.width as int == m0.width,
                self.end_turn as int == m0.end_turn,
                self.turn as int == m0.turn,
                self.game_score as int == m0.score,
                self.evaluated_score == old(self).evaluated_score,
                id <= n,
                forall|i: int|
                    0 <= i < id ==> self.characters@[i] == moved_char(
                        m0.grid,
                        m0.height,
                        m0.width,
                        #[trigger] m0.chars[i],
                    ),
                forall|i: int| id <= i < n ==> self.characters@[i] == #[trigger] m0.chars[i],
            decreases n - id,
        {
            proof {
                assert(self.characters@[id as int] == m0.chars[id as int]);
            }
            self.move_player(id);
            id = id + 1;
        }
        let ghost m1 = m0.move_all();
        proof {
            assert(self.characters@ =~= m1.chars);
            assert(self.model() =~= m1);
        }
        let mut id2: usize = 0;
        while id2 < n
            invariant
                self.wf(),
                n == self.characters@.len(),
                self.characters@ == m1.chars,
                self.points@.len() == m1.grid.len(),
                self.height as int == m1.height,
                self.width as int == m1.width,
                self.end_turn as int == m1.end_turn,
                self.turn as int == m1.turn,
                self.evaluated_score == old(self).evaluated_score,
                id2 <= n,
                self.model() == m1.collect_upto(id2 as int),
            decreases n - id2,
        {
            let ghost mpre = self.model();
            let c = self.characters[id2];
            proof {
                assert(on_grid(m1.height, m1.width, c.y as int, c.x as int));
            }
            let idx = self.cell_index(c.y, c.x);
            let p = self.points[idx];
            proof {
                lemma_sum_cells_element(self.points@, idx as int);
            }
            self.game_score = self.game_score + p;
            self.points.set(idx, 0);
            proof {
                lemma_sum_cells_update(mpre.grid, idx as int, 0i64);
                assert(self.model() =~= m1.collect_upto(id2 as int + 1));
            }
            id2 = id2 + 1;
        }
        self.turn = self.turn + 1;
        proof {
            assert(self.model() =~= m0.step());
        }
    }

    /// What the current placement is worth: on a copy, the agents' own cells
    /// are zeroed without scoring, then the automatic game plays out to the
    /// end; the copy's final score is returned. The receiver is untouched.
    pub fn get_score(&self) -> (r: i64)
        requires
            self.wf(),
        ensures
            r as int == self.model().placement_value(),
    {
        let mut st = self.clone();
        let ghost mm = self.model();
        let n = st.characters.len();
        let mut id: usize = 0;
        while id < n
            invariant
                st.wf(),
                n == st.characters@.len(),
                st.characters@ == mm.chars,
                st.height as int == mm.height,
                st.width as int == mm.width,
                st.end_turn as int == mm.end_turn,
                st.turn as int == mm.turn,
                st.game_score as int == mm.score,
                id <= n,
                st.model() == mm.clear_upto(id as int),
            decreases n - id,
        {
            let ghost mpre = st.model();
            let c = st.characters[id];
            proof {
                assert(on_grid(mm.height, mm.width, c.y as int, c.x as int));
            }
            let idx = st.cell_index(c.y, c.x);
            proof {
                lemma_sum_cells_element(st.points@, idx as int);
            }
            st.points.set(idx, 0);
            proof {
                lemma_sum_cells_update(mpre.grid, idx as int, 0i64);
                assert(st.model() =~= mm.clear_upto(id as int + 1));
            }
            id = id + 1;
        }
        let ghost base = mm.clear_upto(n as int);
        loop
            invariant
                st.wf(),
                st.model().rollout() == base.rollout(),
            ensures
                st.wf(),
                st.model().rollout() == base.rollout(),
                st.turn == st.end_turn,
            decreases st.end_turn - st.turn,
        {
            if st.is_done() {
                break ;
            }
            st.advance();
        }
        st.game_score
    }

    /// Reassigns one uniformly random agent a uniformly random position: the
    /// sole move operator of the local searches.
    pub fn transition(&mut self)
        requires
            old(self).wf(),
        ensures
            final(self).wf(),
            final(self).characters@.len() == old(self).characters@.len(),
            exists|i: int|
                0 <= i < old(self).characters@.len() && final(self).characters@ == old(
                    self,
                ).characters@.update(i, final(self).characters@[i]),
            final(self).points@ == old(self).points@,
            final(self).height == old(self).height,
            final(self).width == old(self).width,
            final(self).end_turn == old(self).end_turn,
            final(self).turn == old(self).turn,
            final(self).game_score == old(self).game_score,
            final(self).evaluated_score == old(self).evaluated_score,
    {
        let mut rng = new_rng();
        let id = gen_index(&mut rng, self.characters.len());
        let y = gen_index(&mut rng, self.height);
        let x = gen_index(&mut rng, self.width);
        self.set_character(id, y, x);
        proof {
            assert(self.characters@ == old(self).characters@.update(
                id as int,
                self.characters@[id as int],
            ));
        }
    }
}

impl Clone for AutoMoveMazeState {
    /// A clone has the same mathematical value and the same evaluation key.
    fn clone(&self) -> (r: Self)
        ensures
            r.model() == self.model(),
            r.evaluated_score == self.evaluated_score,
    {
        let points = self.points.clone();
        let characters = self.characters.clone();
        proof {
            assert(points@ =~= self.points@);
            assert(characters@ =~= self.characters@);
            assert(AutoMoveMazeState {
                height: self.height,
                width: self.width,
                end_turn: self.end_turn,
                game_score: self.game_score,
                evaluated_score: self.evaluated_score,
                points: points,
                turn: self.turn,
                characters: characters,
            }.model() =~= self.model());
        }
        AutoMoveMazeState {
            height: self.height,
            width: self.width,
            end_turn: self.end_turn,
            game_score: self.game_score,
            evaluated_score: self.evaluated_score,
            points,
            turn: self.turn,
            characters,
        }
    }
}

} // verus!
