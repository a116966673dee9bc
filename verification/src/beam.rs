//! A search frontier: a collection of states ordered by `evaluated_score`,
//! with maximum extraction. States are kept in a plain vector; popping removes
//! the earliest state of maximal score (ties between equal scores carry no
//! meaning to the searches).

use vstd::prelude::*;

use crate::maze::MazeState;

verus! {

/// Index of the earliest state of maximal `evaluated_score` among the first
/// `n` entries of `s`.
pub open spec fn best_idx_upto(s: Seq<MazeState>, n: int) -> int
    decreases n,
{
    if n <= 1 {
        0
    } else if s[n - 1].evaluated_score > s[best_idx_upto(s, n - 1)].evaluated_score {
        n - 1
    } else {
        best_idx_upto(s, n - 1)
    }
}

/// Index of the earliest state of maximal `evaluated_score` in `s`.
pub open spec fn best_idx(s: Seq<MazeState>) -> int {
    best_idx_upto(s, s.len() as int)
}

/// `best_idx_upto` picks a valid index, no earlier entry reaches its score,
/// and no entry exceeds it.
pub proof fn lemma_best_idx_upto(s: Seq<MazeState>, n: int)
    requires
        1 <= n <= s.len(),
    ensures
        0 <= best_idx_upto(s, n) < n,
        forall|j: int|
            0 <= j < n ==> (#[trigger] s[j]).evaluated_score <= s[best_idx_upto(
                s,
                n,
            )].evaluated_score,
        forall|j: int|
            0 <= j < best_idx_upto(s, n) ==> (#[trigger] s[j]).evaluated_score < s[best_idx_upto(
                s,
                n,
            )].evaluated_score,
    decreases n,
{
    if n > 1 {
        lemma_best_idx_upto(s, n - 1);
    }
}

/// As `lemma_best_idx_upto`, for the whole sequence.
pub proof fn lemma_best_idx(s: Seq<MazeState>)
    requires
        s.len() >= 1,
    ensures
        0 <= best_idx(s) < s.len(),
        forall|j: int|
            0 <= j < s.len() ==> (#[trigger] s[j]).evaluated_score <= s[best_idx(
                s,
            )].evaluated_score,
        forall|j: int|
            0 <= j < best_idx(s) ==> (#[trigger] s[j]).evaluated_score < s[best_idx(
                s,
            )].evaluated_score,
{
    lemma_best_idx_upto(s, s.len() as int);
}

/// A frontier of search nodes, viewed as the sequence of its states in
/// insertion order.
pub struct Beam {
    items: Vec<MazeState>,
}

impl View for Beam {
    type V = Seq<MazeState>;

    closed spec fn view(&self) -> Seq<MazeState> {
        self.items@
    }
}

impl Beam {
    /// An empty frontier.
    pub fn new() -> (r: Beam)
        ensures
            r@.len() == 0,
    {
        Beam { items: Vec::new() }
    }

    /// How many states the frontier holds.
    pub fn len(&self) -> (r: usize)
        ensures
            r == self@.len(),
    {
        self.items.len()
    }

    /// Whether the frontier holds no state.
    pub fn is_empty(&self) -> (r: bool)
        ensures
            r == (self@.len() == 0),
    {
        self.items.len() == 0
    }

    /// Adds a state to the frontier.
    pub fn push(&mut self, s: MazeState)
        ensures
            final(self)@ == old(self)@.push(s),
    {
        self.items.push(s);
    }

    /// Index of the earliest best state; callers may inspect it in place.
    fn best_index(&self) -> (r: usize)
        requires
            self@.len() >= 1,
        ensures
            r == best_idx(self@),
    {
        let mut best: usize = 0;
        let mut i: usize = 1;
        while i < self.items.len()
            invariant
                1 <= i <= self.items.len(),
                self.items.len() == self@.len(),
                best == best_idx_upto(self@, i as int),
                0 <= best < i,
            decreases self.items.len() - i,
        {
            proof {
                lemma_best_idx_upto(self@, i as int);
            }
            if self.items[i].evaluated_score > self.items[best].evaluated_score {
                best = i;
            }
            i = i + 1;
        }
        best
    }

    /// Removes and returns the earliest state of maximal `evaluated_score`;
    /// `None` on an empty frontier, which is left unchanged.
    pub fn pop_best(&mut self) -> (r: Option<MazeState>)
        ensures
            old(self)@.len() == 0 ==> r is None && final(self)@ == old(self)@,
            old(self)@.len() > 0 ==> r == Some(old(self)@[best_idx(old(self)@)]) && final(self)@
                == old(self)@.remove(best_idx(old(self)@)),
    {
        if self.items.len() == 0 {
            return None;
        }
        proof {
            lemma_best_idx(self@);
        }
        let b = self.best_index();
        Some(self.items.remove(b))
    }

    /// Removes and returns the earliest best state unless the frontier is
    /// empty or that state's episode is already over; in those cases the
    /// frontier is left unchanged. Finished states are never expanded again,
    /// but stay available for the final answer.
    pub fn pop_best_unfinished(&mut self) -> (r: Option<MazeState>)
        ensures
            old(self)@.len() == 0 ==> r is None && final(self)@ == old(self)@,
            old(self)@.len() > 0 && old(self)@[best_idx(old(self)@)].spec_is_done() ==> r is None
                && final(self)@ == old(self)@,
            old(self)@.len() > 0 && !old(self)@[best_idx(old(self)@)].spec_is_done() ==> r == Some(
                old(self)@[best_idx(old(self)@)],
            ) && final(self)@ == old(self)@.remove(best_idx(old(self)@)),
    {
        if self.items.len() == 0 {
            return None;
        }
        proof {
            lemma_best_idx(self@);
        }
        let b = self.best_index();
        if self.items[b].is_done() {
            return None;
        }
        Some(self.items.remove(b))
    }

    /// The recorded depth-zero action of the earliest best state, and whether
    /// that state's episode is over; `None` on an empty frontier.
    pub fn best_summary(&self) -> (r: Option<(Option<usize>, bool)>)
        ensures
            self@.len() == 0 ==> r is None,
            self@.len() > 0 ==> r == Some(
                (
                    self@[best_idx(self@)].first_action,
                    self@[best_idx(self@)].spec_is_done(),
                ),
            ),
    {
        if self.items.len() == 0 {
            return None;
        }
        proof {
            lemma_best_idx(self@);
        }
        let b = self.best_index();
        Some((self.items[b].first_action, self.items[b].is_done()))
    }
}

} // verus!
