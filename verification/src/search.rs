//! Action-choosing strategies over the single-agent state: random, greedy,
//! beam search (fixed depth and time-bounded), and chokudai search (fixed
//! pass count and time-bounded). Each returns the move to make now.

use vstd::prelude::*;
use vstd::pervasive::unreached;

use crate::beam::{best_idx, lemma_best_idx, Beam};
use crate::maze::MazeState;
use crate::rng::{gen_index, new_rng};
use crate::timekeeper::TimeKeeper;

verus! {

/// A uniformly random legal action.
pub fn random_action(state: &MazeState) -> (r: usize)
    requires
        state.wf(),
        state.spec_legal_actions().len() >= 1,
    ensures
        state.is_legal(r as int),
{
    let mut rng = new_rng();
    let legal = state.legal_actions();
    let i = gen_index(&mut rng, legal.len());
    legal[i]
}

/// One-step lookahead: the legal action whose destination yields the highest
/// score, the earliest such action on ties.
pub fn greedy_action(state: &MazeState) -> (r: usize)
    requires
        state.wf(),
        state.spec_legal_actions().len() >= 1,
        state.turn < state.end_turn,
    ensures
        state.is_legal(r as int),
        forall|a: int| state.is_legal(a) ==> state.one_step_score(a) <= state.one_step_score(
            r as int,
        ),
        forall|a: int|
            state.is_legal(a) && a < r ==> state.one_step_score(a) < state.one_step_score(r as int),
{
    let legal = state.legal_actions();
    proof {
        state.lemma_legal_actions_complete();
    }
    let mut best_action: Option<usize> = None;
    let mut best_score: i64 = 0;
    let mut i: usize = 0;
    while i < legal.len()
        invariant
            state.wf(),
            state.turn < state.end_turn,
            legal@ == state.spec_legal_actions(),
            forall|j: int, k: int| 0 <= j < k < legal@.len() ==> legal@[j] < legal@[k],
            forall|k: int| 0 <= k < legal@.len() ==> state.is_legal(#[trigger] legal@[k] as int),
            0 <= i <= legal@.len(),
            i >= 1 <==> best_action is Some,
            best_action matches Some(b) ==> {
                &&& state.is_legal(b as int)
                &&& exists|jb: int| 0 <= jb < i && legal@[jb] == b
                &&& best_score as int == state.one_step_score(b as int)
                &&& forall|j: int|
                    0 <= j < i ==> state.one_step_score(#[trigger] legal@[j] as int)
                        <= state.one_step_score(b as int)
                &&& forall|j: int|
                    0 <= j < i && legal@[j] < b ==> state.one_step_score(#[trigger] legal@[j] as int)
                        < state.one_step_score(b as int)
            },
        decreases legal@.len() - i,
    {
        let act = legal[i];
        let mut now_state = state.clone();
        now_state.advance(act);
        now_state.evaluate_score();
        let score = now_state.evaluated_score;
        assert(score as int == state.one_step_score(act as int));
        match best_action {
            None => {
                best_action = Some(act);
                best_score = score;
            },
            Some(_) => {
                if best_score < score {
                    best_action = Some(act);
                    best_score = score;
                }
            },
        }
        i = i + 1;
    }
    proof {
        state.lemma_legal_actions_complete();
    }
    match best_action {
        Some(b) => {
            proof {
                assert forall|a: int| state.is_legal(a) implies state.one_step_score(a)
                    <= state.one_step_score(b as int) by {
                    let j = choose|j: int|
                        0 <= j < legal@.len() && legal@[j] == a;
                    assert(state.one_step_score(legal@[j] as int) <= state.one_step_score(b as int));
                }
                assert forall|a: int| state.is_legal(a) && a < b implies state.one_step_score(a)
                    < state.one_step_score(b as int) by {
                    let j = choose|j: int|
                        0 <= j < legal@.len() && legal@[j] == a;
                    assert(state.one_step_score(legal@[j] as int) < state.one_step_score(b as int));
                }
            }
            b
        },
        None => unreached(),
    }
}

/// A node of a search frontier `d` levels below the root: well formed, on the
/// root's grid, `d` turns ahead, and carrying the depth-zero action that led
/// to it, which is legal for the root.
pub open spec fn frontier_node_ok(root: MazeState, s: MazeState, d: int) -> bool {
    &&& s.wf()
    &&& s.same_shape(root)
    &&& s.turn == root.turn + d
    &&& s.first_action matches Some(fa) && root.is_legal(fa as int)
}

/// Expands one frontier node: every legal action yields a child, advanced and
/// evaluated; at depth zero the child records its action as `first_action`,
/// deeper children inherit the parent's. Children are appended to `next_beam`.
fn expand_node(
    root: &MazeState,
    now_state: &MazeState,
    depth_zero: bool,
    next_beam: &mut Beam,
    Ghost(d): Ghost<int>,
)
    requires
        root.wf(),
        root.height >= 2 || root.width >= 2,
        now_state.wf(),
        now_state.turn < now_state.end_turn,
        now_state.same_shape(*root),
        now_state.turn == root.turn + d,
        if depth_zero {
            now_state.eqv(*root)
        } else {
            now_state.first_action matches Some(fa) && root.is_legal(fa as int)
        },
    ensures
        final(next_beam)@.len() > old(next_beam)@.len(),
        forall|k: int|
            0 <= k < old(next_beam)@.len() ==> final(next_beam)@[k] == old(next_beam)@[k],
        forall|k: int|
            old(next_beam)@.len() <= k < final(next_beam)@.len() ==> frontier_node_ok(
                *root,
                #[trigger] final(next_beam)@[k],
                d + 1,
            ),
{
    let actions = now_state.legal_actions();
    proof {
        now_state.lemma_legal_actions_nonempty();
    }
    let mut j: usize = 0;
    while j < actions.len()
        invariant
            root.wf(),
            now_state.wf(),
            now_state.turn < now_state.end_turn,
            now_state.same_shape(*root),
            now_state.turn == root.turn + d,
            if depth_zero {
                now_state.eqv(*root)
            } else {
                now_state.first_action matches Some(fa) && root.is_legal(fa as int)
            },
            actions@ == now_state.spec_legal_actions(),
            forall|k: int|
                0 <= k < actions@.len() ==> now_state.is_legal(#[trigger] actions@[k] as int),
            0 <= j <= actions@.len(),
            next_beam@.len() == old(next_beam)@.len() + j,
            forall|k: int|
                0 <= k < old(next_beam)@.len() ==> next_beam@[k] == old(next_beam)@[k],
            forall|k: int|
                old(next_beam)@.len() <= k < next_beam@.len() ==> frontier_node_ok(
                    *root,
                    #[trigger] next_beam@[k],
                    d + 1,
                ),
        decreases actions@.len() - j,
    {
        let act = actions[j];
        let mut child = now_state.clone();
        child.advance(act);
        child.evaluate_score();
        if depth_zero {
            child.first_action = Some(act);
        }
        next_beam.push(child);
        j = j + 1;
    }
}

/// Beam search with a fixed width and depth: keeps the `beam_width` best nodes
/// per level, expands level by level, stops early once the best node's episode
/// is over, and returns the depth-zero action of the best node found.
pub fn beam_search_action(state: &MazeState, beam_width: usize, beam_depth: u64) -> (r: usize)
    requires
        state.wf(),
        state.height >= 2 || state.width >= 2,
        state.turn < state.end_turn,
        beam_width >= 1,
        beam_depth >= 1,
    ensures
        state.is_legal(r as int),
{
    let mut now_beam = Beam::new();
    now_beam.push(state.clone());
    let mut best_action: Option<usize> = None;
    let mut d: u64 = 0;
    while d < beam_depth
        invariant_except_break
            state.wf(),
            state.height >= 2 || state.width >= 2,
            state.turn < state.end_turn,
            beam_width >= 1,
            beam_depth >= 1,
            0 <= d <= beam_depth,
            now_beam@.len() >= 1,
            d == 0 ==> now_beam@.len() == 1 && now_beam@[0].eqv(*state),
            d >= 1 ==> forall|k: int|
                0 <= k < now_beam@.len() ==> frontier_node_ok(
                    *state,
                    #[trigger] now_beam@[k],
                    d as int,
                ),
            forall|k: int| 0 <= k < now_beam@.len() ==> (#[trigger] now_beam@[k]).turn
                < state.end_turn,
            d >= 1 ==> (best_action matches Some(a) && state.is_legal(a as int)),
        ensures
            best_action matches Some(a) && state.is_legal(a as int),
        decreases beam_depth - d,
    {
        let ghost depth = d as int;
        let mut next_beam = Beam::new();
        let mut w: usize = 0;
        while w < beam_width
            invariant
                state.wf(),
                state.height >= 2 || state.width >= 2,
                state.turn < state.end_turn,
                beam_width >= 1,
                0 <= d < beam_depth,
                depth == d as int,
                d == 0 ==> forall|k: int|
                    0 <= k < now_beam@.len() ==> (#[trigger] now_beam@[k]).eqv(*state),
                d >= 1 ==> forall|k: int|
                    0 <= k < now_beam@.len() ==> frontier_node_ok(
                        *state,
                        #[trigger] now_beam@[k],
                        depth,
                    ),
                forall|k: int| 0 <= k < now_beam@.len() ==> (#[trigger] now_beam@[k]).turn
                    < state.end_turn,
                w >= 1 || now_beam@.len() >= 1,
                w >= 1 ==> next_beam@.len() >= 1,
                forall|k: int|
                    0 <= k < next_beam@.len() ==> frontier_node_ok(
                        *state,
                        #[trigger] next_beam@[k],
                        depth + 1,
                    ),
            ensures
                next_beam@.len() >= 1,
                forall|k: int|
                    0 <= k < next_beam@.len() ==> frontier_node_ok(
                        *state,
                        #[trigger] next_beam@[k],
                        depth + 1,
                    ),
            decreases beam_width - w,
        {
            let ghost nb_pre = now_beam@;
            let popped = now_beam.pop_best();
            match popped {
                None => {
                    break ;
                },
                Some(now_state) => {
                    proof {
                        lemma_best_idx(nb_pre);
                    }
                    expand_node(state, &now_state, d == 0, &mut next_beam, Ghost(depth));
                },
            }
            w = w + 1;
        }
        now_beam = next_beam;
        match now_beam.best_summary() {
            None => {
                return unreached();
            },
            Some((fa, done)) => {
                proof {
                    lemma_best_idx(now_beam@);
                }
                best_action = fa;
                if done {
                    break ;
                }
            },
        }
        d = d + 1;
    }
    match best_action {
        Some(a) => a,
        None => unreached(),
    }
}

/// Beam search bounded by wall-clock time instead of depth: expiry is checked
/// before every pop, and on expiry the answer of the last fully completed
/// level is returned, so more time never loses an already completed level's
/// answer. The first level always completes, which keeps the result defined
/// even on a tiny budget.
pub fn beam_search_with_time_threshold_action(
    state: &MazeState,
    beam_width: usize,
    time_threshold: u64,
) -> (r: usize)
    requires
        state.wf(),
        state.height >= 2 || state.width >= 2,
        state.turn < state.end_turn,
        beam_width >= 1,
    ensures
        state.is_legal(r as int),
{
    let time_keeper = TimeKeeper::new(time_threshold);
    let mut now_beam = Beam::new();
    now_beam.push(state.clone());
    let mut best_action: Option<usize> = None;
    let mut d: u64 = 0;
    loop
        invariant_except_break
            state.wf(),
            state.height >= 2 || state.width >= 2,
            state.turn < state.end_turn,
            beam_width >= 1,
            state.turn + d < state.end_turn,
            now_beam@.len() >= 1,
            d == 0 ==> now_beam@.len() == 1 && now_beam@[0].eqv(*state),
            d >= 1 ==> forall|k: int|
                0 <= k < now_beam@.len() ==> frontier_node_ok(
                    *state,
                    #[trigger] now_beam@[k],
                    d as int,
                ),
            forall|k: int| 0 <= k < now_beam@.len() ==> (#[trigger] now_beam@[k]).turn
                < state.end_turn,
            d >= 1 ==> (best_action matches Some(a) && state.is_legal(a as int)),
            best_action matches Some(a) ==> state.is_legal(a as int),
        ensures
            best_action matches Some(a) && state.is_legal(a as int),
        decreases state.end_turn - state.turn - d,
    {
        let ghost depth = d as int;
        let mut next_beam = Beam::new();
        let mut w: usize = 0;
        while w < beam_width
            invariant
                state.wf(),
                state.height >= 2 || state.width >= 2,
                state.turn < state.end_turn,
                beam_width >= 1,
                depth == d as int,
                state.turn + d < state.end_turn,
                d == 0 ==> forall|k: int|
                    0 <= k < now_beam@.len() ==> (#[trigger] now_beam@[k]).eqv(*state),
                d >= 1 ==> forall|k: int|
                    0 <= k < now_beam@.len() ==> frontier_node_ok(
                        *state,
                        #[trigger] now_beam@[k],
                        depth,
                    ),
                forall|k: int| 0 <= k < now_beam@.len() ==> (#[trigger] now_beam@[k]).turn
                    < state.end_turn,
                w >= 1 || now_beam@.len() >= 1,
                w >= 1 ==> next_beam@.len() >= 1,
                forall|k: int|
                    0 <= k < next_beam@.len() ==> frontier_node_ok(
                        *state,
                        #[trigger] next_beam@[k],
                        depth + 1,
                    ),
                d >= 1 ==> (best_action matches Some(a) && state.is_legal(a as int)),
                best_action matches Some(a) ==> state.is_legal(a as int),
            ensures
                next_beam@.len() >= 1,
                forall|k: int|
                    0 <= k < next_beam@.len() ==> frontier_node_ok(
                        *state,
                        #[trigger] next_beam@[k],
                        depth + 1,
                    ),
            decreases beam_width - w,
        {
            if time_keeper.is_time_over() {
                match best_action {
                    Some(a) => {
                        return a;
                    },
                    None => {},
                }
            }
            let ghost nb_pre = now_beam@;
            let popped = now_beam.pop_best();
            match popped {
                None => {
                    break ;
                },
                Some(now_state) => {
                    proof {
                        lemma_best_idx(nb_pre);
                    }
                    expand_node(state, &now_state, d == 0, &mut next_beam, Ghost(depth));
                },
            }
            w = w + 1;
        }
        now_beam = next_beam;
        match now_beam.best_summary() {
            None => {
                return unreached();
            },
            Some((fa, done)) => {
                proof {
                    lemma_best_idx(now_beam@);
                }
                best_action = fa;
                if done {
                    break ;
                }
            },
        }
        d = d + 1;
    }
    match best_action {
        Some(a) => a,
        None => unreached(),
    }
}

/// The answer read off a stack of frontiers, one per depth: the recorded
/// depth-zero action of the best node at the deepest non-empty frontier, and
/// `None` when every frontier is empty.
pub open spec fn scan_result(bs: Seq<Beam>) -> Option<usize>
    decreases bs.len(),
{
    if bs.len() == 0 {
        None
    } else if bs.last()@.len() > 0 {
        bs.last()@[best_idx(bs.last()@)].first_action
    } else {
        scan_result(bs.drop_last())
    }
}

/// Deeper progress wins: whenever the frontier at depth `t` holds a node, the
/// scan's answer comes from the best node of a frontier at depth `t` or
/// deeper, never from a shallower one.
pub proof fn lemma_scan_takes_deepest(bs: Seq<Beam>, t: int)
    requires
        0 <= t < bs.len(),
        bs[t]@.len() > 0,
    ensures
        exists|u: int|
            t <= u < bs.len() && bs[u]@.len() > 0 && scan_result(bs) == bs[u]@[best_idx(
                bs[u]@,
            )].first_action,
    decreases bs.len(),
{
    if bs.last()@.len() > 0 {
        assert(bs[bs.len() - 1]@.len() > 0 && scan_result(bs) == bs[bs.len() - 1]@[best_idx(
            bs[bs.len() - 1]@,
        )].first_action);
    } else {
        lemma_scan_takes_deepest(bs.drop_last(), t);
        let u = choose|u: int|
            t <= u < bs.drop_last().len() && bs.drop_last()[u]@.len() > 0 && scan_result(
                bs.drop_last(),
            ) == bs.drop_last()[u]@[best_idx(bs.drop_last()[u]@)].first_action;
        assert(bs[u]@.len() > 0 && scan_result(bs) == bs[u]@[best_idx(bs[u]@)].first_action);
    }
}

/// Reads one frontier of the stack.
fn beam_at(beams: &Vec<Beam>, i: usize) -> (b: &Beam)
    requires
        i < beams@.len(),
    ensures
        *b == beams@[i as int],
{
    &beams[i]
}

/// Borrows one frontier of the stack for mutation.
fn beam_at_mut(beams: &mut Vec<Beam>, i: usize) -> (b: &mut Beam)
    requires
        i < old(beams)@.len(),
    ensures
        *b == old(beams)@[i as int],
        final(beams)@ == old(beams)@.update(i as int, *final(b)),
{
    &mut beams[i]
}

/// Scans the frontier stack from the deepest level down and returns the
/// recorded depth-zero action of the best node at the first non-empty level.
pub fn deepest_best_action(beams: &Vec<Beam>) -> (r: Option<usize>)
    ensures
        r == scan_result(beams@),
{
    let mut t: usize = beams.len();
    proof {
        assert(beams@.subrange(0, t as int) =~= beams@);
    }
    while t > 0
        invariant
            t <= beams@.len(),
            scan_result(beams@) == scan_result(beams@.subrange(0, t as int)),
        decreases t,
    {
        let ghost prefix = beams@.subrange(0, t as int);
        proof {
            assert(prefix.last() == beams@[t - 1]);
            assert(prefix.drop_last() =~= beams@.subrange(0, t - 1));
        }
        match beam_at(beams, t - 1).best_summary() {
            Some((fa, _done)) => {
                return fa;
            },
            None => {},
        }
        t = t - 1;
    }
    proof {
        assert(beams@.subrange(0, 0) =~= Seq::<Beam>::empty());
    }
    None
}

/// A node of the chokudai frontier stack at depth `u`: depth zero holds only
/// the root itself; deeper levels hold frontier nodes `u` turns ahead.
pub open spec fn chokudai_node_ok(root: MazeState, s: MazeState, u: int) -> bool {
    if u == 0 {
        s.eqv(root)
    } else {
        frontier_node_ok(root, s, u)
    }
}

/// Every node in every frontier of the stack is in order for its depth.
pub open spec fn chokudai_stack_ok(root: MazeState, bs: Seq<Beam>) -> bool {
    forall|u: int, k: int|
        0 <= u < bs.len() && 0 <= k < bs[u]@.len() ==> chokudai_node_ok(root, #[trigger] bs[u]@[k], u)
}

/// Some frontier below the root level holds a node.
pub open spec fn deeper_nonempty(bs: Seq<Beam>) -> bool {
    exists|u: int| 1 <= u < bs.len() && bs[u]@.len() > 0
}

/// One depth sweep of chokudai search: for every depth in increasing order,
/// pops up to `beam_width` unfinished nodes from that depth's frontier and
/// pushes every expansion into the next depth's frontier. After a sweep some
/// frontier below the root level holds a node.
fn chokudai_pass(state: &MazeState, beams: &mut Vec<Beam>, beam_width: usize, beam_depth: usize)
    requires
        state.wf(),
        state.height >= 2 || state.width >= 2,
        state.turn < state.end_turn,
        beam_width >= 1,
        beam_depth >= 1,
        old(beams)@.len() == beam_depth + 1,
        chokudai_stack_ok(*state, old(beams)@),
        deeper_nonempty(old(beams)@) || old(beams)@[0]@.len() >= 1,
    ensures
        final(beams)@.len() == beam_depth + 1,
        chokudai_stack_ok(*state, final(beams)@),
        deeper_nonempty(final(beams)@),
{
    let mut t: usize = 0;
    while t < beam_depth
        invariant
            state.wf(),
            state.height >= 2 || state.width >= 2,
            state.turn < state.end_turn,
            beam_width >= 1,
            beam_depth >= 1,
            0 <= t <= beam_depth,
            beams@.len() == beam_depth + 1,
            chokudai_stack_ok(*state, beams@),
            deeper_nonempty(beams@) || (t == 0 && beams@[0]@.len() >= 1),
        decreases beam_depth - t,
    {
        let mut w: usize = 0;
        while w < beam_width
            invariant
                state.wf(),
                state.height >= 2 || state.width >= 2,
                state.turn < state.end_turn,
                beam_width >= 1,
                beam_depth >= 1,
                0 <= t < beam_depth,
                beams@.len() == beam_depth + 1,
                chokudai_stack_ok(*state, beams@),
                deeper_nonempty(beams@) || (t == 0 && w == 0 && beams@[0]@.len() >= 1),
            ensures
                beams@.len() == beam_depth + 1,
                chokudai_stack_ok(*state, beams@),
                deeper_nonempty(beams@),
            decreases beam_width - w,
        {
            let ghost pre = beams@;
            let popped = beam_at_mut(beams, t).pop_best_unfinished();
            match popped {
                None => {
                    proof {
                        assert(beams@[t as int]@ == pre[t as int]@);
                        assert forall|u: int, k: int|
                            0 <= u < beams@.len() && 0 <= k < beams@[u]@.len() implies chokudai_node_ok(
                            *state,
                            #[trigger] beams@[u]@[k],
                            u,
                        ) by {
                            if u == t as int {
                                assert(chokudai_node_ok(*state, pre[u]@[k], u));
                            } else {
                                assert(beams@[u] == pre[u]);
                                assert(chokudai_node_ok(*state, pre[u]@[k], u));
                            }
                        }
                        if pre[t as int]@.len() > 0 {
                            lemma_best_idx(pre[t as int]@);
                        }
                        if deeper_nonempty(pre) {
                            let u0 = choose|u0: int| 1 <= u0 < pre.len() && pre[u0]@.len() > 0;
                            assert(beams@[u0]@.len() > 0);
                            assert(deeper_nonempty(beams@));
                        } else {
                            assert(t == 0 && w == 0 && pre[0]@.len() >= 1);
                            assert(chokudai_node_ok(*state, pre[0]@[best_idx(pre[0]@)], 0));
                            assert(false);
                        }
                    }
                    break ;
                },
                Some(now_state) => {
                    proof {
                        lemma_best_idx(pre[t as int]@);
                        assert(chokudai_node_ok(*state, now_state, t as int));
                    }
                    expand_node(state, &now_state, t == 0, beam_at_mut(beams, t + 1), Ghost(
                        t as int,
                    ));
                    proof {
                        assert(beams@[t as int + 1]@.len() >= 1);
                    }
                },
            }
            w = w + 1;
        }
        t = t + 1;
    }
}

/// Chokudai search: keeps one frontier per depth and, over `beam_number`
/// passes, refines every depth a little on every pass, so shallow progress is
/// never wasted. Returns the depth-zero action recorded at the deepest
/// frontier holding a node (under the stated preconditions, always an action).
pub fn chokudai_search_action(
    state: &MazeState,
    beam_width: usize,
    beam_depth: usize,
    beam_number: usize,
) -> (r: Option<usize>)
    requires
        state.wf(),
        state.height >= 2 || state.width >= 2,
        state.turn < state.end_turn,
        beam_width >= 1,
        beam_depth >= 1,
        beam_depth < usize::MAX,
        beam_number >= 1,
    ensures
        r matches Some(a) && state.is_legal(a as int),
{
    let mut beams: Vec<Beam> = Vec::new();
    let mut i: usize = 0;
    while i < beam_depth + 1
        invariant
            beam_depth < usize::MAX,
            i <= beam_depth + 1,
            beams@.len() == i,
            forall|u: int| 0 <= u < i ==> (#[trigger] beams@[u])@.len() == 0,
        decreases beam_depth + 1 - i,
    {
        beams.push(Beam::new());
        i = i + 1;
    }
    beam_at_mut(&mut beams, 0).push(state.clone());
    let mut pass: usize = 0;
    while pass < beam_number
        invariant
            state.wf(),
            state.height >= 2 || state.width >= 2,
            state.turn < state.end_turn,
            beam_width >= 1,
            beam_depth >= 1,
            pass <= beam_number,
            beams@.len() == beam_depth + 1,
            chokudai_stack_ok(*state, beams@),
            deeper_nonempty(beams@) || beams@[0]@.len() >= 1,
            pass >= 1 ==> deeper_nonempty(beams@),
        decreases beam_number - pass,
    {
        chokudai_pass(state, &mut beams, beam_width, beam_depth);
        pass = pass + 1;
    }
    let r = deepest_best_action(&beams);
    proof {
        lemma_deep_scan_is_action(*state, beams@);
    }
    r
}

/// Chokudai search bounded by wall-clock time: depth sweeps repeat until the
/// budget expires, checked once per sweep (a sweep is the unit of useful
/// progress). The sweep counter only bounds the loop formally; the deadline
/// ends it in practice. The first sweep always completes, so the result is
/// defined even on a tiny budget.
pub fn chokudai_search_with_time_threshold_action(
    state: &MazeState,
    beam_width: usize,
    beam_depth: usize,
    time_threshold: u64,
) -> (r: Option<usize>)
    requires
        state.wf(),
        state.height >= 2 || state.width >= 2,
        state.turn < state.end_turn,
        beam_width >= 1,
        beam_depth >= 1,
        beam_depth < usize::MAX,
    ensures
        r matches Some(a) && state.is_legal(a as int),
{
    let time_keeper = TimeKeeper::new(time_threshold);
    let mut beams: Vec<Beam> = Vec::new();
    let mut i: usize = 0;
    while i < beam_depth + 1
        invariant
            beam_depth < usize::MAX,
            i <= beam_depth + 1,
            beams@.len() == i,
            forall|u: int| 0 <= u < i ==> (#[trigger] beams@[u])@.len() == 0,
        decreases beam_depth + 1 - i,
    {
        beams.push(Beam::new());
        i = i + 1;
    }
    beam_at_mut(&mut beams, 0).push(state.clone());
    let mut pass: u64 = 0;
    while pass < u64::MAX
        invariant_except_break
            state.wf(),
            state.height >= 2 || state.width >= 2,
            state.turn < state.end_turn,
            beam_width >= 1,
            beam_depth >= 1,
            beams@.len() == beam_depth + 1,
            chokudai_stack_ok(*state, beams@),
            deeper_nonempty(beams@) || beams@[0]@.len() >= 1,
            pass >= 1 ==> deeper_nonempty(beams@),
        ensures
            beams@.len() == beam_depth + 1,
            chokudai_stack_ok(*state, beams@),
            deeper_nonempty(beams@),
        decreases u64::MAX - pass,
    {
        chokudai_pass(state, &mut beams, beam_width, beam_depth);
        if time_keeper.is_time_over() {
            break ;
        }
        pass = pass + 1;
    }
    let r = deepest_best_action(&beams);
    proof {
        lemma_deep_scan_is_action(*state, beams@);
    }
    r
}

/// When some frontier below the root level holds a node, the scan's answer is
/// the legal depth-zero action recorded at such a level.
proof fn lemma_deep_scan_is_action(root: MazeState, bs: Seq<Beam>)
    requires
        chokudai_stack_ok(root, bs),
        deeper_nonempty(bs),
    ensures
        scan_result(bs) matches Some(a) && root.is_legal(a as int),
{
    let u = choose|u: int| 1 <= u < bs.len() && bs[u]@.len() > 0;
    lemma_scan_takes_deepest(bs, u);
    let v = choose|v: int|
        u <= v < bs.len() && bs[v]@.len() > 0 && scan_result(bs) == bs[v]@[best_idx(
            bs[v]@,
        )].first_action;
    lemma_best_idx(bs[v]@);
    assert(chokudai_node_ok(root, bs[v]@[best_idx(bs[v]@)], v));
}

} // verus!
