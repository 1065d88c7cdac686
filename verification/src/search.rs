//! The two search strategies over the move engine.
//!
//! Both searches explore move sequences that never follow a move with
//! its exact inverse (such a pair cancels, so nothing is lost), and both
//! report solutions of provably minimal length.  The depth-first search
//! examines, per depth round, every pruned sequence of exactly that
//! length; the cost-bounded search raises its threshold pass by pass
//! until a pass finds a solution.

use vstd::prelude::*;
use crate::colour::Colour;
use crate::cube::{RubixCube, balanced, lemma_apply_move_balanced, solved_spec};
use crate::perm::{apply_move, apply_seq, inv_move, inv_move_exec, valid_moves,
    lemma_apply_then_inverse, lemma_apply_seq_add, lemma_apply_seq_len};
use rayon::iter::{IntoParallelIterator, ParallelIterator};

verus! {

/// No move is immediately followed by its exact inverse.
pub open spec fn no_stutter(p: Seq<u8>) -> bool {
    forall|i: int| 1 <= i < p.len() ==> #[trigger] p[i] as int != inv_move(p[i - 1] as int)
}

/// `p` may continue a path whose most recent move was `last`: it starts
/// with anything but the exact inverse of `last`, and never stutters.
pub open spec fn extends_ok(last: u8, p: Seq<u8>) -> bool {
    no_stutter(p) && (p.len() > 0 ==> p[0] as int != inv_move(last as int))
}

/// Replaying `p` from state `s` reaches a solved configuration.
pub open spec fn solves(s: Seq<Colour>, p: Seq<u8>) -> bool {
    valid_moves(p) && solved_spec(apply_seq(s, p))
}

impl RubixCube {
    /// One branch's sequential depth-bounded search: looks for a
    /// continuation of exactly `depth` further moves, pruning only the
    /// exact inverse of the move most recently applied.  The cube is
    /// left exactly as it was.  On success the returned path is in
    /// replay order, root to leaf; on failure, no pruned continuation of
    /// that exact length solves the cube.
    pub fn thread_iddfs(&mut self, depth: u8) -> (r: (bool, Vec<u8>))
        requires
            old(self).wf(),
            old(self).past_moves@.len() >= 1,
        ensures
            final(self).wf(),
            final(self).faces@ == old(self).faces@,
            final(self).past_moves@ == old(self).past_moves@,
            final(self).solving_route@ == old(self).solving_route@,
            r.0 ==> r.1@.len() == depth as int && valid_moves(r.1@) && extends_ok(
                old(self).past_moves@.last(),
                r.1@,
            ) && solved_spec(apply_seq(old(self).faces@, r.1@)),
            !r.0 ==> forall|p: Seq<u8>|
                p.len() == depth as int && valid_moves(p) && extends_ok(
                    old(self).past_moves@.last(),
                    p,
                ) ==> !solved_spec(#[trigger] apply_seq(old(self).faces@, p)),
        decreases depth,
    {
        let ghost s0 = self.faces@;
        let ghost last_g = self.past_moves@.last();
        if depth == 0 {
            let solved = self.is_solved();
            proof {
                if solved {
                    assert(apply_seq(s0, Seq::<u8>::empty()) == s0);
                } else {
                    assert forall|p: Seq<u8>|
                        p.len() == 0 && valid_moves(p) && extends_ok(last_g, p)
                            implies !solved_spec(#[trigger] apply_seq(s0, p)) by {
                        assert(apply_seq(s0, p) == s0);
                    }
                }
            }
            return (solved, Vec::new());
        }
        let last = self.past_moves[self.past_moves.len() - 1];
        let skip = inv_move_exec(last);
        let mut next: u8 = 0;
        while next < 18
            invariant
                self.wf(),
                self.faces@ == old(self).faces@,
                self.past_moves@ == old(self).past_moves@,
                self.solving_route@ == old(self).solving_route@,
                self.past_moves@.len() >= 1,
                s0 == self.faces@,
                last_g == self.past_moves@.last(),
                last == last_g,
                skip as int == inv_move(last as int),
                1 <= depth,
                next <= 18,
                forall|p: Seq<u8>|
                    p.len() == depth as int && valid_moves(p) && extends_ok(last_g, p) && p[0]
                        < next ==> !solved_spec(#[trigger] apply_seq(s0, p)),
            decreases 18 - next,
        {
            if next != skip {
                self.turn_cube(next);
                let ghost s1 = self.faces@;
                let (found, mut path) = self.thread_iddfs(depth - 1);
                self.undo_turn();
                proof {
                    lemma_apply_then_inverse(s0, next as int);
                    assert(self.past_moves@ =~= old(self).past_moves@);
                }
                if found {
                    let ghost sub = path@;
                    path.insert(0, next);
                    proof {
                        assert(path@ =~= seq![next] + sub);
                        assert(path@.drop_first() =~= sub);
                        assert(apply_seq(s0, path@) == apply_seq(s1, sub));
                        assert(extends_ok(last_g, path@)) by {
                            assert forall|i: int| 1 <= i < path@.len() implies #[trigger] path@[i] as int
                                != inv_move(path@[i - 1] as int) by {
                                if i == 1 {
                                    assert(sub.len() > 0);
                                    assert(sub[0] as int != inv_move(next as int));
                                } else {
                                    assert(sub[i - 1] as int != inv_move(sub[i - 2] as int));
                                }
                            }
                        }
                        assert(valid_moves(path@)) by {
                            assert forall|i: int| 0 <= i < path@.len() implies path@[i] < 18 by {
                                if i > 0 {
                                    assert(sub[i - 1] < 18);
                                }
                            }
                        }
                    }
                    return (true, path);
                }
                proof {
                    assert forall|p: Seq<u8>|
                        p.len() == depth as int && valid_moves(p) && extends_ok(last_g, p) && p[0]
                            <= next implies !solved_spec(#[trigger] apply_seq(s0, p)) by {
                        if p[0] == next {
                            let q = p.drop_first();
                            assert(q.len() == depth as int - 1);
                            assert(valid_moves(q)) by {
                                assert(forall|i: int| 0 <= i < q.len() ==> q[i] == p[i + 1]);
                            }
                            assert(extends_ok(next, q)) by {
                                assert forall|i: int| 1 <= i < q.len() implies #[trigger] q[i] as int
                                    != inv_move(q[i - 1] as int) by {
                                    assert(p[i + 1] as int != inv_move(p[i] as int));
                                }
                                if q.len() > 0 {
                                    assert(p[1] as int != inv_move(p[0] as int));
                                }
                            }
                            assert(apply_seq(s0, p) == apply_seq(s1, q));
                            assert(!solved_spec(apply_seq(s1, q)));
                        }
                    }
                }
            }
            next += 1;
        }
        proof {
            assert forall|p: Seq<u8>|
                p.len() == depth as int && valid_moves(p) && extends_ok(last_g, p)
                    implies !solved_spec(#[trigger] apply_seq(s0, p)) by {
                assert(p[0] < 18);
            }
        }
        (false, Vec::new())
    }
}

/// What one first-move branch reports: on success, a replay-order
/// pruned solution of exactly `rest + 1` moves starting with `init`;
/// on failure, that no such sequence solves the cube.
pub open spec fn branch_result_ok(
    s: Seq<Colour>,
    init: u8,
    rest: int,
    found: bool,
    path: Seq<u8>,
) -> bool {
    &&& found ==> path.len() == rest + 1 && path[0] == init && no_stutter(path) && solves(s, path)
    &&& !found ==> forall|p: Seq<u8>|
        p.len() == rest + 1 && valid_moves(p) && no_stutter(p) && p[0] == init
            ==> !solved_spec(#[trigger] apply_seq(s, p))
}

/// Runs one of the 18 first-move branches on a private clone: applies
/// `init_move`, then searches exactly `rest` further levels.
fn branch_search(cube: &RubixCube, init_move: u8, rest: u8) -> (r: (bool, Vec<u8>))
    requires
        cube.wf(),
        init_move < 18,
    ensures
        branch_result_ok(cube.faces@, init_move, rest as int, r.0, r.1@),
{
    let ghost s = cube.faces@;
    let mut branch = cube.clone();
    branch.turn_cube(init_move);
    let ghost s1 = branch.faces@;
    let (found, mut path) = branch.thread_iddfs(rest);
    if found {
        let ghost sub = path@;
        path.insert(0, init_move);
        proof {
            assert(path@ =~= seq![init_move] + sub);
            assert(path@.drop_first() =~= sub);
            assert(apply_seq(s, path@) == apply_seq(s1, sub));
            assert(no_stutter(path@)) by {
                assert forall|i: int| 1 <= i < path@.len() implies #[trigger] path@[i] as int
                    != inv_move(path@[i - 1] as int) by {
                    if i == 1 {
                        assert(sub[0] as int != inv_move(init_move as int));
                    } else {
                        assert(sub[i - 1] as int != inv_move(sub[i - 2] as int));
                    }
                }
            }
            assert(valid_moves(path@)) by {
                assert forall|i: int| 0 <= i < path@.len() implies path@[i] < 18 by {
                    if i > 0 {
                        assert(sub[i - 1] < 18);
                    }
                }
            }
        }
        (true, path)
    } else {
        proof {
            assert forall|p: Seq<u8>|
                p.len() == rest as int + 1 && valid_moves(p) && no_stutter(p) && p[0] == init_move
                    implies !solved_spec(#[trigger] apply_seq(s, p)) by {
                let q = p.drop_first();
                assert(valid_moves(q)) by {
                    assert(forall|i: int| 0 <= i < q.len() ==> q[i] == p[i + 1]);
                }
                assert(extends_ok(init_move, q)) by {
                    assert forall|i: int| 1 <= i < q.len() implies #[trigger] q[i] as int
                        != inv_move(q[i - 1] as int) by {
                        assert(p[i + 1] as int != inv_move(p[i] as int));
                    }
                    if q.len() > 0 {
                        assert(p[1] as int != inv_move(p[0] as int));
                    }
                }
                assert(apply_seq(s, p) == apply_seq(s1, q));
                assert(!solved_spec(apply_seq(s1, q)));
            }
        }
        (false, path)
    }
}

/// Relies on rayon: mapping a range's parallel iterator and collecting
/// into a `Vec` yields exactly one entry per index, in index order;
/// each entry is what the mapped function returned for that index.
#[verifier::external_body]
fn run_branches_in_parallel(cube: &RubixCube, rest: u8) -> (results: Vec<(bool, Vec<u8>)>)
    requires
        cube.wf(),
    ensures
        results@.len() == 18,
        forall|i: int|
            0 <= i < 18 ==> branch_result_ok(
                cube.faces@,
                i as u8,
                rest as int,
                results@[i].0,
                results@[i].1@,
            ),
{
    (0u8..18u8).into_par_iter().map(|init_move| branch_search(cube, init_move, rest)).collect()
}

/// Every solution has a non-stuttering core no longer than itself:
/// an adjacent move/inverse pair cancels, so removing it keeps the
/// replay result.
pub proof fn lemma_solution_nonstut_core(s: Seq<Colour>, p: Seq<u8>) -> (q: Seq<u8>)
    requires
        s.len() == 54,
        solves(s, p),
    ensures
        solves(s, q),
        no_stutter(q),
        q.len() <= p.len(),
    decreases p.len(),
{
    if no_stutter(p) {
        p
    } else {
        assert(exists|i: int| 1 <= i < p.len() && #[trigger] p[i] as int == inv_move(p[i - 1] as int));
        let i = choose|i: int| 1 <= i < p.len() && #[trigger] p[i] as int == inv_move(p[i - 1] as int);
        let m = p[i - 1];
        let head = p.take(i - 1);
        let tail = p.skip(i + 1);
        let shorter = head + tail;
        assert(valid_moves(shorter)) by {
            assert forall|j: int| 0 <= j < shorter.len() implies shorter[j] < 18 by {
                if j < head.len() {
                    assert(shorter[j] == p[j]);
                } else {
                    assert(shorter[j] == p[j + 2]);
                }
            }
        }
        let u = apply_seq(s, head);
        assert(valid_moves(head)) by {
            assert(forall|j: int| 0 <= j < head.len() ==> head[j] == p[j]);
        }
        lemma_apply_seq_len(s, head);
        assert(p =~= head + (seq![m, p[i]] + tail));
        lemma_apply_seq_add(s, head, seq![m, p[i]] + tail);
        lemma_apply_seq_add(u, seq![m, p[i]], tail);
        assert((seq![m, p[i]] + tail).take(2) =~= seq![m, p[i]]);
        let two = seq![m, p[i]];
        assert(apply_seq(u, two) == u) by {
            let v1 = apply_move(u, m as int);
            assert(two.len() == 2 && two[0] == m);
            assert(apply_seq(u, two) == apply_seq(v1, two.drop_first()));
            assert(two.drop_first() =~= seq![p[i]]);
            let one = seq![p[i]];
            assert(one.len() == 1 && one[0] == p[i]);
            let v2 = apply_move(v1, p[i] as int);
            assert(apply_seq(v1, one) == apply_seq(v2, one.drop_first()));
            assert(one.drop_first() =~= Seq::<u8>::empty());
            assert(apply_seq(v2, Seq::<u8>::empty()) == v2);
            lemma_apply_then_inverse(u, m as int);
            assert(p[i] as int == inv_move(m as int));
        }
        assert(apply_seq(s, shorter) == apply_seq(s, p)) by {
            lemma_apply_seq_add(s, head, tail);
        }
        assert(solves(s, shorter));
        lemma_solution_nonstut_core(s, shorter)
    }
}

/// Two minimal-length solutions for the same configuration are equally
/// long: repeated searches report the same solution length even when
/// the literal move sequences differ.
pub proof fn lemma_minimal_solution_length_unique(s: Seq<Colour>, p1: Seq<u8>, p2: Seq<u8>)
    requires
        solves(s, p1),
        forall|q: Seq<u8>| #[trigger] solves(s, q) ==> q.len() >= p1.len(),
        solves(s, p2),
        forall|q: Seq<u8>| #[trigger] solves(s, q) ==> q.len() >= p2.len(),
    ensures
        p1.len() == p2.len(),
{
}

impl RubixCube {
    /// Parallel iterative-deepening depth-first search up to
    /// `depth_to_search` moves.  For each depth round the 18 possible
    /// first moves are explored in parallel on private clones; all 18
    /// outcomes are collected and then scanned in fixed first-move
    /// order.  A reported solution replays to a solved cube and is of
    /// minimal length among all solutions, of any length; `None` means
    /// no move sequence within the depth bound solves the cube.
    pub fn thread_search_iddfs(&self, depth_to_search: u8) -> (r: Option<Vec<u8>>)
        requires
            self.wf(),
        ensures
            r matches Some(path) ==> path@.len() <= depth_to_search as int && no_stutter(path@)
                && solves(self.faces@, path@) && forall|p: Seq<u8>|
                #[trigger] solves(self.faces@, p) ==> p.len() >= path@.len(),
            r is None ==> forall|p: Seq<u8>|
                valid_moves(p) && p.len() <= depth_to_search as int ==> !solved_spec(
                    #[trigger] apply_seq(self.faces@, p),
                ),
    {
        let ghost s = self.faces@;
        if self.is_solved() {
            let empty: Vec<u8> = Vec::new();
            proof {
                assert(apply_seq(s, empty@) == s);
            }
            return Some(empty);
        }
        let mut d: u16 = 1;
        while d <= depth_to_search as u16
            invariant
                self.wf(),
                s == self.faces@,
                !solved_spec(s),
                1 <= d <= depth_to_search as int + 1,
                forall|p: Seq<u8>|
                    valid_moves(p) && no_stutter(p) && p.len() < d as int ==> !solved_spec(
                        #[trigger] apply_seq(s, p),
                    ),
            decreases depth_to_search as int - d as int + 1,
        {
            let rest: u8 = (d - 1) as u8;
            let mut results = run_branches_in_parallel(self, rest);
            let mut k: usize = 0;
            while k < 18
                invariant
                    self.wf(),
                    s == self.faces@,
                    !solved_spec(s),
                    1 <= d <= depth_to_search as int,
                    rest as int == d as int - 1,
                    k <= 18,
                    results@.len() == 18,
                    forall|i: int|
                        0 <= i < 18 ==> branch_result_ok(
                            s,
                            i as u8,
                            rest as int,
                            results@[i].0,
                            results@[i].1@,
                        ),
                    forall|i: int| 0 <= i < k as int ==> !results@[i].0,
                    forall|p: Seq<u8>|
                        valid_moves(p) && no_stutter(p) && p.len() < d as int ==> !solved_spec(
                            #[trigger] apply_seq(s, p),
                        ),
                decreases 18 - k,
            {
                let found = results[k].0;
                if found {
                    let entry = results.remove(k);
                    proof {
                        assert(branch_result_ok(s, k as u8, rest as int, true, entry.1@));
                        assert(solves(s, entry.1@));
                        assert(entry.1@.len() == d as int);
                        assert forall|p: Seq<u8>| #[trigger] solves(s, p)
                            implies p.len() >= entry.1@.len() by {
                            if p.len() < d as int {
                                let q = lemma_solution_nonstut_core(s, p);
                                assert(!solved_spec(apply_seq(s, q)));
                            }
                        }
                    }
                    return Some(entry.1);
                }
                k += 1;
            }
            proof {
                assert forall|p: Seq<u8>|
                    valid_moves(p) && no_stutter(p) && p.len() < d as int + 1
                        implies !solved_spec(#[trigger] apply_seq(s, p)) by {
                    if p.len() == d as int {
                        let init = p[0];
                        assert(init < 18);
                        assert(!results@[init as int].0);
                        assert(branch_result_ok(
                            s,
                            init,
                            rest as int,
                            results@[init as int].0,
                            results@[init as int].1@,
                        ));
                    }
                }
            }
            d = d + 1;
        }
        proof {
            assert forall|p: Seq<u8>|
                valid_moves(p) && p.len() <= depth_to_search as int
                    implies !solved_spec(#[trigger] apply_seq(s, p)) by {
                if solved_spec(apply_seq(s, p)) {
                    let q = lemma_solution_nonstut_core(s, p);
                    assert(!solved_spec(apply_seq(s, q)));
                }
            }
        }
        None
    }
}

impl RubixCube {
    /// One cost-bounded pass of the best-first search, from recursion
    /// depth `depth` under the given threshold.  A node whose estimated
    /// total cost `depth + heuristic` exceeds the threshold is pruned
    /// and reports that cost for the next pass; otherwise every legal
    /// next move except the exact inverse of the move just applied is
    /// tried, each child undone before the next.  The cube's facelets
    /// and history are exactly restored.  On success the solution is
    /// spliced into the solving route in replay order and the threshold
    /// comes back unchanged; on failure no pruned continuation fitting
    /// the threshold solves the cube, and the reported cost is the
    /// least that was pruned.
    pub fn astar(&mut self, depth: u8, threshold: u8) -> (r: (bool, u8))
        requires
            old(self).wf(),
            old(self).past_moves@.len() >= 1,
            balanced(old(self).faces@),
            threshold < 255,
            depth as int <= threshold as int + 1,
        ensures
            final(self).wf(),
            final(self).faces@ == old(self).faces@,
            final(self).past_moves@ == old(self).past_moves@,
            old(self).solving_route@.is_prefix_of(final(self).solving_route@),
            !r.0 ==> final(self).solving_route@ == old(self).solving_route@ && r.1 as int == (
            if depth as int > threshold as int {
                depth as int
            } else {
                threshold as int + 1
            }) && forall|p: Seq<u8>|
                valid_moves(p) && extends_ok(old(self).past_moves@.last(), p) && depth as int
                    + p.len() <= threshold as int + 1 ==> !solved_spec(
                    #[trigger] apply_seq(old(self).faces@, p),
                ),
            r.0 ==> r.1 == threshold && valid_moves(
                final(self).solving_route@.skip(old(self).solving_route@.len() as int),
            ) && extends_ok(
                old(self).past_moves@.last(),
                final(self).solving_route@.skip(old(self).solving_route@.len() as int),
            ) && depth as int + final(self).solving_route@.len() - old(self).solving_route@.len()
                <= threshold as int + 1 && solved_spec(
                apply_seq(
                    old(self).faces@,
                    final(self).solving_route@.skip(old(self).solving_route@.len() as int),
                ),
            ),
        decreases threshold as int + 1 - depth as int,
    {
        let ghost s0 = self.faces@;
        let ghost last_g = self.past_moves@.last();
        let ghost route0 = self.solving_route@;
        if self.is_solved() {
            proof {
                assert(route0.skip(route0.len() as int) =~= Seq::<u8>::empty());
                assert(apply_seq(s0, Seq::<u8>::empty()) == s0);
                assert(route0.is_prefix_of(route0));
            }
            return (true, threshold);
        }
        let h = self.heuristic();
        let estimated_total_path_length = depth + h;
        if estimated_total_path_length > threshold {
            proof {
                assert forall|p: Seq<u8>|
                    valid_moves(p) && extends_ok(last_g, p) && depth as int + p.len()
                        <= threshold as int + 1 implies !solved_spec(#[trigger] apply_seq(s0, p)) by {
                    assert(p.len() == 0);
                    assert(apply_seq(s0, p) == s0);
                }
            }
            return (false, estimated_total_path_length);
        }
        let last = self.past_moves[self.past_moves.len() - 1];
        let skip_mv = inv_move_exec(last);
        let route_len = self.solving_route.len();
        let mut min_threshold_exceeded: u8 = 255;
        let mut next: u8 = 0;
        while next < 18
            invariant
                self.wf(),
                self.faces@ == s0,
                s0 == old(self).faces@,
                self.past_moves@ == old(self).past_moves@,
                self.solving_route@ == route0,
                route0 == old(self).solving_route@,
                route_len as int == route0.len(),
                balanced(s0),
                self.past_moves@.len() >= 1,
                last == last_g,
                last_g == self.past_moves@.last(),
                skip_mv as int == inv_move(last as int),
                depth <= threshold,
                threshold < 255,
                next <= 18,
                min_threshold_exceeded == 255 || min_threshold_exceeded as int == threshold as int
                    + 1,
                min_threshold_exceeded == 255 ==> (next == 0 || (next == 1 && skip_mv == 0) || threshold
                    == 254),
                forall|p: Seq<u8>|
                    valid_moves(p) && extends_ok(last_g, p) && 1 <= p.len() && p[0] < next
                        && depth as int + p.len() <= threshold as int + 1 ==> !solved_spec(
                        #[trigger] apply_seq(s0, p),
                    ),
            decreases 18 - next,
        {
            if next != skip_mv {
                self.turn_cube(next);
                let ghost s1 = self.faces@;
                proof {
                    lemma_apply_move_balanced(s0, next as int);
                }
                let (result, new_threshold) = self.astar(depth + 1, threshold);
                let ghost route_mid = self.solving_route@;
                self.undo_turn();
                proof {
                    lemma_apply_then_inverse(s0, next as int);
                    assert(self.past_moves@ =~= old(self).past_moves@);
                }
                if result {
                    self.solving_route.insert(route_len, next);
                    proof {
                        let added_child = route_mid.skip(route0.len() as int);
                        let added = self.solving_route@.skip(route0.len() as int);
                        assert(self.solving_route@ == route_mid.insert(route0.len() as int, next));
                        assert(added =~= seq![next] + added_child);
                        assert(added.drop_first() =~= added_child);
                        assert(route0.is_prefix_of(self.solving_route@)) by {
                            assert(self.solving_route@.take(route0.len() as int) =~= route0);
                        }
                        assert(apply_seq(s0, added) == apply_seq(s1, added_child));
                        assert(extends_ok(last_g, added)) by {
                            assert forall|i: int| 1 <= i < added.len() implies #[trigger] added[i] as int
                                != inv_move(added[i - 1] as int) by {
                                if i == 1 {
                                    assert(added_child[0] as int != inv_move(next as int));
                                } else {
                                    assert(added_child[i - 1] as int != inv_move(
                                        added_child[i - 2] as int,
                                    ));
                                }
                            }
                        }
                        assert(valid_moves(added)) by {
                            assert forall|i: int| 0 <= i < added.len() implies added[i] < 18 by {
                                if i > 0 {
                                    assert(added_child[i - 1] < 18);
                                }
                            }
                        }
                    }
                    return (true, new_threshold);
                }
                if new_threshold < min_threshold_exceeded {
                    min_threshold_exceeded = new_threshold;
                }
                proof {
                    assert forall|p: Seq<u8>|
                        valid_moves(p) && extends_ok(last_g, p) && 1 <= p.len() && p[0] <= next
                            && depth as int + p.len() <= threshold as int + 1
                            implies !solved_spec(#[trigger] apply_seq(s0, p)) by {
                        if p[0] == next {
                            let q = p.drop_first();
                            assert(valid_moves(q)) by {
                                assert(forall|i: int| 0 <= i < q.len() ==> q[i] == p[i + 1]);
                            }
                            assert(extends_ok(next, q)) by {
                                assert forall|i: int| 1 <= i < q.len() implies #[trigger] q[i] as int
                                    != inv_move(q[i - 1] as int) by {
                                    assert(p[i + 1] as int != inv_move(p[i] as int));
                                }
                                if q.len() > 0 {
                                    assert(p[1] as int != inv_move(p[0] as int));
                                }
                            }
                            assert(apply_seq(s0, p) == apply_seq(s1, q));
                            assert(!solved_spec(apply_seq(s1, q)));
                        }
                    }
                }
            }
            next += 1;
        }
        proof {
            assert forall|p: Seq<u8>|
                valid_moves(p) && extends_ok(last_g, p) && depth as int + p.len() <= threshold as int
                    + 1 implies !solved_spec(#[trigger] apply_seq(s0, p)) by {
                if p.len() == 0 {
                    assert(apply_seq(s0, p) == s0);
                } else {
                    assert(p[0] < 18);
                }
            }
            assert(min_threshold_exceeded as int == threshold as int + 1);
        }
        (false, min_threshold_exceeded)
    }

    /// The cost-bounded iterative-deepening best-first search.  The
    /// threshold starts at the heuristic estimate and, after each
    /// failed pass, rises to the least pruned cost, so passes cover
    /// ever longer pruned continuations until one solves the cube.  On
    /// success the solution is appended to the solving route in replay
    /// order and returned; it is of minimal length among all
    /// continuations that do not start by undoing the most recent
    /// history move and never stutter.  `None` comes only once the
    /// threshold is exhausted with no such continuation of any feasible
    /// length solving the cube.
    pub fn search_astar(&mut self) -> (r: Option<Vec<u8>>)
        requires
            old(self).wf(),
            old(self).past_moves@.len() >= 1,
            balanced(old(self).faces@),
        ensures
            final(self).wf(),
            final(self).faces@ == old(self).faces@,
            final(self).past_moves@ == old(self).past_moves@,
            r matches Some(path) ==> final(self).solving_route@ == old(self).solving_route@
                + path@ && valid_moves(path@) && extends_ok(old(self).past_moves@.last(), path@)
                && solved_spec(apply_seq(old(self).faces@, path@)) && forall|p: Seq<u8>|
                #[trigger] solves(old(self).faces@, p) && extends_ok(
                    old(self).past_moves@.last(),
                    p,
                ) ==> p.len() >= path@.len(),
            r is None ==> final(self).solving_route@ == old(self).solving_route@ && forall|
                p: Seq<u8>,
            |
                valid_moves(p) && extends_ok(old(self).past_moves@.last(), p) && p.len() <= 255
                    ==> !solved_spec(#[trigger] apply_seq(old(self).faces@, p)),
    {
        let ghost s = self.faces@;
        let ghost last_g = self.past_moves@.last();
        let ghost route0 = self.solving_route@;
        let route_len = self.solving_route.len();
        if self.is_solved() {
            let empty: Vec<u8> = Vec::new();
            proof {
                assert(apply_seq(s, empty@) == s);
                assert(route0 + empty@ =~= route0);
            }
            return Some(empty);
        }
        let mut threshold: u8 = self.heuristic();
        loop
            invariant
                self.wf(),
                self.faces@ == s,
                s == old(self).faces@,
                self.past_moves@ == old(self).past_moves@,
                self.solving_route@ == route0,
                route0 == old(self).solving_route@,
                route_len as int == route0.len(),
                self.past_moves@.len() >= 1,
                last_g == self.past_moves@.last(),
                balanced(s),
                !solved_spec(s),
                threshold < 255,
                forall|p: Seq<u8>|
                    valid_moves(p) && extends_ok(last_g, p) && p.len() < threshold as int + 1
                        ==> !solved_spec(#[trigger] apply_seq(s, p)),
            decreases 255 - threshold as int,
        {
            let (result, new_threshold) = self.astar(0, threshold);
            if result {
                let ghost added = self.solving_route@.skip(route0.len() as int);
                let route_total = self.solving_route.len();
                let mut path: Vec<u8> = Vec::new();
                let mut i: usize = route_len;
                while i < route_total
                    invariant
                        self.solving_route@.len() == route_total as int,
                        route0.len() <= i as int <= route_total as int,
                        added == self.solving_route@.skip(route0.len() as int),
                        route0.len() == route_total as int - added.len(),
                        path@ =~= self.solving_route@.subrange(route0.len() as int, i as int),
                    decreases route_total as int - i as int,
                {
                    let v = self.solving_route[i];
                    path.push(v);
                    proof {
                        assert(self.solving_route@.subrange(route0.len() as int, i as int).push(
                            self.solving_route@[i as int],
                        ) =~= self.solving_route@.subrange(route0.len() as int, i as int + 1));
                    }
                    i += 1;
                }
                proof {
                    assert(path@ =~= added);
                    assert(self.solving_route@ =~= route0 + added) by {
                        assert(route0.is_prefix_of(self.solving_route@));
                    }
                    assert forall|p: Seq<u8>|
                        #[trigger] solves(s, p) && extends_ok(last_g, p)
                            implies p.len() >= path@.len() by {
                        if p.len() < threshold as int + 1 {
                            assert(!solved_spec(apply_seq(s, p)));
                        }
                        assert(added.len() <= threshold as int + 1);
                    }
                }
                return Some(path);
            }
            if new_threshold == 255 {
                proof {
                    assert forall|p: Seq<u8>|
                        valid_moves(p) && extends_ok(last_g, p) && p.len() <= 255
                            implies !solved_spec(#[trigger] apply_seq(s, p)) by {}
                }
                return None;
            }
            threshold = new_threshold;
        }
    }
}

} // verus!

