//! The cube state model and move engine.
//!
//! A `RubixCube` holds 54 facelets in one flat vector (face `f` at
//! positions `9*f .. 9*f + 9`), the history of applied moves, and the
//! route that a successful search accumulates.  Applying a move permutes
//! positions only, so the count of every colour is invariant; undoing a
//! move applies the "+3 / -3" sibling move and trims the history.

use vstd::prelude::*;
use vstd::multiset::Multiset;
use crate::colour::Colour;
use crate::perm::{apply_move, apply_seq, inv_move, inv_move_exec, move_src, move_src_exec,
    valid_moves, lemma_apply_move_multiset, lemma_apply_seq_multiset, lemma_apply_seq_push};

verus! {

/// A fatal misuse of the move engine.
#[derive(Clone, Copy, PartialEq, Eq, Structural, Debug)]
pub enum CubeError {
    /// A move id outside `0..=17` was handed to `apply`.
    InvalidMove,
    /// An undo was requested with an empty move history.
    UndoUnderflow,
}

/// The centre colour of face `f` on a freshly solved cube.
pub open spec fn face_colour(f: int) -> Colour {
    if f == 0 {
        Colour::Blue
    } else if f == 1 {
        Colour::Red
    } else if f == 2 {
        Colour::White
    } else if f == 3 {
        Colour::Orange
    } else if f == 4 {
        Colour::Green
    } else {
        Colour::Yellow
    }
}

/// The 54 facelets of a freshly solved cube.
pub open spec fn solved_state() -> Seq<Colour> {
    Seq::new(54, |i: int| face_colour(i / 9))
}

/// Face `f` is uniform: each of its 9 facelets equals its first one.
pub open spec fn face_uniform(s: Seq<Colour>, f: int) -> bool {
    forall|p: int| 9 * f <= p < 9 * f + 9 ==> #[trigger] s[p] == s[9 * f]
}

/// The solved check: every face is uniform on its own; no cross-face
/// consistency is demanded.
pub open spec fn solved_spec(s: Seq<Colour>) -> bool {
    forall|f: int| 0 <= f < 6 ==> face_uniform(s, f)
}

/// How many stickers of colour `c` the state `s` holds.
pub open spec fn colour_count(s: Seq<Colour>, c: Colour) -> nat {
    s.to_multiset().count(c)
}

/// A state of 54 stickers with each of the 6 colours appearing exactly
/// 9 times, as every state reachable from a solved cube does.
pub open spec fn balanced(s: Seq<Colour>) -> bool {
    s.len() == 54 && forall|c: Colour| #[trigger] colour_count(s, c) == 9
}

/// The 3x3x3 cube: 54 facelets, the moves applied so far, and the route
/// a successful search accumulated.
pub struct RubixCube {
    pub faces: Vec<Colour>,
    pub past_moves: Vec<u8>,
    pub solving_route: Vec<u8>,
}

impl RubixCube {
    /// Structural soundness: exactly 54 facelets, and a history of legal
    /// move ids.  Every constructor establishes it and every method
    /// preserves it.
    pub open spec fn wf(self) -> bool {
        self.faces@.len() == 54 && valid_moves(self.past_moves@)
    }

    /// The solved cube, with empty history and route.
    pub fn create_solved_rubix() -> (c: RubixCube)
        ensures
            c.wf(),
            c.faces@ == solved_state(),
            c.past_moves@ == Seq::<u8>::empty(),
            c.solving_route@ == Seq::<u8>::empty(),
    {
        let mut faces: Vec<Colour> = Vec::new();
        let mut f: usize = 0;
        while f < 6
            invariant
                f <= 6,
                faces@.len() == 9 * f,
                forall|j: int| 0 <= j < faces@.len() ==> faces@[j] == face_colour(j / 9),
            decreases 6 - f,
        {
            let c = face_colour_exec(f);
            let mut p: usize = 0;
            while p < 9
                invariant
                    f < 6,
                    p <= 9,
                    c == face_colour(f as int),
                    faces@.len() == 9 * f + p,
                    forall|j: int| 0 <= j < faces@.len() ==> faces@[j] == face_colour(j / 9),
                decreases 9 - p,
            {
                faces.push(c);
                proof {
                    assert((9 * f + p) as int / 9 == f as int) by (nonlinear_arith)
                        requires
                            f < 6,
                            p < 9,
                    ;
                }
                p += 1;
            }
            f += 1;
        }
        proof {
            assert(faces@ =~= solved_state());
        }
        RubixCube { faces, past_moves: Vec::new(), solving_route: Vec::new() }
    }

    /// A cube built from six explicit 9-facelet face descriptions, in
    /// face order; history and route start empty.
    pub fn create_custom_rubix(
        f1: &[Colour; 9],
        f2: &[Colour; 9],
        f3: &[Colour; 9],
        f4: &[Colour; 9],
        f5: &[Colour; 9],
        f6: &[Colour; 9],
    ) -> (c: RubixCube)
        ensures
            c.wf(),
            c.faces@ == f1@ + f2@ + f3@ + f4@ + f5@ + f6@,
            c.past_moves@ == Seq::<u8>::empty(),
            c.solving_route@ == Seq::<u8>::empty(),
    {
        let mut faces: Vec<Colour> = Vec::new();
        push_face(&mut faces, f1);
        push_face(&mut faces, f2);
        push_face(&mut faces, f3);
        push_face(&mut faces, f4);
        push_face(&mut faces, f5);
        push_face(&mut faces, f6);
        proof {
            assert(faces@ =~= f1@ + f2@ + f3@ + f4@ + f5@ + f6@);
        }
        RubixCube { faces, past_moves: Vec::new(), solving_route: Vec::new() }
    }

    /// The six faces as row-major 3x3 descriptions, in face order.
    pub fn get_faces(&self) -> (r: [[Colour; 9]; 6])
        requires
            self.wf(),
        ensures
            forall|f: int, p: int|
                0 <= f < 6 && 0 <= p < 9 ==> r@[f]@[p] == self.faces@[9 * f + p],
    {
        let v = &self.faces;
        [
            [v[0], v[1], v[2], v[3], v[4], v[5], v[6], v[7], v[8]],
            [v[9], v[10], v[11], v[12], v[13], v[14], v[15], v[16], v[17]],
            [v[18], v[19], v[20], v[21], v[22], v[23], v[24], v[25], v[26]],
            [v[27], v[28], v[29], v[30], v[31], v[32], v[33], v[34], v[35]],
            [v[36], v[37], v[38], v[39], v[40], v[41], v[42], v[43], v[44]],
            [v[45], v[46], v[47], v[48], v[49], v[50], v[51], v[52], v[53]],
        ]
    }

    /// A copy of the move history, oldest move first.
    pub fn get_past_moves(&self) -> (r: Vec<u8>)
        ensures
            r@ == self.past_moves@,
    {
        copy_move_vec(&self.past_moves)
    }

    /// A copy of the accumulated solving route, first move to replay first.
    pub fn get_solving_route(&self) -> (r: Vec<u8>)
        ensures
            r@ == self.solving_route@,
    {
        copy_move_vec(&self.solving_route)
    }

    /// Applies move `col_row`: the fixed permutation of facelet
    /// positions, then the move is appended to the history.
    pub fn turn_cube(&mut self, col_row: u8)
        requires
            old(self).wf(),
            col_row < 18,
        ensures
            final(self).wf(),
            final(self).faces@ == apply_move(old(self).faces@, col_row as int),
            final(self).past_moves@ == old(self).past_moves@.push(col_row),
            final(self).solving_route@ == old(self).solving_route@,
    {
        let ghost orig = self.faces@;
        let mut new_faces: Vec<Colour> = Vec::new();
        let mut i: usize = 0;
        while i < 54
            invariant
                self.faces@ == orig,
                orig.len() == 54,
                col_row < 18,
                i <= 54,
                new_faces@.len() == i as int,
                forall|j: int|
                    0 <= j < i as int ==> new_faces@[j] == orig[move_src(col_row as int, j)],
            decreases 54 - i,
        {
            let s = move_src_exec(col_row, i);
            new_faces.push(self.faces[s]);
            i += 1;
        }
        proof {
            assert(new_faces@ =~= apply_move(orig, col_row as int));
        }
        self.faces = new_faces;
        self.past_moves.push(col_row);
        proof {
            assert(valid_moves(self.past_moves@));
        }
    }

    /// Checked apply: succeeds exactly on legal move ids and otherwise
    /// rejects the move with `InvalidMove`, leaving the cube untouched.
    pub fn try_turn_cube(&mut self, col_row: u8) -> (r: Result<(), CubeError>)
        requires
            old(self).wf(),
        ensures
            final(self).wf(),
            col_row < 18 ==> r == Result::<(), CubeError>::Ok(())
                && final(self).faces@ == apply_move(old(self).faces@, col_row as int)
                && final(self).past_moves@ == old(self).past_moves@.push(col_row),
            col_row >= 18 ==> r == Result::<(), CubeError>::Err(CubeError::InvalidMove)
                && final(self).faces@ == old(self).faces@
                && final(self).past_moves@ == old(self).past_moves@,
            final(self).solving_route@ == old(self).solving_route@,
    {
        if col_row < 18 {
            self.turn_cube(col_row);
            Ok(())
        } else {
            Err(CubeError::InvalidMove)
        }
    }

    /// The per-face uniformity scan: every face's 9 facelets equal that
    /// face's first facelet.
    pub fn is_solved(&self) -> (b: bool)
        requires
            self.wf(),
        ensures
            b == solved_spec(self.faces@),
    {
        let mut f: usize = 0;
        while f < 6
            invariant
                self.wf(),
                f <= 6,
                forall|f2: int| 0 <= f2 < f as int ==> face_uniform(self.faces@, f2),
            decreases 6 - f,
        {
            let first = self.faces[9 * f];
            let mut p: usize = 1;
            while p < 9
                invariant
                    self.wf(),
                    f < 6,
                    1 <= p <= 9,
                    first == self.faces@[9 * (f as int)],
                    forall|q: int|
                        9 * (f as int) <= q < 9 * (f as int) + p as int ==> #[trigger] self.faces@[q]
                            == self.faces@[9 * (f as int)],
                decreases 9 - p,
            {
                if self.faces[9 * f + p] != first {
                    proof {
                        assert(self.faces@[9 * (f as int) + p as int] != self.faces@[9 * (
                        f as int)]);
                        assert(!face_uniform(self.faces@, f as int));
                    }
                    return false;
                }
                p += 1;
            }
            proof {
                assert(face_uniform(self.faces@, f as int));
            }
            f += 1;
        }
        true
    }

    /// Undoes the most recent move by applying its "+3 / -3" sibling,
    /// and shortens the history by exactly that one move.
    pub fn undo_turn(&mut self)
        requires
            old(self).wf(),
            old(self).past_moves@.len() >= 1,
        ensures
            final(self).wf(),
            final(self).faces@ == apply_move(
                old(self).faces@,
                inv_move(old(self).past_moves@.last() as int),
            ),
            final(self).past_moves@ == old(self).past_moves@.drop_last(),
            final(self).solving_route@ == old(self).solving_route@,
    {
        let move_to_undo = self.past_moves[self.past_moves.len() - 1];
        let inverse = inv_move_exec(move_to_undo);
        self.turn_cube(inverse);
        self.past_moves.pop();
        self.past_moves.pop();
        proof {
            assert(self.past_moves@ =~= old(self).past_moves@.drop_last());
        }
    }

    /// Checked undo: fails with `UndoUnderflow` exactly when the history
    /// is empty, leaving the cube untouched.
    pub fn try_undo_turn(&mut self) -> (r: Result<(), CubeError>)
        requires
            old(self).wf(),
        ensures
            final(self).wf(),
            old(self).past_moves@.len() >= 1 ==> r == Result::<(), CubeError>::Ok(())
                && final(self).faces@ == apply_move(
                old(self).faces@,
                inv_move(old(self).past_moves@.last() as int),
            ) && final(self).past_moves@ == old(self).past_moves@.drop_last(),
            old(self).past_moves@.len() == 0 ==> r == Result::<(), CubeError>::Err(
                CubeError::UndoUnderflow,
            ) && final(self).faces@ == old(self).faces@ && final(self).past_moves@ == old(
                self,
            ).past_moves@,
            final(self).solving_route@ == old(self).solving_route@,
    {
        if self.past_moves.len() >= 1 {
            self.undo_turn();
            Ok(())
        } else {
            Err(CubeError::UndoUnderflow)
        }
    }

    /// Applies `number_of_moves` uniformly drawn legal moves.  Whatever
    /// the draws were, the history grows by exactly that many legal
    /// moves and the facelets are the result of replaying the new
    /// history suffix.
    pub fn make_random_moves(&mut self, number_of_moves: u8)
        requires
            old(self).wf(),
        ensures
            final(self).wf(),
            final(self).past_moves@.len() == old(self).past_moves@.len()
                + number_of_moves as int,
            final(self).past_moves@.take(old(self).past_moves@.len() as int) == old(
                self,
            ).past_moves@,
            final(self).faces@ == apply_seq(
                old(self).faces@,
                final(self).past_moves@.skip(old(self).past_moves@.len() as int),
            ),
            final(self).solving_route@ == old(self).solving_route@,
    {
        let ghost orig_faces = self.faces@;
        let ghost orig_past = self.past_moves@;
        let mut k: u8 = 0;
        while k < number_of_moves
            invariant
                self.wf(),
                k <= number_of_moves,
                self.faces@.len() == 54,
                orig_past.len() + k as int == self.past_moves@.len(),
                self.past_moves@.take(orig_past.len() as int) == orig_past,
                self.faces@ == apply_seq(orig_faces, self.past_moves@.skip(orig_past.len() as int)),
                self.solving_route@ == old(self).solving_route@,
            decreases number_of_moves - k,
        {
            let ghost before = self.past_moves@;
            let m = random_move_id();
            self.turn_cube(m);
            proof {
                lemma_apply_seq_push(orig_faces, before.skip(orig_past.len() as int), m);
                assert(self.past_moves@.skip(orig_past.len() as int) =~= before.skip(
                    orig_past.len() as int,
                ).push(m));
                assert(self.past_moves@.take(orig_past.len() as int) =~= orig_past);
            }
            k += 1;
        }
    }

    /// The pruning estimate: 9 minus the count of the most frequent
    /// colour.  On a balanced cube every colour appears exactly 9 times,
    /// so the estimate is 0; it is kept for its role in the search, not
    /// as a distance bound.
    pub(crate) fn heuristic(&self) -> (h: u8)
        requires
            self.wf(),
            balanced(self.faces@),
        ensures
            h == 0,
    {
        let mut counts: [u8; 6] = [0, 0, 0, 0, 0, 0];
        proof {
            broadcast use vstd::seq_lib::group_to_multiset_ensures;

            assert(self.faces@.take(0) =~= Seq::<Colour>::empty());
            assert(Seq::<Colour>::empty().to_multiset() =~= Multiset::<Colour>::empty());
        }
        let mut i: usize = 0;
        while i < 54
            invariant
                self.wf(),
                balanced(self.faces@),
                i <= 54,
                counts@.len() == 6,
                counts@[0] as nat == colour_count(self.faces@.take(i as int), Colour::White),
                counts@[1] as nat == colour_count(self.faces@.take(i as int), Colour::Yellow),
                counts@[2] as nat == colour_count(self.faces@.take(i as int), Colour::Red),
                counts@[3] as nat == colour_count(self.faces@.take(i as int), Colour::Green),
                counts@[4] as nat == colour_count(self.faces@.take(i as int), Colour::Orange),
                counts@[5] as nat == colour_count(self.faces@.take(i as int), Colour::Blue),
                counts@[0] as int + counts@[1] as int + counts@[2] as int + counts@[3] as int
                    + counts@[4] as int + counts@[5] as int == i as int,
            decreases 54 - i,
        {
            let c = self.faces[i];
            let idx: usize = match c {
                Colour::White => 0,
                Colour::Yellow => 1,
                Colour::Red => 2,
                Colour::Green => 3,
                Colour::Orange => 4,
                Colour::Blue => 5,
            };
            let ghost prefix = self.faces@.take(i as int);
            counts[idx] = counts[idx] + 1;
            proof {
                broadcast use vstd::seq_lib::group_to_multiset_ensures;

                assert(self.faces@.take(i as int + 1) =~= prefix.push(self.faces@[i as int]));
                lemma_count_push(prefix, self.faces@[i as int], Colour::White);
                lemma_count_push(prefix, self.faces@[i as int], Colour::Yellow);
                lemma_count_push(prefix, self.faces@[i as int], Colour::Red);
                lemma_count_push(prefix, self.faces@[i as int], Colour::Green);
                lemma_count_push(prefix, self.faces@[i as int], Colour::Orange);
                lemma_count_push(prefix, self.faces@[i as int], Colour::Blue);
            }
            i += 1;
        }
        proof {
            assert(self.faces@.take(54) =~= self.faces@);
        }
        let mut max_count: u8 = counts[0];
        let mut k: usize = 1;
        while k < 6
            invariant
                counts@.len() == 6,
                k <= 6,
                exists|j: int| 0 <= j < k as int && max_count == counts@[j],
                forall|j: int| 0 <= j < k as int ==> counts@[j] <= max_count,
            decreases 6 - k,
        {
            if counts[k] > max_count {
                max_count = counts[k];
            }
            k += 1;
        }
        assert(max_count == 9);
        9 - max_count
    }
}

impl Clone for RubixCube {
    /// An independent deep copy, as each parallel search branch owns.
    fn clone(&self) -> (r: Self)
        ensures
            r.faces@ == self.faces@,
            r.past_moves@ == self.past_moves@,
            r.solving_route@ == self.solving_route@,
    {
        RubixCube {
            faces: copy_colour_vec(&self.faces),
            past_moves: copy_move_vec(&self.past_moves),
            solving_route: copy_move_vec(&self.solving_route),
        }
    }
}

/// How a push changes a colour count.
proof fn lemma_count_push(s: Seq<Colour>, x: Colour, c: Colour)
    ensures
        colour_count(s.push(x), c) == colour_count(s, c) + (if x == c {
            1int
        } else {
            0int
        }),
{
    broadcast use vstd::seq_lib::group_to_multiset_ensures;

    assert(s.push(x).to_multiset() =~= s.to_multiset().insert(x));
}

/// Executable form of `face_colour`.
fn face_colour_exec(f: usize) -> (c: Colour)
    ensures
        c == face_colour(f as int),
{
    if f == 0 {
        Colour::Blue
    } else if f == 1 {
        Colour::Red
    } else if f == 2 {
        Colour::White
    } else if f == 3 {
        Colour::Orange
    } else if f == 4 {
        Colour::Green
    } else {
        Colour::Yellow
    }
}

/// Appends the nine facelets of one face description.
fn push_face(dst: &mut Vec<Colour>, face: &[Colour; 9])
    ensures
        final(dst)@ == old(dst)@ + face@,
{
    let mut p: usize = 0;
    while p < 9
        invariant
            p <= 9,
            dst@ == old(dst)@ + face@.take(p as int),
        decreases 9 - p,
    {
        dst.push(face[p]);
        proof {
            assert(old(dst)@ + face@.take(p as int) + seq![face@[p as int]] =~= old(dst)@
                + face@.take(p as int + 1));
        }
        p += 1;
    }
    proof {
        assert(face@.take(9) =~= face@);
    }
}

/// An element-by-element copy of a facelet vector.
fn copy_colour_vec(v: &Vec<Colour>) -> (r: Vec<Colour>)
    ensures
        r@ == v@,
{
    let mut r: Vec<Colour> = Vec::new();
    let mut i: usize = 0;
    while i < v.len()
        invariant
            i <= v@.len(),
            r@ == v@.take(i as int),
        decreases v@.len() - i,
    {
        r.push(v[i]);
        proof {
            assert(v@.take(i as int).push(v@[i as int]) =~= v@.take(i as int + 1));
        }
        i += 1;
    }
    proof {
        assert(v@.take(v@.len() as int) =~= v@);
    }
    r
}

/// An element-by-element copy of a move-id vector.
fn copy_move_vec(v: &Vec<u8>) -> (r: Vec<u8>)
    ensures
        r@ == v@,
{
    let mut r: Vec<u8> = Vec::new();
    let mut i: usize = 0;
    while i < v.len()
        invariant
            i <= v@.len(),
            r@ == v@.take(i as int),
        decreases v@.len() - i,
    {
        r.push(v[i]);
        proof {
            assert(v@.take(i as int).push(v@[i as int]) =~= v@.take(i as int + 1));
        }
        i += 1;
    }
    proof {
        assert(v@.take(v@.len() as int) =~= v@);
    }
    r
}

/// Relies on rand's `random_range`: the value drawn from the non-empty
/// range `0..18` lies in that range.
#[verifier::external_body]
fn random_move_id() -> (m: u8)
    ensures
        m < 18,
{
    rand::random_range(0u8..18u8)
}

/// A move sequence only rearranges stickers: every colour's count is the
/// same after replaying it, so each of the 6 colours keeps its exact
/// number of appearances across the 54 facelets.
pub proof fn lemma_moves_conserve_colours(s: Seq<Colour>, p: Seq<u8>, c: Colour)
    requires
        s.len() == 54,
        valid_moves(p),
    ensures
        colour_count(apply_seq(s, p), c) == colour_count(s, c),
{
    lemma_apply_seq_multiset(s, p);
}

/// Colour conservation for balanced states: after any legal move
/// sequence, each colour still appears exactly 9 times.
pub proof fn lemma_apply_seq_balanced(s: Seq<Colour>, p: Seq<u8>)
    requires
        balanced(s),
        valid_moves(p),
    ensures
        balanced(apply_seq(s, p)),
{
    lemma_apply_seq_multiset(s, p);
    assert forall|c: Colour| #[trigger] colour_count(apply_seq(s, p), c) == 9 by {
        assert(colour_count(s, c) == 9);
    }
}

/// The solved cube is balanced: each colour appears exactly 9 times.
pub proof fn lemma_solved_state_balanced()
    ensures
        balanced(solved_state()),
{
    broadcast use vstd::seq_lib::group_to_multiset_ensures;

    let s = solved_state();
    assert forall|c: Colour| #[trigger] colour_count(s, c) == 9 by {
        lemma_block_counts(s, c, 54);
        lemma_count_solved_total(c);
        assert(s.take(54) =~= s);
    }
}

/// Counting the solved state face block by face block: among the first
/// `n` facelets, colour `c` appears once per position whose face centre
/// is `c`.
proof fn lemma_block_counts(s: Seq<Colour>, c: Colour, n: int)
    requires
        s == solved_state(),
        0 <= n <= 54,
    ensures
        colour_count(s.take(n), c) == count_solved_prefix(c, n),
    decreases n,
{
    broadcast use vstd::seq_lib::group_to_multiset_ensures;

    if n == 0 {
        assert(s.take(0) =~= Seq::<Colour>::empty());
        assert(Seq::<Colour>::empty().to_multiset() =~= Multiset::<Colour>::empty());
    } else {
        lemma_block_counts(s, c, n - 1);
        assert(s.take(n) =~= s.take(n - 1).push(s[n - 1]));
        lemma_count_push(s.take(n - 1), s[n - 1], c);
    }
}

proof fn lemma_count_solved_total(c: Colour)
    ensures
        count_solved_prefix(c, 54) == 9,
{
    reveal_with_fuel(count_solved_prefix, 55);
}

/// How often colour `c` appears among the first `n` solved-state
/// positions.
spec fn count_solved_prefix(c: Colour, n: int) -> nat
    decreases n,
{
    if n <= 0 {
        0
    } else {
        count_solved_prefix(c, n - 1) + (if face_colour((n - 1) / 9) == c {
            1nat
        } else {
            0nat
        })
    }
}

/// The solved cube passes the solved check.
pub proof fn lemma_solved_state_is_solved()
    ensures
        solved_spec(solved_state()),
{
    let s = solved_state();
    assert forall|f: int| 0 <= f < 6 implies face_uniform(s, f) by {
        assert forall|p: int| 9 * f <= p < 9 * f + 9 implies #[trigger] s[p] == s[9 * f] by {
            assert(p / 9 == f) by (nonlinear_arith)
                requires
                    0 <= f,
                    9 * f <= p < 9 * f + 9,
            ;
            assert((9 * f) / 9 == f) by (nonlinear_arith)
                requires
                    0 <= f < 6,
            ;
        }
    }
}

/// Solved detection is sharp: altering exactly one facelet of any
/// solved configuration makes the solved check fail.
pub proof fn lemma_one_facelet_breaks_solved(s: Seq<Colour>, j: int, c: Colour)
    requires
        s.len() == 54,
        solved_spec(s),
        0 <= j < 54,
        c != s[j],
    ensures
        !solved_spec(s.update(j, c)),
{
    let t = s.update(j, c);
    let f = j / 9;
    assert(0 <= f < 6);
    assert(9 * f <= j < 9 * f + 9) by (nonlinear_arith)
        requires
            f == j / 9,
            0 <= j < 54,
    ;
    if j == 9 * f {
        assert(t[9 * f + 1] == s[9 * f + 1]);
        assert(s[9 * f + 1] == s[9 * f]) by {
            assert(face_uniform(s, f));
        }
        assert(t[9 * f] == c);
        assert(!face_uniform(t, f)) by {
            assert(t[9 * f + 1] != t[9 * f]);
        }
    } else {
        assert(t[9 * f] == s[9 * f]);
        assert(s[j] == s[9 * f]) by {
            assert(face_uniform(s, f));
        }
        assert(!face_uniform(t, f)) by {
            assert(t[j] != t[9 * f]);
        }
    }
}


/// One legal move keeps the state balanced.
pub proof fn lemma_apply_move_balanced(s: Seq<Colour>, m: int)
    requires
        balanced(s),
        0 <= m < 18,
    ensures
        balanced(apply_move(s, m)),
{
    lemma_apply_move_multiset(s, m);
    assert forall|c: Colour| #[trigger] colour_count(apply_move(s, m), c) == 9 by {
        assert(colour_count(s, c) == 9);
    }
}

} // verus!

