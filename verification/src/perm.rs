//! The permutation model of the 18 legal moves.
//!
//! A cube state is a sequence of 54 facelet positions, face-major: face
//! `f` occupies positions `9*f .. 9*f + 9`.  Every move is a fixed
//! permutation of positions: `move_src(m, i)` names the position whose
//! sticker lands on position `i` when move `m` is applied.  The table is
//! spelled out move by move; its correctness is established by the
//! proved round-trip and closure laws below, not by inspection.

use vstd::prelude::*;

verus! {

/// Identifier of the move that exactly undoes move `m`.
///
/// The 18 ids split into two companion families of 9 (ids whose `m / 3`
/// is even, and ids whose `m / 3` is odd); each id's inverse is its
/// sibling in the other family, 3 away.
pub open spec fn inv_move(m: int) -> int {
    if (m / 3) % 2 == 0 {
        m + 3
    } else {
        m - 3
    }
}

/// Executable form of `inv_move`.
pub fn inv_move_exec(m: u8) -> (r: u8)
    requires
        m < 18,
    ensures
        r as int == inv_move(m as int),
        r < 18,
{
    if (m / 3) % 2 == 0 {
        m + 3
    } else {
        m - 3
    }
}

/// A move sequence whose every entry is a legal move id.
pub open spec fn valid_moves(p: Seq<u8>) -> bool {
    forall|i: int| 0 <= i < p.len() ==> p[i] < 18
}

/// The source-position table of the 18 moves: the sticker that lands on
/// position `i` under move `m` comes from position `move_src(m, i)`.
/// Positions not touched by the move keep their sticker (`i` itself).
pub open spec fn move_src(m: int, i: int) -> int {
    if m == 0 {
        if i == 0 { 2 }
        else if i == 1 { 5 }
        else if i == 2 { 8 }
        else if i == 3 { 1 }
        else if i == 5 { 7 }
        else if i == 6 { 0 }
        else if i == 7 { 3 }
        else if i == 8 { 6 }
        else if i == 9 { 51 }
        else if i == 10 { 52 }
        else if i == 11 { 53 }
        else if i == 18 { 9 }
        else if i == 19 { 10 }
        else if i == 20 { 11 }
        else if i == 27 { 18 }
        else if i == 28 { 19 }
        else if i == 29 { 20 }
        else if i == 51 { 27 }
        else if i == 52 { 28 }
        else if i == 53 { 29 }
        else { i }
    } else if m == 1 {
        if i == 12 { 50 }
        else if i == 13 { 49 }
        else if i == 14 { 48 }
        else if i == 21 { 12 }
        else if i == 22 { 13 }
        else if i == 23 { 14 }
        else if i == 30 { 21 }
        else if i == 31 { 22 }
        else if i == 32 { 23 }
        else if i == 48 { 32 }
        else if i == 49 { 31 }
        else if i == 50 { 30 }
        else { i }
    } else if m == 2 {
        if i == 15 { 45 }
        else if i == 16 { 46 }
        else if i == 17 { 47 }
        else if i == 24 { 15 }
        else if i == 25 { 16 }
        else if i == 26 { 17 }
        else if i == 33 { 24 }
        else if i == 34 { 25 }
        else if i == 35 { 26 }
        else if i == 36 { 42 }
        else if i == 37 { 39 }
        else if i == 38 { 36 }
        else if i == 39 { 43 }
        else if i == 41 { 37 }
        else if i == 42 { 44 }
        else if i == 43 { 41 }
        else if i == 44 { 38 }
        else if i == 45 { 33 }
        else if i == 46 { 34 }
        else if i == 47 { 35 }
        else { i }
    } else if m == 3 {
        if i == 0 { 6 }
        else if i == 1 { 3 }
        else if i == 2 { 0 }
        else if i == 3 { 7 }
        else if i == 5 { 1 }
        else if i == 6 { 8 }
        else if i == 7 { 5 }
        else if i == 8 { 2 }
        else if i == 9 { 18 }
        else if i == 10 { 19 }
        else if i == 11 { 20 }
        else if i == 18 { 27 }
        else if i == 19 { 28 }
        else if i == 20 { 29 }
        else if i == 27 { 51 }
        else if i == 28 { 52 }
        else if i == 29 { 53 }
        else if i == 51 { 9 }
        else if i == 52 { 10 }
        else if i == 53 { 11 }
        else { i }
    } else if m == 4 {
        if i == 12 { 21 }
        else if i == 13 { 22 }
        else if i == 14 { 23 }
        else if i == 21 { 30 }
        else if i == 22 { 31 }
        else if i == 23 { 32 }
        else if i == 30 { 50 }
        else if i == 31 { 49 }
        else if i == 32 { 48 }
        else if i == 48 { 14 }
        else if i == 49 { 13 }
        else if i == 50 { 12 }
        else { i }
    } else if m == 5 {
        if i == 15 { 24 }
        else if i == 16 { 25 }
        else if i == 17 { 26 }
        else if i == 24 { 33 }
        else if i == 25 { 34 }
        else if i == 26 { 35 }
        else if i == 33 { 45 }
        else if i == 34 { 46 }
        else if i == 35 { 47 }
        else if i == 36 { 38 }
        else if i == 37 { 41 }
        else if i == 38 { 44 }
        else if i == 39 { 37 }
        else if i == 41 { 43 }
        else if i == 42 { 36 }
        else if i == 43 { 39 }
        else if i == 44 { 42 }
        else if i == 45 { 15 }
        else if i == 46 { 16 }
        else if i == 47 { 17 }
        else { i }
    } else if m == 6 {
        if i == 0 { 18 }
        else if i == 3 { 21 }
        else if i == 6 { 24 }
        else if i == 9 { 11 }
        else if i == 10 { 14 }
        else if i == 11 { 17 }
        else if i == 12 { 10 }
        else if i == 14 { 16 }
        else if i == 15 { 9 }
        else if i == 16 { 12 }
        else if i == 17 { 15 }
        else if i == 18 { 36 }
        else if i == 21 { 39 }
        else if i == 24 { 42 }
        else if i == 36 { 45 }
        else if i == 39 { 48 }
        else if i == 42 { 51 }
        else if i == 45 { 0 }
        else if i == 48 { 3 }
        else if i == 51 { 6 }
        else { i }
    } else if m == 7 {
        if i == 1 { 19 }
        else if i == 4 { 22 }
        else if i == 7 { 25 }
        else if i == 19 { 37 }
        else if i == 22 { 40 }
        else if i == 25 { 43 }
        else if i == 37 { 46 }
        else if i == 40 { 49 }
        else if i == 43 { 52 }
        else if i == 46 { 1 }
        else if i == 49 { 4 }
        else if i == 52 { 7 }
        else { i }
    } else if m == 8 {
        if i == 2 { 20 }
        else if i == 5 { 23 }
        else if i == 8 { 26 }
        else if i == 20 { 38 }
        else if i == 23 { 41 }
        else if i == 26 { 44 }
        else if i == 27 { 33 }
        else if i == 28 { 30 }
        else if i == 29 { 27 }
        else if i == 30 { 34 }
        else if i == 32 { 28 }
        else if i == 33 { 35 }
        else if i == 34 { 32 }
        else if i == 35 { 29 }
        else if i == 38 { 47 }
        else if i == 41 { 50 }
        else if i == 44 { 53 }
        else if i == 47 { 2 }
        else if i == 50 { 5 }
        else if i == 53 { 8 }
        else { i }
    } else if m == 9 {
        if i == 0 { 45 }
        else if i == 3 { 48 }
        else if i == 6 { 51 }
        else if i == 9 { 15 }
        else if i == 10 { 12 }
        else if i == 11 { 9 }
        else if i == 12 { 16 }
        else if i == 14 { 10 }
        else if i == 15 { 17 }
        else if i == 16 { 14 }
        else if i == 17 { 11 }
        else if i == 18 { 0 }
        else if i == 21 { 3 }
        else if i == 24 { 6 }
        else if i == 36 { 18 }
        else if i == 39 { 21 }
        else if i == 42 { 24 }
        else if i == 45 { 36 }
        else if i == 48 { 39 }
        else if i == 51 { 42 }
        else { i }
    } else if m == 10 {
        if i == 1 { 46 }
        else if i == 4 { 49 }
        else if i == 7 { 52 }
        else if i == 19 { 1 }
        else if i == 22 { 4 }
        else if i == 25 { 7 }
        else if i == 37 { 19 }
        else if i == 40 { 22 }
        else if i == 43 { 25 }
        else if i == 46 { 37 }
        else if i == 49 { 40 }
        else if i == 52 { 43 }
        else { i }
    } else if m == 11 {
        if i == 2 { 47 }
        else if i == 5 { 50 }
        else if i == 8 { 53 }
        else if i == 20 { 2 }
        else if i == 23 { 5 }
        else if i == 26 { 8 }
        else if i == 27 { 29 }
        else if i == 28 { 32 }
        else if i == 29 { 35 }
        else if i == 30 { 28 }
        else if i == 32 { 34 }
        else if i == 33 { 27 }
        else if i == 34 { 30 }
        else if i == 35 { 33 }
        else if i == 38 { 20 }
        else if i == 41 { 23 }
        else if i == 44 { 26 }
        else if i == 47 { 38 }
        else if i == 50 { 41 }
        else if i == 53 { 44 }
        else { i }
    } else if m == 12 {
        if i == 6 { 27 }
        else if i == 7 { 30 }
        else if i == 8 { 33 }
        else if i == 11 { 8 }
        else if i == 14 { 7 }
        else if i == 17 { 6 }
        else if i == 18 { 20 }
        else if i == 19 { 23 }
        else if i == 20 { 26 }
        else if i == 21 { 19 }
        else if i == 23 { 25 }
        else if i == 24 { 18 }
        else if i == 25 { 21 }
        else if i == 26 { 24 }
        else if i == 27 { 38 }
        else if i == 30 { 37 }
        else if i == 33 { 36 }
        else if i == 36 { 11 }
        else if i == 37 { 14 }
        else if i == 38 { 17 }
        else { i }
    } else if m == 13 {
        if i == 3 { 28 }
        else if i == 4 { 31 }
        else if i == 5 { 34 }
        else if i == 10 { 5 }
        else if i == 13 { 4 }
        else if i == 16 { 3 }
        else if i == 28 { 41 }
        else if i == 31 { 40 }
        else if i == 34 { 39 }
        else if i == 39 { 10 }
        else if i == 40 { 13 }
        else if i == 41 { 16 }
        else { i }
    } else if m == 14 {
        if i == 0 { 29 }
        else if i == 1 { 32 }
        else if i == 2 { 35 }
        else if i == 9 { 2 }
        else if i == 12 { 1 }
        else if i == 15 { 0 }
        else if i == 29 { 44 }
        else if i == 32 { 43 }
        else if i == 35 { 42 }
        else if i == 42 { 9 }
        else if i == 43 { 12 }
        else if i == 44 { 15 }
        else if i == 45 { 47 }
        else if i == 46 { 50 }
        else if i == 47 { 53 }
        else if i == 48 { 46 }
        else if i == 50 { 52 }
        else if i == 51 { 45 }
        else if i == 52 { 48 }
        else if i == 53 { 51 }
        else { i }
    } else if m == 15 {
        if i == 6 { 17 }
        else if i == 7 { 14 }
        else if i == 8 { 11 }
        else if i == 11 { 36 }
        else if i == 14 { 37 }
        else if i == 17 { 38 }
        else if i == 18 { 24 }
        else if i == 19 { 21 }
        else if i == 20 { 18 }
        else if i == 21 { 25 }
        else if i == 23 { 19 }
        else if i == 24 { 26 }
        else if i == 25 { 23 }
        else if i == 26 { 20 }
        else if i == 27 { 6 }
        else if i == 30 { 7 }
        else if i == 33 { 8 }
        else if i == 36 { 33 }
        else if i == 37 { 30 }
        else if i == 38 { 27 }
        else { i }
    } else if m == 16 {
        if i == 3 { 16 }
        else if i == 4 { 13 }
        else if i == 5 { 10 }
        else if i == 10 { 39 }
        else if i == 13 { 40 }
        else if i == 16 { 41 }
        else if i == 28 { 3 }
        else if i == 31 { 4 }
        else if i == 34 { 5 }
        else if i == 39 { 34 }
        else if i == 40 { 31 }
        else if i == 41 { 28 }
        else { i }
    } else if m == 17 {
        if i == 0 { 15 }
        else if i == 1 { 12 }
        else if i == 2 { 9 }
        else if i == 9 { 42 }
        else if i == 12 { 43 }
        else if i == 15 { 44 }
        else if i == 29 { 0 }
        else if i == 32 { 1 }
        else if i == 35 { 2 }
        else if i == 42 { 35 }
        else if i == 43 { 32 }
        else if i == 44 { 29 }
        else if i == 45 { 51 }
        else if i == 46 { 48 }
        else if i == 47 { 45 }
        else if i == 48 { 52 }
        else if i == 50 { 46 }
        else if i == 51 { 53 }
        else if i == 52 { 50 }
        else if i == 53 { 47 }
        else { i }
    } else { i }
}

pub(crate) fn move_src_exec(m: u8, i: usize) -> (r: usize)
    requires
        m < 18,
        i < 54,
    ensures
        r == move_src(m as int, i as int),
        r < 54,
{
    if m == 0 {
        if i == 0 { 2 }
        else if i == 1 { 5 }
        else if i == 2 { 8 }
        else if i == 3 { 1 }
        else if i == 5 { 7 }
        else if i == 6 { 0 }
        else if i == 7 { 3 }
        else if i == 8 { 6 }
        else if i == 9 { 51 }
        else if i == 10 { 52 }
        else if i == 11 { 53 }
        else if i == 18 { 9 }
        else if i == 19 { 10 }
        else if i == 20 { 11 }
        else if i == 27 { 18 }
        else if i == 28 { 19 }
        else if i == 29 { 20 }
        else if i == 51 { 27 }
        else if i == 52 { 28 }
        else if i == 53 { 29 }
        else { i }
    } else if m == 1 {
        if i == 12 { 50 }
        else if i == 13 { 49 }
        else if i == 14 { 48 }
        else if i == 21 { 12 }
        else if i == 22 { 13 }
        else if i == 23 { 14 }
        else if i == 30 { 21 }
        else if i == 31 { 22 }
        else if i == 32 { 23 }
        else if i == 48 { 32 }
        else if i == 49 { 31 }
        else if i == 50 { 30 }
        else { i }
    } else if m == 2 {
        if i == 15 { 45 }
        else if i == 16 { 46 }
        else if i == 17 { 47 }
        else if i == 24 { 15 }
        else if i == 25 { 16 }
        else if i == 26 { 17 }
        else if i == 33 { 24 }
        else if i == 34 { 25 }
        else if i == 35 { 26 }
        else if i == 36 { 42 }
        else if i == 37 { 39 }
        else if i == 38 { 36 }
        else if i == 39 { 43 }
        else if i == 41 { 37 }
        else if i == 42 { 44 }
        else if i == 43 { 41 }
        else if i == 44 { 38 }
        else if i == 45 { 33 }
        else if i == 46 { 34 }
        else if i == 47 { 35 }
        else { i }
    } else if m == 3 {
        if i == 0 { 6 }
        else if i == 1 { 3 }
        else if i == 2 { 0 }
        else if i == 3 { 7 }
        else if i == 5 { 1 }
        else if i == 6 { 8 }
        else if i == 7 { 5 }
        else if i == 8 { 2 }
        else if i == 9 { 18 }
        else if i == 10 { 19 }
        else if i == 11 { 20 }
        else if i == 18 { 27 }
        else if i == 19 { 28 }
        else if i == 20 { 29 }
        else if i == 27 { 51 }
        else if i == 28 { 52 }
        else if i == 29 { 53 }
        else if i == 51 { 9 }
        else if i == 52 { 10 }
        else if i == 53 { 11 }
        else { i }
    } else if m == 4 {
        if i == 12 { 21 }
        else if i == 13 { 22 }
        else if i == 14 { 23 }
        else if i == 21 { 30 }
        else if i == 22 { 31 }
        else if i == 23 { 32 }
        else if i == 30 { 50 }
        else if i == 31 { 49 }
        else if i == 32 { 48 }
        else if i == 48 { 14 }
        else if i == 49 { 13 }
        else if i == 50 { 12 }
        else { i }
    } else if m == 5 {
        if i == 15 { 24 }
        else if i == 16 { 25 }
        else if i == 17 { 26 }
        else if i == 24 { 33 }
        else if i == 25 { 34 }
        else if i == 26 { 35 }
        else if i == 33 { 45 }
        else if i == 34 { 46 }
        else if i == 35 { 47 }
        else if i == 36 { 38 }
        else if i == 37 { 41 }
        else if i == 38 { 44 }
        else if i == 39 { 37 }
        else if i == 41 { 43 }
        else if i == 42 { 36 }
        else if i == 43 { 39 }
        else if i == 44 { 42 }
        else if i == 45 { 15 }
        else if i == 46 { 16 }
        else if i == 47 { 17 }
        else { i }
    } else if m == 6 {
        if i == 0 { 18 }
        else if i == 3 { 21 }
        else if i == 6 { 24 }
        else if i == 9 { 11 }
        else if i == 10 { 14 }
        else if i == 11 { 17 }
        else if i == 12 { 10 }
        else if i == 14 { 16 }
        else if i == 15 { 9 }
        else if i == 16 { 12 }
        else if i == 17 { 15 }
        else if i == 18 { 36 }
        else if i == 21 { 39 }
        else if i == 24 { 42 }
        else if i == 36 { 45 }
        else if i == 39 { 48 }
        else if i == 42 { 51 }
        else if i == 45 { 0 }
        else if i == 48 { 3 }
        else if i == 51 { 6 }
        else { i }
    } else if m == 7 {
        if i == 1 { 19 }
        else if i == 4 { 22 }
        else if i == 7 { 25 }
        else if i == 19 { 37 }
        else if i == 22 { 40 }
        else if i == 25 { 43 }
        else if i == 37 { 46 }
        else if i == 40 { 49 }
        else if i == 43 { 52 }
        else if i == 46 { 1 }
        else if i == 49 { 4 }
        else if i == 52 { 7 }
        else { i }
    } else if m == 8 {
        if i == 2 { 20 }
        else if i == 5 { 23 }
        else if i == 8 { 26 }
        else if i == 20 { 38 }
        else if i == 23 { 41 }
        else if i == 26 { 44 }
        else if i == 27 { 33 }
        else if i == 28 { 30 }
        else if i == 29 { 27 }
        else if i == 30 { 34 }
        else if i == 32 { 28 }
        else if i == 33 { 35 }
        else if i == 34 { 32 }
        else if i == 35 { 29 }
        else if i == 38 { 47 }
        else if i == 41 { 50 }
        else if i == 44 { 53 }
        else if i == 47 { 2 }
        else if i == 50 { 5 }
        else if i == 53 { 8 }
        else { i }
    } else if m == 9 {
        if i == 0 { 45 }
        else if i == 3 { 48 }
        else if i == 6 { 51 }
        else if i == 9 { 15 }
        else if i == 10 { 12 }
        else if i == 11 { 9 }
        else if i == 12 { 16 }
        else if i == 14 { 10 }
        else if i == 15 { 17 }
        else if i == 16 { 14 }
        else if i == 17 { 11 }
        else if i == 18 { 0 }
        else if i == 21 { 3 }
        else if i == 24 { 6 }
        else if i == 36 { 18 }
        else if i == 39 { 21 }
        else if i == 42 { 24 }
        else if i == 45 { 36 }
        else if i == 48 { 39 }
        else if i == 51 { 42 }
        else { i }
    } else if m == 10 {
        if i == 1 { 46 }
        else if i == 4 { 49 }
        else if i == 7 { 52 }
        else if i == 19 { 1 }
        else if i == 22 { 4 }
        else if i == 25 { 7 }
        else if i == 37 { 19 }
        else if i == 40 { 22 }
        else if i == 43 { 25 }
        else if i == 46 { 37 }
        else if i == 49 { 40 }
        else if i == 52 { 43 }
        else { i }
    } else if m == 11 {
        if i == 2 { 47 }
        else if i == 5 { 50 }
        else if i == 8 { 53 }
        else if i == 20 { 2 }
        else if i == 23 { 5 }
        else if i == 26 { 8 }
        else if i == 27 { 29 }
        else if i == 28 { 32 }
        else if i == 29 { 35 }
        else if i == 30 { 28 }
        else if i == 32 { 34 }
        else if i == 33 { 27 }
        else if i == 34 { 30 }
        else if i == 35 { 33 }
        else if i == 38 { 20 }
        else if i == 41 { 23 }
        else if i == 44 { 26 }
        else if i == 47 { 38 }
        else if i == 50 { 41 }
        else if i == 53 { 44 }
        else { i }
    } else if m == 12 {
        if i == 6 { 27 }
        else if i == 7 { 30 }
        else if i == 8 { 33 }
        else if i == 11 { 8 }
        else if i == 14 { 7 }
        else if i == 17 { 6 }
        else if i == 18 { 20 }
        else if i == 19 { 23 }
        else if i == 20 { 26 }
        else if i == 21 { 19 }
        else if i == 23 { 25 }
        else if i == 24 { 18 }
        else if i == 25 { 21 }
        else if i == 26 { 24 }
        else if i == 27 { 38 }
        else if i == 30 { 37 }
        else if i == 33 { 36 }
        else if i == 36 { 11 }
        else if i == 37 { 14 }
        else if i == 38 { 17 }
        else { i }
    } else if m == 13 {
        if i == 3 { 28 }
        else if i == 4 { 31 }
        else if i == 5 { 34 }
        else if i == 10 { 5 }
        else if i == 13 { 4 }
        else if i == 16 { 3 }
        else if i == 28 { 41 }
        else if i == 31 { 40 }
        else if i == 34 { 39 }
        else if i == 39 { 10 }
        else if i == 40 { 13 }
        else if i == 41 { 16 }
        else { i }
    } else if m == 14 {
        if i == 0 { 29 }
        else if i == 1 { 32 }
        else if i == 2 { 35 }
        else if i == 9 { 2 }
        else if i == 12 { 1 }
        else if i == 15 { 0 }
        else if i == 29 { 44 }
        else if i == 32 { 43 }
        else if i == 35 { 42 }
        else if i == 42 { 9 }
        else if i == 43 { 12 }
        else if i == 44 { 15 }
        else if i == 45 { 47 }
        else if i == 46 { 50 }
        else if i == 47 { 53 }
        else if i == 48 { 46 }
        else if i == 50 { 52 }
        else if i == 51 { 45 }
        else if i == 52 { 48 }
        else if i == 53 { 51 }
        else { i }
    } else if m == 15 {
        if i == 6 { 17 }
        else if i == 7 { 14 }
        else if i == 8 { 11 }
        else if i == 11 { 36 }
        else if i == 14 { 37 }
        else if i == 17 { 38 }
        else if i == 18 { 24 }
        else if i == 19 { 21 }
        else if i == 20 { 18 }
        else if i == 21 { 25 }
        else if i == 23 { 19 }
        else if i == 24 { 26 }
        else if i == 25 { 23 }
        else if i == 26 { 20 }
        else if i == 27 { 6 }
        else if i == 30 { 7 }
        else if i == 33 { 8 }
        else if i == 36 { 33 }
        else if i == 37 { 30 }
        else if i == 38 { 27 }
        else { i }
    } else if m == 16 {
        if i == 3 { 16 }
        else if i == 4 { 13 }
        else if i == 5 { 10 }
        else if i == 10 { 39 }
        else if i == 13 { 40 }
        else if i == 16 { 41 }
        else if i == 28 { 3 }
        else if i == 31 { 4 }
        else if i == 34 { 5 }
        else if i == 39 { 34 }
        else if i == 40 { 31 }
        else if i == 41 { 28 }
        else { i }
    } else if m == 17 {
        if i == 0 { 15 }
        else if i == 1 { 12 }
        else if i == 2 { 9 }
        else if i == 9 { 42 }
        else if i == 12 { 43 }
        else if i == 15 { 44 }
        else if i == 29 { 0 }
        else if i == 32 { 1 }
        else if i == 35 { 2 }
        else if i == 42 { 35 }
        else if i == 43 { 32 }
        else if i == 44 { 29 }
        else if i == 45 { 51 }
        else if i == 46 { 48 }
        else if i == 47 { 45 }
        else if i == 48 { 52 }
        else if i == 50 { 46 }
        else if i == 51 { 53 }
        else if i == 52 { 50 }
        else if i == 53 { 47 }
        else { i }
    } else { i }
}

/// Applying move `m` to a 54-slot state: position `i` receives the
/// sticker that previously sat at `move_src(m, i)`.
pub open spec fn apply_move<T>(s: Seq<T>, m: int) -> Seq<T> {
    Seq::new(54, |i: int| s[move_src(m, i)])
}

/// Applying a whole move sequence, first entry first.
pub open spec fn apply_seq<T>(s: Seq<T>, p: Seq<u8>) -> Seq<T>
    decreases p.len(),
{
    if p.len() == 0 {
        s
    } else {
        apply_seq(apply_move(s, p[0] as int), p.drop_first())
    }
}

/// The facts that tie the table together at one position: the move's
/// source lies in range, the inverse move's source map cancels the
/// move's own, and four applications of the source map return to the
/// start.
spec fn perm_fact_one(m: int, i: int) -> bool {
    0 <= move_src(m, i) < 54 && move_src(m, move_src(inv_move(m), i)) == i && move_src(
        m,
        move_src(m, move_src(m, move_src(m, i))),
    ) == i
}

#[verifier::spinoff_prover]
#[verifier::rlimit(60)]
proof fn lemma_perm_facts_0()
    ensures
        forall|i: int| 0 <= i < 54 ==> #[trigger] perm_fact_one(0, i),
{
}

#[verifier::spinoff_prover]
#[verifier::rlimit(60)]
proof fn lemma_perm_facts_1()
    ensures
        forall|i: int| 0 <= i < 54 ==> #[trigger] perm_fact_one(1, i),
{
}

#[verifier::spinoff_prover]
#[verifier::rlimit(60)]
proof fn lemma_perm_facts_2()
    ensures
        forall|i: int| 0 <= i < 54 ==> #[trigger] perm_fact_one(2, i),
{
}

#[verifier::spinoff_prover]
#[verifier::rlimit(60)]
proof fn lemma_perm_facts_3()
    ensures
        forall|i: int| 0 <= i < 54 ==> #[trigger] perm_fact_one(3, i),
{
}

#[verifier::spinoff_prover]
#[verifier::rlimit(60)]
proof fn lemma_perm_facts_4()
    ensures
        forall|i: int| 0 <= i < 54 ==> #[trigger] perm_fact_one(4, i),
{
}

#[verifier::spinoff_prover]
#[verifier::rlimit(60)]
proof fn lemma_perm_facts_5()
    ensures
        forall|i: int| 0 <= i < 54 ==> #[trigger] perm_fact_one(5, i),
{
}

#[verifier::spinoff_prover]
#[verifier::rlimit(60)]
proof fn lemma_perm_facts_6()
    ensures
        forall|i: int| 0 <= i < 54 ==> #[trigger] perm_fact_one(6, i),
{
}

#[verifier::spinoff_prover]
#[verifier::rlimit(60)]
proof fn lemma_perm_facts_7()
    ensures
        forall|i: int| 0 <= i < 54 ==> #[trigger] perm_fact_one(7, i),
{
}

#[verifier::spinoff_prover]
#[verifier::rlimit(60)]
proof fn lemma_perm_facts_8()
    ensures
        forall|i: int| 0 <= i < 54 ==> #[trigger] perm_fact_one(8, i),
{
}

#[verifier::spinoff_prover]
#[verifier::rlimit(60)]
proof fn lemma_perm_facts_9()
    ensures
        forall|i: int| 0 <= i < 54 ==> #[trigger] perm_fact_one(9, i),
{
}

#[verifier::spinoff_prover]
#[verifier::rlimit(60)]
proof fn lemma_perm_facts_10()
    ensures
        forall|i: int| 0 <= i < 54 ==> #[trigger] perm_fact_one(10, i),
{
}

#[verifier::spinoff_prover]
#[verifier::rlimit(60)]
proof fn lemma_perm_facts_11()
    ensures
        forall|i: int| 0 <= i < 54 ==> #[trigger] perm_fact_one(11, i),
{
}

#[verifier::spinoff_prover]
#[verifier::rlimit(60)]
proof fn lemma_perm_facts_12()
    ensures
        forall|i: int| 0 <= i < 54 ==> #[trigger] perm_fact_one(12, i),
{
}

#[verifier::spinoff_prover]
#[verifier::rlimit(60)]
proof fn lemma_perm_facts_13()
    ensures
        forall|i: int| 0 <= i < 54 ==> #[trigger] perm_fact_one(13, i),
{
}

#[verifier::spinoff_prover]
#[verifier::rlimit(60)]
proof fn lemma_perm_facts_14()
    ensures
        forall|i: int| 0 <= i < 54 ==> #[trigger] perm_fact_one(14, i),
{
}

#[verifier::spinoff_prover]
#[verifier::rlimit(60)]
proof fn lemma_perm_facts_15()
    ensures
        forall|i: int| 0 <= i < 54 ==> #[trigger] perm_fact_one(15, i),
{
}

#[verifier::spinoff_prover]
#[verifier::rlimit(60)]
proof fn lemma_perm_facts_16()
    ensures
        forall|i: int| 0 <= i < 54 ==> #[trigger] perm_fact_one(16, i),
{
}

#[verifier::spinoff_prover]
#[verifier::rlimit(60)]
proof fn lemma_perm_facts_17()
    ensures
        forall|i: int| 0 <= i < 54 ==> #[trigger] perm_fact_one(17, i),
{
}

proof fn lemma_perm_facts(m: int, i: int)
    requires
        0 <= m < 18,
        0 <= i < 54,
    ensures
        perm_fact_one(m, i),
{
    if m == 0 { lemma_perm_facts_0(); } else if m == 1 { lemma_perm_facts_1(); }
    else if m == 2 { lemma_perm_facts_2(); } else if m == 3 { lemma_perm_facts_3(); }
    else if m == 4 { lemma_perm_facts_4(); } else if m == 5 { lemma_perm_facts_5(); }
    else if m == 6 { lemma_perm_facts_6(); } else if m == 7 { lemma_perm_facts_7(); }
    else if m == 8 { lemma_perm_facts_8(); } else if m == 9 { lemma_perm_facts_9(); }
    else if m == 10 { lemma_perm_facts_10(); } else if m == 11 { lemma_perm_facts_11(); }
    else if m == 12 { lemma_perm_facts_12(); } else if m == 13 { lemma_perm_facts_13(); }
    else if m == 14 { lemma_perm_facts_14(); } else if m == 15 { lemma_perm_facts_15(); }
    else if m == 16 { lemma_perm_facts_16(); } else { lemma_perm_facts_17(); }
}

/// The source of every position is itself a position.
pub proof fn lemma_move_src_in_range(m: int, i: int)
    requires
        0 <= m < 18,
        0 <= i < 54,
    ensures
        0 <= move_src(m, i) < 54,
{
    lemma_perm_facts(m, i);
}

/// A move's source map cancels the source map of its inverse.
pub proof fn lemma_move_src_cancels(m: int, i: int)
    requires
        0 <= m < 18,
        0 <= i < 54,
    ensures
        move_src(m, move_src(inv_move(m), i)) == i,
{
    lemma_perm_facts(m, i);
}

/// Four applications of a move's source map are the identity.
pub proof fn lemma_move_src_order_four(m: int, i: int)
    requires
        0 <= m < 18,
        0 <= i < 54,
    ensures
        move_src(m, move_src(m, move_src(m, move_src(m, i)))) == i,
{
    lemma_perm_facts(m, i);
}

/// Round trip: applying a move and then its inverse restores the exact
/// prior 54-slot configuration, whatever that configuration was.
pub proof fn lemma_apply_then_inverse<T>(s: Seq<T>, m: int)
    requires
        s.len() == 54,
        0 <= m < 18,
    ensures
        apply_move(apply_move(s, m), inv_move(m)) == s,
{
    let t = apply_move(apply_move(s, m), inv_move(m));
    assert forall|i: int| 0 <= i < 54 implies t[i] == s[i] by {
        lemma_move_src_in_range(inv_move(m), i);
        lemma_move_src_cancels(m, i);
    }
    assert(t =~= s);
}

/// Group closure: applying the same move four times in succession
/// restores the original configuration, for every move.
pub proof fn lemma_apply_four_times<T>(s: Seq<T>, m: int)
    requires
        s.len() == 54,
        0 <= m < 18,
    ensures
        apply_move(apply_move(apply_move(apply_move(s, m), m), m), m) == s,
{
    let t = apply_move(apply_move(apply_move(apply_move(s, m), m), m), m);
    assert forall|i: int| 0 <= i < 54 implies t[i] == s[i] by {
        lemma_move_src_in_range(m, i);
        lemma_move_src_in_range(m, move_src(m, i));
        lemma_move_src_in_range(m, move_src(m, move_src(m, i)));
        lemma_move_src_order_four(m, i);
    }
    assert(t =~= s);
}


/// Two sequences that are reindexings of one another by a bijection
/// hold the same multiset of elements.
proof fn lemma_reindexed_multiset<A>(s: Seq<A>, t: Seq<A>, f: spec_fn(int) -> int, g: spec_fn(int) -> int)
    requires
        t.len() == s.len(),
        forall|i: int| 0 <= i < s.len() ==> 0 <= #[trigger] f(i) < s.len(),
        forall|i: int| 0 <= i < s.len() ==> 0 <= #[trigger] g(i) < s.len(),
        forall|i: int| 0 <= i < s.len() ==> #[trigger] g(f(i)) == i,
        forall|i: int| 0 <= i < s.len() ==> #[trigger] f(g(i)) == i,
        forall|i: int| 0 <= i < s.len() ==> #[trigger] t[i] == s[f(i)],
    ensures
        t.to_multiset() == s.to_multiset(),
    decreases s.len(),
{
    broadcast use vstd::seq_lib::group_to_multiset_ensures;

    if s.len() == 0 {
        assert(s =~= t);
    } else {
        let n = s.len() as int;
        let k = g(n - 1);
        let s1 = s.drop_last();
        assert(s =~= s1.push(s.last()));
        assert(s.to_multiset() =~= s1.to_multiset().insert(s[n - 1]));
        if k == n - 1 {
            let t1 = t.drop_last();
            assert forall|i: int| 0 <= i < s1.len() implies 0 <= #[trigger] f(i) < s1.len() by {
                if f(i) == n - 1 {
                    assert(g(f(i)) == i);
                }
            }
            assert forall|i: int| 0 <= i < s1.len() implies 0 <= #[trigger] g(i) < s1.len() by {
                if g(i) == n - 1 {
                    assert(f(g(i)) == i);
                    assert(g(f(n - 1)) == n - 1);
                }
            }
            assert forall|i: int| 0 <= i < s1.len() implies #[trigger] g(f(i)) == i by {}
            assert forall|i: int| 0 <= i < s1.len() implies #[trigger] f(g(i)) == i by {}
            assert forall|i: int| 0 <= i < s1.len() implies #[trigger] t1[i] == s1[f(i)] by {
                assert(t1[i] == t[i]);
                assert(f(i) != n - 1) by {
                    if f(i) == n - 1 {
                        assert(g(f(i)) == i);
                    }
                }
            }
            lemma_reindexed_multiset(s1, t1, f, g);
            assert(t =~= t1.push(t.last()));
            assert(t.to_multiset() =~= t1.to_multiset().insert(t[n - 1]));
            assert(t[n - 1] == s[f(n - 1)]);
            assert(f(n - 1) == n - 1) by {
                assert(f(g(n - 1)) == n - 1);
            }
        } else {
            let j = f(n - 1);
            assert(j != n - 1) by {
                if j == n - 1 {
                    assert(g(f(n - 1)) == n - 1);
                }
            }
            assert(f(k) == n - 1) by {
                assert(f(g(n - 1)) == n - 1);
            }
            assert(t[k] == s[n - 1]);
            let u = t.update(k, t[n - 1]);
            let t2 = u.drop_last();
            let f2 = |i: int| if i == k { j } else { f(i) };
            let g2 = |i: int| if i == j { k } else { g(i) };
            assert(g(j) == n - 1) by {
                assert(g(f(n - 1)) == n - 1);
            }
            assert forall|i: int| 0 <= i < s1.len() implies 0 <= #[trigger] f2(i) < s1.len() by {
                if i != k {
                    if f(i) == n - 1 {
                        assert(g(f(i)) == i);
                    }
                }
            }
            assert forall|i: int| 0 <= i < s1.len() implies 0 <= #[trigger] g2(i) < s1.len() by {
                if i != j {
                    if g(i) == n - 1 {
                        assert(f(g(i)) == i);
                    }
                }
            }
            assert forall|i: int| 0 <= i < s1.len() implies #[trigger] g2(f2(i)) == i by {
                if i == k {
                    assert(f2(k) == j);
                    assert(g2(j) == k);
                } else {
                    assert(f(i) != j) by {
                        if f(i) == j {
                            assert(g(f(i)) == i);
                        }
                    }
                    assert(f2(i) == f(i));
                    assert(g2(f(i)) == g(f(i)));
                }
            }
            assert forall|i: int| 0 <= i < s1.len() implies #[trigger] f2(g2(i)) == i by {
                if i == j {
                    assert(g2(j) == k);
                    assert(f2(k) == j);
                } else {
                    assert(g(i) != k) by {
                        if g(i) == k {
                            assert(f(g(i)) == i);
                        }
                    }
                    assert(g2(i) == g(i));
                    assert(f2(g(i)) == f(g(i)));
                }
            }
            assert forall|i: int| 0 <= i < s1.len() implies #[trigger] t2[i] == s1[f2(i)] by {
                if i == k {
                    assert(t2[k] == u[k]);
                    assert(u[k] == t[n - 1]);
                    assert(t[n - 1] == s[j]);
                } else {
                    assert(t2[i] == t[i]);
                    assert(f(i) != n - 1) by {
                        if f(i) == n - 1 {
                            assert(g(f(i)) == i);
                        }
                    }
                }
            }
            lemma_reindexed_multiset(s1, t2, f2, g2);
            assert(u.to_multiset() =~= t.to_multiset().insert(t[n - 1]).remove(t[k]));
            assert(u[n - 1] == t[n - 1]);
            assert(t2 =~= u.remove(n - 1));
            assert(t2.to_multiset() =~= u.to_multiset().remove(u[n - 1]));
            assert(t.to_multiset().contains(t[k]));
            assert(t.to_multiset() =~= t2.to_multiset().insert(s[n - 1]));
        }
    }
}

/// A move only rearranges stickers: the multiset of the 54 slots is
/// unchanged by applying any legal move.
pub proof fn lemma_apply_move_multiset<T>(s: Seq<T>, m: int)
    requires
        s.len() == 54,
        0 <= m < 18,
    ensures
        apply_move(s, m).to_multiset() == s.to_multiset(),
{
    let t = apply_move(s, m);
    let f = |i: int| move_src(m, i);
    let g = |i: int| move_src(inv_move(m), i);
    assert(inv_move(inv_move(m)) == m);
    assert forall|i: int| 0 <= i < s.len() implies 0 <= #[trigger] f(i) < s.len() && 0 <= #[trigger] g(
        i,
    ) < s.len() && #[trigger] g(f(i)) == i && #[trigger] f(g(i)) == i && #[trigger] t[i] == s[f(i)] by {
        lemma_move_src_in_range(m, i);
        lemma_move_src_in_range(inv_move(m), i);
        lemma_move_src_cancels(m, i);
        lemma_move_src_cancels(inv_move(m), i);
    }
    lemma_reindexed_multiset(s, t, f, g);
}

/// A whole move sequence only rearranges stickers, and always leaves
/// exactly 54 of them.
pub proof fn lemma_apply_seq_multiset<T>(s: Seq<T>, p: Seq<u8>)
    requires
        s.len() == 54,
        valid_moves(p),
    ensures
        apply_seq(s, p).to_multiset() == s.to_multiset(),
        apply_seq(s, p).len() == 54,
    decreases p.len(),
{
    if p.len() > 0 {
        let s2 = apply_move(s, p[0] as int);
        lemma_apply_move_multiset(s, p[0] as int);
        assert(valid_moves(p.drop_first())) by {
            assert(forall|i: int|
                0 <= i < p.drop_first().len() ==> p.drop_first()[i] == p[i + 1]);
        }
        lemma_apply_seq_multiset(s2, p.drop_first());
    }
}

/// Splitting a move sequence: applying `a + b` is applying `a`, then `b`.
pub proof fn lemma_apply_seq_add<T>(s: Seq<T>, a: Seq<u8>, b: Seq<u8>)
    ensures
        apply_seq(s, a + b) == apply_seq(apply_seq(s, a), b),
    decreases a.len(),
{
    if a.len() == 0 {
        assert(a + b =~= b);
    } else {
        assert((a + b)[0] == a[0]);
        assert((a + b).drop_first() =~= a.drop_first() + b);
        lemma_apply_seq_add(apply_move(s, a[0] as int), a.drop_first(), b);
    }
}

/// Appending one move to a sequence applies it last.
pub proof fn lemma_apply_seq_push<T>(s: Seq<T>, p: Seq<u8>, m: u8)
    ensures
        apply_seq(s, p.push(m)) == apply_move(apply_seq(s, p), m as int),
{
    let single = seq![m];
    assert(p.push(m) =~= p + single);
    lemma_apply_seq_add(s, p, single);
    let u = apply_seq(s, p);
    assert(single.len() == 1 && single[0] == m);
    let v = apply_move(u, m as int);
    assert(apply_seq(u, single) == apply_seq(v, single.drop_first()));
    assert(single.drop_first() =~= Seq::<u8>::empty());
    assert(apply_seq(v, single.drop_first()) == v);
}


/// Replaying any move sequence over a 54-slot state leaves 54 slots.
pub proof fn lemma_apply_seq_len<T>(s: Seq<T>, p: Seq<u8>)
    requires
        s.len() == 54,
    ensures
        apply_seq(s, p).len() == 54,
    decreases p.len(),
{
    if p.len() > 0 {
        lemma_apply_seq_len(apply_move(s, p[0] as int), p.drop_first());
    }
}

} // verus!


