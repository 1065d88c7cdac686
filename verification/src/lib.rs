//! A verified solver for the 3x3x3 twisting cube puzzle.
//!
//! The cube is a flat sequence of 54 coloured facelets (6 faces of 9).
//! Each of the 18 legal moves is an exact permutation of facelet
//! positions; undoing a move applies its inverse, found through a fixed
//! "+3 / -3" pairing of move identifiers.  On top of the move engine sit
//! two searches: a cost-bounded iterative-deepening best-first search and
//! a depth-bounded iterative-deepening depth-first search whose eighteen
//! first-move branches run in parallel on private clones.

pub mod colour;
pub mod perm;
pub mod cube;
pub mod search;
pub use colour::Colour;
pub use cube::{CubeError, RubixCube};
