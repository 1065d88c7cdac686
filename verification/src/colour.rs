//! The six facelet colours of the cube.

use vstd::prelude::*;

verus! {

/// One of the six sticker colours, one per face's centre colour.
#[derive(Clone, Copy, PartialEq, Eq, Structural, Debug)]
pub enum Colour {
    White,
    Yellow,
    Red,
    Green,
    Orange,
    Blue,
}

} // verus!
