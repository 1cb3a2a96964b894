//! Search for the key-press-minimal solution of a 40-line sprint and the
//! encoding of that solution as a Techmino replay.
pub mod config;
pub mod endgame;
pub mod bagrng;
pub mod bitboard;
pub mod evaluator;
pub mod movegen;
pub mod replay;
pub mod search;

use vstd::prelude::*;

verus! {

/// The seven tetrominoes, plus `Empty` for "no piece" (an empty hold slot).
/// The order fixes the piece's index: `Empty` is 0, `Z` is 1, ..., `I` is 7.
#[derive(Debug, Clone, Copy, PartialEq, Eq, Hash, Structural)]
pub enum PieceType {
    Empty,
    Z,
    S,
    J,
    L,
    T,
    O,
    I,
}

impl PieceType {
    /// The piece's index, 0 for `Empty` up to 7 for `I`.
    pub open spec fn spec_index(self) -> u8 {
        match self {
            PieceType::Empty => 0,
            PieceType::Z => 1,
            PieceType::S => 2,
            PieceType::J => 3,
            PieceType::L => 4,
            PieceType::T => 5,
            PieceType::O => 6,
            PieceType::I => 7,
        }
    }

    /// The piece of a given index; every index above 7 stands for `Empty`.
    pub open spec fn spec_from_index(i: u8) -> PieceType {
        if i == 1 {
            PieceType::Z
        } else if i == 2 {
            PieceType::S
        } else if i == 3 {
            PieceType::J
        } else if i == 4 {
            PieceType::L
        } else if i == 5 {
            PieceType::T
        } else if i == 6 {
            PieceType::O
        } else if i == 7 {
            PieceType::I
        } else {
            PieceType::Empty
        }
    }

    #[verifier::when_used_as_spec(spec_index)]
    pub fn index(self) -> (r: u8)
        ensures
            r == self.spec_index(),
            r <= 7,
    {
        match self {
            PieceType::Empty => 0,
            PieceType::Z => 1,
            PieceType::S => 2,
            PieceType::J => 3,
            PieceType::L => 4,
            PieceType::T => 5,
            PieceType::O => 6,
            PieceType::I => 7,
        }
    }

    #[verifier::when_used_as_spec(spec_from_index)]
    pub fn from_index(i: u8) -> (p: PieceType)
        ensures
            p == Self::spec_from_index(i),
            i <= 7 ==> p.spec_index() == i,
    {
        if i == 1 {
            PieceType::Z
        } else if i == 2 {
            PieceType::S
        } else if i == 3 {
            PieceType::J
        } else if i == 4 {
            PieceType::L
        } else if i == 5 {
            PieceType::T
        } else if i == 6 {
            PieceType::O
        } else if i == 7 {
            PieceType::I
        } else {
            PieceType::Empty
        }
    }
}

} // verus!
