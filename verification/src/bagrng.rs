//! The piece sequence that a game seed produces.
pub mod techmino;

use vstd::prelude::*;
use crate::PieceType;
use crate::config::{ENGINE, GameEngine};

verus! {

use crate::bagrng::techmino::{seed_of, piece_sequence};

/// The first `count` pieces that the game deals for `seed`, a decimal seed of
/// the game in use.
pub fn generate_piece_sequence(seed: &String, count: usize) -> (seq: Vec<PieceType>)
    requires
        seed_of(seed@) is Some,
    ensures
        seq@ == piece_sequence(seed_of(seed@)->0 as u64, count as nat),
{
    match ENGINE {
        GameEngine::TECHMINO => techmino::generate_piece_sequence(seed.as_str(), count),
    }
}

/// Whether an opening suits a sprint: the first piece is no S or Z, and an
/// O first is not followed by an S or Z.
pub open spec fn opening_ok(first: PieceType, second: PieceType) -> bool {
    &&& first != PieceType::S && first != PieceType::Z
    &&& !(first == PieceType::O && (second == PieceType::S || second == PieceType::Z))
}

/// Whether the game seed `seed` deals an opening that suits a sprint (see
/// `opening_ok`); a random seed is drawn until one does.
pub fn seed_accepted(seed: &String) -> (b: bool)
    requires
        seed_of(seed@) is Some,
    ensures
        b == opening_ok(
            piece_sequence(seed_of(seed@)->0 as u64, 2)[0],
            piece_sequence(seed_of(seed@)->0 as u64, 2)[1],
        ),
{
    let piece_seq = generate_piece_sequence(seed, 2);
    let first = piece_seq[0];
    let second = piece_seq[1];
    (first != PieceType::S && first != PieceType::Z) && !(first == PieceType::O && (second == PieceType::S
        || second == PieceType::Z))
}

} // verus!
