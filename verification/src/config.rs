//! Fixed parameters of the solver: a Techmino 40-line sprint, with hold,
//! ending on any clear (not only a perfect clear).
use vstd::prelude::*;

verus! {

/// The lines to clear.
pub const TARGET_LINES: u16 = 40;
/// Whether the hold key may not be used.
pub const NO_HOLD: bool = false;
/// Whether the run must end in a perfect clear.
pub const PC_END: bool = false;
/// The pieces that a run may use: `TARGET_LINES * 5 / 2`, plus one for the
/// hold slot and one more because the run need not end in a perfect clear.
pub const MAX_PIECES: usize = 102;

/// The layer width of the beam search.
pub const BEAM_WIDTH: usize = 3000;
/// How many nodes of one board profile class a beam layer keeps.
pub const DIVERSITY_BUCKET_SIZE: usize = 300;
/// How many pieces the exhaustive endgame search places at most.
pub const ENDGAME_DEPTH: usize = 7;
/// The piece from which the endgame search takes over: `MAX_PIECES - ENDGAME_DEPTH`.
pub const ENDGAME_START: usize = 95;
/// How many pieces ahead the beam search looks when it scores a node.
pub const EVALUATE_DEPTH: usize = 5;

/// The game whose rules and replay format the solver follows.
pub enum GameEngine {
    TECHMINO,
}

/// The game this build targets.
pub const ENGINE: GameEngine = GameEngine::TECHMINO;

/// Techmino's delayed auto shift, in frames.
pub const TECHMINO_DAS_FRAME: u32 = 6;
/// Jstris's delayed auto shift, in milliseconds.
pub const JSTRIS_DAS_MS: u32 = 100;

/// The constants agree with one another.
pub proof fn lemma_config_consistent()
    ensures
        MAX_PIECES == TARGET_LINES * 5 / 2 + (if NO_HOLD { 0int } else { 1 }) + (if PC_END { 0int } else { 1 }),
        ENDGAME_START == MAX_PIECES - ENDGAME_DEPTH,
{
}

} // verus!
