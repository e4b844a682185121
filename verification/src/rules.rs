//! Game state beside the board: side to move and castling rights.

use vstd::prelude::*;

use crate::board::{Color, WHITE};
use crate::castling::{Castle, CASTLE_MASK};

verus! {

/// Side to move and remaining castling rights, mutated in lock step with
/// the board by move application and restored exactly by unmake.
#[derive(Clone, Copy, PartialEq, Eq, Debug)]
pub struct GameState {
    pub color: Color,
    pub castling: Castle,
}

impl GameState {
    /// The state is meaningful: a real color and only the four rights bits.
    pub open spec fn wf(self) -> bool {
        self.color < 2 && self.castling <= CASTLE_MASK
    }

    /// The state of a new game: white to move, all four rights held.
    pub fn new() -> (gs: GameState)
        ensures
            gs.color == WHITE,
            gs.castling == CASTLE_MASK,
            gs.wf(),
    {
        GameState { color: WHITE, castling: CASTLE_MASK }
    }
}

} // verus!
