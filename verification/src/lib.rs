//! Board-state core of a chess engine: a bit-level position, a small game
//! state (side to move and castling rights), and an exactly reversible
//! move apply/unmake pair for depth-first search.

pub mod bits;
pub mod board;
pub mod castling;
pub mod movement;
pub mod rules;
