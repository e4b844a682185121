//! Castling flags: one bit per side and wing, and the fixed geometry of
//! the four castle moves.

use vstd::prelude::*;

use crate::board::{Square, A1, A8, C1, C8, D1, D8, E1, E8, F1, F8, G1, G8, H1, H8};

verus! {

/// Castling-rights bitmask; only the low four bits are used.
pub type Castle = u8;

pub const CASTLE_WH_K: Castle = 0b00000001;
pub const CASTLE_WH_Q: Castle = 0b00000010;
pub const CASTLE_WH_MASK: Castle = 0b00000011;
pub const CASTLE_BL_K: Castle = 0b00000100;
pub const CASTLE_BL_Q: Castle = 0b00001000;
pub const CASTLE_BL_MASK: Castle = 0b00001100;
pub const CASTLE_K_MASK: Castle = 0b00000101;
pub const CASTLE_Q_MASK: Castle = 0b00001010;
pub const CASTLE_MASK: Castle = 0b00001111;

/// True iff `castle` is exactly one of the four castle flags.
pub open spec fn is_castle_flag(castle: Castle) -> bool {
    castle == CASTLE_WH_K || castle == CASTLE_WH_Q || castle == CASTLE_BL_K || castle
        == CASTLE_BL_Q
}

/// The king and rook relocations of a castle move:
/// (king source, king dest, rook source, rook dest).
pub open spec fn spec_castle_squares(castle: Castle) -> (Square, Square, Square, Square) {
    if castle == CASTLE_WH_K {
        (E1, G1, H1, F1)
    } else if castle == CASTLE_WH_Q {
        (E1, C1, A1, D1)
    } else if castle == CASTLE_BL_K {
        (E8, G8, H8, F8)
    } else {
        (E8, C8, A8, D8)
    }
}

/// The rights that performing `castle` takes from its side: both wings.
pub open spec fn spec_castle_side_mask(castle: Castle) -> Castle {
    if castle == CASTLE_WH_K || castle == CASTLE_WH_Q {
        CASTLE_WH_MASK
    } else {
        CASTLE_BL_MASK
    }
}

/// The one table of castle geometry, shared by move application and its
/// inverse: king source, king dest, rook source, rook dest.
pub fn castle_squares(castle: Castle) -> (r: (Square, Square, Square, Square))
    requires
        is_castle_flag(castle),
    ensures
        r == spec_castle_squares(castle),
{
    if castle == CASTLE_WH_K {
        (E1, G1, H1, F1)
    } else if castle == CASTLE_WH_Q {
        (E1, C1, A1, D1)
    } else if castle == CASTLE_BL_K {
        (E8, G8, H8, F8)
    } else {
        (E8, C8, A8, D8)
    }
}

/// Castling-side parameters for the legality layer, per wing (0 the king
/// side, 1 the queen side): the two files that must be empty and not
/// attacked, an optional file that need only be empty, and the rights
/// mask of that wing for both colors.
pub fn castling_sides(wing: usize) -> (r: (u8, u8, Option<u8>, Castle))
    requires
        wing < 2,
    ensures
        wing == 0 ==> r == (5u8, 6u8, Option::<u8>::None, CASTLE_K_MASK),
        wing == 1 ==> r == (3u8, 2u8, Option::<u8>::Some(1u8), CASTLE_Q_MASK),
{
    if wing == 0 {
        (5, 6, None, CASTLE_K_MASK)
    } else {
        (3, 2, Some(1), CASTLE_Q_MASK)
    }
}

} // verus!
