//! Square masks: a `u64` in which bit *s* stands for square *s*, and the
//! lemmas that relate a mask update to the individual bits it touches.

use vstd::prelude::*;

verus! {

/// True iff bit `sq` of `bb` is set; the bit index is the square index.
pub open spec fn sq_bit(bb: u64, sq: u8) -> bool {
    bb & (1u64 << (sq as u64)) != 0
}

/// `bb` with bit `sq` set.
pub open spec fn bb_set(bb: u64, sq: u8) -> u64 {
    bb | (1u64 << (sq as u64))
}

/// `bb` with bit `sq` cleared.
pub open spec fn bb_clear(bb: u64, sq: u8) -> u64 {
    bb & !(1u64 << (sq as u64))
}

/// Setting bit `i` sets exactly that bit and leaves every other bit alone.
pub broadcast proof fn lemma_sq_bit_set(bb: u64, i: u8, j: u8)
    by (bit_vector)
    requires
        i < 64,
        j < 64,
    ensures
        #[trigger] sq_bit(bb_set(bb, i), j) == (sq_bit(bb, j) || i == j),
{
}

/// Clearing bit `i` clears exactly that bit and leaves every other bit alone.
pub broadcast proof fn lemma_sq_bit_clear(bb: u64, i: u8, j: u8)
    by (bit_vector)
    requires
        i < 64,
        j < 64,
    ensures
        #[trigger] sq_bit(bb_clear(bb, i), j) == (sq_bit(bb, j) && i != j),
{
}

/// A bit of a union is set iff it is set in either operand.
pub broadcast proof fn lemma_sq_bit_or(a: u64, b: u64, j: u8)
    by (bit_vector)
    requires
        j < 64,
    ensures
        #[trigger] sq_bit(a | b, j) == (sq_bit(a, j) || sq_bit(b, j)),
{
}

/// A bit of an intersection is set iff it is set in both operands.
pub broadcast proof fn lemma_sq_bit_and(a: u64, b: u64, j: u8)
    by (bit_vector)
    requires
        j < 64,
    ensures
        #[trigger] sq_bit(a & b, j) == (sq_bit(a, j) && sq_bit(b, j)),
{
}

/// The empty mask has no bit set.
pub broadcast proof fn lemma_sq_bit_zero(j: u8)
    by (bit_vector)
    requires
        j < 64,
    ensures
        !#[trigger] sq_bit(0u64, j),
{
}

/// Masking can only clear bits: the result never exceeds the operand.
pub broadcast proof fn lemma_u8_and_le(a: u8, b: u8)
    by (bit_vector)
    ensures
        #[trigger] (a & b) <= a,
{
}

/// Two masks that agree on all 64 bits are equal.
pub proof fn lemma_bb_ext(a: u64, b: u64)
    requires
        forall|j: u8| j < 64 ==> sq_bit(a, j) == sq_bit(b, j),
    ensures
        a == b,
{
    assert(a == b) by (bit_vector)
        requires
            sq_bit(a, 0) == sq_bit(b, 0),
            sq_bit(a, 1) == sq_bit(b, 1),
            sq_bit(a, 2) == sq_bit(b, 2),
            sq_bit(a, 3) == sq_bit(b, 3),
            sq_bit(a, 4) == sq_bit(b, 4),
            sq_bit(a, 5) == sq_bit(b, 5),
            sq_bit(a, 6) == sq_bit(b, 6),
            sq_bit(a, 7) == sq_bit(b, 7),
            sq_bit(a, 8) == sq_bit(b, 8),
            sq_bit(a, 9) == sq_bit(b, 9),
            sq_bit(a, 10) == sq_bit(b, 10),
            sq_bit(a, 11) == sq_bit(b, 11),
            sq_bit(a, 12) == sq_bit(b, 12),
            sq_bit(a, 13) == sq_bit(b, 13),
            sq_bit(a, 14) == sq_bit(b, 14),
            sq_bit(a, 15) == sq_bit(b, 15),
            sq_bit(a, 16) == sq_bit(b, 16),
            sq_bit(a, 17) == sq_bit(b, 17),
            sq_bit(a, 18) == sq_bit(b, 18),
            sq_bit(a, 19) == sq_bit(b, 19),
            sq_bit(a, 20) == sq_bit(b, 20),
            sq_bit(a, 21) == sq_bit(b, 21),
            sq_bit(a, 22) == sq_bit(b, 22),
            sq_bit(a, 23) == sq_bit(b, 23),
            sq_bit(a, 24) == sq_bit(b, 24),
            sq_bit(a, 25) == sq_bit(b, 25),
            sq_bit(a, 26) == sq_bit(b, 26),
            sq_bit(a, 27) == sq_bit(b, 27),
            sq_bit(a, 28) == sq_bit(b, 28),
            sq_bit(a, 29) == sq_bit(b, 29),
            sq_bit(a, 30) == sq_bit(b, 30),
            sq_bit(a, 31) == sq_bit(b, 31),
            sq_bit(a, 32) == sq_bit(b, 32),
            sq_bit(a, 33) == sq_bit(b, 33),
            sq_bit(a, 34) == sq_bit(b, 34),
            sq_bit(a, 35) == sq_bit(b, 35),
            sq_bit(a, 36) == sq_bit(b, 36),
            sq_bit(a, 37) == sq_bit(b, 37),
            sq_bit(a, 38) == sq_bit(b, 38),
            sq_bit(a, 39) == sq_bit(b, 39),
            sq_bit(a, 40) == sq_bit(b, 40),
            sq_bit(a, 41) == sq_bit(b, 41),
            sq_bit(a, 42) == sq_bit(b, 42),
            sq_bit(a, 43) == sq_bit(b, 43),
            sq_bit(a, 44) == sq_bit(b, 44),
            sq_bit(a, 45) == sq_bit(b, 45),
            sq_bit(a, 46) == sq_bit(b, 46),
            sq_bit(a, 47) == sq_bit(b, 47),
            sq_bit(a, 48) == sq_bit(b, 48),
            sq_bit(a, 49) == sq_bit(b, 49),
            sq_bit(a, 50) == sq_bit(b, 50),
            sq_bit(a, 51) == sq_bit(b, 51),
            sq_bit(a, 52) == sq_bit(b, 52),
            sq_bit(a, 53) == sq_bit(b, 53),
            sq_bit(a, 54) == sq_bit(b, 54),
            sq_bit(a, 55) == sq_bit(b, 55),
            sq_bit(a, 56) == sq_bit(b, 56),
            sq_bit(a, 57) == sq_bit(b, 57),
            sq_bit(a, 58) == sq_bit(b, 58),
            sq_bit(a, 59) == sq_bit(b, 59),
            sq_bit(a, 60) == sq_bit(b, 60),
            sq_bit(a, 61) == sq_bit(b, 61),
            sq_bit(a, 62) == sq_bit(b, 62),
            sq_bit(a, 63) == sq_bit(b, 63)
    ;
}

} // verus!
