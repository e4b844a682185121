//! The board: one 64-bit mask per color and one per piece kind, overlaid on
//! the same square space, plus the square/text codec.

use vstd::prelude::*;
use vstd::string::*;

use crate::bits::{
    bb_clear, bb_set, lemma_sq_bit_and, lemma_sq_bit_clear, lemma_sq_bit_or, lemma_sq_bit_set,
    lemma_sq_bit_zero, sq_bit,
};

verus! {

/// Bitboard for color or piece bits: bit *s* stands for square *s*.
pub type Bitboard = u64;

/// Color, `WHITE` or `BLACK`.
pub type Color = usize;

pub const WHITE: usize = 0;
pub const BLACK: usize = 1;
pub const NUM_COLORS: usize = 2;

/// Piece kind, `PAWN` through `KING`.
pub type Piece = usize;

pub const PAWN: usize = 0;
pub const BISHOP: usize = 1;
pub const KNIGHT: usize = 2;
pub const ROOK: usize = 3;
pub const QUEEN: usize = 4;
pub const KING: usize = 5;
pub const NUM_PIECES: usize = 6;

/// Square index in [0, 63], file-major: `square = file * 8 + rank`.
pub type Square = u8;

pub const A1: Square = 0;
pub const A2: Square = 1;
pub const A3: Square = 2;
pub const A4: Square = 3;
pub const A5: Square = 4;
pub const A6: Square = 5;
pub const A7: Square = 6;
pub const A8: Square = 7;
pub const B1: Square = 8;
pub const B2: Square = 9;
pub const B3: Square = 10;
pub const B4: Square = 11;
pub const B5: Square = 12;
pub const B6: Square = 13;
pub const B7: Square = 14;
pub const B8: Square = 15;
pub const C1: Square = 16;
pub const C2: Square = 17;
pub const C3: Square = 18;
pub const C4: Square = 19;
pub const C5: Square = 20;
pub const C6: Square = 21;
pub const C7: Square = 22;
pub const C8: Square = 23;
pub const D1: Square = 24;
pub const D2: Square = 25;
pub const D3: Square = 26;
pub const D4: Square = 27;
pub const D5: Square = 28;
pub const D6: Square = 29;
pub const D7: Square = 30;
pub const D8: Square = 31;
pub const E1: Square = 32;
pub const E2: Square = 33;
pub const E3: Square = 34;
pub const E4: Square = 35;
pub const E5: Square = 36;
pub const E6: Square = 37;
pub const E7: Square = 38;
pub const E8: Square = 39;
pub const F1: Square = 40;
pub const F2: Square = 41;
pub const F3: Square = 42;
pub const F4: Square = 43;
pub const F5: Square = 44;
pub const F6: Square = 45;
pub const F7: Square = 46;
pub const F8: Square = 47;
pub const G1: Square = 48;
pub const G2: Square = 49;
pub const G3: Square = 50;
pub const G4: Square = 51;
pub const G5: Square = 52;
pub const G6: Square = 53;
pub const G7: Square = 54;
pub const G8: Square = 55;
pub const H1: Square = 56;
pub const H2: Square = 57;
pub const H3: Square = 58;
pub const H4: Square = 59;
pub const H5: Square = 60;
pub const H6: Square = 61;
pub const H7: Square = 62;
pub const H8: Square = 63;

/// The opposite of `color`, as a spec value.
pub open spec fn spec_opposite(color: Color) -> Color {
    if color == 0 {
        1usize
    } else {
        0usize
    }
}

/// Get opposite color.
pub fn opposite(color: Color) -> (r: Color)
    ensures
        r == spec_opposite(color),
{
    if color == WHITE {
        BLACK
    } else {
        WHITE
    }
}

/// Pretty-print a color.
pub fn color_to_string(color: Color) -> (s: String)
    requires
        color < 2,
    ensures
        color == WHITE ==> s@ == "white"@,
        color == BLACK ==> s@ == "black"@,
{
    if color == WHITE {
        String::from_str("white")
    } else {
        String::from_str("black")
    }
}

/// Get bit mask of `square` in a bitboard.
pub fn bit_pos(square: Square) -> (bb: Bitboard)
    requires
        square < 64,
    ensures
        bb == 1u64 << (square as u64),
{
    1u64 << (square as u64)
}

// ------------------------------------------------------------------
// Square/text codec.
// ------------------------------------------------------------------

/// True iff `c` is a file letter, 'a' through 'h'.
pub open spec fn is_file_char(c: char) -> bool {
    c == 'a' || c == 'b' || c == 'c' || c == 'd' || c == 'e' || c == 'f' || c == 'g' || c == 'h'
}

/// True iff `c` is a rank digit, '1' through '8'.
pub open spec fn is_rank_char(c: char) -> bool {
    c == '1' || c == '2' || c == '3' || c == '4' || c == '5' || c == '6' || c == '7' || c == '8'
}

/// The file, in [0, 7], that a file letter stands for.
pub open spec fn file_of_char(c: char) -> int {
    if c == 'a' {
        0
    } else if c == 'b' {
        1
    } else if c == 'c' {
        2
    } else if c == 'd' {
        3
    } else if c == 'e' {
        4
    } else if c == 'f' {
        5
    } else if c == 'g' {
        6
    } else {
        7
    }
}

/// The rank, in [0, 7], that a rank digit stands for.
pub open spec fn rank_of_char(c: char) -> int {
    if c == '1' {
        0
    } else if c == '2' {
        1
    } else if c == '3' {
        2
    } else if c == '4' {
        3
    } else if c == '5' {
        4
    } else if c == '6' {
        5
    } else if c == '7' {
        6
    } else {
        7
    }
}

/// The file letter of `square`.
pub open spec fn file_char(square: Square) -> char {
    let f = square / 8;
    if f == 0 {
        'a'
    } else if f == 1 {
        'b'
    } else if f == 2 {
        'c'
    } else if f == 3 {
        'd'
    } else if f == 4 {
        'e'
    } else if f == 5 {
        'f'
    } else if f == 6 {
        'g'
    } else {
        'h'
    }
}

/// The rank digit of `square`.
pub open spec fn rank_char(square: Square) -> char {
    let r = square % 8;
    if r == 0 {
        '1'
    } else if r == 1 {
        '2'
    } else if r == 2 {
        '3'
    } else if r == 3 {
        '4'
    } else if r == 4 {
        '5'
    } else if r == 5 {
        '6'
    } else if r == 6 {
        '7'
    } else {
        '8'
    }
}

/// The square that a file letter and a rank digit name.
pub open spec fn square_of_chars(fc: char, rc: char) -> int {
    file_of_char(fc) * 8 + rank_of_char(rc)
}

/// Round trip, text first: rendering a square and parsing it back gives
/// the square again, for every square in [0, 63].
pub proof fn lemma_square_roundtrip(square: Square)
    requires
        square < 64,
    ensures
        square_of_chars(file_char(square), rank_char(square)) == square as int,
{
    assert(square as int == (square / 8) as int * 8 + (square % 8) as int) by (nonlinear_arith);
}

/// Round trip, square first: parsing a well-formed two-character name and
/// rendering the result gives the same two characters again.
pub proof fn lemma_chars_roundtrip(fc: char, rc: char)
    requires
        is_file_char(fc),
        is_rank_char(rc),
    ensures
        0 <= square_of_chars(fc, rc) < 64,
        file_char(square_of_chars(fc, rc) as Square) == fc,
        rank_char(square_of_chars(fc, rc) as Square) == rc,
{
    let sq = square_of_chars(fc, rc);
    assert(sq / 8 == file_of_char(fc) && sq % 8 == rank_of_char(rc)) by (nonlinear_arith)
        requires
            0 <= file_of_char(fc) < 8,
            0 <= rank_of_char(rc) < 8,
            sq == file_of_char(fc) * 8 + rank_of_char(rc),
    ;
}

/// Convert string coordinates to a Square.
///
/// The input must be a two-character lowercase algebraic name such as "e4";
/// callers holding untrusted text must validate it first.
pub fn sq_from_string(square: &str) -> (sq: Square)
    requires
        square@.len() == 2,
        is_file_char(square@[0]),
        is_rank_char(square@[1]),
    ensures
        sq < 64,
        sq as int == square_of_chars(square@[0], square@[1]),
{
    let fc = square.get_char(0);
    let rc = square.get_char(1);
    sq_from_chars(fc, rc)
}

/// Convert a file letter and a rank digit to a Square.
pub fn sq_from_chars(fc: char, rc: char) -> (sq: Square)
    requires
        is_file_char(fc),
        is_rank_char(rc),
    ensures
        sq < 64,
        sq as int == square_of_chars(fc, rc),
{
    let f: u8 = if fc == 'a' {
        0
    } else if fc == 'b' {
        1
    } else if fc == 'c' {
        2
    } else if fc == 'd' {
        3
    } else if fc == 'e' {
        4
    } else if fc == 'f' {
        5
    } else if fc == 'g' {
        6
    } else {
        7
    };
    let r: u8 = if rc == '1' {
        0
    } else if rc == '2' {
        1
    } else if rc == '3' {
        2
    } else if rc == '4' {
        3
    } else if rc == '5' {
        4
    } else if rc == '6' {
        5
    } else if rc == '7' {
        6
    } else {
        7
    };
    f * 8 + r
}

/// Return string coordinates from a Square.
pub fn sq_to_string(square: Square) -> (s: String)
    requires
        square < 64,
    ensures
        s@ =~= seq![file_char(square), rank_char(square)],
{
    let f = square / 8;
    let r = square % 8;
    let fs: &str = if f == 0 {
        "a"
    } else if f == 1 {
        "b"
    } else if f == 2 {
        "c"
    } else if f == 3 {
        "d"
    } else if f == 4 {
        "e"
    } else if f == 5 {
        "f"
    } else if f == 6 {
        "g"
    } else {
        "h"
    };
    let rs: &str = if r == 0 {
        "1"
    } else if r == 1 {
        "2"
    } else if r == 2 {
        "3"
    } else if r == 3 {
        "4"
    } else if r == 4 {
        "5"
    } else if r == 5 {
        "6"
    } else if r == 6 {
        "7"
    } else {
        "8"
    };
    proof {
        reveal_strlit("a");
        reveal_strlit("b");
        reveal_strlit("c");
        reveal_strlit("d");
        reveal_strlit("e");
        reveal_strlit("f");
        reveal_strlit("g");
        reveal_strlit("h");
        reveal_strlit("1");
        reveal_strlit("2");
        reveal_strlit("3");
        reveal_strlit("4");
        reveal_strlit("5");
        reveal_strlit("6");
        reveal_strlit("7");
        reveal_strlit("8");
    }
    String::from_str(fs).concat(rs)
}

// ------------------------------------------------------------------
// The board itself.
// ------------------------------------------------------------------

/// Board representation: one bitboard per color and one per piece kind.
#[derive(Clone, PartialEq)]
pub struct Board {
    pub white: Bitboard,
    pub black: Bitboard,
    pub pawns: Bitboard,
    pub bishops: Bitboard,
    pub knights: Bitboard,
    pub rooks: Bitboard,
    pub queens: Bitboard,
    pub kings: Bitboard,
}

impl Board {
    /// The mask of `color`'s pieces.
    pub open spec fn color_mask(self, c: int) -> Bitboard {
        if c == 0 {
            self.white
        } else {
            self.black
        }
    }

    /// The mask of squares holding a piece of kind `p`.
    pub open spec fn piece_mask(self, p: int) -> Bitboard {
        if p == 0 {
            self.pawns
        } else if p == 1 {
            self.bishops
        } else if p == 2 {
            self.knights
        } else if p == 3 {
            self.rooks
        } else if p == 4 {
            self.queens
        } else {
            self.kings
        }
    }

    /// Union of both color masks: every occupied square.
    pub open spec fn spec_combined(self) -> Bitboard {
        self.white | self.black
    }

    /// Union of the six piece masks.
    pub open spec fn piece_union(self) -> Bitboard {
        self.pawns | self.bishops | self.knights | self.rooks | self.queens | self.kings
    }

    /// True iff some piece stands on `sq`.
    pub open spec fn occupied(self, sq: Square) -> bool {
        sq_bit(self.spec_combined(), sq)
    }

    /// True iff a piece of color `c` and kind `p` stands on `sq`.
    pub open spec fn has_at(self, c: int, p: int, sq: Square) -> bool {
        sq_bit(self.color_mask(c), sq) && sq_bit(self.piece_mask(p), sq)
    }

    /// The color claiming `sq`; meaningful only on an occupied square of a
    /// well-formed board.
    pub open spec fn spec_color_at(self, sq: Square) -> int {
        if sq_bit(self.white, sq) {
            0
        } else {
            1
        }
    }

    /// The piece kind on `sq`; meaningful only on an occupied square of a
    /// well-formed board.
    pub open spec fn spec_piece_at(self, sq: Square) -> int {
        if sq_bit(self.pawns, sq) {
            0
        } else if sq_bit(self.bishops, sq) {
            1
        } else if sq_bit(self.knights, sq) {
            2
        } else if sq_bit(self.rooks, sq) {
            3
        } else if sq_bit(self.queens, sq) {
            4
        } else {
            5
        }
    }

    /// Well-formedness of one square: claimed by at most one color, by at
    /// most one piece kind, and by a color iff by a piece kind.
    pub open spec fn wf_at(self, sq: Square) -> bool {
        &&& !(sq_bit(self.white, sq) && sq_bit(self.black, sq))
        &&& !(sq_bit(self.pawns, sq) && sq_bit(self.bishops, sq))
        &&& !(sq_bit(self.pawns, sq) && sq_bit(self.knights, sq))
        &&& !(sq_bit(self.pawns, sq) && sq_bit(self.rooks, sq))
        &&& !(sq_bit(self.pawns, sq) && sq_bit(self.queens, sq))
        &&& !(sq_bit(self.pawns, sq) && sq_bit(self.kings, sq))
        &&& !(sq_bit(self.bishops, sq) && sq_bit(self.knights, sq))
        &&& !(sq_bit(self.bishops, sq) && sq_bit(self.rooks, sq))
        &&& !(sq_bit(self.bishops, sq) && sq_bit(self.queens, sq))
        &&& !(sq_bit(self.bishops, sq) && sq_bit(self.kings, sq))
        &&& !(sq_bit(self.knights, sq) && sq_bit(self.rooks, sq))
        &&& !(sq_bit(self.knights, sq) && sq_bit(self.queens, sq))
        &&& !(sq_bit(self.knights, sq) && sq_bit(self.kings, sq))
        &&& !(sq_bit(self.rooks, sq) && sq_bit(self.queens, sq))
        &&& !(sq_bit(self.rooks, sq) && sq_bit(self.kings, sq))
        &&& !(sq_bit(self.queens, sq) && sq_bit(self.kings, sq))
        &&& (sq_bit(self.white, sq) || sq_bit(self.black, sq)) == (sq_bit(self.pawns, sq)
            || sq_bit(self.bishops, sq) || sq_bit(self.knights, sq) || sq_bit(self.rooks, sq)
            || sq_bit(self.queens, sq) || sq_bit(self.kings, sq))
    }

    /// Well-formedness of the whole board: every square is claimed by at
    /// most one color and one piece kind, and colors and kinds agree.
    pub open spec fn wf(self) -> bool {
        forall|sq: Square| sq < 64 ==> #[trigger] self.wf_at(sq)
    }

    /// This board with the mask of color `c` replaced by `bb`.
    pub open spec fn with_color_mask(self, c: int, bb: Bitboard) -> Board {
        Board {
            white: if c == 0 {
                bb
            } else {
                self.white
            },
            black: if c == 1 {
                bb
            } else {
                self.black
            },
            pawns: self.pawns,
            bishops: self.bishops,
            knights: self.knights,
            rooks: self.rooks,
            queens: self.queens,
            kings: self.kings,
        }
    }

    /// This board with the mask of piece kind `p` replaced by `bb`.
    pub open spec fn with_piece_mask(self, p: int, bb: Bitboard) -> Board {
        Board {
            white: self.white,
            black: self.black,
            pawns: if p == 0 {
                bb
            } else {
                self.pawns
            },
            bishops: if p == 1 {
                bb
            } else {
                self.bishops
            },
            knights: if p == 2 {
                bb
            } else {
                self.knights
            },
            rooks: if p == 3 {
                bb
            } else {
                self.rooks
            },
            queens: if p == 4 {
                bb
            } else {
                self.queens
            },
            kings: if p == 5 {
                bb
            } else {
                self.kings
            },
        }
    }

    /// This board with a piece of color `c` and kind `p` added on `sq`;
    /// nothing is cleared first.
    pub open spec fn spec_place(self, sq: Square, c: int, p: int) -> Board {
        self.with_color_mask(c, bb_set(self.color_mask(c), sq)).with_piece_mask(
            p,
            bb_set(self.piece_mask(p), sq),
        )
    }

    /// This board with `sq` emptied in every mask.
    pub open spec fn spec_clear(self, sq: Square) -> Board {
        Board {
            white: bb_clear(self.white, sq),
            black: bb_clear(self.black, sq),
            pawns: bb_clear(self.pawns, sq),
            bishops: bb_clear(self.bishops, sq),
            knights: bb_clear(self.knights, sq),
            rooks: bb_clear(self.rooks, sq),
            queens: bb_clear(self.queens, sq),
            kings: bb_clear(self.kings, sq),
        }
    }

    /// This board with the piece kind on `sq` rewritten from `from` to `to`;
    /// the color bit is left untouched.
    pub open spec fn spec_set_piece(self, sq: Square, from: int, to: int) -> Board {
        let b1 = self.with_piece_mask(from, bb_clear(self.piece_mask(from), sq));
        b1.with_piece_mask(to, bb_set(b1.piece_mask(to), sq))
    }

    /// This board with the occupant of `source` moved to `dest`: whatever
    /// stood on `dest` is overwritten, and `source` is emptied.
    pub open spec fn spec_move(self, source: Square, dest: Square) -> Board {
        let c = self.spec_color_at(source);
        let p = self.spec_piece_at(source);
        self.spec_clear(dest).spec_place(dest, c, p).spec_clear(source)
    }

    /// The board with no piece on it.
    pub open spec fn spec_empty() -> Board {
        Board {
            white: 0,
            black: 0,
            pawns: 0,
            bishops: 0,
            knights: 0,
            rooks: 0,
            queens: 0,
            kings: 0,
        }
    }

    /// The standard starting position.
    pub open spec fn spec_start() -> Board {
        Board {
            white: 0x0303030303030303,
            black: 0xC0C0C0C0C0C0C0C0,
            pawns: 0x4242424242424242,
            bishops: 0x0000810000810000,
            knights: 0x0081000000008100,
            rooks: 0x8100000000000081,
            queens: 0x0000000081000000,
            kings: 0x0000008100000000,
        }
    }
}

// ------------------------------------------------------------------
// How the spec-level operations act on single bits.
// ------------------------------------------------------------------

/// Placing on a square touches exactly the chosen color and piece masks,
/// and exactly the chosen square's bit in them.
pub proof fn lemma_place_props(b: Board, sq: Square, c: int, p: int)
    requires
        sq < 64,
        0 <= c < 2,
        0 <= p < 6,
    ensures
        forall|c2: int, j: Square|
            0 <= c2 < 2 && j < 64 ==> #[trigger] sq_bit(b.spec_place(sq, c, p).color_mask(c2), j)
                == (sq_bit(b.color_mask(c2), j) || (c2 == c && j == sq)),
        forall|p2: int, j: Square|
            0 <= p2 < 6 && j < 64 ==> #[trigger] sq_bit(b.spec_place(sq, c, p).piece_mask(p2), j)
                == (sq_bit(b.piece_mask(p2), j) || (p2 == p && j == sq)),
        forall|j: Square|
            j < 64 ==> #[trigger] b.spec_place(sq, c, p).occupied(j) == (b.occupied(j) || j
                == sq),
{
    let post = b.spec_place(sq, c, p);
    assert forall|c2: int, j: Square| 0 <= c2 < 2 && j < 64 implies #[trigger] sq_bit(
        post.color_mask(c2),
        j,
    ) == (sq_bit(b.color_mask(c2), j) || (c2 == c && j == sq)) by {
        lemma_sq_bit_set(b.color_mask(c), sq, j);
    }
    assert forall|p2: int, j: Square| 0 <= p2 < 6 && j < 64 implies #[trigger] sq_bit(
        post.piece_mask(p2),
        j,
    ) == (sq_bit(b.piece_mask(p2), j) || (p2 == p && j == sq)) by {
        lemma_sq_bit_set(b.piece_mask(p), sq, j);
    }
    assert forall|j: Square| j < 64 implies #[trigger] post.occupied(j) == (b.occupied(j) || j
        == sq) by {
        lemma_sq_bit_or(b.white, b.black, j);
        lemma_sq_bit_or(post.white, post.black, j);
        assert(sq_bit(post.color_mask(0), j) == (sq_bit(b.color_mask(0), j) || (0 == c && j
            == sq)));
        assert(sq_bit(post.color_mask(1), j) == (sq_bit(b.color_mask(1), j) || (1 == c && j
            == sq)));
    }
}

/// Clearing a square touches exactly that square's bit, in every mask.
pub proof fn lemma_clear_props(b: Board, sq: Square)
    requires
        sq < 64,
    ensures
        forall|c2: int, j: Square|
            0 <= c2 < 2 && j < 64 ==> #[trigger] sq_bit(b.spec_clear(sq).color_mask(c2), j) == (
            sq_bit(b.color_mask(c2), j) && j != sq),
        forall|p2: int, j: Square|
            0 <= p2 < 6 && j < 64 ==> #[trigger] sq_bit(b.spec_clear(sq).piece_mask(p2), j) == (
            sq_bit(b.piece_mask(p2), j) && j != sq),
        forall|j: Square|
            j < 64 ==> #[trigger] b.spec_clear(sq).occupied(j) == (b.occupied(j) && j != sq),
{
    let post = b.spec_clear(sq);
    assert forall|c2: int, j: Square| 0 <= c2 < 2 && j < 64 implies #[trigger] sq_bit(
        post.color_mask(c2),
        j,
    ) == (sq_bit(b.color_mask(c2), j) && j != sq) by {
        lemma_sq_bit_clear(b.color_mask(c2), sq, j);
    }
    assert forall|p2: int, j: Square| 0 <= p2 < 6 && j < 64 implies #[trigger] sq_bit(
        post.piece_mask(p2),
        j,
    ) == (sq_bit(b.piece_mask(p2), j) && j != sq) by {
        lemma_sq_bit_clear(b.piece_mask(p2), sq, j);
    }
    assert forall|j: Square| j < 64 implies #[trigger] post.occupied(j) == (b.occupied(j) && j
        != sq) by {
        lemma_sq_bit_or(b.white, b.black, j);
        lemma_sq_bit_or(post.white, post.black, j);
        assert(sq_bit(post.color_mask(0), j) == (sq_bit(b.color_mask(0), j) && j != sq));
        assert(sq_bit(post.color_mask(1), j) == (sq_bit(b.color_mask(1), j) && j != sq));
    }
}

/// Placing a piece on an empty square of a well-formed board keeps the
/// board well-formed.
pub proof fn lemma_place_wf(b: Board, sq: Square, c: int, p: int)
    requires
        b.wf(),
        sq < 64,
        0 <= c < 2,
        0 <= p < 6,
        !b.occupied(sq),
    ensures
        b.spec_place(sq, c, p).wf(),
        b.spec_place(sq, c, p).spec_color_at(sq) == c,
        b.spec_place(sq, c, p).spec_piece_at(sq) == p,
{
    let post = b.spec_place(sq, c, p);
    lemma_place_props(b, sq, c, p);
    lemma_sq_bit_or(b.white, b.black, sq);
    assert(b.wf_at(sq));
    assert forall|j: Square| j < 64 implies #[trigger] post.wf_at(j) by {
        assert(b.wf_at(j));
        assert(sq_bit(post.color_mask(0), j) == (sq_bit(b.color_mask(0), j) || (0 == c && j
            == sq)));
        assert(sq_bit(post.color_mask(1), j) == (sq_bit(b.color_mask(1), j) || (1 == c && j
            == sq)));
        assert forall|p2: int| 0 <= p2 < 6 implies #[trigger] sq_bit(post.piece_mask(p2), j) == (
        sq_bit(b.piece_mask(p2), j) || (p2 == p && j == sq)) by {}
        assert(sq_bit(post.piece_mask(0), j) == (sq_bit(b.piece_mask(0), j) || (0 == p && j == sq)));
        assert(sq_bit(post.piece_mask(1), j) == (sq_bit(b.piece_mask(1), j) || (1 == p && j == sq)));
        assert(sq_bit(post.piece_mask(2), j) == (sq_bit(b.piece_mask(2), j) || (2 == p && j == sq)));
        assert(sq_bit(post.piece_mask(3), j) == (sq_bit(b.piece_mask(3), j) || (3 == p && j == sq)));
        assert(sq_bit(post.piece_mask(4), j) == (sq_bit(b.piece_mask(4), j) || (4 == p && j == sq)));
        assert(sq_bit(post.piece_mask(5), j) == (sq_bit(b.piece_mask(5), j) || (5 == p && j == sq)));
    }
    assert(sq_bit(post.color_mask(0), sq) == (sq_bit(b.color_mask(0), sq) || c == 0));
    assert(sq_bit(post.piece_mask(0), sq) == (sq_bit(b.piece_mask(0), sq) || 0 == p));
    assert(sq_bit(post.piece_mask(1), sq) == (sq_bit(b.piece_mask(1), sq) || 1 == p));
    assert(sq_bit(post.piece_mask(2), sq) == (sq_bit(b.piece_mask(2), sq) || 2 == p));
    assert(sq_bit(post.piece_mask(3), sq) == (sq_bit(b.piece_mask(3), sq) || 3 == p));
    assert(sq_bit(post.piece_mask(4), sq) == (sq_bit(b.piece_mask(4), sq) || 4 == p));
    assert(sq_bit(post.piece_mask(5), sq) == (sq_bit(b.piece_mask(5), sq) || 5 == p));
}

/// Clearing a square keeps the board well-formed.
pub proof fn lemma_clear_wf(b: Board, sq: Square)
    requires
        b.wf(),
        sq < 64,
    ensures
        b.spec_clear(sq).wf(),
{
    let post = b.spec_clear(sq);
    lemma_clear_props(b, sq);
    assert forall|j: Square| j < 64 implies #[trigger] post.wf_at(j) by {
        assert(b.wf_at(j));
        assert(sq_bit(post.color_mask(0), j) == (sq_bit(b.color_mask(0), j) && j != sq));
        assert(sq_bit(post.color_mask(1), j) == (sq_bit(b.color_mask(1), j) && j != sq));
        assert(sq_bit(post.piece_mask(0), j) == (sq_bit(b.piece_mask(0), j) && j != sq));
        assert(sq_bit(post.piece_mask(1), j) == (sq_bit(b.piece_mask(1), j) && j != sq));
        assert(sq_bit(post.piece_mask(2), j) == (sq_bit(b.piece_mask(2), j) && j != sq));
        assert(sq_bit(post.piece_mask(3), j) == (sq_bit(b.piece_mask(3), j) && j != sq));
        assert(sq_bit(post.piece_mask(4), j) == (sq_bit(b.piece_mask(4), j) && j != sq));
        assert(sq_bit(post.piece_mask(5), j) == (sq_bit(b.piece_mask(5), j) && j != sq));
    }
}

/// Rewriting the piece kind on an occupied square touches no color mask
/// and leaves every other square alone.
pub proof fn lemma_set_piece_props(b: Board, sq: Square, from: int, to: int)
    requires
        b.wf(),
        sq < 64,
        0 <= from < 6,
        0 <= to < 6,
        b.occupied(sq),
        b.spec_piece_at(sq) == from,
    ensures
        forall|c2: int, j: Square|
            0 <= c2 < 2 && j < 64 ==> #[trigger] sq_bit(
                b.spec_set_piece(sq, from, to).color_mask(c2),
                j,
            ) == sq_bit(b.color_mask(c2), j),
        forall|p2: int, j: Square|
            0 <= p2 < 6 && j < 64 ==> #[trigger] sq_bit(
                b.spec_set_piece(sq, from, to).piece_mask(p2),
                j,
            ) == (if j == sq {
                p2 == to
            } else {
                sq_bit(b.piece_mask(p2), j)
            }),
        forall|j: Square|
            j < 64 ==> #[trigger] b.spec_set_piece(sq, from, to).occupied(j) == b.occupied(j),
        b.spec_set_piece(sq, from, to).wf(),
        b.spec_set_piece(sq, from, to).spec_piece_at(sq) == to,
        b.spec_set_piece(sq, from, to).spec_color_at(sq) == b.spec_color_at(sq),
{
    let post = b.spec_set_piece(sq, from, to);
    let b1 = b.with_piece_mask(from, bb_clear(b.piece_mask(from), sq));
    lemma_sq_bit_or(b.white, b.black, sq);
    assert(b.wf_at(sq));
    assert(sq_bit(b.piece_mask(0), sq) == (from == 0));
    assert(sq_bit(b.piece_mask(1), sq) == (from == 1));
    assert(sq_bit(b.piece_mask(2), sq) == (from == 2));
    assert(sq_bit(b.piece_mask(3), sq) == (from == 3));
    assert(sq_bit(b.piece_mask(4), sq) == (from == 4));
    assert(sq_bit(b.piece_mask(5), sq) == (from == 5));
    assert forall|p2: int, j: Square| 0 <= p2 < 6 && j < 64 implies #[trigger] sq_bit(
        post.piece_mask(p2),
        j,
    ) == (if j == sq {
        p2 == to
    } else {
        sq_bit(b.piece_mask(p2), j)
    }) by {
        lemma_sq_bit_clear(b.piece_mask(from), sq, j);
        lemma_sq_bit_set(b1.piece_mask(to), sq, j);
    }
    assert forall|j: Square| j < 64 implies #[trigger] post.occupied(j) == b.occupied(j) by {
        lemma_sq_bit_or(b.white, b.black, j);
        lemma_sq_bit_or(post.white, post.black, j);
    }
    assert forall|j: Square| j < 64 implies #[trigger] post.wf_at(j) by {
        assert(b.wf_at(j));
        lemma_sq_bit_or(b.white, b.black, j);
        assert(sq_bit(post.piece_mask(0), j) == (if j == sq {
            to == 0
        } else {
            sq_bit(b.piece_mask(0), j)
        }));
        assert(sq_bit(post.piece_mask(1), j) == (if j == sq {
            to == 1
        } else {
            sq_bit(b.piece_mask(1), j)
        }));
        assert(sq_bit(post.piece_mask(2), j) == (if j == sq {
            to == 2
        } else {
            sq_bit(b.piece_mask(2), j)
        }));
        assert(sq_bit(post.piece_mask(3), j) == (if j == sq {
            to == 3
        } else {
            sq_bit(b.piece_mask(3), j)
        }));
        assert(sq_bit(post.piece_mask(4), j) == (if j == sq {
            to == 4
        } else {
            sq_bit(b.piece_mask(4), j)
        }));
        assert(sq_bit(post.piece_mask(5), j) == (if j == sq {
            to == 5
        } else {
            sq_bit(b.piece_mask(5), j)
        }));
    }
    assert(sq_bit(post.piece_mask(0), sq) == (to == 0));
    assert(sq_bit(post.piece_mask(1), sq) == (to == 1));
    assert(sq_bit(post.piece_mask(2), sq) == (to == 2));
    assert(sq_bit(post.piece_mask(3), sq) == (to == 3));
    assert(sq_bit(post.piece_mask(4), sq) == (to == 4));
    assert(sq_bit(post.piece_mask(5), sq) == (to == 5));
}

/// Relocating the occupant of `source` to `dest` leaves every other square
/// alone, empties `source`, and puts exactly the moved piece on `dest`.
pub proof fn lemma_move_props(b: Board, s: Square, d: Square)
    requires
        b.wf(),
        s < 64,
        d < 64,
        s != d,
        b.occupied(s),
    ensures
        forall|c2: int, j: Square|
            0 <= c2 < 2 && j < 64 ==> #[trigger] sq_bit(b.spec_move(s, d).color_mask(c2), j) == (
            if j == d {
                c2 == b.spec_color_at(s)
            } else if j == s {
                false
            } else {
                sq_bit(b.color_mask(c2), j)
            }),
        forall|p2: int, j: Square|
            0 <= p2 < 6 && j < 64 ==> #[trigger] sq_bit(b.spec_move(s, d).piece_mask(p2), j) == (
            if j == d {
                p2 == b.spec_piece_at(s)
            } else if j == s {
                false
            } else {
                sq_bit(b.piece_mask(p2), j)
            }),
        forall|j: Square|
            j < 64 ==> #[trigger] b.spec_move(s, d).occupied(j) == (if j == d {
                true
            } else if j == s {
                false
            } else {
                b.occupied(j)
            }),
        b.spec_move(s, d).wf(),
        b.spec_move(s, d).spec_color_at(d) == b.spec_color_at(s),
        b.spec_move(s, d).spec_piece_at(d) == b.spec_piece_at(s),
{
    let c = b.spec_color_at(s);
    let p = b.spec_piece_at(s);
    let b_cd = b.spec_clear(d);
    let b_pl = b_cd.spec_place(d, c, p);
    let post = b.spec_move(s, d);
    lemma_sq_bit_or(b.white, b.black, s);
    assert(b.wf_at(s));
    lemma_clear_props(b, d);
    lemma_clear_wf(b, d);
    lemma_place_props(b_cd, d, c, p);
    lemma_place_wf(b_cd, d, c, p);
    lemma_clear_props(b_pl, s);
    lemma_clear_wf(b_pl, s);
    assert(post == b_pl.spec_clear(s));
    assert forall|j: Square| j < 64 implies #[trigger] post.occupied(j) == (if j == d {
        true
    } else if j == s {
        false
    } else {
        b.occupied(j)
    }) by {}
    assert(sq_bit(post.piece_mask(0), d) == (p == 0));
    assert(sq_bit(post.piece_mask(1), d) == (p == 1));
    assert(sq_bit(post.piece_mask(2), d) == (p == 2));
    assert(sq_bit(post.piece_mask(3), d) == (p == 3));
    assert(sq_bit(post.piece_mask(4), d) == (p == 4));
    assert(sq_bit(post.piece_mask(5), d) == (p == 5));
    assert(sq_bit(post.color_mask(0), d) == (c == 0));
}

/// The board with no piece on it is well-formed.
pub proof fn lemma_empty_wf()
    ensures
        Board::spec_empty().wf(),
        forall|j: Square| j < 64 ==> !#[trigger] Board::spec_empty().occupied(j),
{
    let b = Board::spec_empty();
    assert forall|j: Square| j < 64 implies #[trigger] b.wf_at(j) && !b.occupied(j) by {
        lemma_sq_bit_zero(j);
        lemma_sq_bit_or(b.white, b.black, j);
        assert(!sq_bit(0u64, j));
    }
    assert forall|j: Square| j < 64 implies !#[trigger] b.occupied(j) by {
        assert(b.wf_at(j) && !b.occupied(j));
    }
}

/// Bit-level shape of the starting masks: no square is claimed twice and
/// color and piece masks agree, for the eight fixed constants.
proof fn lemma_start_bits()
    by (bit_vector)
    ensures
        forall|j: u8|
            j < 64 ==> #[trigger] start_square_ok(j),
{
}

/// Well-formedness of one square of the starting position, written out
/// over the eight mask constants.
pub open spec fn start_square_ok(j: u8) -> bool {
    &&& !(sq_bit(0x0303030303030303u64, j) && sq_bit(0xC0C0C0C0C0C0C0C0u64, j))
    &&& !(sq_bit(0x4242424242424242u64, j) && sq_bit(0x0000810000810000u64, j))
    &&& !(sq_bit(0x4242424242424242u64, j) && sq_bit(0x0081000000008100u64, j))
    &&& !(sq_bit(0x4242424242424242u64, j) && sq_bit(0x8100000000000081u64, j))
    &&& !(sq_bit(0x4242424242424242u64, j) && sq_bit(0x0000000081000000u64, j))
    &&& !(sq_bit(0x4242424242424242u64, j) && sq_bit(0x0000008100000000u64, j))
    &&& !(sq_bit(0x0000810000810000u64, j) && sq_bit(0x0081000000008100u64, j))
    &&& !(sq_bit(0x0000810000810000u64, j) && sq_bit(0x8100000000000081u64, j))
    &&& !(sq_bit(0x0000810000810000u64, j) && sq_bit(0x0000000081000000u64, j))
    &&& !(sq_bit(0x0000810000810000u64, j) && sq_bit(0x0000008100000000u64, j))
    &&& !(sq_bit(0x0081000000008100u64, j) && sq_bit(0x8100000000000081u64, j))
    &&& !(sq_bit(0x0081000000008100u64, j) && sq_bit(0x0000000081000000u64, j))
    &&& !(sq_bit(0x0081000000008100u64, j) && sq_bit(0x0000008100000000u64, j))
    &&& !(sq_bit(0x8100000000000081u64, j) && sq_bit(0x0000000081000000u64, j))
    &&& !(sq_bit(0x8100000000000081u64, j) && sq_bit(0x0000008100000000u64, j))
    &&& !(sq_bit(0x0000000081000000u64, j) && sq_bit(0x0000008100000000u64, j))
    &&& (sq_bit(0x0303030303030303u64, j) || sq_bit(0xC0C0C0C0C0C0C0C0u64, j)) == (sq_bit(
        0x4242424242424242u64,
        j,
    ) || sq_bit(0x0000810000810000u64, j) || sq_bit(0x0081000000008100u64, j) || sq_bit(
        0x8100000000000081u64,
        j,
    ) || sq_bit(0x0000000081000000u64, j) || sq_bit(0x0000008100000000u64, j))
}

/// The starting position is well-formed.
pub proof fn lemma_start_wf()
    ensures
        Board::spec_start().wf(),
{
    let b = Board::spec_start();
    lemma_start_bits();
    assert forall|j: Square| j < 64 implies #[trigger] b.wf_at(j) by {
        assert(start_square_ok(j));
    }
}

/// Invariant C at mask level: the union of the two color masks equals the
/// union of the six piece masks on every well-formed board.
pub proof fn lemma_occupancy_agrees(b: Board)
    requires
        b.wf(),
    ensures
        b.spec_combined() == b.piece_union(),
{
    assert forall|j: Square| j < 64 implies #[trigger] sq_bit(b.spec_combined(), j) == sq_bit(
        b.piece_union(),
        j,
    ) by {
        assert(b.wf_at(j));
        lemma_sq_bit_or(b.white, b.black, j);
        lemma_sq_bit_or(b.pawns, b.bishops, j);
        lemma_sq_bit_or(b.pawns | b.bishops, b.knights, j);
        lemma_sq_bit_or(b.pawns | b.bishops | b.knights, b.rooks, j);
        lemma_sq_bit_or(b.pawns | b.bishops | b.knights | b.rooks, b.queens, j);
        lemma_sq_bit_or(b.pawns | b.bishops | b.knights | b.rooks | b.queens, b.kings, j);
    }
    crate::bits::lemma_bb_ext(b.spec_combined(), b.piece_union());
}

/// Occupancy of a square, read off the two color bits.
pub proof fn lemma_occupied_bits(b: Board, sq: Square)
    requires
        sq < 64,
    ensures
        b.occupied(sq) == (sq_bit(b.color_mask(0), sq) || sq_bit(b.color_mask(1), sq)),
{
    lemma_sq_bit_or(b.white, b.black, sq);
}

/// Two boards whose masks agree on one square report the same occupant
/// there.
pub proof fn lemma_same_square_same_occupant(a: Board, b: Board, sq: Square)
    requires
        sq < 64,
        forall|c2: int|
            0 <= c2 < 2 ==> sq_bit(#[trigger] a.color_mask(c2), sq) == sq_bit(
                b.color_mask(c2),
                sq,
            ),
        forall|p2: int|
            0 <= p2 < 6 ==> sq_bit(#[trigger] a.piece_mask(p2), sq) == sq_bit(
                b.piece_mask(p2),
                sq,
            ),
    ensures
        a.spec_color_at(sq) == b.spec_color_at(sq),
        a.spec_piece_at(sq) == b.spec_piece_at(sq),
        a.occupied(sq) == b.occupied(sq),
{
    assert(sq_bit(a.color_mask(0), sq) == sq_bit(b.color_mask(0), sq));
    assert(sq_bit(a.color_mask(1), sq) == sq_bit(b.color_mask(1), sq));
    assert(sq_bit(a.piece_mask(0), sq) == sq_bit(b.piece_mask(0), sq));
    assert(sq_bit(a.piece_mask(1), sq) == sq_bit(b.piece_mask(1), sq));
    assert(sq_bit(a.piece_mask(2), sq) == sq_bit(b.piece_mask(2), sq));
    assert(sq_bit(a.piece_mask(3), sq) == sq_bit(b.piece_mask(3), sq));
    assert(sq_bit(a.piece_mask(4), sq) == sq_bit(b.piece_mask(4), sq));
    assert(sq_bit(a.piece_mask(5), sq) == sq_bit(b.piece_mask(5), sq));
    lemma_occupied_bits(a, sq);
    lemma_occupied_bits(b, sq);
}

/// On a well-formed board, an occupied square's bits are exactly those of
/// its reported color and piece kind.
pub proof fn lemma_occupant_bits(b: Board, sq: Square)
    requires
        b.wf(),
        sq < 64,
        b.occupied(sq),
    ensures
        forall|c2: int|
            0 <= c2 < 2 ==> sq_bit(#[trigger] b.color_mask(c2), sq) == (c2 == b.spec_color_at(
                sq,
            )),
        forall|p2: int|
            0 <= p2 < 6 ==> sq_bit(#[trigger] b.piece_mask(p2), sq) == (p2 == b.spec_piece_at(
                sq,
            )),
{
    assert(b.wf_at(sq));
    lemma_occupied_bits(b, sq);
    assert(sq_bit(b.color_mask(0), sq) == (0 == b.spec_color_at(sq)));
    assert(sq_bit(b.color_mask(1), sq) == (1 == b.spec_color_at(sq)));
    assert(sq_bit(b.piece_mask(0), sq) == (0 == b.spec_piece_at(sq)));
    assert(sq_bit(b.piece_mask(1), sq) == (1 == b.spec_piece_at(sq)));
    assert(sq_bit(b.piece_mask(2), sq) == (2 == b.spec_piece_at(sq)));
    assert(sq_bit(b.piece_mask(3), sq) == (3 == b.spec_piece_at(sq)));
    assert(sq_bit(b.piece_mask(4), sq) == (4 == b.spec_piece_at(sq)));
    assert(sq_bit(b.piece_mask(5), sq) == (5 == b.spec_piece_at(sq)));
}

/// An empty square has no bit set in any mask of a well-formed board.
pub proof fn lemma_empty_square_bits(b: Board, sq: Square)
    requires
        b.wf(),
        sq < 64,
        !b.occupied(sq),
    ensures
        forall|c2: int| 0 <= c2 < 2 ==> !sq_bit(#[trigger] b.color_mask(c2), sq),
        forall|p2: int| 0 <= p2 < 6 ==> !sq_bit(#[trigger] b.piece_mask(p2), sq),
{
    assert(b.wf_at(sq));
    lemma_occupied_bits(b, sq);
    assert(!sq_bit(b.color_mask(0), sq) && !sq_bit(b.color_mask(1), sq));
    assert(!sq_bit(b.piece_mask(0), sq));
    assert(!sq_bit(b.piece_mask(1), sq));
    assert(!sq_bit(b.piece_mask(2), sq));
    assert(!sq_bit(b.piece_mask(3), sq));
    assert(!sq_bit(b.piece_mask(4), sq));
    assert(!sq_bit(b.piece_mask(5), sq));
}

/// Two boards whose masks agree on every square and bit are equal.
pub proof fn lemma_boards_equal(a: Board, b: Board)
    requires
        forall|c2: int, j: Square|
            0 <= c2 < 2 && j < 64 ==> #[trigger] sq_bit(a.color_mask(c2), j) == sq_bit(
                b.color_mask(c2),
                j,
            ),
        forall|p2: int, j: Square|
            0 <= p2 < 6 && j < 64 ==> #[trigger] sq_bit(a.piece_mask(p2), j) == sq_bit(
                b.piece_mask(p2),
                j,
            ),
    ensures
        a == b,
{
    assert forall|j: Square| j < 64 implies sq_bit(a.white, j) == sq_bit(b.white, j) by {
        assert(sq_bit(a.color_mask(0), j) == sq_bit(b.color_mask(0), j));
    }
    assert forall|j: Square| j < 64 implies sq_bit(a.black, j) == sq_bit(b.black, j) by {
        assert(sq_bit(a.color_mask(1), j) == sq_bit(b.color_mask(1), j));
    }
    assert forall|j: Square| j < 64 implies sq_bit(a.pawns, j) == sq_bit(b.pawns, j) by {
        assert(sq_bit(a.piece_mask(0), j) == sq_bit(b.piece_mask(0), j));
    }
    assert forall|j: Square| j < 64 implies sq_bit(a.bishops, j) == sq_bit(b.bishops, j) by {
        assert(sq_bit(a.piece_mask(1), j) == sq_bit(b.piece_mask(1), j));
    }
    assert forall|j: Square| j < 64 implies sq_bit(a.knights, j) == sq_bit(b.knights, j) by {
        assert(sq_bit(a.piece_mask(2), j) == sq_bit(b.piece_mask(2), j));
    }
    assert forall|j: Square| j < 64 implies sq_bit(a.rooks, j) == sq_bit(b.rooks, j) by {
        assert(sq_bit(a.piece_mask(3), j) == sq_bit(b.piece_mask(3), j));
    }
    assert forall|j: Square| j < 64 implies sq_bit(a.queens, j) == sq_bit(b.queens, j) by {
        assert(sq_bit(a.piece_mask(4), j) == sq_bit(b.piece_mask(4), j));
    }
    assert forall|j: Square| j < 64 implies sq_bit(a.kings, j) == sq_bit(b.kings, j) by {
        assert(sq_bit(a.piece_mask(5), j) == sq_bit(b.piece_mask(5), j));
    }
    crate::bits::lemma_bb_ext(a.white, b.white);
    crate::bits::lemma_bb_ext(a.black, b.black);
    crate::bits::lemma_bb_ext(a.pawns, b.pawns);
    crate::bits::lemma_bb_ext(a.bishops, b.bishops);
    crate::bits::lemma_bb_ext(a.knights, b.knights);
    crate::bits::lemma_bb_ext(a.rooks, b.rooks);
    crate::bits::lemma_bb_ext(a.queens, b.queens);
    crate::bits::lemma_bb_ext(a.kings, b.kings);
}

// ------------------------------------------------------------------
// Parsing a placement string.
// ------------------------------------------------------------------

/// The piece, and its color, that a placement character stands for;
/// lowercase is black, uppercase is white.
pub open spec fn fen_piece_of_char(c: char) -> Option<(Color, Piece)> {
    if c == 'r' {
        Some((BLACK, ROOK))
    } else if c == 'n' {
        Some((BLACK, KNIGHT))
    } else if c == 'b' {
        Some((BLACK, BISHOP))
    } else if c == 'q' {
        Some((BLACK, QUEEN))
    } else if c == 'k' {
        Some((BLACK, KING))
    } else if c == 'p' {
        Some((BLACK, PAWN))
    } else if c == 'R' {
        Some((WHITE, ROOK))
    } else if c == 'N' {
        Some((WHITE, KNIGHT))
    } else if c == 'B' {
        Some((WHITE, BISHOP))
    } else if c == 'Q' {
        Some((WHITE, QUEEN))
    } else if c == 'K' {
        Some((WHITE, KING))
    } else if c == 'P' {
        Some((WHITE, PAWN))
    } else {
        None
    }
}

/// The run of empty squares that a placement digit stands for.
pub open spec fn fen_skip_of_char(c: char) -> Option<u8> {
    if c == '1' {
        Some(1u8)
    } else if c == '2' {
        Some(2u8)
    } else if c == '3' {
        Some(3u8)
    } else if c == '4' {
        Some(4u8)
    } else if c == '5' {
        Some(5u8)
    } else if c == '6' {
        Some(6u8)
    } else if c == '7' {
        Some(7u8)
    } else if c == '8' {
        Some(8u8)
    } else {
        None
    }
}

/// One step of the placement parser on state (board, file, rank, stopped):
/// a letter places a piece and advances the file, a digit skips empty
/// squares, '/' starts the next rank down, and anything else — or any
/// overrun — stops parsing for good.
pub open spec fn spec_fen_step(st: (Board, int, int, bool), c: char) -> (Board, int, int, bool) {
    if st.3 {
        st
    } else {
        match fen_piece_of_char(c) {
            Some(cp) => {
                if st.1 < 8 && 0 <= st.2 < 8 {
                    (
                        st.0.spec_place((st.1 * 8 + st.2) as Square, cp.0 as int, cp.1 as int),
                        st.1 + 1,
                        st.2,
                        false,
                    )
                } else {
                    (st.0, st.1, st.2, true)
                }
            },
            None => match fen_skip_of_char(c) {
                Some(skip) => {
                    if st.1 + skip <= 8 {
                        (st.0, st.1 + skip, st.2, false)
                    } else {
                        (st.0, st.1, st.2, true)
                    }
                },
                None => {
                    if c == '/' {
                        if st.2 > 0 {
                            (st.0, 0, st.2 - 1, false)
                        } else {
                            (st.0, st.1, st.2, true)
                        }
                    } else {
                        (st.0, st.1, st.2, true)
                    }
                },
            },
        }
    }
}

/// The parser state after the first `n` characters of `s`, folded from an
/// empty board at file 0 of rank 8.
pub open spec fn spec_fen_fold(s: Seq<char>, n: int) -> (Board, int, int, bool)
    decreases n,
{
    if n <= 0 {
        (Board::spec_empty(), 0int, 7int, false)
    } else {
        spec_fen_step(spec_fen_fold(s, n - 1), s[n - 1])
    }
}

/// The board that a placement string parses to.
pub open spec fn spec_fen_board(s: Seq<char>) -> Board {
    spec_fen_fold(s, s.len() as int).0
}

/// Once the parser has stopped, further characters change nothing.
proof fn lemma_fen_fold_done(s: Seq<char>, n: int, m: int)
    requires
        0 <= n <= m <= s.len(),
        spec_fen_fold(s, n).3,
    ensures
        spec_fen_fold(s, m) == spec_fen_fold(s, n),
    decreases m - n,
{
    if m > n {
        lemma_fen_fold_done(s, n, m - 1);
    }
}

// ------------------------------------------------------------------
// Factories.
// ------------------------------------------------------------------

impl Board {
    /// Generate the board of a new game.
    pub fn new() -> (b: Board)
        ensures
            b == Board::spec_start(),
            b.wf(),
    {
        proof {
            lemma_start_wf();
        }
        Board {
            white: 0x0303030303030303,
            black: 0xC0C0C0C0C0C0C0C0,
            pawns: 0x4242424242424242,
            bishops: 0x0000810000810000,
            knights: 0x0081000000008100,
            rooks: 0x8100000000000081,
            queens: 0x0000000081000000,
            kings: 0x0000008100000000,
        }
    }

    /// Generate an empty board.
    pub fn new_empty() -> (b: Board)
        ensures
            b == Board::spec_empty(),
            b.wf(),
            forall|j: Square| j < 64 ==> !#[trigger] b.occupied(j),
    {
        proof {
            lemma_empty_wf();
        }
        Board {
            white: 0,
            black: 0,
            pawns: 0,
            bishops: 0,
            knights: 0,
            rooks: 0,
            queens: 0,
            kings: 0,
        }
    }

    /// Generate a board from a FEN placement string: eight ranks from
    /// rank 8 down to rank 1 separated by '/', letters placing pieces and
    /// digits skipping empty squares; parsing stops at anything else.
    pub fn new_from_fen(fen: &str) -> (b: Board)
        ensures
            b == spec_fen_board(fen@),
            b.wf(),
    {
        let mut board = Board::new_empty();
        let mut f: u8 = 0;
        let mut r: u8 = 7;
        let mut done: bool = false;
        let n = fen.unicode_len();
        let mut i: usize = 0;
        while i < n && !done
            invariant
                i <= n,
                n == fen@.len(),
                f <= 8,
                r <= 7,
                board.wf(),
                !done ==> spec_fen_fold(fen@, i as int) == (board, f as int, r as int, false),
                !done ==> forall|sq: Square|
                    sq < 64 && #[trigger] board.occupied(sq) ==> (sq % 8 > r || (sq % 8 == r && sq
                        / 8 < f)),
                done ==> spec_fen_board(fen@) == board,
            decreases n - i,
        {
            let c = fen.get_char(i);
            let ghost st = spec_fen_fold(fen@, i as int);
            proof {
                assert(spec_fen_fold(fen@, (i + 1) as int) == spec_fen_step(st, fen@[i as int]));
            }
            let placement: Option<(Color, Piece)> = if c == 'r' {
                Some((BLACK, ROOK))
            } else if c == 'n' {
                Some((BLACK, KNIGHT))
            } else if c == 'b' {
                Some((BLACK, BISHOP))
            } else if c == 'q' {
                Some((BLACK, QUEEN))
            } else if c == 'k' {
                Some((BLACK, KING))
            } else if c == 'p' {
                Some((BLACK, PAWN))
            } else if c == 'R' {
                Some((WHITE, ROOK))
            } else if c == 'N' {
                Some((WHITE, KNIGHT))
            } else if c == 'B' {
                Some((WHITE, BISHOP))
            } else if c == 'Q' {
                Some((WHITE, QUEEN))
            } else if c == 'K' {
                Some((WHITE, KING))
            } else if c == 'P' {
                Some((WHITE, PAWN))
            } else {
                None
            };
            proof {
                assert(placement == fen_piece_of_char(c));
            }
            if let Some((color, piece)) = placement {
                if f < 8 {
                    let square = f * 8 + r;
                    proof {
                        assert(square as int % 8 == r as int && square as int / 8 == f as int)
                            by (nonlinear_arith)
                            requires
                                f < 8,
                                r < 8,
                                square == f * 8 + r,
                        ;
                        lemma_place_props(board, square, color as int, piece as int);
                    }
                    board.set_square(square, color, piece);
                    f = f + 1;
                } else {
                    done = true;
                    proof {
                        lemma_fen_fold_done(fen@, (i + 1) as int, n as int);
                    }
                }
            } else {
                let skip: Option<u8> = if c == '1' {
                    Some(1)
                } else if c == '2' {
                    Some(2)
                } else if c == '3' {
                    Some(3)
                } else if c == '4' {
                    Some(4)
                } else if c == '5' {
                    Some(5)
                } else if c == '6' {
                    Some(6)
                } else if c == '7' {
                    Some(7)
                } else if c == '8' {
                    Some(8)
                } else {
                    None
                };
                proof {
                    assert(skip == fen_skip_of_char(c));
                }
                if let Some(run) = skip {
                    if f + run <= 8 {
                        f = f + run;
                    } else {
                        done = true;
                        proof {
                            lemma_fen_fold_done(fen@, (i + 1) as int, n as int);
                        }
                    }
                } else if c == '/' {
                    if r > 0 {
                        f = 0;
                        r = r - 1;
                    } else {
                        done = true;
                        proof {
                            lemma_fen_fold_done(fen@, (i + 1) as int, n as int);
                        }
                    }
                } else {
                    done = true;
                    proof {
                        lemma_fen_fold_done(fen@, (i + 1) as int, n as int);
                    }
                }
            }
            i = i + 1;
        }
        board
    }
}

// ------------------------------------------------------------------
// Queries and mutations.
// ------------------------------------------------------------------

impl Board {
    /// Get combined white/black pieces bitboard.
    pub fn combined(&self) -> (bb: Bitboard)
        ensures
            bb == self.spec_combined(),
    {
        self.white | self.black
    }

    /// True if this square is empty.
    pub fn is_empty(&self, square: Square) -> (r: bool)
        requires
            square < 64,
        ensures
            r == !self.occupied(square),
    {
        self.combined() & bit_pos(square) == 0
    }

    /// Get color type at this square, which must hold a piece.
    pub fn get_color(&self, square: Square) -> (color: Color)
        requires
            square < 64,
            self.wf(),
            self.occupied(square),
        ensures
            color < 2,
            color as int == self.spec_color_at(square),
            self.has_at(color as int, self.spec_piece_at(square), square),
    {
        proof {
            lemma_sq_bit_or(self.white, self.black, square);
            assert(self.wf_at(square));
        }
        if self.white & bit_pos(square) != 0 {
            WHITE
        } else {
            BLACK
        }
    }

    /// Get piece type at this square, which must hold a piece.
    pub fn get_piece(&self, square: Square) -> (piece: Piece)
        requires
            square < 64,
            self.wf(),
            self.occupied(square),
        ensures
            piece < 6,
            piece as int == self.spec_piece_at(square),
            self.has_at(self.spec_color_at(square), piece as int, square),
    {
        proof {
            lemma_sq_bit_or(self.white, self.black, square);
            assert(self.wf_at(square));
        }
        let bp = bit_pos(square);
        if self.pawns & bp != 0 {
            PAWN
        } else if self.bishops & bp != 0 {
            BISHOP
        } else if self.knights & bp != 0 {
            KNIGHT
        } else if self.rooks & bp != 0 {
            ROOK
        } else if self.queens & bp != 0 {
            QUEEN
        } else {
            KING
        }
    }

    /// Put a piece of `color` and kind `piece` on an empty square.
    pub fn set_square(&mut self, square: Square, color: Color, piece: Piece)
        requires
            old(self).wf(),
            square < 64,
            color < 2,
            piece < 6,
            !old(self).occupied(square),
        ensures
            *final(self) == old(self).spec_place(square, color as int, piece as int),
            final(self).wf(),
    {
        let bp = bit_pos(square);
        if color == WHITE {
            self.white = self.white | bp;
        } else {
            self.black = self.black | bp;
        }
        if piece == PAWN {
            self.pawns = self.pawns | bp;
        } else if piece == BISHOP {
            self.bishops = self.bishops | bp;
        } else if piece == KNIGHT {
            self.knights = self.knights | bp;
        } else if piece == ROOK {
            self.rooks = self.rooks | bp;
        } else if piece == QUEEN {
            self.queens = self.queens | bp;
        } else {
            self.kings = self.kings | bp;
        }
        proof {
            lemma_place_wf(*old(self), square, color as int, piece as int);
        }
    }

    /// Set the square empty, in every mask; safe on an already-empty square.
    pub fn clear_square(&mut self, square: Square)
        requires
            old(self).wf(),
            square < 64,
        ensures
            *final(self) == old(self).spec_clear(square),
            final(self).wf(),
    {
        let bp = bit_pos(square);
        self.white = self.white & !bp;
        self.black = self.black & !bp;
        self.pawns = self.pawns & !bp;
        self.bishops = self.bishops & !bp;
        self.knights = self.knights & !bp;
        self.rooks = self.rooks & !bp;
        self.queens = self.queens & !bp;
        self.kings = self.kings & !bp;
        proof {
            lemma_clear_wf(*old(self), square);
        }
    }

    /// Rewrite the piece kind on an occupied square from `from` to `to`,
    /// leaving the color bit untouched.
    pub fn set_piece(&mut self, square: Square, from: Piece, to: Piece)
        requires
            old(self).wf(),
            square < 64,
            from < 6,
            to < 6,
            old(self).occupied(square),
            old(self).spec_piece_at(square) == from as int,
        ensures
            *final(self) == old(self).spec_set_piece(square, from as int, to as int),
            final(self).wf(),
    {
        proof {
            lemma_set_piece_props(*old(self), square, from as int, to as int);
        }
        let bp = bit_pos(square);
        if from == PAWN {
            self.pawns = self.pawns & !bp;
        } else if from == BISHOP {
            self.bishops = self.bishops & !bp;
        } else if from == KNIGHT {
            self.knights = self.knights & !bp;
        } else if from == ROOK {
            self.rooks = self.rooks & !bp;
        } else if from == QUEEN {
            self.queens = self.queens & !bp;
        } else {
            self.kings = self.kings & !bp;
        }
        if to == PAWN {
            self.pawns = self.pawns | bp;
        } else if to == BISHOP {
            self.bishops = self.bishops | bp;
        } else if to == KNIGHT {
            self.knights = self.knights | bp;
        } else if to == ROOK {
            self.rooks = self.rooks | bp;
        } else if to == QUEEN {
            self.queens = self.queens | bp;
        } else {
            self.kings = self.kings | bp;
        }
    }

    /// Move a piece from `source` to `dest`, clearing `source`; whatever
    /// stood on `dest` is overwritten, so the caller must have recorded it.
    pub fn move_square(&mut self, source: Square, dest: Square)
        requires
            old(self).wf(),
            source < 64,
            dest < 64,
            source != dest,
            old(self).occupied(source),
        ensures
            *final(self) == old(self).spec_move(source, dest),
            final(self).wf(),
    {
        proof {
            lemma_clear_props(*old(self), dest);
            lemma_move_props(*old(self), source, dest);
        }
        let color = self.get_color(source);
        let piece = self.get_piece(source);
        self.clear_square(dest);
        self.set_square(dest, color, piece);
        self.clear_square(source);
    }

    /// Find the position of this color's king, if any is on the board.
    pub fn find_king(&self, color: Color) -> (r: Option<Square>)
        requires
            color < 2,
        ensures
            match r {
                Some(sq) => sq < 64 && self.has_at(color as int, KING as int, sq) && forall|
                    j: Square,
                |
                    j < sq ==> !self.has_at(color as int, KING as int, j),
                None => forall|j: Square| j < 64 ==> !self.has_at(color as int, KING as int, j),
            },
    {
        let color_bb = if color == WHITE {
            self.white
        } else {
            self.black
        };
        let king_bb = color_bb & self.kings;
        let mut square: u8 = 0;
        while square < 64
            invariant
                square <= 64,
                color < 2,
                color_bb == self.color_mask(color as int),
                king_bb == color_bb & self.kings,
                forall|j: Square| j < square ==> !self.has_at(color as int, KING as int, j),
            decreases 64 - square,
        {
            if king_bb & bit_pos(square) != 0 {
                proof {
                    lemma_sq_bit_and(color_bb, self.kings, square);
                }
                return Some(square);
            }
            proof {
                lemma_sq_bit_and(color_bb, self.kings, square);
            }
            square = square + 1;
        }
        None
    }
}

// ------------------------------------------------------------------
// Text rendering.
// ------------------------------------------------------------------

/// The character drawn for one square: '.' when empty, else the piece
/// letter, uppercase for white and lowercase for black.
pub open spec fn square_char(b: Board, sq: Square) -> char {
    if !b.occupied(sq) {
        '.'
    } else {
        let white = b.spec_color_at(sq) == 0;
        let p = b.spec_piece_at(sq);
        if p == 0 {
            if white {
                'P'
            } else {
                'p'
            }
        } else if p == 1 {
            if white {
                'B'
            } else {
                'b'
            }
        } else if p == 2 {
            if white {
                'N'
            } else {
                'n'
            }
        } else if p == 3 {
            if white {
                'R'
            } else {
                'r'
            }
        } else if p == 4 {
            if white {
                'Q'
            } else {
                'q'
            }
        } else {
            if white {
                'K'
            } else {
                'k'
            }
        }
    }
}

/// The characters of rank `r` from file `f` rightwards.
pub open spec fn spec_row_chars(b: Board, r: int, f: int) -> Seq<char>
    decreases 8 - f,
{
    if f < 0 || f >= 8 {
        Seq::empty()
    } else {
        seq![square_char(b, (f * 8 + r) as Square)] + spec_row_chars(b, r, f + 1)
    }
}

/// The text view of the board from rank `r` downwards: one line per rank,
/// its digit and a space first, and the file-label line at the bottom.
pub open spec fn spec_draw_from(b: Board, r: int) -> Seq<char>
    decreases r + 1,
{
    if r < 0 {
        "  abcdefgh"@
    } else {
        seq![rank_char(r as u8), ' '] + spec_row_chars(b, r, 0) + seq!['\n'] + spec_draw_from(
            b,
            r - 1,
        )
    }
}

impl Board {
    /// Write a text view of the board: eight rank lines from rank 8 down
    /// to rank 1, then a file-label line; for diagnostics only.
    pub fn draw(&self) -> (s: String)
        requires
            self.wf(),
        ensures
            s@ == spec_draw_from(*self, 7),
    {
        proof {
            reveal_strlit("1");
            reveal_strlit("2");
            reveal_strlit("3");
            reveal_strlit("4");
            reveal_strlit("5");
            reveal_strlit("6");
            reveal_strlit("7");
            reveal_strlit("8");
            reveal_strlit(" ");
            reveal_strlit("\n");
            reveal_strlit(".");
            reveal_strlit("P");
            reveal_strlit("p");
            reveal_strlit("B");
            reveal_strlit("b");
            reveal_strlit("N");
            reveal_strlit("n");
            reveal_strlit("R");
            reveal_strlit("r");
            reveal_strlit("Q");
            reveal_strlit("q");
            reveal_strlit("K");
            reveal_strlit("k");
            reveal_strlit("  abcdefgh");
        }
        let mut out = String::new();
        let mut rank: u8 = 8;
        while rank > 0
            invariant
                rank <= 8,
                self.wf(),
                out@ + spec_draw_from(*self, rank as int - 1) =~= spec_draw_from(*self, 7),
            decreases rank,
        {
            let k = rank - 1;
            let ghost out_entry = out@;
            let label: &str = if rank == 1 {
                "1"
            } else if rank == 2 {
                "2"
            } else if rank == 3 {
                "3"
            } else if rank == 4 {
                "4"
            } else if rank == 5 {
                "5"
            } else if rank == 6 {
                "6"
            } else if rank == 7 {
                "7"
            } else {
                "8"
            };
            proof {
                reveal_strlit("1");
                reveal_strlit("2");
                reveal_strlit("3");
                reveal_strlit("4");
                reveal_strlit("5");
                reveal_strlit("6");
                reveal_strlit("7");
                reveal_strlit("8");
                reveal_strlit(" ");
                assert(label@ =~= seq![rank_char(k)]);
            }
            out.append(label);
            out.append(" ");
            let mut file: u8 = 0;
            while file < 8
                invariant
                    file <= 8,
                    rank == k + 1,
                    k < 8,
                    self.wf(),
                    out@ =~= out_entry + seq![rank_char(k), ' '] + spec_row_chars(
                        *self,
                        k as int,
                        0,
                    ).take(file as int),
                decreases 8 - file,
            {
                let square = file * 8 + k;
                assert(square < 64) by (nonlinear_arith)
                    requires
                        file < 8,
                        k < 8,
                        square == file * 8 + k,
                ;
                let piece_str: &str = if self.is_empty(square) {
                    "."
                } else {
                    let color = self.get_color(square);
                    let piece = self.get_piece(square);
                    if piece == PAWN {
                        if color == WHITE {
                            "P"
                        } else {
                            "p"
                        }
                    } else if piece == BISHOP {
                        if color == WHITE {
                            "B"
                        } else {
                            "b"
                        }
                    } else if piece == KNIGHT {
                        if color == WHITE {
                            "N"
                        } else {
                            "n"
                        }
                    } else if piece == ROOK {
                        if color == WHITE {
                            "R"
                        } else {
                            "r"
                        }
                    } else if piece == QUEEN {
                        if color == WHITE {
                            "Q"
                        } else {
                            "q"
                        }
                    } else {
                        if color == WHITE {
                            "K"
                        } else {
                            "k"
                        }
                    }
                };
                proof {
                    reveal_strlit(".");
                    reveal_strlit("P");
                    reveal_strlit("p");
                    reveal_strlit("B");
                    reveal_strlit("b");
                    reveal_strlit("N");
                    reveal_strlit("n");
                    reveal_strlit("R");
                    reveal_strlit("r");
                    reveal_strlit("Q");
                    reveal_strlit("q");
                    reveal_strlit("K");
                    reveal_strlit("k");
                    assert(piece_str@ =~= seq![square_char(*self, square)]);
                    lemma_row_take_step(*self, k as int, file as int);
                }
                out.append(piece_str);
                file = file + 1;
            }
            proof {
                reveal_strlit("\n");
                lemma_row_len(*self, k as int, 0);
                assert(spec_row_chars(*self, k as int, 0).take(8) =~= spec_row_chars(
                    *self,
                    k as int,
                    0,
                ));
            }
            out.append("\n");
            rank = rank - 1;
            proof {
                assert(out@ + spec_draw_from(*self, rank as int - 1) =~= spec_draw_from(
                    *self,
                    7,
                ));
            }
        }
        proof {
            reveal_strlit("  abcdefgh");
        }
        out.append("  abcdefgh");
        proof {
            assert(out@ =~= spec_draw_from(*self, 7));
        }
        out
    }
}

/// Taking one more square of a row appends exactly that square's
/// character.
proof fn lemma_row_take_step(b: Board, r: int, f: int)
    requires
        0 <= f < 8,
    ensures
        spec_row_chars(b, r, 0).take(f + 1) =~= spec_row_chars(b, r, 0).take(f) + seq![
            square_char(b, (f * 8 + r) as Square),
        ],
{
    lemma_row_index(b, r, 0, f);
}

/// Row character `i` (counting from file `f`) is the square character of
/// file `f + i`.
proof fn lemma_row_index(b: Board, r: int, f: int, i: int)
    requires
        0 <= f,
        f + i < 8,
        0 <= i,
    ensures
        spec_row_chars(b, r, f).len() == 8 - f,
        spec_row_chars(b, r, f)[i] == square_char(b, ((f + i) * 8 + r) as Square),
    decreases i,
{
    lemma_row_len(b, r, f);
    if i > 0 {
        lemma_row_index(b, r, f + 1, i - 1);
    }
}

/// A row rendered from file `f` has one character per remaining file.
proof fn lemma_row_len(b: Board, r: int, f: int)
    requires
        0 <= f <= 8,
    ensures
        spec_row_chars(b, r, f).len() == 8 - f,
    decreases 8 - f,
{
    if f < 8 {
        lemma_row_len(b, r, f + 1);
    }
}

// ------------------------------------------------------------------
// Counting.
// ------------------------------------------------------------------

/// How many of the first `n` bits of `bb` are set.
pub open spec fn count_up_to(bb: Bitboard, n: int) -> int
    decreases n,
{
    if n <= 0 {
        0
    } else {
        count_up_to(bb, n - 1) + if sq_bit(bb, (n - 1) as u8) {
            1int
        } else {
            0int
        }
    }
}

/// Count the set bits of a bitboard.
pub fn count_bits(bb: Bitboard) -> (n: u8)
    ensures
        n as int == count_up_to(bb, 64),
        n <= 64,
{
    let mut count: u8 = 0;
    let mut i: u8 = 0;
    while i < 64
        invariant
            i <= 64,
            count as int == count_up_to(bb, i as int),
            count <= i,
        decreases 64 - i,
    {
        if bb & bit_pos(i) != 0 {
            count = count + 1;
        }
        i = i + 1;
    }
    count
}

impl Board {
    /// Count the number of pieces on the board.
    pub fn num_pieces(&self) -> (n: u8)
        ensures
            n as int == count_up_to(self.spec_combined(), 64),
            n <= 64,
    {
        count_bits(self.combined())
    }
}

} // verus!
