//! Moves: a reversible record of one ply, its text codec, and the
//! apply/unmake pair that mutates board and game state together.

use vstd::prelude::*;
use vstd::string::*;

use crate::board::{
    file_char, is_file_char, is_rank_char, lemma_move_props, lemma_occupied_bits, opposite,
    rank_char, spec_opposite, sq_from_chars, sq_to_string, square_of_chars, Board, Piece, Square,
    A1, A8, BISHOP, C1, C8, D1, D8, E1, E8, F1, F8, G1, G8, H1, H8, KING, KNIGHT, PAWN, QUEEN,
    ROOK,
};
use crate::castling::{
    castle_squares, is_castle_flag, spec_castle_side_mask, spec_castle_squares, Castle,
    CASTLE_BL_K, CASTLE_BL_MASK, CASTLE_BL_Q, CASTLE_WH_K, CASTLE_WH_MASK, CASTLE_WH_Q,
};
use crate::bits::sq_bit;
use crate::rules::GameState;

verus! {

/// A movement: source and destination squares, optional promotion set by
/// the caller, the captured piece recorded during application, and a
/// snapshot of the castling rights taken before application.
#[derive(Clone, Debug, PartialEq)]
pub struct Move {
    /// Square from which a piece moves.
    pub source: Square,
    /// Square to which a piece moves.
    pub dest: Square,
    /// Promotion piece for pawns reaching the last rank.
    pub promotion: Option<Piece>,
    /// Captured piece, if any; filled in by `apply_to`.
    pub capture: Option<Piece>,
    /// Castle options before the move; set when the move is applied.
    pub old_castles: Castle,
}

/// Null move string in UCI exchanges.
pub const UCI_NULL_MOVE_STR: &'static str = "0000";

/// The castle flag that a king step from `source` to `dest` names, or 0
/// when the pair is no castle geometry.
pub open spec fn spec_castle_flag(source: Square, dest: Square) -> Castle {
    if source == spec_castle_squares(CASTLE_WH_Q).0 && dest == spec_castle_squares(
        CASTLE_WH_Q,
    ).1 {
        CASTLE_WH_Q
    } else if source == spec_castle_squares(CASTLE_WH_K).0 && dest == spec_castle_squares(
        CASTLE_WH_K,
    ).1 {
        CASTLE_WH_K
    } else if source == spec_castle_squares(CASTLE_BL_Q).0 && dest == spec_castle_squares(
        CASTLE_BL_Q,
    ).1 {
        CASTLE_BL_Q
    } else if source == spec_castle_squares(CASTLE_BL_K).0 && dest == spec_castle_squares(
        CASTLE_BL_K,
    ).1 {
        CASTLE_BL_K
    } else {
        0
    }
}

/// The castle that a move's squares name, if any.
pub open spec fn spec_castle_of(source: Square, dest: Square) -> Option<Castle> {
    if spec_castle_flag(source, dest) != 0 {
        Some(spec_castle_flag(source, dest))
    } else {
        None
    }
}

impl Move {
    /// Build a move from `source` to `dest`, no promotion.
    pub fn new(source: Square, dest: Square) -> (m: Move)
        ensures
            m == (Move {
                source,
                dest,
                promotion: None::<Piece>,
                capture: None::<Piece>,
                old_castles: 0u8,
            }),
    {
        Move { source, dest, promotion: None, capture: None, old_castles: 0 }
    }

    /// Build a move from `source` to `dest`, with a promotion.
    pub fn new_promotion(source: Square, dest: Square, promotion: Piece) -> (m: Move)
        ensures
            m == (Move {
                source,
                dest,
                promotion: Some(promotion),
                capture: None::<Piece>,
                old_castles: 0u8,
            }),
    {
        Move { source, dest, promotion: Some(promotion), capture: None, old_castles: 0 }
    }

    /// Get the corresponding castling flag for this move's squares.
    pub fn get_castle(&self) -> (r: Option<Castle>)
        ensures
            r == spec_castle_of(self.source, self.dest),
    {
        if self.source == E1 && self.dest == C1 {
            Some(CASTLE_WH_Q)
        } else if self.source == E1 && self.dest == G1 {
            Some(CASTLE_WH_K)
        } else if self.source == E8 && self.dest == C8 {
            Some(CASTLE_BL_Q)
        } else if self.source == E8 && self.dest == G8 {
            Some(CASTLE_BL_K)
        } else {
            None
        }
    }

    /// Get the king move performing this castle.
    pub fn get_castle_move(castle: Castle) -> (m: Move)
        requires
            is_castle_flag(castle),
        ensures
            m.source == spec_castle_squares(castle).0,
            m.dest == spec_castle_squares(castle).1,
            m.promotion is None,
            m.capture is None,
            m.old_castles == 0,
    {
        let (king_source, king_dest, _, _) = castle_squares(castle);
        Move::new(king_source, king_dest)
    }
}

// ------------------------------------------------------------------
// Move application.
// ------------------------------------------------------------------

/// True iff applying `m` to `b` takes the castle branch: the moving piece
/// is a king and the squares name a castle geometry.
pub open spec fn is_castle_move(b: Board, m: Move) -> bool {
    b.spec_piece_at(m.source) == KING as int && spec_castle_flag(m.source, m.dest) != 0
}

/// What the legality layer owes a castle move before it reaches the
/// engine: the king's and the rook's destinations are free, and the
/// side's rook stands on its home square.
pub open spec fn castle_ok(b: Board, gs: GameState, m: Move) -> bool {
    let flag = spec_castle_flag(m.source, m.dest);
    let squares = spec_castle_squares(flag);
    &&& !b.occupied(squares.1)
    &&& !b.occupied(squares.3)
    &&& b.has_at(gs.color as int, ROOK as int, squares.2)
}

/// The precondition of `apply_to`: what this engine assumes of a move that
/// the legality layer has let through.
pub open spec fn move_ok(b: Board, gs: GameState, m: Move) -> bool {
    &&& b.wf()
    &&& gs.wf()
    &&& m.source < 64
    &&& m.dest < 64
    &&& m.source != m.dest
    &&& b.occupied(m.source)
    &&& b.spec_color_at(m.source) == gs.color as int
    &&& m.capture is None
    &&& (b.occupied(m.dest) ==> b.spec_color_at(m.dest) != gs.color as int)
    &&& (match m.promotion {
        Some(p) => b.spec_piece_at(m.source) == PAWN as int && (p == BISHOP || p == KNIGHT || p
            == ROOK || p == QUEEN),
        None => true,
    })
    &&& (is_castle_move(b, m) ==> castle_ok(b, gs, m))
}

/// The exact effect of applying `m` to board `b` and state `gs`: the new
/// board, the new state, and the move as application records it.
pub open spec fn spec_apply(b: Board, gs: GameState, m: Move) -> (Board, GameState, Move) {
    let piece = b.spec_piece_at(m.source);
    let flag = spec_castle_flag(m.source, m.dest);
    let snap = Move {
        source: m.source,
        dest: m.dest,
        promotion: m.promotion,
        capture: m.capture,
        old_castles: gs.castling,
    };
    if piece == KING as int && flag != 0 {
        let squares = spec_castle_squares(flag);
        let b1 = b.spec_move(squares.0, squares.1).spec_move(squares.2, squares.3);
        let gs1 = GameState {
            color: spec_opposite(gs.color),
            castling: gs.castling & !spec_castle_side_mask(flag),
        };
        (b1, gs1, snap)
    } else {
        let castling1 = if piece == KING as int && m.source == E1 {
            gs.castling & !CASTLE_WH_MASK
        } else if piece == KING as int && m.source == E8 {
            gs.castling & !CASTLE_BL_MASK
        } else {
            gs.castling
        };
        let castling2 = if m.source == A1 || m.dest == A1 {
            castling1 & !CASTLE_WH_Q
        } else {
            castling1
        };
        let castling3 = if m.source == H1 || m.dest == H1 {
            castling2 & !CASTLE_WH_K
        } else {
            castling2
        };
        let castling4 = if m.source == A8 || m.dest == A8 {
            castling3 & !CASTLE_BL_Q
        } else {
            castling3
        };
        let castling5 = if m.source == H8 || m.dest == H8 {
            castling4 & !CASTLE_BL_K
        } else {
            castling4
        };
        let recorded = if b.occupied(m.dest) {
            Move {
                source: snap.source,
                dest: snap.dest,
                promotion: snap.promotion,
                capture: Some(b.spec_piece_at(m.dest) as Piece),
                old_castles: snap.old_castles,
            }
        } else {
            snap
        };
        let moved = b.spec_move(m.source, m.dest);
        let b1 = match m.promotion {
            Some(p) => moved.spec_set_piece(m.dest, PAWN as int, p as int),
            None => moved,
        };
        (b1, GameState { color: spec_opposite(gs.color), castling: castling5 }, recorded)
    }
}

impl Move {
    /// Apply this move to `board` and `game_state`.
    ///
    /// Records the captured piece and the prior castle options into the
    /// move, so that `unmake` can restore both exactly.
    pub fn apply_to(&mut self, board: &mut Board, game_state: &mut GameState)
        requires
            move_ok(*old(board), *old(game_state), *old(self)),
        ensures
            *final(board) == spec_apply(*old(board), *old(game_state), *old(self)).0,
            *final(game_state) == spec_apply(*old(board), *old(game_state), *old(self)).1,
            *final(self) == spec_apply(*old(board), *old(game_state), *old(self)).2,
            final(board).wf(),
            final(game_state).wf(),
    {
        proof {
            crate::bits::lemma_u8_and_le(game_state.castling, !CASTLE_WH_MASK);
            crate::bits::lemma_u8_and_le(game_state.castling, !CASTLE_BL_MASK);
        }
        // Save current castling options to unmake later.
        self.old_castles = game_state.castling;

        let piece = board.get_piece(self.source);
        // Handle king castling.
        if piece == KING {
            if let Some(castle) = self.get_castle() {
                let ghost b0 = *board;
                proof {
                    lemma_occupied_bits(b0, spec_castle_squares(castle).2);
                    lemma_move_props(b0, spec_castle_squares(castle).0, spec_castle_squares(
                        castle,
                    ).1);
                }
                if castle == CASTLE_WH_K {
                    board.move_square(E1, G1);
                    board.move_square(H1, F1);
                    game_state.castling = game_state.castling & !CASTLE_WH_MASK;
                } else if castle == CASTLE_WH_Q {
                    board.move_square(E1, C1);
                    board.move_square(A1, D1);
                    game_state.castling = game_state.castling & !CASTLE_WH_MASK;
                } else if castle == CASTLE_BL_K {
                    board.move_square(E8, G8);
                    board.move_square(H8, F8);
                    game_state.castling = game_state.castling & !CASTLE_BL_MASK;
                } else {
                    board.move_square(E8, C8);
                    board.move_square(A8, D8);
                    game_state.castling = game_state.castling & !CASTLE_BL_MASK;
                }
                game_state.color = opposite(game_state.color);
                return;
            } else {
                // A king leaving its home square loses both rights.
                if self.source == E1 {
                    game_state.castling = game_state.castling & !CASTLE_WH_MASK;
                } else if self.source == E8 {
                    game_state.castling = game_state.castling & !CASTLE_BL_MASK;
                }
            }
        }
        // Record captured piece if any.
        if !board.is_empty(self.dest) {
            self.capture = Some(board.get_piece(self.dest));
        }
        // Move the piece.
        let ghost b_before = *board;
        proof {
            lemma_move_props(b_before, self.source, self.dest);
        }
        board.move_square(self.source, self.dest);

        // Apply promotion if any.
        if let Some(promotion) = self.promotion {
            board.set_piece(self.dest, PAWN, promotion);
        }
        // Each rook home square that the move touches — a rook leaving
        // home, or a rook captured at home — drops its own right, and a
        // move touching two rook homes drops both.
        if self.source == A1 || self.dest == A1 {
            proof {
                crate::bits::lemma_u8_and_le(game_state.castling, !CASTLE_WH_Q);
            }
            game_state.castling = game_state.castling & !CASTLE_WH_Q;
        }
        if self.source == H1 || self.dest == H1 {
            proof {
                crate::bits::lemma_u8_and_le(game_state.castling, !CASTLE_WH_K);
            }
            game_state.castling = game_state.castling & !CASTLE_WH_K;
        }
        if self.source == A8 || self.dest == A8 {
            proof {
                crate::bits::lemma_u8_and_le(game_state.castling, !CASTLE_BL_Q);
            }
            game_state.castling = game_state.castling & !CASTLE_BL_Q;
        }
        if self.source == H8 || self.dest == H8 {
            proof {
                crate::bits::lemma_u8_and_le(game_state.castling, !CASTLE_BL_K);
            }
            game_state.castling = game_state.castling & !CASTLE_BL_K;
        }
        // Finally, switch to the opposing player in the game state.
        game_state.color = opposite(game_state.color);
    }
}

// ------------------------------------------------------------------
// Unmaking a move.
// ------------------------------------------------------------------

/// The exact effect of unmaking `m` on the board and state that applying
/// it produced: the restored board and state.
pub open spec fn spec_unmake(b: Board, gs: GameState, m: Move) -> (Board, GameState) {
    let piece = b.spec_piece_at(m.dest);
    let flag = spec_castle_flag(m.source, m.dest);
    let gs1 = GameState { color: spec_opposite(gs.color), castling: m.old_castles };
    if piece == KING as int && flag != 0 {
        let squares = spec_castle_squares(flag);
        (b.spec_move(squares.1, squares.0).spec_move(squares.3, squares.2), gs1)
    } else {
        let moved = b.spec_move(m.dest, m.source);
        let unpromoted = match m.promotion {
            Some(p) => moved.spec_set_piece(m.source, p as int, PAWN as int),
            None => moved,
        };
        let restored = match m.capture {
            Some(cap) => unpromoted.spec_place(m.dest, gs.color as int, cap as int),
            None => unpromoted,
        };
        (restored, gs1)
    }
}

/// The precondition of `unmake`: the board, state and move are exactly
/// what applying this move to some legal position produced.
pub open spec fn unmake_ok(b: Board, gs: GameState, m: Move) -> bool {
    exists|pre: (Board, GameState, Move)|
        move_ok(pre.0, pre.1, pre.2) && #[trigger] spec_apply(pre.0, pre.1, pre.2) == (b, gs, m)
}

/// What application leaves behind: everything `unmake` relies on, stated
/// of the applied board, state and move record.
pub proof fn lemma_apply_props(b: Board, gs: GameState, m: Move)
    requires
        move_ok(b, gs, m),
    ensures
        spec_apply(b, gs, m).0.wf(),
        spec_apply(b, gs, m).1.wf(),
        spec_apply(b, gs, m).1.color == spec_opposite(gs.color),
        spec_apply(b, gs, m).2.source == m.source,
        spec_apply(b, gs, m).2.dest == m.dest,
        spec_apply(b, gs, m).2.promotion == m.promotion,
        spec_apply(b, gs, m).2.old_castles == gs.castling,
        spec_apply(b, gs, m).0.occupied(m.dest),
        (spec_apply(b, gs, m).0.spec_piece_at(m.dest) == KING as int && spec_castle_flag(
            m.source,
            m.dest,
        ) != 0) == is_castle_move(b, m),
        is_castle_move(b, m) ==> spec_apply(b, gs, m).2.capture == m.capture && spec_apply(
            b,
            gs,
            m,
        ).0.occupied(spec_castle_squares(spec_castle_flag(m.source, m.dest)).3),
        !is_castle_move(b, m) ==> {
            let applied = spec_apply(b, gs, m).0;
            &&& spec_apply(b, gs, m).2.capture == (if b.occupied(m.dest) {
                Some(b.spec_piece_at(m.dest) as Piece)
            } else {
                None::<Piece>
            })
            &&& !applied.occupied(m.source)
            &&& applied.spec_color_at(m.dest) == gs.color as int
            &&& applied.spec_piece_at(m.dest) == (match m.promotion {
                Some(p) => p as int,
                None => b.spec_piece_at(m.source),
            })
        },
{
    broadcast use crate::bits::lemma_u8_and_le;

    let flag = spec_castle_flag(m.source, m.dest);
    if is_castle_move(b, m) {
        let squares = spec_castle_squares(flag);
        let mid = b.spec_move(squares.0, squares.1);
        lemma_move_props(b, squares.0, squares.1);
        lemma_occupied_bits(b, squares.2);
        lemma_move_props(mid, squares.2, squares.3);
        let applied = mid.spec_move(squares.2, squares.3);
        crate::board::lemma_same_square_same_occupant(applied, mid, squares.1);
        assert(applied.spec_piece_at(m.dest) == KING as int);
    } else {
        let moved = b.spec_move(m.source, m.dest);
        lemma_move_props(b, m.source, m.dest);
        match m.promotion {
            Some(p) => {
                crate::board::lemma_set_piece_props(moved, m.dest, PAWN as int, p as int);
            },
            None => {},
        }
    }
}

impl Move {
    /// Unmake a move, restoring the exact board and game state from
    /// before its application; it trusts the move record exclusively.
    pub fn unmake(&self, board: &mut Board, game_state: &mut GameState)
        requires
            unmake_ok(*old(board), *old(game_state), *self),
        ensures
            *final(board) == spec_unmake(*old(board), *old(game_state), *self).0,
            *final(game_state) == spec_unmake(*old(board), *old(game_state), *self).1,
            final(board).wf(),
    {
        proof {
            let pre = choose|pre: (Board, GameState, Move)|
                move_ok(pre.0, pre.1, pre.2) && #[trigger] spec_apply(pre.0, pre.1, pre.2) == (
                *old(board),
                *old(game_state),
                *self,
                );
            lemma_apply_props(pre.0, pre.1, pre.2);
        }
        // Always restore previous castle options.
        game_state.castling = self.old_castles;
        // If the move is a castle, unmake it properly.
        let piece = board.get_piece(self.dest);
        if piece == KING {
            if let Some(castle) = self.get_castle() {
                let ghost b_applied = *board;
                proof {
                    lemma_move_props(b_applied, spec_castle_squares(castle).1, spec_castle_squares(
                        castle,
                    ).0);
                }
                if castle == CASTLE_WH_K {
                    board.move_square(G1, E1);
                    board.move_square(F1, H1);
                } else if castle == CASTLE_WH_Q {
                    board.move_square(C1, E1);
                    board.move_square(D1, A1);
                } else if castle == CASTLE_BL_K {
                    board.move_square(G8, E8);
                    board.move_square(F8, H8);
                } else {
                    board.move_square(C8, E8);
                    board.move_square(D8, A8);
                }
                game_state.color = opposite(game_state.color);
                return;
            }
        }
        // Move the piece back.
        let ghost b_applied = *board;
        proof {
            lemma_move_props(b_applied, self.dest, self.source);
        }
        board.move_square(self.dest, self.source);

        // Cancel the promotion.
        if let Some(promotion) = self.promotion {
            proof {
                crate::board::lemma_set_piece_props(
                    b_applied.spec_move(self.dest, self.source),
                    self.source,
                    promotion as int,
                    PAWN as int,
                );
            }
            board.set_piece(self.source, promotion, PAWN);
        }
        // Restore captured piece.
        if let Some(captured) = self.capture {
            board.set_square(self.dest, game_state.color, captured);
        }
        // And switch back to previous player.
        game_state.color = opposite(game_state.color);
    }
}

/// Apply/unmake identity: for any well-formed board, game state and legal
/// move, unmaking what application produced restores the exact prior
/// board and game state, castling rights and side to move included.
pub proof fn lemma_unmake_restores(b: Board, gs: GameState, m: Move)
    requires
        move_ok(b, gs, m),
    ensures
        spec_unmake(spec_apply(b, gs, m).0, spec_apply(b, gs, m).1, spec_apply(b, gs, m).2) == (
        b,
        gs,
        ),
{
    let b1 = spec_apply(b, gs, m).0;
    let gs1 = spec_apply(b, gs, m).1;
    let m1 = spec_apply(b, gs, m).2;
    let out_b = spec_unmake(b1, gs1, m1).0;
    let out_gs = spec_unmake(b1, gs1, m1).1;
    lemma_apply_props(b, gs, m);
    assert(out_gs.color == gs.color);
    assert(out_gs.castling == gs.castling);
    let flag = spec_castle_flag(m.source, m.dest);
    if is_castle_move(b, m) {
        let squares = spec_castle_squares(flag);
        let ks = squares.0;
        let kd = squares.1;
        let rs = squares.2;
        let rd = squares.3;
        assert(ks != kd && ks != rs && ks != rd && kd != rs && kd != rd && rs != rd);
        let mid = b.spec_move(ks, kd);
        lemma_move_props(b, ks, kd);
        lemma_occupied_bits(b, rs);
        crate::board::lemma_same_square_same_occupant(mid, b, rs);
        lemma_move_props(mid, rs, rd);
        let u_mid = b1.spec_move(kd, ks);
        crate::board::lemma_same_square_same_occupant(b1, mid, kd);
        lemma_move_props(b1, kd, ks);
        crate::board::lemma_same_square_same_occupant(u_mid, b1, rd);
        lemma_move_props(u_mid, rd, rs);
        crate::board::lemma_occupant_bits(b, ks);
        crate::board::lemma_occupant_bits(b, rs);
        crate::board::lemma_empty_square_bits(b, kd);
        crate::board::lemma_empty_square_bits(b, rd);
        assert(b.spec_piece_at(rs) == ROOK as int && b.spec_color_at(rs) == gs.color as int) by {
            assert(b.wf_at(rs));
        }
        let out = u_mid.spec_move(rd, rs);
        assert forall|c2: int, j: Square| 0 <= c2 < 2 && j < 64 implies #[trigger] sq_bit(
            out.color_mask(c2),
            j,
        ) == sq_bit(b.color_mask(c2), j) by {
            assert(sq_bit(u_mid.color_mask(c2), j) == (if j == ks {
                c2 == b1.spec_color_at(kd)
            } else if j == kd {
                false
            } else {
                sq_bit(b1.color_mask(c2), j)
            }));
        }
        assert forall|p2: int, j: Square| 0 <= p2 < 6 && j < 64 implies #[trigger] sq_bit(
            out.piece_mask(p2),
            j,
        ) == sq_bit(b.piece_mask(p2), j) by {
            assert(sq_bit(u_mid.piece_mask(p2), j) == (if j == ks {
                p2 == b1.spec_piece_at(kd)
            } else if j == kd {
                false
            } else {
                sq_bit(b1.piece_mask(p2), j)
            }));
        }
        crate::board::lemma_boards_equal(out, b);
        assert(out_b == out);
    } else {
        let s = m.source;
        let d = m.dest;
        let moved = b.spec_move(s, d);
        lemma_move_props(b, s, d);
        let b1v = match m.promotion {
            Some(p) => moved.spec_set_piece(d, PAWN as int, p as int),
            None => moved,
        };
        match m.promotion {
            Some(p) => {
                crate::board::lemma_set_piece_props(moved, d, PAWN as int, p as int);
            },
            None => {},
        }
        assert(b1 == b1v);
        let u1 = b1.spec_move(d, s);
        lemma_move_props(b1, d, s);
        let u2 = match m1.promotion {
            Some(p) => u1.spec_set_piece(s, p as int, PAWN as int),
            None => u1,
        };
        match m1.promotion {
            Some(p) => {
                crate::board::lemma_set_piece_props(u1, s, p as int, PAWN as int);
            },
            None => {},
        }
        let u3 = match m1.capture {
            Some(cap) => u2.spec_place(d, gs1.color as int, cap as int),
            None => u2,
        };
        match m1.capture {
            Some(cap) => {
                crate::board::lemma_place_props(u2, d, gs1.color as int, cap as int);
            },
            None => {},
        }
        crate::board::lemma_occupant_bits(b, s);
        if b.occupied(d) {
            crate::board::lemma_occupant_bits(b, d);
        } else {
            crate::board::lemma_empty_square_bits(b, d);
        }
        assert forall|c2: int, j: Square| 0 <= c2 < 2 && j < 64 implies #[trigger] sq_bit(
            u3.color_mask(c2),
            j,
        ) == sq_bit(b.color_mask(c2), j) by {
            assert(sq_bit(u1.color_mask(c2), j) == (if j == s {
                c2 == b1.spec_color_at(d)
            } else if j == d {
                false
            } else {
                sq_bit(b1.color_mask(c2), j)
            }));
        }
        assert forall|p2: int, j: Square| 0 <= p2 < 6 && j < 64 implies #[trigger] sq_bit(
            u3.piece_mask(p2),
            j,
        ) == sq_bit(b.piece_mask(p2), j) by {
            assert(sq_bit(u1.piece_mask(p2), j) == (if j == s {
                p2 == b1.spec_piece_at(d)
            } else if j == d {
                false
            } else {
                sq_bit(b1.piece_mask(p2), j)
            }));
        }
        crate::board::lemma_boards_equal(u3, b);
        assert(out_b == u3);
    }
}

// ------------------------------------------------------------------
// UCI text codec.
// ------------------------------------------------------------------

/// True iff `c` names a promotion piece in UCI text.
pub open spec fn is_promotion_char(c: char) -> bool {
    c == 'b' || c == 'n' || c == 'r' || c == 'q'
}

/// The promotion piece that a UCI character names.
pub open spec fn promotion_of_char(c: char) -> Piece {
    if c == 'b' {
        BISHOP
    } else if c == 'n' {
        KNIGHT
    } else if c == 'r' {
        ROOK
    } else {
        QUEEN
    }
}

/// The UCI character naming a promotion piece.
pub open spec fn promotion_char(p: Piece) -> char {
    if p == BISHOP {
        'b'
    } else if p == KNIGHT {
        'n'
    } else if p == ROOK {
        'r'
    } else {
        'q'
    }
}

/// The UCI algebraic rendering of a move: two squares, then the
/// promotion piece if there is one.
pub open spec fn spec_uci_chars(m: Move) -> Seq<char> {
    let squares = seq![
        file_char(m.source),
        rank_char(m.source),
        file_char(m.dest),
        rank_char(m.dest),
    ];
    match m.promotion {
        Some(p) => squares + seq![promotion_char(p)],
        None => squares,
    }
}

/// The space-separated UCI renderings of a sequence of moves.
pub open spec fn spec_uci_list_chars(moves: Seq<Move>) -> Seq<char>
    decreases moves.len(),
{
    if moves.len() == 0 {
        Seq::empty()
    } else if moves.len() == 1 {
        spec_uci_chars(moves[0])
    } else {
        spec_uci_list_chars(moves.drop_last()) + seq![' '] + spec_uci_chars(moves.last())
    }
}

impl Move {
    /// Parse a UCI move algebraic notation string to a Move.
    ///
    /// The text must be well-formed: two squares, then at most one
    /// lowercase promotion letter.
    pub fn from_uci_string(m_str: &str) -> (m: Move)
        requires
            m_str@.len() == 4 || m_str@.len() == 5,
            is_file_char(m_str@[0]),
            is_rank_char(m_str@[1]),
            is_file_char(m_str@[2]),
            is_rank_char(m_str@[3]),
            m_str@.len() == 5 ==> is_promotion_char(m_str@[4]),
        ensures
            m.source as int == square_of_chars(m_str@[0], m_str@[1]),
            m.dest as int == square_of_chars(m_str@[2], m_str@[3]),
            m.promotion == (if m_str@.len() == 5 {
                Some(promotion_of_char(m_str@[4]))
            } else {
                None::<Piece>
            }),
            m.capture is None,
            m.old_castles == 0,
    {
        let source = sq_from_chars(m_str.get_char(0), m_str.get_char(1));
        let dest = sq_from_chars(m_str.get_char(2), m_str.get_char(3));
        let promotion = if m_str.unicode_len() == 5 {
            let c = m_str.get_char(4);
            Some(
                if c == 'b' {
                    BISHOP
                } else if c == 'n' {
                    KNIGHT
                } else if c == 'r' {
                    ROOK
                } else {
                    QUEEN
                },
            )
        } else {
            None
        };
        Move { source, dest, promotion, capture: None, old_castles: 0 }
    }

    /// Create a string containing the UCI algebraic notation of this move.
    pub fn to_uci_string(&self) -> (s: String)
        requires
            self.source < 64,
            self.dest < 64,
            match self.promotion {
                Some(p) => p == BISHOP || p == KNIGHT || p == ROOK || p == QUEEN,
                None => true,
            },
        ensures
            s@ == spec_uci_chars(*self),
    {
        let mut move_string = sq_to_string(self.source);
        let dest_string = sq_to_string(self.dest);
        move_string.append(dest_string.as_str());
        if let Some(piece) = self.promotion {
            let promo: &str = if piece == QUEEN {
                "q"
            } else if piece == BISHOP {
                "b"
            } else if piece == KNIGHT {
                "n"
            } else {
                "r"
            };
            proof {
                reveal_strlit("q");
                reveal_strlit("b");
                reveal_strlit("n");
                reveal_strlit("r");
            }
            move_string.append(promo);
        }
        proof {
            assert(move_string@ =~= spec_uci_chars(*self));
        }
        move_string
    }

    /// Create a space-separated string of the UCI renderings of `moves`.
    pub fn list_to_uci_string(moves: &Vec<Move>) -> (s: String)
        requires
            forall|i: int|
                0 <= i < moves@.len() ==> (#[trigger] moves@[i]).source < 64 && moves@[i].dest
                    < 64 && match moves@[i].promotion {
                    Some(p) => p == BISHOP || p == KNIGHT || p == ROOK || p == QUEEN,
                    None => true,
                },
        ensures
            s@ == spec_uci_list_chars(moves@),
    {
        let mut s = String::new();
        let mut i: usize = 0;
        while i < moves.len()
            invariant
                i <= moves@.len(),
                s@ == spec_uci_list_chars(moves@.take(i as int)),
                forall|k: int|
                    0 <= k < moves@.len() ==> (#[trigger] moves@[k]).source < 64 && moves@[k].dest
                        < 64 && match moves@[k].promotion {
                        Some(p) => p == BISHOP || p == KNIGHT || p == ROOK || p == QUEEN,
                        None => true,
                    },
            decreases moves@.len() - i,
        {
            if i > 0 {
                proof {
                    reveal_strlit(" ");
                }
                s.append(" ");
            }
            let m_str = moves[i].to_uci_string();
            s.append(m_str.as_str());
            i = i + 1;
            proof {
                let prefix = moves@.take(i as int);
                assert(prefix.drop_last() =~= moves@.take(i as int - 1));
                assert(prefix.last() == moves@[i as int - 1]);
                assert(s@ =~= spec_uci_list_chars(prefix));
            }
        }
        proof {
            assert(moves@.take(moves@.len() as int) =~= moves@);
        }
        s
    }
}

} // verus!
