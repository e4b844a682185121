use chess_core::board::{
    count_bits, Board, A1, A7, A8, B1, B8, BLACK, C1, C8, D1, D2, D4, D5, D8, E1, E2, E4, E6, E8,
    F1, F4, F8, G1, G2, G8, H1, H7, H8, KING, KNIGHT, PAWN, QUEEN, ROOK, WHITE,
};
use chess_core::castling::{
    CASTLE_BL_K, CASTLE_BL_MASK, CASTLE_BL_Q, CASTLE_MASK, CASTLE_WH_K, CASTLE_WH_MASK,
    CASTLE_WH_Q,
};
use chess_core::movement::Move;
use chess_core::rules::GameState;

#[test]
fn test_apply_to_board() {
    let mut b = Board::new_empty();
    let mut gs = GameState::new();

    // Put 2 enemy knights on board.
    b.set_square(D4, WHITE, KNIGHT);
    b.set_square(F4, BLACK, KNIGHT);
    // Move white knight in a position attacked by black knight.
    let mut m = Move::new(D4, E6);
    m.apply_to(&mut b, &mut gs);
    assert!(b.is_empty(D4));
    assert_eq!(b.get_color(E6), WHITE);
    assert_eq!(b.get_piece(E6), KNIGHT);
    assert_eq!(count_bits(b.combined()), 2);
    assert!(m.capture.is_none());
    // Sack it with black knight
    let mut m = Move::new(F4, E6);
    m.apply_to(&mut b, &mut gs);
    assert_eq!(b.get_color(E6), BLACK);
    assert_eq!(b.get_piece(E6), KNIGHT);
    assert_eq!(count_bits(b.combined()), 1);
    assert_eq!(m.capture.unwrap(), KNIGHT);
}

#[test]
fn test_apply_to_castling() {
    let mut b = Board::new();
    let mut gs = GameState::new();
    assert_eq!(gs.castling, CASTLE_MASK);

    // On a starting board, start by making place for all castles.
    b.clear_square(B1);
    b.clear_square(C1);
    b.clear_square(D1);
    b.clear_square(F1);
    b.clear_square(G1);
    b.clear_square(B8);
    b.clear_square(C8);
    b.clear_square(D8);
    b.clear_square(F8);
    b.clear_square(G8);
    // White queen-side castling.
    Move::new(E1, C1).apply_to(&mut b, &mut gs);
    assert_eq!(b.get_color(C1), WHITE);
    assert_eq!(b.get_piece(C1), KING);
    assert_eq!(b.get_color(D1), WHITE);
    assert_eq!(b.get_piece(D1), ROOK);
    assert!(b.is_empty(A1));
    assert!(b.is_empty(E1));
    assert_eq!(gs.castling, CASTLE_BL_MASK);
    // Black king-side castling.
    Move::new(E8, G8).apply_to(&mut b, &mut gs);
    assert_eq!(b.get_color(G8), BLACK);
    assert_eq!(b.get_piece(G8), KING);
    assert_eq!(b.get_color(F8), BLACK);
    assert_eq!(b.get_piece(F8), ROOK);
    assert!(b.is_empty(H8));
    assert!(b.is_empty(E8));
    // At the end, no more castling options for both sides.
    assert_eq!(gs.castling, 0);
}

#[test]
fn test_unmake() {
    let mut b = Board::new_empty();
    let mut gs = GameState::new();

    // On unmaking a move, the white pawn is back to its original square.
    b.set_square(D4, WHITE, PAWN);
    let mut m = Move::new(D4, D5);
    m.apply_to(&mut b, &mut gs);
    m.unmake(&mut b, &mut gs);
    assert!(b.is_empty(D5));
    assert_eq!(b.get_color(D4), WHITE);
    assert_eq!(b.get_piece(D4), PAWN);

    // Castle options should be properly unmade.
    b.set_square(E1, WHITE, KING);
    b.set_square(H1, WHITE, ROOK);
    let mut m = Move::new(E1, G1);
    m.apply_to(&mut b, &mut gs);
    assert!(!b.is_empty(G1));
    assert!(!b.is_empty(F1));
    assert_eq!(gs.castling, CASTLE_MASK ^ CASTLE_WH_MASK);
    m.unmake(&mut b, &mut gs);
    assert!(b.is_empty(G1));
    assert!(b.is_empty(F1));
    assert_eq!(b.get_piece(E1), KING);
    assert_eq!(b.get_piece(H1), ROOK);
    assert_eq!(gs.castling, CASTLE_MASK);
}

#[test]
fn test_get_castle() {
    assert_eq!(Move::new(E1, C1).get_castle(), Some(CASTLE_WH_Q));
    assert_eq!(Move::new(E1, G1).get_castle(), Some(CASTLE_WH_K));
    assert_eq!(Move::new(E8, C8).get_castle(), Some(CASTLE_BL_Q));
    assert_eq!(Move::new(E8, G8).get_castle(), Some(CASTLE_BL_K));
    assert_eq!(Move::new(D2, D4).get_castle(), None);
}

#[test]
fn test_to_uci_string() {
    assert_eq!(Move::new(A1, D4).to_uci_string(), "a1d4");
    assert_eq!(Move::new(H8, A8).to_uci_string(), "h8a8");
    assert_eq!(Move::new_promotion(H7, H8, QUEEN).to_uci_string(), "h7h8q");
    assert_eq!(Move::new_promotion(H7, H8, KNIGHT).to_uci_string(), "h7h8n");
}

#[test]
fn test_from_uci_string() {
    assert_eq!(Move::from_uci_string("a1d4"), Move::new(A1, D4));
    assert_eq!(Move::from_uci_string("a7a8q"), Move::new_promotion(A7, A8, QUEEN));
    assert_eq!(Move::from_uci_string("a7a8r"), Move::new_promotion(A7, A8, ROOK));
}

#[test]
fn test_kingside_castle_clears_white_rights_only() {
    // Starting from full rights, a white king-side castle clears exactly
    // the two white bits and leaves both black bits set.
    let mut b = Board::new();
    let mut gs = GameState::new();
    b.clear_square(F1);
    b.clear_square(G1);
    assert_eq!(gs.castling, CASTLE_MASK);
    let mut m = Move::new(E1, G1);
    m.apply_to(&mut b, &mut gs);
    assert_eq!(gs.castling, CASTLE_BL_MASK);
    assert_eq!(b.get_piece(G1), KING);
    assert_eq!(b.get_piece(F1), ROOK);
    assert_eq!(gs.color, BLACK);
}

#[test]
fn test_rook_capture_revokes_rights() {
    // A black pawn capturing the white rook on h1 clears the white
    // king-side bit even though the moving piece is a pawn.
    let mut b = Board::new_empty();
    b.set_square(H1, WHITE, ROOK);
    b.set_square(G2, BLACK, PAWN);
    let mut gs = GameState::new();
    gs.color = BLACK;
    let mut m = Move::new(G2, H1);
    m.apply_to(&mut b, &mut gs);
    assert_eq!(gs.castling, CASTLE_MASK ^ CASTLE_WH_K);
    assert_eq!(m.capture, Some(ROOK));
    assert_eq!(b.get_piece(H1), PAWN);
    assert_eq!(b.get_color(H1), BLACK);
}

#[test]
fn test_rook_takes_rook_clears_both_queenside_rights() {
    // One move touches two rook home squares: the white a1 rook captures
    // the black a8 rook, so both queen-side bits fall at once.
    let mut b = Board::new_empty();
    b.set_square(A1, WHITE, ROOK);
    b.set_square(A8, BLACK, ROOK);
    let mut gs = GameState::new();
    let mut m = Move::new(A1, A8);
    m.apply_to(&mut b, &mut gs);
    assert_eq!(gs.castling, chess_core::castling::CASTLE_K_MASK);
    assert_eq!(m.capture, Some(ROOK));
    m.unmake(&mut b, &mut gs);
    assert_eq!(gs.castling, CASTLE_MASK);
    assert_eq!(b.get_color(A1), WHITE);
    assert_eq!(b.get_color(A8), BLACK);
}

#[test]
fn test_rook_takes_rook_clears_both_kingside_rights() {
    // The mirrored capture on the h-file: the black h8 rook captures the
    // white h1 rook, and both king-side bits fall at once.
    let mut b = Board::new_empty();
    b.set_square(H1, WHITE, ROOK);
    b.set_square(H8, BLACK, ROOK);
    let mut gs = GameState::new();
    gs.color = BLACK;
    let mut m = Move::new(H8, H1);
    m.apply_to(&mut b, &mut gs);
    assert_eq!(gs.castling, chess_core::castling::CASTLE_Q_MASK);
    assert_eq!(m.capture, Some(ROOK));
    m.unmake(&mut b, &mut gs);
    assert_eq!(gs.castling, CASTLE_MASK);
    assert_eq!(b.get_color(H1), WHITE);
    assert_eq!(b.get_color(H8), BLACK);
}

#[test]
fn test_promotion_then_unmake_restores_pawn() {
    let mut b = Board::new_empty();
    b.set_square(A7, WHITE, PAWN);
    let mut gs = GameState::new();
    let mut m = Move::new_promotion(A7, A8, QUEEN);
    m.apply_to(&mut b, &mut gs);
    assert!(b.is_empty(A7));
    assert_eq!(b.get_piece(A8), QUEEN);
    assert_eq!(b.get_color(A8), WHITE);
    m.unmake(&mut b, &mut gs);
    assert!(b.is_empty(A8));
    assert_eq!(b.get_piece(A7), PAWN);
    assert_eq!(b.get_color(A7), WHITE);
}

#[test]
fn test_promotion_capture_unmake() {
    // Promote by capturing on the last rank, then unmake both effects.
    let mut b = Board::new_empty();
    b.set_square(G2, BLACK, PAWN);
    b.set_square(H1, WHITE, ROOK);
    let mut gs = GameState::new();
    gs.color = BLACK;
    let mut m = Move::new_promotion(G2, H1, QUEEN);
    m.apply_to(&mut b, &mut gs);
    assert_eq!(b.get_piece(H1), QUEEN);
    assert_eq!(b.get_color(H1), BLACK);
    assert_eq!(m.capture, Some(ROOK));
    m.unmake(&mut b, &mut gs);
    assert_eq!(b.get_piece(G2), PAWN);
    assert_eq!(b.get_color(G2), BLACK);
    assert_eq!(b.get_piece(H1), ROOK);
    assert_eq!(b.get_color(H1), WHITE);
    assert_eq!(gs.color, BLACK);
    assert_eq!(gs.castling, CASTLE_MASK);
}

#[test]
fn test_e2e4_scenario() {
    // Starting position, apply e2e4: source empty, destination holds a
    // white pawn, no capture, side to move black, rights unchanged; then
    // unmake restores the exact starting position.
    let mut b = Board::new();
    let mut gs = GameState::new();
    let mut m = Move::from_uci_string("e2e4");
    assert_eq!(m.source, E2);
    assert_eq!(m.dest, E4);
    m.apply_to(&mut b, &mut gs);
    assert!(b.is_empty(E2));
    assert_eq!(b.get_color(E4), WHITE);
    assert_eq!(b.get_piece(E4), PAWN);
    assert!(m.capture.is_none());
    assert_eq!(gs.color, BLACK);
    assert_eq!(gs.castling, CASTLE_MASK);
    m.unmake(&mut b, &mut gs);
    assert!(b == Board::new());
    assert_eq!(gs.color, WHITE);
    assert_eq!(gs.castling, CASTLE_MASK);
}

#[test]
fn test_all_castles_unmake() {
    // Apply and unmake each of the four castles in turn; each time the
    // board and state come back exactly.
    let moves = vec![
        (Move::new(E1, G1), WHITE),
        (Move::new(E1, C1), WHITE),
        (Move::new(E8, G8), BLACK),
        (Move::new(E8, C8), BLACK),
    ];
    for (mv, color) in moves {
        let mut b = Board::new_from_fen("r3k2r/8/8/8/8/8/8/R3K2R");
        let reference = b.clone();
        let mut gs = GameState::new();
        gs.color = color;
        let mut m = mv;
        m.apply_to(&mut b, &mut gs);
        assert_ne!(gs.castling, CASTLE_MASK);
        m.unmake(&mut b, &mut gs);
        assert!(b == reference);
        assert_eq!(gs.castling, CASTLE_MASK);
        assert_eq!(gs.color, color);
    }
}

#[test]
fn test_get_castle_move() {
    assert_eq!(Move::get_castle_move(CASTLE_WH_Q), Move::new(E1, C1));
    assert_eq!(Move::get_castle_move(CASTLE_WH_K), Move::new(E1, G1));
    assert_eq!(Move::get_castle_move(CASTLE_BL_Q), Move::new(E8, C8));
    assert_eq!(Move::get_castle_move(CASTLE_BL_K), Move::new(E8, G8));
}

#[test]
fn test_uci_roundtrip() {
    let texts = vec!["a1d4", "e2e4", "h7h8q", "a2a1n", "b7b8r", "c2c1b"];
    for text in texts {
        let m = Move::from_uci_string(text);
        assert_eq!(m.to_uci_string(), text);
    }
}

#[test]
fn test_list_to_uci_string() {
    let moves = vec![Move::new(E2, E4), Move::new_promotion(H7, H8, QUEEN)];
    assert_eq!(Move::list_to_uci_string(&moves), "e2e4 h7h8q");
    let none: Vec<Move> = vec![];
    assert_eq!(Move::list_to_uci_string(&none), "");
}

#[test]
fn test_castling_sides_table() {
    assert_eq!(
        chess_core::castling::castling_sides(0),
        (5, 6, None, chess_core::castling::CASTLE_K_MASK)
    );
    assert_eq!(
        chess_core::castling::castling_sides(1),
        (3, 2, Some(1), chess_core::castling::CASTLE_Q_MASK)
    );
}

#[test]
fn test_null_move_string() {
    assert_eq!(chess_core::movement::UCI_NULL_MOVE_STR, "0000");
}
