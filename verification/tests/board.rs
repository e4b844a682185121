use chess_core::board::{
    count_bits, opposite, sq_from_string, sq_to_string, Board, A1, A2, A7, A8, B1, BLACK, D1, D8,
    E1, E8, H8, KING, PAWN, QUEEN, ROOK, WHITE,
};

#[test]
fn test_opposite() {
    assert_eq!(opposite(WHITE), BLACK);
    assert_eq!(opposite(BLACK), WHITE);
}

#[test]
fn test_sq_from_string() {
    assert_eq!(sq_from_string("a1"), A1);
    assert_eq!(sq_from_string("a2"), A2);
    assert_eq!(sq_from_string("a8"), A8);
    assert_eq!(sq_from_string("b1"), B1);
    assert_eq!(sq_from_string("h8"), H8);
}

#[test]
fn test_sq_to_string() {
    assert_eq!(sq_to_string(A1), "a1");
    assert_eq!(sq_to_string(A2), "a2");
    assert_eq!(sq_to_string(A8), "a8");
    assert_eq!(sq_to_string(H8), "h8");
}

#[test]
fn test_new_from_fen() {
    let b1 = Board::new();
    let b2 = Board::new_from_fen("rnbqkbnr/pppppppp/8/8/8/8/PPPPPPPP/RNBQKBNR w KQkq - 0 1");
    assert!(b1 == b2);
}

#[test]
fn test_get_color() {
    let b = Board::new();
    assert_eq!(b.get_color(A1), WHITE);
    assert_eq!(b.get_color(A2), WHITE);
    assert_eq!(b.get_color(A7), BLACK);
    assert_eq!(b.get_color(A8), BLACK);
    assert_eq!(b.get_color(D1), WHITE);
    assert_eq!(b.get_color(D8), BLACK);
    assert_eq!(b.get_color(E1), WHITE);
    assert_eq!(b.get_color(E8), BLACK);
}

#[test]
fn test_get_piece() {
    let b = Board::new();
    assert_eq!(b.get_piece(A1), ROOK);
    assert_eq!(b.get_piece(A2), PAWN);
    assert_eq!(b.get_piece(A7), PAWN);
    assert_eq!(b.get_piece(A8), ROOK);
    assert_eq!(b.get_piece(D1), QUEEN);
    assert_eq!(b.get_piece(D8), QUEEN);
    assert_eq!(b.get_piece(E1), KING);
    assert_eq!(b.get_piece(E8), KING);
}

#[test]
fn test_find_king() {
    let b = Board::new_empty();
    assert_eq!(b.find_king(WHITE), None);
    let b = Board::new();
    assert_eq!(b.find_king(WHITE), Some(E1));
    assert_eq!(b.find_king(BLACK), Some(E8));
}

#[test]
fn test_num_pieces() {
    assert_eq!(Board::new_empty().num_pieces(), 0);
    assert_eq!(Board::new().num_pieces(), 32);
}

#[test]
fn test_square_codec_roundtrip_all() {
    for sq in 0u8..64u8 {
        let text = sq_to_string(sq);
        assert_eq!(text.len(), 2);
        assert_eq!(sq_from_string(&text), sq);
    }
}

#[test]
fn test_sq_from_string_examples() {
    assert_eq!(sq_from_string("e4"), 35);
    assert_eq!(sq_from_string("e2"), 33);
    assert_eq!(sq_to_string(35), "e4");
}

#[test]
fn test_count_bits_exact() {
    assert_eq!(count_bits(0), 0);
    assert_eq!(count_bits(1), 1);
    assert_eq!(count_bits(0b1011), 3);
    assert_eq!(count_bits(u64::MAX), 64);
}

#[test]
fn test_occupancy_after_mutations() {
    // Invariant C observed through the public surface: color occupancy
    // and piece occupancy stay in step through place/remove/relocate.
    let mut b = Board::new_empty();
    b.set_square(E1, WHITE, KING);
    b.set_square(A7, BLACK, PAWN);
    b.move_square(A7, A8);
    b.clear_square(E1);
    assert_eq!(b.num_pieces(), 1);
    assert!(b.is_empty(E1));
    assert!(b.is_empty(A7));
    assert_eq!(b.get_piece(A8), PAWN);
    assert_eq!(b.get_color(A8), BLACK);
}

#[test]
fn test_new_from_fen_stops_on_malformed() {
    // A well-formed prefix is kept; parsing stops at the first unknown
    // character, leaving a partial board.
    let b = Board::new_from_fen("4k3/xyz");
    assert_eq!(b.num_pieces(), 1);
    assert_eq!(b.find_king(BLACK), Some(E8));
}

#[test]
fn test_draw_start_board() {
    let b = Board::new();
    let text = b.draw();
    assert_eq!(
        text,
        "8 rnbqkbnr\n7 pppppppp\n6 ........\n5 ........\n4 ........\n3 ........\n2 PPPPPPPP\n1 RNBQKBNR\n  abcdefgh"
    );
}

#[test]
fn test_color_to_string() {
    assert_eq!(chess_core::board::color_to_string(WHITE), "white");
    assert_eq!(chess_core::board::color_to_string(BLACK), "black");
}
