//! Notation generation: disambiguation, castling, capture and promotion
//! marks, and the check/checkmate suffixes.

use chesscore::fen::parse_position;
use chesscore::game::ChessGame;
use chesscore::model::{Mv, PieceKind, Side, Sq};

fn sq(file: u8, rank: u8) -> Sq {
    Sq { file, rank }
}

fn mv(from: Sq, to: Sq) -> Mv {
    Mv {
        from,
        to,
        promotion: None,
    }
}

#[test]
fn test_rook_disambiguation_file() {
    // White rooks on a1 and h1 can both reach d1. (Kings stand aside so
    // the move-legality library accepts the position.)
    let board = parse_position("8/8/8/7K/4k3/8/8/R6R w - - 0 1").unwrap();
    let game = ChessGame::new();

    let chess_move = mv(sq(0, 0), sq(3, 0));
    let details = game.move_to_details(chess_move, &board, Side::White);

    assert!(
        details.notation.contains("Rad1") || details.notation.contains("Rda1"),
        "Expected Rad1 or similar with file disambiguation, got: {}",
        details.notation
    );
}

#[test]
fn test_rook_disambiguation_rank() {
    // White rooks on a1 and a8 can both reach a4.
    let board = parse_position("R7/7k/8/8/8/8/8/R6K w - - 0 1").unwrap();
    let game = ChessGame::new();

    let chess_move = mv(sq(0, 0), sq(0, 3));
    let details = game.move_to_details(chess_move, &board, Side::White);

    assert!(
        details.notation.contains("R1a4") || details.notation.contains("Ra14"),
        "Expected R1a4 or similar with rank disambiguation, got: {}",
        details.notation
    );
}

#[test]
fn test_knight_disambiguation_both() {
    // White knights on b1 and d1 can both reach c3; their files differ,
    // so the file letter disambiguates.
    let board = parse_position("7k/8/8/8/8/8/8/1N1N3K w - - 0 1").unwrap();
    let game = ChessGame::new();

    let chess_move = mv(sq(1, 0), sq(2, 2));
    let details = game.move_to_details(chess_move, &board, Side::White);

    assert!(
        details.notation.starts_with("Nb"),
        "Expected Nb1c3 or Nbc3, got: {}",
        details.notation
    );
}

#[test]
fn test_castling_short_and_long() {
    let game = ChessGame::new();

    let short_board = parse_position("4k3/8/8/8/8/8/8/4K2R w K - 0 1").unwrap();
    let short = game.move_to_details(mv(sq(4, 0), sq(6, 0)), &short_board, Side::White);
    assert_eq!(short.notation, "O-O");
    assert_eq!(short.display_text, "O-O");
    assert!(!short.is_capture);
    assert!(!short.notation.contains('x'));

    let long_board = parse_position("4k3/8/8/8/8/8/8/R3K3 w Q - 0 1").unwrap();
    let long = game.move_to_details(mv(sq(4, 0), sq(2, 0)), &long_board, Side::White);
    assert_eq!(long.notation, "O-O-O");
    assert!(!long.notation.contains('x'));
    assert!(!long.notation.contains('+'));
}

#[test]
fn test_checkmate_suffix() {
    // Ra8 mates: the black king on h8 has no reply.
    let board = parse_position("7k/R7/6K1/8/8/8/8/8 w - - 0 1").unwrap();
    let game = ChessGame::new();
    let details = game.move_to_details(mv(sq(0, 6), sq(0, 7)), &board, Side::White);
    assert_eq!(details.notation, "Ra8#");
}

#[test]
fn test_check_suffix() {
    // Ra8 gives check with the white king too far to cover the escape.
    let board = parse_position("7k/R7/5K2/8/8/8/8/8 w - - 0 1").unwrap();
    let game = ChessGame::new();
    let details = game.move_to_details(mv(sq(0, 6), sq(0, 7)), &board, Side::White);
    assert_eq!(details.notation, "Ra8+");
}

#[test]
fn test_quiet_move_has_no_suffix() {
    let board = parse_position("rnbqkbnr/pppppppp/8/8/8/8/PPPPPPPP/RNBQKBNR w KQkq - 0 1").unwrap();
    let game = ChessGame::new();
    let details = game.move_to_details(mv(sq(4, 1), sq(4, 3)), &board, Side::White);
    assert_eq!(details.notation, "e4");
    assert!(!details.is_capture);
    assert_eq!(details.piece, PieceKind::Pawn);
}

#[test]
fn test_pawn_capture_notation() {
    // exd6: the full notation names the source file, the display text
    // drops it (the piece is drawn instead).
    let board = parse_position("4k3/8/3p4/4P3/8/8/8/4K3 w - - 0 1").unwrap();
    let game = ChessGame::new();
    let details = game.move_to_details(mv(sq(4, 4), sq(3, 5)), &board, Side::White);
    assert_eq!(details.notation, "exd6");
    assert_eq!(details.display_text, "xd6");
    assert!(details.is_capture);
}

#[test]
fn test_piece_capture_notation() {
    // A rook takes a pawn: 'x' and the destination.
    let board = parse_position("4k3/8/8/8/8/8/3p4/3R3K w - - 0 1").unwrap();
    let game = ChessGame::new();
    let details = game.move_to_details(mv(sq(3, 0), sq(3, 1)), &board, Side::White);
    assert_eq!(details.notation, "Rxd2");
    assert_eq!(details.piece, PieceKind::Rook);
    assert!(details.is_capture);
}
