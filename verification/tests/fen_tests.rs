//! The position-string codec, the load validation, and the setup
//! workspace.

use chesscore::error::AppError;
use chesscore::fen::{parse_position, safe_parse_board, to_fen, Position, SetupState};
use chesscore::model::{PieceKind, Side, Sq};

const START_FEN: &str = "rnbqkbnr/pppppppp/8/8/8/8/PPPPPPPP/RNBQKBNR w KQkq - 0 1";

#[test]
fn test_start_position_renders_standard_fen() {
    let p = Position::start();
    assert_eq!(to_fen(&p), START_FEN);
}

#[test]
fn test_parse_and_render_round_trip() {
    let fens = [
        START_FEN,
        "4k3/8/8/8/8/8/8/4K2R w K - 0 1",
        "r3k2r/8/8/8/8/8/8/R3K2R b KQkq - 0 1",
        "8/P6k/8/8/8/8/8/7K w - - 0 1",
    ];
    for fen in fens {
        let p = parse_position(fen).unwrap();
        assert_eq!(to_fen(&p), fen, "round trip failed for {}", fen);
    }
}

#[test]
fn test_parse_reads_fields() {
    let p = parse_position("4k3/8/8/3Pp3/8/8/8/4K3 b KQq e3 0 7").unwrap();
    assert_eq!(p.side_to_move, Side::Black);
    assert!(p.castle_wk && p.castle_wq && !p.castle_bk && p.castle_bq);
    assert_eq!(p.ep_file, Some(4));
    let d5 = p.squares[(4usize * 8) + 3];
    assert_eq!(d5, Some((PieceKind::Pawn, Side::White)));
}

#[test]
fn test_parse_rejects_malformed_placement() {
    assert!(parse_position("").is_none());
    assert!(parse_position("8/8/8/8 w - - 0 1").is_none());
    assert!(parse_position("9/8/8/8/8/8/8/8 w - - 0 1").is_none());
    assert!(parse_position("8/8/8/8/8/8/8/7 w - - 0 1").is_none());
    assert!(parse_position("8/8/8/8/8/8/8/8 x - - 0 1").is_none());
    assert!(parse_position("8/8/8/8/8/8/8/8").is_none());
}

#[test]
fn test_safe_parse_board_validation_messages() {
    assert_eq!(
        safe_parse_board("8/8/8/8/8/8/8/8 w - - 0 1").unwrap_err(),
        "Missing white king (K)"
    );
    assert_eq!(
        safe_parse_board("8/8/8/8/8/8/8/K7 w - - 0 1").unwrap_err(),
        "Missing black king (k)"
    );
    assert_eq!(
        safe_parse_board("P3k3/8/8/8/8/8/8/K7 w - - 0 1").unwrap_err(),
        "Pawns cannot be on rank 8"
    );
    assert_eq!(
        safe_parse_board("4k3/8/8/8/8/8/8/K2p4 w - - 0 1").unwrap_err(),
        "Pawns cannot be on rank 1"
    );
    assert!(safe_parse_board("4k3/8/8/8/8/8/8/4K3 w - - 0 1").is_ok());
}

#[test]
fn test_safe_parse_board_defers_to_library_for_sane_checks() {
    // Kings adjacent: our pre-checks pass, the move-legality library
    // rejects the position, and its reason is surfaced.
    let r = safe_parse_board("kK6/8/8/8/8/8/8/8 w - - 0 1");
    assert!(r.is_err());
}

#[test]
fn test_setup_from_board_and_rebuild() {
    let p = Position::start();
    let mut state = SetupState::from_board(&p, Side::White);
    assert_eq!(state.fen_string, START_FEN);
    assert!(state.fen_error.is_none());
    assert_eq!(
        state.selected_palette,
        Some((PieceKind::Pawn, Side::White))
    );
    // Remove the white king and rebuild: the text follows the board and
    // the validation reports the violation.
    state.board.squares[4] = None;
    state.rebuild_fen();
    assert_eq!(state.fen_error.as_deref(), Some("Missing white king (K)"));
    // Put it back and the position validates again.
    state.board.squares[4] = Some((PieceKind::King, Side::White));
    state.rebuild_fen();
    assert!(state.fen_error.is_none());
    assert_eq!(state.fen_string, START_FEN);
}

#[test]
fn test_setup_rebuild_drops_unbacked_castling_rights() {
    let p = Position::start();
    let mut state = SetupState::from_board(&p, Side::White);
    // Remove the h1 rook: the white kingside right leaves the text.
    state.board.squares[7] = None;
    state.rebuild_fen();
    assert_eq!(
        state.fen_string,
        "rnbqkbnr/pppppppp/8/8/8/8/PPPPPPPP/RNBQKBN1 w Qkq - 0 1"
    );
}

#[test]
fn test_setup_parse_fen_to_state() {
    let p = Position::start();
    let mut state = SetupState::from_board(&p, Side::White);
    state.parse_fen_to_state("4k3/8/8/8/8/8/8/4K2R w K - 0 1");
    assert!(state.fen_error.is_none());
    assert_eq!(state.board.side_to_move, Side::White);
    assert!(state.board.castle_wk && !state.board.castle_wq);
    // A bad string keeps the board and records the error.
    state.parse_fen_to_state("not a position");
    assert!(state.fen_error.is_some());
    assert!(state.board.castle_wk && !state.board.castle_wq);
    assert_eq!(state.fen_string, "not a position");
}

#[test]
fn test_piece_at() {
    let p = Position::start();
    assert_eq!(
        p.piece_at(Sq { file: 4, rank: 0 }),
        Some((PieceKind::King, Side::White))
    );
    assert_eq!(
        p.piece_at(Sq { file: 3, rank: 7 }),
        Some((PieceKind::Queen, Side::Black))
    );
    assert_eq!(p.piece_at(Sq { file: 4, rank: 4 }), None);
}

#[test]
fn test_app_error_from() {
    let e = AppError::from("engine gone");
    assert_eq!(e.message(), "engine gone");
    let e2 = AppError::from(String::from("boom"));
    assert_eq!(e2.message(), "boom");
    let e3 = AppError::Io(String::from("pipe closed"));
    assert_eq!(e3.message(), "pipe closed");
}
