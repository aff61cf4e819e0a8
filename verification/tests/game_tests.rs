//! The session state machine: selection, committing, promotion, undo,
//! view mode, external moves, and terminal states.

use chesscore::fen::to_fen;
use chesscore::game::ChessGame;
use chesscore::model::{GameResult, PromotionPiece, Side, Sq};

fn sq(file: u8, rank: u8) -> Sq {
    Sq { file, rank }
}

const START_FEN: &str = "rnbqkbnr/pppppppp/8/8/8/8/PPPPPPPP/RNBQKBNR w KQkq - 0 1";

#[test]
fn test_new_game_state() {
    let game = ChessGame::new();
    assert_eq!(to_fen(game.current_position()), START_FEN);
    assert_eq!(game.player_color(), Side::White);
    assert!(!game.is_thinking());
    assert!(!game.is_view_mode());
    assert!(game.selected_square().is_none());
    assert!(game.pending_promotion().is_none());
    assert_eq!(game.position_history.len(), 1);
    assert_eq!(game.move_history.len(), 0);
    assert_eq!(
        game.message(),
        "Welcome to Chess Engine Player! Make a move to begin."
    );
}

#[test]
fn test_select_and_commit_keeps_history_invariant() {
    let mut game = ChessGame::new();
    // Selecting the e2 pawn does not move.
    assert!(!game.select_square(sq(4, 1)));
    assert_eq!(game.selected_square(), Some(sq(4, 1)));
    assert!(!game.possible_moves().is_empty());
    // Clicking e4 commits the move.
    assert!(game.select_square(sq(4, 3)));
    assert_eq!(game.position_history.len(), game.move_history.len() + 1);
    assert_eq!(game.move_history.len(), 1);
    assert!(game.selected_square().is_none());
    assert_eq!(game.message(), "Move: e2e4");
    // The engine replies; the invariant holds after every commit.
    assert!(game.make_engine_move("e7e5"));
    assert_eq!(game.position_history.len(), game.move_history.len() + 1);
    assert_eq!(game.move_history.len(), 2);
    assert_eq!(game.message(), "Engine moved: e7e5");
    // Records: one full pair.
    let records = game.get_move_records();
    assert_eq!(records.len(), 1);
    assert_eq!(records[0].move_num, 1);
    assert_eq!(records[0].white_move.as_ref().unwrap().notation, "e4");
    assert_eq!(records[0].black_move.as_ref().unwrap().notation, "e5");
}

#[test]
fn test_select_wrong_turn_is_noop() {
    let mut game = ChessGame::new();
    game.set_player_color(Side::Black);
    // It is white's turn, so the human playing black cannot select.
    assert!(!game.select_square(sq(4, 1)));
    assert!(game.selected_square().is_none());
}

#[test]
fn test_undo_restores_history() {
    let mut game = ChessGame::new();
    let initial = to_fen(game.current_position());
    assert!(!game.select_square(sq(4, 1)));
    assert!(game.select_square(sq(4, 3)));
    assert_eq!(game.move_history.len(), 1);
    // Not thinking, a single ply: undo removes it.
    game.undo_move_pair();
    assert_eq!(game.move_history.len(), 0);
    assert_eq!(game.position_history.len(), 1);
    assert_eq!(to_fen(game.current_position()), initial);
    assert!(game.get_move_records().is_empty());
    assert_eq!(game.message(), "Undid last move.");
}

#[test]
fn test_undo_while_thinking_removes_one_ply() {
    let mut game = ChessGame::new();
    assert!(!game.select_square(sq(4, 1)));
    assert!(game.select_square(sq(4, 3)));
    game.set_thinking(true);
    game.undo_move_pair();
    assert!(!game.is_thinking());
    assert_eq!(game.move_history.len(), 0);
    assert_eq!(to_fen(game.current_position()), START_FEN);
    assert_eq!(game.message(), "Undid your move.");
}

#[test]
fn test_undo_pair_removes_both_plies() {
    let mut game = ChessGame::new();
    assert!(!game.select_square(sq(4, 1)));
    assert!(game.select_square(sq(4, 3)));
    assert!(game.make_engine_move("e7e5"));
    game.undo_move_pair();
    assert_eq!(game.move_history.len(), 0);
    assert_eq!(to_fen(game.current_position()), START_FEN);
    assert!(game.get_move_records().is_empty());
    assert_eq!(game.message(), "Undid last move pair.");
}

#[test]
fn test_undo_empty_history_is_noop() {
    let mut game = ChessGame::new();
    game.undo_move_pair();
    assert_eq!(game.message(), "No moves to undo.");
    assert_eq!(game.position_history.len(), 1);
}

#[test]
fn test_external_move_rejects_short_strings() {
    let mut game = ChessGame::new();
    let before = to_fen(game.current_position());
    assert!(!game.make_engine_move(""));
    assert!(!game.make_engine_move("e2"));
    assert!(!game.make_engine_move("e2e"));
    assert_eq!(game.move_history.len(), 0);
    assert_eq!(to_fen(game.current_position()), before);
}

#[test]
fn test_external_move_rejects_bad_coordinates() {
    let mut game = ChessGame::new();
    let before = to_fen(game.current_position());
    assert!(!game.make_engine_move("i2e4"));
    assert!(!game.make_engine_move("e9e4"));
    assert!(!game.make_engine_move("e2i4"));
    assert!(!game.make_engine_move("e2e9"));
    assert!(!game.make_engine_move("zzzz"));
    assert_eq!(game.move_history.len(), 0);
    assert_eq!(to_fen(game.current_position()), before);
}

#[test]
fn test_external_move_rejects_illegal_move() {
    let mut game = ChessGame::new();
    // e2 to e5 is not a legal pawn move from the start.
    assert!(!game.make_engine_move("e2e5"));
    assert_eq!(game.move_history.len(), 0);
}

#[test]
fn test_view_mode_blocks_selection() {
    let mut game = ChessGame::new();
    assert!(!game.select_square(sq(4, 1)));
    assert!(game.select_square(sq(4, 3)));
    game.view_move_at(0);
    assert!(game.is_view_mode());
    assert_eq!(game.view_move_index(), 0);
    assert_eq!(to_fen(game.current_position()), START_FEN);
    // No click mutates anything while viewing.
    let positions = game.position_history.len();
    let moves = game.move_history.len();
    assert!(!game.select_square(sq(4, 6)));
    assert!(!game.select_square(sq(4, 4)));
    assert_eq!(game.position_history.len(), positions);
    assert_eq!(game.move_history.len(), moves);
    // Leaving view mode snaps back to the live position.
    game.set_view_mode(false);
    assert!(!game.is_view_mode());
    assert_eq!(game.view_move_index(), game.position_history.len() - 1);
}

#[test]
fn test_view_move_at_rejects_out_of_range() {
    let mut game = ChessGame::new();
    game.view_move_at(5);
    assert!(!game.is_view_mode());
}

#[test]
fn test_promotion_flow() {
    let mut game = ChessGame::new();
    assert!(game
        .reset_from_fen("8/P6k/8/8/8/8/8/7K w - - 0 1", Side::White)
        .is_ok());
    assert!(!game.select_square(sq(0, 6)));
    // Clicking the promotion square opens the choice without committing.
    assert!(game.select_square(sq(0, 7)));
    assert_eq!(game.pending_promotion(), Some((sq(0, 6), sq(0, 7))));
    assert_eq!(game.move_history.len(), 0);
    assert_eq!(game.message(), "Select promotion piece");
    // Choosing the piece commits.
    assert!(game.promote_pawn(PromotionPiece::Queen));
    assert!(game.pending_promotion().is_none());
    assert_eq!(game.move_history.len(), 1);
    let records = game.get_move_records();
    assert_eq!(records[0].white_move.as_ref().unwrap().notation, "a8=Q");
}

#[test]
fn test_promote_without_pending_is_noop() {
    let mut game = ChessGame::new();
    assert!(!game.promote_pawn(PromotionPiece::Queen));
    assert_eq!(game.move_history.len(), 0);
}

#[test]
fn test_external_promotion_move() {
    let mut game = ChessGame::new();
    assert!(game
        .reset_from_fen("8/P6k/8/8/8/8/8/7K w - - 0 1", Side::White)
        .is_ok());
    assert!(game.make_engine_move("a7a8q"));
    let records = game.get_move_records();
    assert_eq!(records[0].white_move.as_ref().unwrap().notation, "a8=Q");
    // Without a promotion letter the same coordinates match nothing.
    let mut game2 = ChessGame::new();
    assert!(game2
        .reset_from_fen("8/P6k/8/8/8/8/8/7K w - - 0 1", Side::White)
        .is_ok());
    assert!(!game2.make_engine_move("a7a8"));
}

#[test]
fn test_flip_side_and_messages() {
    let mut game = ChessGame::new();
    game.flip_side();
    assert_eq!(game.player_color(), Side::Black);
    assert_eq!(game.message(), "You are playing as Black.");
    game.flip_side();
    assert_eq!(game.player_color(), Side::White);
    assert_eq!(game.message(), "You are playing as White.");
    game.set_thinking(true);
    assert_eq!(game.message(), "Engine is thinking...");
}

#[test]
fn test_game_result_checkmate_and_stalemate() {
    let mut game = ChessGame::new();
    assert!(game.game_result().is_none());
    assert!(game
        .reset_from_fen("R6k/8/6K1/8/8/8/8/8 b - - 0 1", Side::White)
        .is_ok());
    assert_eq!(game.game_result(), Some(GameResult::WhiteCheckmates));
    assert!(game
        .reset_from_fen("k7/2Q5/8/8/8/8/8/7K b - - 0 1", Side::White)
        .is_ok());
    assert_eq!(game.game_result(), Some(GameResult::Stalemate));
}

#[test]
fn test_reset_clears_everything() {
    let mut game = ChessGame::new();
    assert!(!game.select_square(sq(4, 1)));
    assert!(game.select_square(sq(4, 3)));
    game.reset();
    assert_eq!(game.position_history.len(), 1);
    assert_eq!(game.move_history.len(), 0);
    assert!(game.get_move_records().is_empty());
    assert_eq!(to_fen(game.current_position()), START_FEN);
    assert_eq!(game.message(), "Game reset. Make a move to begin.");
}

#[test]
fn test_reset_from_fen_rejects_and_keeps_state() {
    let mut game = ChessGame::new();
    assert!(!game.select_square(sq(4, 1)));
    assert!(game.select_square(sq(4, 3)));
    let before = to_fen(game.current_position());
    let r = game.reset_from_fen("8/8/8/8/8/8/8/8 w - - 0 1", Side::White);
    assert_eq!(r.unwrap_err(), "Missing white king (K)");
    assert_eq!(game.move_history.len(), 1);
    assert_eq!(to_fen(game.current_position()), before);
}

#[test]
fn test_castling_through_session() {
    let mut game = ChessGame::new();
    assert!(game
        .reset_from_fen("4k3/8/8/8/8/8/8/4K2R w K - 0 1", Side::White)
        .is_ok());
    assert!(!game.select_square(sq(4, 0)));
    assert!(game.select_square(sq(6, 0)));
    let records = game.get_move_records();
    assert_eq!(records[0].white_move.as_ref().unwrap().notation, "O-O");
    // The rook came along.
    assert_eq!(
        to_fen(game.current_position()),
        "4k3/8/8/8/8/8/8/5RK1 b - - 0 1"
    );
}

#[test]
fn test_black_first_move_opens_no_record() {
    let mut game = ChessGame::new();
    assert!(game
        .reset_from_fen("4k3/8/8/8/8/8/4P3/4K3 b - - 0 1", Side::Black)
        .is_ok());
    assert!(!game.select_square(sq(4, 7)));
    assert!(game.select_square(sq(3, 7)));
    // A leading black ply opens no record.
    assert!(game.get_move_records().is_empty());
    // The white reply opens the first record.
    assert!(game.make_engine_move("e2e4"));
    let records = game.get_move_records();
    assert_eq!(records.len(), 1);
    assert_eq!(records[0].move_num, 1);
    assert_eq!(records[0].white_move.as_ref().unwrap().notation, "e4");
    assert!(records[0].black_move.is_none());
}

#[test]
fn test_double_pawn_move_records_en_passant_file() {
    let mut game = ChessGame::new();
    assert!(game
        .reset_from_fen("4k3/8/8/8/3p4/8/4P3/4K3 w - - 0 1", Side::White)
        .is_ok());
    assert!(!game.select_square(sq(4, 1)));
    assert!(game.select_square(sq(4, 3)));
    // The double move past an enemy pawn leaves an en-passant target.
    assert_eq!(
        to_fen(game.current_position()),
        "4k3/8/8/8/3pP3/8/8/4K3 b - e3 0 1"
    );
    // The capture en passant is then a legal reply.
    assert!(game.make_engine_move("d4e3"));
    assert_eq!(
        to_fen(game.current_position()),
        "4k3/8/8/8/8/4p3/8/4K3 w - - 0 1"
    );
}

#[test]
fn test_reselection_and_clearing() {
    let mut game = ChessGame::new();
    assert!(!game.select_square(sq(4, 1)));
    // Clicking another own piece reselects.
    assert!(!game.select_square(sq(3, 1)));
    assert_eq!(game.selected_square(), Some(sq(3, 1)));
    // Clicking an empty, unreachable square clears the selection.
    assert!(!game.select_square(sq(0, 4)));
    assert!(game.selected_square().is_none());
    assert!(game.possible_moves().is_empty());
}
