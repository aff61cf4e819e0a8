//! The trusted boundary to the `chess` crate, the move-legality library.
//!
//! Everything crosses this boundary as plain values: positions travel as
//! position strings (the rank-major interchange format), moves as
//! [`Mv`](crate::model::Mv). What the crate computes is given names here
//! ([`fen_accepted`], [`legal_moves_of`], [`fen_after`], [`in_check_of`]);
//! each wrapper below states its result in terms of those names, and the
//! verified code never looks behind them.

use crate::model::{Mv, PieceKind, Sq};
use vstd::prelude::*;

verus! {

/// Whether the move-legality library accepts `fen` as a structurally valid
/// position (both kings present, no side already capturing the king, and so
/// on). Names the success of `chess::Board::from_str`.
pub uninterp spec fn fen_accepted(fen: Seq<char>) -> bool;

/// The full list of legal moves in the position `fen` describes, in the
/// order the library enumerates them. Meaningful only when
/// `fen_accepted(fen)`. Names the output of `chess::MoveGen::new_legal`.
pub uninterp spec fn legal_moves_of(fen: Seq<char>) -> Seq<Mv>;

/// The position string reached by playing `m`, a legal move, from the
/// position `fen` describes. Names `chess::Board::make_move_new` composed
/// with the library's position formatting. Meaningful only when
/// `fen_accepted(fen)` and `legal_moves_of(fen).contains(m)`.
pub uninterp spec fn fen_after(fen: Seq<char>, m: Mv) -> Seq<char>;

/// Whether the side to move in the position `fen` describes stands in
/// check. Meaningful only when `fen_accepted(fen)`. Names
/// `chess::Board::checkers`.
pub uninterp spec fn in_check_of(fen: Seq<char>) -> bool;

#[verifier::external_type_specification]
#[verifier::external_body]
pub struct ExChessMove(chess::ChessMove);

#[verifier::external_type_specification]
#[verifier::external_body]
pub struct ExChessSquare(chess::Square);

/// Relies on chess::Square::get_file / get_rank: `to_index` is by its
/// source always below 8, so the converted square is well-formed.
#[verifier::external_body]
fn sq_of(s: chess::Square) -> (r: Sq)
    ensures
        r.wf(),
{
    Sq { file: s.get_file().to_index() as u8, rank: s.get_rank().to_index() as u8 }
}

/// Relies on chess::ChessMove::get_source / get_dest / get_promotion;
/// move generation only ever promotes to the four promotion kinds, so the
/// converted move is well-formed.
#[verifier::external_body]
fn mv_of(cm: chess::ChessMove) -> (r: Mv)
    ensures
        r.wf(),
{
    let p = match cm.get_promotion() {
        Some(chess::Piece::Queen) => Some(PieceKind::Queen),
        Some(chess::Piece::Rook) => Some(PieceKind::Rook),
        Some(chess::Piece::Bishop) => Some(PieceKind::Bishop),
        Some(chess::Piece::Knight) => Some(PieceKind::Knight),
        _ => None,
    };
    Mv { from: sq_of(cm.get_source()), to: sq_of(cm.get_dest()), promotion: p }
}

/// Relies on chess::Square::make_square and chess::Rank / chess::File
/// `from_index`.
#[verifier::external_body]
fn sq_to(s: Sq) -> chess::Square {
    chess::Square::make_square(
        chess::Rank::from_index(s.rank as usize),
        chess::File::from_index(s.file as usize),
    )
}

/// Relies on chess::ChessMove::new: rebuilds the library's move value from
/// a coordinate move.
#[verifier::external_body]
fn cm_of(m: Mv) -> chess::ChessMove {
    let p = match m.promotion {
        Some(PieceKind::Queen) => Some(chess::Piece::Queen),
        Some(PieceKind::Rook) => Some(chess::Piece::Rook),
        Some(PieceKind::Bishop) => Some(chess::Piece::Bishop),
        Some(PieceKind::Knight) => Some(chess::Piece::Knight),
        _ => None,
    };
    chess::ChessMove::new(sq_to(m.from), sq_to(m.to), p)
}

/// Relies on chess::Board::from_str: `None` exactly when the library
/// accepts the position string, otherwise the library's own description of
/// the rejection.
#[verifier::external_body]
pub(crate) fn chess_parse_err(fen: &str) -> (r: Option<String>)
    ensures
        r is None <==> fen_accepted(fen@),
{
    match <chess::Board as core::str::FromStr>::from_str(fen) {
        Ok(_) => None,
        Err(e) => Some(format!("{:?}", e)),
    }
}

/// Relies on chess::MoveGen::new_legal: enumerates every legal move of an
/// accepted position. Square indices of enumerated moves are always on the
/// board and promotions are always one of the four promotion kinds, so each
/// converted move is well-formed.
#[verifier::external_body]
pub(crate) fn chess_legal_moves(fen: &str) -> (r: Option<Vec<Mv>>)
    ensures
        r is Some <==> fen_accepted(fen@),
        r matches Some(v) ==> v@ == legal_moves_of(fen@),
        r matches Some(v) ==> forall|i: int| 0 <= i < v@.len() ==> (#[trigger] v@[i]).wf(),
{
    let b = match <chess::Board as core::str::FromStr>::from_str(fen) {
        Ok(b) => b,
        Err(_) => return None,
    };
    let mut v: Vec<Mv> = Vec::new();
    for cm in chess::MoveGen::new_legal(&b) {
        v.push(mv_of(cm));
    }
    Some(v)
}

/// Relies on chess::Board::legal and chess::Board::make_move_new: plays `m`
/// when it is one of the position's legal moves and renders the resulting
/// position; `legal` is by its source exactly membership in the
/// `MoveGen::new_legal` enumeration. `make_move` always hands the move to
/// the opponent and the rendering writes that side as the second
/// space-separated field, so the rendered side to move is the flip of the
/// input's.
#[verifier::external_body]
pub(crate) fn chess_apply(fen: &str, m: Mv) -> (r: Option<String>)
    requires
        m.wf(),
    ensures
        (r is Some) == (fen_accepted(fen@) && legal_moves_of(fen@).contains(m)),
        r matches Some(nf) ==> nf@ == fen_after(fen@, m),
        r matches Some(nf) ==> (crate::fen::stm_token_of(fen@) matches Some(c)
            ==> crate::fen::stm_token_of(nf@) == Some(c.spec_other())),
{
    let b = match <chess::Board as core::str::FromStr>::from_str(fen) {
        Ok(b) => b,
        Err(_) => return None,
    };
    let cm = cm_of(m);
    if b.legal(cm) {
        Some(b.make_move_new(cm).to_string())
    } else {
        None
    }
}

/// Relies on chess::Board::checkers: the number of pieces giving check to
/// the side to move of an accepted position; positive exactly when that
/// side stands in check.
#[verifier::external_body]
pub(crate) fn chess_checkers(fen: &str) -> (r: Option<u32>)
    ensures
        r is Some <==> fen_accepted(fen@),
        r matches Some(c) ==> ((c > 0) <==> in_check_of(fen@)),
{
    match <chess::Board as core::str::FromStr>::from_str(fen) {
        Ok(b) => Some(b.checkers().popcnt()),
        Err(_) => None,
    }
}

} // verus!
