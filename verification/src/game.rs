//! The game-session state machine: selection, promotion handling, move
//! commitment, the append-only position and move history backing undo, the
//! move-record list shown to the player, and the time-travel view mode.

use crate::chessio::{
    chess_apply, chess_checkers, chess_legal_moves, fen_accepted, fen_after, in_check_of,
    legal_moves_of,
};
use crate::fen::{
    board_data, parse_position, safe_parse_board, spec_parse_position, spec_safe_parse_ok,
    spec_to_fen, to_fen, Position,
};
use crate::model::{GameResult, Mv, PieceKind, PromotionPiece, Side, Sq};
use crate::notation::{
    details_data, move_to_details, spec_coord_notation, spec_move_details, MoveDetails,
};
use vstd::prelude::*;

verus! {

/// One full move as shown in the history panel: the move number and the
/// two half-moves.
#[derive(Debug, Clone)]
pub struct MoveRecord {
    pub move_num: usize,
    pub white_move: Option<MoveDetails>,
    pub black_move: Option<MoveDetails>,
}

/// The session. The position history holds one entry per ply, including
/// the initial position; it is the source of truth that undo restores
/// from.
pub struct ChessGame {
    pub position_history: Vec<Position>,
    pub move_history: Vec<Mv>,
    pub move_records: Vec<MoveRecord>,
    pub selected_square: Option<Sq>,
    pub possible_moves: Vec<Mv>,
    pub message: String,
    pub thinking: bool,
    pub player_color: Side,
    pub view_mode: bool,
    pub view_move_index: usize,
    pub pending_promotion: Option<(Sq, Sq)>,
}

impl ChessGame {
    /// The live position: the last entry of the history, whatever the view
    /// mode shows.
    pub open spec fn live(self) -> Position {
        self.position_history@.last()
    }

    /// The position every read-only consumer sees: the live one, or the
    /// viewed one while time-travelling.
    pub open spec fn spec_current(self) -> Position {
        if self.view_mode {
            self.position_history@[self.view_move_index as int]
        } else {
            self.live()
        }
    }

    /// Well-formedness of the whole session. In particular the history
    /// invariant: one more position than moves, always.
    pub open spec fn wf(self) -> bool {
        &&& self.position_history@.len() == self.move_history@.len() + 1
        &&& forall|i: int|
            0 <= i < self.position_history@.len() ==> (#[trigger] self.position_history@[i]).wf()
        &&& forall|i: int|
            0 <= i < self.move_history@.len() ==> (#[trigger] self.move_history@[i]).wf()
        &&& self.view_move_index < self.position_history@.len()
        &&& forall|i: int|
            0 <= i < self.move_records@.len() ==> (#[trigger] self.move_records@[i]).move_num == i
                + 1
        &&& forall|i: int|
            0 <= i < self.move_records@.len() ==> (#[trigger] self.move_records@[i]).white_move
                is Some
        &&& match self.pending_promotion {
            Some((a, b)) => a.wf() && b.wf() && self.selected_square is None,
            None => true,
        }
        &&& match self.selected_square {
            Some(s) => s.wf(),
            None => true,
        }
        &&& forall|i: int|
            0 <= i < self.possible_moves@.len() ==> (#[trigger] self.possible_moves@[i]).wf()
        &&& (self.selected_square matches Some(s) ==> forall|i: int|
            0 <= i < self.possible_moves@.len() ==> (#[trigger] self.possible_moves@[i]).from
                == s)
        &&& Self::alternating(self.position_history@)
        &&& self.move_records@.len() == Self::records_len_for(
            self.position_history@[0].side_to_move,
            self.move_history@.len() as int,
        )
        &&& forall|i: int|
            0 <= i < self.move_records@.len() ==> ((#[trigger] self.move_records@[i]).black_move
                is Some <==> Self::white_ply(self.position_history@[0].side_to_move, i) + 2
                <= self.move_history@.len())
    }

    /// Ply `k` handed the move to the opponent.
    pub open spec fn alt_at(ph: Seq<Position>, k: int) -> bool {
        ph[k + 1].side_to_move == ph[k].side_to_move.spec_other()
    }

    /// The sides of the position history strictly alternate: each ply hands
    /// the move to the opponent.
    pub open spec fn alternating(ph: Seq<Position>) -> bool {
        forall|k: int| 0 <= k < ph.len() - 1 ==> #[trigger] Self::alt_at(ph, k)
    }

    /// How many records `n` plies produce when `first` made the first ply:
    /// one per white half-move (a leading black ply opens no record).
    pub open spec fn records_len_for(first: Side, n: int) -> int {
        if first is White {
            (n + 1) / 2
        } else {
            n / 2
        }
    }

    /// The ply index of the white half-move that opened record `i`.
    pub open spec fn white_ply(first: Side, i: int) -> int {
        if first is White {
            2 * i
        } else {
            2 * i + 1
        }
    }

    /// In an alternating history the side of entry `k` is determined by
    /// the first side and the parity of `k`.
    pub proof fn lemma_alternating_parity(ph: Seq<Position>, k: int)
        requires
            Self::alternating(ph),
            0 <= k < ph.len(),
        ensures
            ph[k].side_to_move == (if k % 2 == 0 {
                ph[0].side_to_move
            } else {
                ph[0].side_to_move.spec_other()
            }),
        decreases k,
    {
        if k > 0 {
            Self::lemma_alternating_parity(ph, k - 1);
            assert(Self::alt_at(ph, k - 1));
        }
    }

    /// The shape of a committed move `m` played from `pre.live()`: the new
    /// position (the library's answer, reparsed) and the move are appended,
    /// the records absorb the move's details, selection and pending
    /// promotion are cleared, view mode ends, and the view index snaps to
    /// the new last entry.
    pub open spec fn committed(pre: ChessGame, post: ChessGame, m: Mv) -> bool {
        let f = spec_to_fen(pre.live());
        let nf = fen_after(f, m);
        let d = spec_move_details(pre.live(), m);
        let n = pre.position_history@.len() as int;
        &&& fen_accepted(f)
        &&& legal_moves_of(f).contains(m)
        &&& spec_parse_position(nf) is Some
        &&& post.position_history@.len() == n + 1
        &&& post.position_history@.subrange(0, n) == pre.position_history@
        &&& board_data(post.position_history@.last()) == spec_parse_position(nf)->0
        &&& post.move_history@ == pre.move_history@.push(m)
        &&& Self::records_after(
            pre.move_records@,
            post.move_records@,
            pre.live().side_to_move,
            d,
        )
        &&& post.selected_square is None
        &&& post.possible_moves@.len() == 0
        &&& post.pending_promotion is None
        &&& post.view_move_index == n
        &&& !post.view_mode
        &&& post.player_color == pre.player_color
    }

    /// How the record list absorbs one committed half-move: a white move
    /// opens a new record, a black move fills the last record's second
    /// half (and is dropped if no record exists yet).
    pub open spec fn records_after(
        pre: Seq<MoveRecord>,
        post: Seq<MoveRecord>,
        mover: Side,
        d: crate::notation::DetailsData,
    ) -> bool {
        if mover is White {
            &&& post.len() == pre.len() + 1
            &&& post.subrange(0, pre.len() as int) == pre
            &&& post.last().move_num == pre.len() + 1
            &&& (post.last().white_move matches Some(w) && details_data(w) == d)
            &&& post.last().black_move is None
        } else if pre.len() > 0 {
            &&& post.len() == pre.len()
            &&& post.subrange(0, pre.len() - 1) == pre.subrange(0, pre.len() - 1)
            &&& post.last().move_num == pre.last().move_num
            &&& post.last().white_move == pre.last().white_move
            &&& (post.last().black_move matches Some(b) && details_data(b) == d)
        } else {
            post == pre
        }
    }

    /// The record list after one half-move is taken back: a white
    /// half-move removes its whole record, a black half-move clears only
    /// the second half of the last record.
    pub open spec fn trim_one(records: Seq<MoveRecord>, mover: Side) -> Seq<MoveRecord> {
        if records.len() == 0 {
            records
        } else if mover is White {
            records.drop_last()
        } else {
            records.update(
                records.len() - 1,
                MoveRecord {
                    move_num: records.last().move_num,
                    white_move: records.last().white_move,
                    black_move: None,
                },
            )
        }
    }

    /// The shape of one ply taken back: the last position and move leave
    /// the history, and the records are trimmed by the side that had made
    /// that ply (the side to move of the position the ply was played
    /// from).
    pub open spec fn undone_one(pre: ChessGame, post: ChessGame) -> bool {
        let n = pre.position_history@.len() as int;
        &&& post.position_history@ == pre.position_history@.drop_last()
        &&& post.move_history@ == pre.move_history@.drop_last()
        &&& post.move_records@ == Self::trim_one(
            pre.move_records@,
            pre.position_history@[n - 2].side_to_move,
        )
    }

    pub fn new() -> (g: ChessGame)
        ensures
            g.wf(),
            g.position_history@.len() == 1,
            board_data(g.position_history@[0]) == crate::fen::spec_start_board(),
            g.move_history@.len() == 0,
            g.move_records@.len() == 0,
            g.selected_square is None,
            g.pending_promotion is None,
            g.possible_moves@.len() == 0,
            !g.thinking,
            g.player_color == Side::White,
            !g.view_mode,
            g.view_move_index == 0,
            g.message@ == "Welcome to Chess Engine Player! Make a move to begin."@,
    {
        let start = Position::start();
        let mut position_history: Vec<Position> = Vec::new();
        position_history.push(start);
        ChessGame {
            position_history,
            move_history: Vec::new(),
            move_records: Vec::new(),
            selected_square: None,
            possible_moves: Vec::new(),
            message: String::from_str("Welcome to Chess Engine Player! Make a move to begin."),
            thinking: false,
            player_color: Side::White,
            view_mode: false,
            view_move_index: 0,
            pending_promotion: None,
        }
    }

    /// Restarts from the standard starting position, keeping the player's
    /// colour.
    pub fn reset(&mut self)
        requires
            old(self).wf(),
        ensures
            final(self).wf(),
            final(self).position_history@.len() == 1,
            board_data(final(self).position_history@[0]) == crate::fen::spec_start_board(),
            final(self).move_history@.len() == 0,
            final(self).move_records@.len() == 0,
            final(self).selected_square is None,
            final(self).pending_promotion is None,
            final(self).possible_moves@.len() == 0,
            !final(self).thinking,
            final(self).player_color == old(self).player_color,
            !final(self).view_mode,
            final(self).view_move_index == 0,
            final(self).message@ == "Game reset. Make a move to begin."@,
    {
        let start = Position::start();
        self.position_history.clear();
        self.position_history.push(start);
        self.move_history.clear();
        self.move_records.clear();
        self.selected_square = None;
        self.possible_moves.clear();
        self.message = String::from_str("Game reset. Make a move to begin.");
        self.thinking = false;
        self.view_mode = false;
        self.view_move_index = 0;
        self.pending_promotion = None;
    }

    /// Replaces the session with one loaded from a position string, after
    /// the full validation pass of [`safe_parse_board`]. On rejection the
    /// previous state is kept and the reason is returned.
    pub fn reset_from_fen(&mut self, fen: &str, player_color: Side) -> (r: Result<(), String>)
        requires
            old(self).wf(),
        ensures
            final(self).wf(),
            r is Ok <==> spec_safe_parse_ok(fen@),
            r is Err ==> *final(self) == *old(self),
            r is Ok ==> {
                &&& final(self).position_history@.len() == 1
                &&& spec_parse_position(fen@) == Some(board_data(final(self).position_history@[0]))
                &&& final(self).move_history@.len() == 0
                &&& final(self).move_records@.len() == 0
                &&& final(self).selected_square is None
                &&& final(self).pending_promotion is None
                &&& final(self).possible_moves@.len() == 0
                &&& !final(self).thinking
                &&& final(self).player_color == player_color
                &&& !final(self).view_mode
                &&& final(self).view_move_index == 0
                &&& final(self).message@ == "Custom position loaded. Make a move to begin."@
            },
    {
        match safe_parse_board(fen) {
            Err(e) => Err(e),
            Ok(p) => {
                self.position_history.clear();
                self.position_history.push(p);
                self.player_color = player_color;
                self.move_history.clear();
                self.move_records.clear();
                self.selected_square = None;
                self.possible_moves.clear();
                self.message = String::from_str("Custom position loaded. Make a move to begin.");
                self.thinking = false;
                self.view_mode = false;
                self.view_move_index = 0;
                self.pending_promotion = None;
                Ok(())
            },
        }
    }

    /// The position consumers should display: the live one, or the viewed
    /// historical one while in view mode.
    pub fn current_position(&self) -> (p: &Position)
        requires
            self.wf(),
        ensures
            *p == self.spec_current(),
            p.wf(),
    {
        if self.view_mode {
            &self.position_history[self.view_move_index]
        } else {
            &self.position_history[self.position_history.len() - 1]
        }
    }

    pub fn is_view_mode(&self) -> (b: bool)
        ensures
            b == self.view_mode,
    {
        self.view_mode
    }

    pub fn view_move_index(&self) -> (i: usize)
        ensures
            i == self.view_move_index,
    {
        self.view_move_index
    }

    /// Leaving view mode snaps the view index back to the last position.
    pub fn set_view_mode(&mut self, enabled: bool)
        requires
            old(self).wf(),
        ensures
            final(self).wf(),
            final(self).view_mode == enabled,
            enabled ==> *final(self) == (ChessGame { view_mode: enabled, ..*old(self) }),
            !enabled ==> *final(self) == (ChessGame {
                view_mode: enabled,
                view_move_index: (old(self).position_history@.len() - 1) as usize,
                ..*old(self)
            }),
    {
        self.view_mode = enabled;
        if !enabled {
            self.view_move_index = self.position_history.len() - 1;
        }
    }

    /// Enters view mode at `index`; out-of-range indices are rejected with
    /// no state change.
    pub fn view_move_at(&mut self, index: usize)
        requires
            old(self).wf(),
        ensures
            final(self).wf(),
            index >= old(self).position_history@.len() ==> *final(self) == *old(self),
            index < old(self).position_history@.len() ==> {
                &&& final(self).view_mode
                &&& final(self).view_move_index == index
                &&& final(self).selected_square is None
                &&& final(self).possible_moves@.len() == 0
                &&& final(self).position_history@ == old(self).position_history@
                &&& final(self).move_history@ == old(self).move_history@
                &&& final(self).move_records@ == old(self).move_records@
                &&& final(self).message == old(self).message
                &&& final(self).thinking == old(self).thinking
                &&& final(self).player_color == old(self).player_color
                &&& final(self).pending_promotion == old(self).pending_promotion
            },
    {
        if index < self.position_history.len() {
            self.view_move_index = index;
            self.view_mode = true;
            self.selected_square = None;
            self.possible_moves.clear();
        }
    }

    pub fn get_move_records(&self) -> (r: &Vec<MoveRecord>)
        ensures
            r@ == self.move_records@,
    {
        &self.move_records
    }

    pub fn selected_square(&self) -> (r: Option<Sq>)
        ensures
            r == self.selected_square,
    {
        self.selected_square
    }

    pub fn possible_moves(&self) -> (r: &Vec<Mv>)
        ensures
            r@ == self.possible_moves@,
    {
        &self.possible_moves
    }

    pub fn message(&self) -> (r: &str)
        ensures
            r@ == self.message@,
    {
        self.message.as_str()
    }

    pub fn is_thinking(&self) -> (b: bool)
        ensures
            b == self.thinking,
    {
        self.thinking
    }

    pub fn player_color(&self) -> (c: Side)
        ensures
            c == self.player_color,
    {
        self.player_color
    }

    pub fn pending_promotion(&self) -> (r: Option<(Sq, Sq)>)
        ensures
            r == self.pending_promotion,
    {
        self.pending_promotion
    }

    pub fn set_player_color(&mut self, color: Side)
        requires
            old(self).wf(),
        ensures
            final(self).wf(),
            final(self).player_color == color,
            *final(self) == (ChessGame {
                player_color: color,
                message: final(self).message,
                ..*old(self)
            }),
            color is White ==> final(self).message@ == "You are playing as White."@,
            color is Black ==> final(self).message@ == "You are playing as Black."@,
    {
        self.player_color = color;
        self.message = match color {
            Side::White => String::from_str("You are playing as White."),
            Side::Black => String::from_str("You are playing as Black."),
        };
    }

    /// Toggles which colour the human controls; history and position are
    /// untouched.
    pub fn flip_side(&mut self)
        requires
            old(self).wf(),
        ensures
            final(self).wf(),
            final(self).player_color == old(self).player_color.spec_other(),
            *final(self) == (ChessGame {
                player_color: final(self).player_color,
                message: final(self).message,
                ..*old(self)
            }),
            final(self).player_color is White ==> final(self).message@
                == "You are playing as White."@,
            final(self).player_color is Black ==> final(self).message@
                == "You are playing as Black."@,
    {
        let other = self.player_color.other();
        self.set_player_color(other);
    }

    /// Whether `sq` holds a piece of the side to move.
    pub open spec fn spec_piece_own(p: Position, sq: Sq) -> bool {
        p.at(sq.file as int, sq.rank as int) matches Some((_, c)) && c == p.side_to_move
    }

    /// Whether moving from `from` to `to` is a pawn reaching the farthest
    /// rank for the side to move.
    pub open spec fn spec_is_pawn_promotion(p: Position, from: Sq, to: Sq) -> bool {
        &&& (p.at(from.file as int, from.rank as int) matches Some((k, _)) && k
            == PieceKind::Pawn)
        &&& ((p.side_to_move is White && to.rank == 7) || (p.side_to_move is Black && to.rank
            == 0))
    }

    /// The first index in `ms` of a move to `sq` (or `ms.len()`).
    pub open spec fn first_match_from(ms: Seq<Mv>, i: int, sq: Sq) -> int
        decreases ms.len() - i,
    {
        if i < 0 || i >= ms.len() {
            ms.len() as int
        } else if ms[i].to == sq {
            i
        } else {
            Self::first_match_from(ms, i + 1, sq)
        }
    }

    fn record_move(&mut self, mover: Side, details: MoveDetails)
        ensures
            Self::records_after(
                old(self).move_records@,
                final(self).move_records@,
                mover,
                details_data(details),
            ),
            *final(self) == (ChessGame { move_records: final(self).move_records, ..*old(self) }),
    {
        match mover {
            Side::White => {
                let move_num = match self.move_records.len().checked_add(1) {
                    Some(n) => n,
                    None => 0,
                };
                self.move_records.push(
                    MoveRecord { move_num, white_move: Some(details), black_move: None },
                );
                // Reading the grown length as a usize bounds it, which shows
                // the checked addition above cannot have overflowed.
                let new_len: usize = self.move_records.len();
                proof {
                    assert(new_len == old(self).move_records@.len() + 1);
                    assert(old(self).move_records@.len() + 1 <= usize::MAX);
                    assert(final(self).move_records@.subrange(
                        0,
                        old(self).move_records@.len() as int,
                    ) =~= old(self).move_records@);
                }
            },
            Side::Black => {
                match self.move_records.pop() {
                    Some(rec) => {
                        self.move_records.push(
                            MoveRecord {
                                move_num: rec.move_num,
                                white_move: rec.white_move,
                                black_move: Some(details),
                            },
                        );
                        proof {
                            assert(final(self).move_records@.subrange(
                                0,
                                old(self).move_records@.len() - 1,
                            ) =~= old(self).move_records@.subrange(
                                0,
                                old(self).move_records@.len() - 1,
                            ));
                        }
                    },
                    None => {},
                }
            },
        }
    }

    /// Plays `m` from the live position if the move-legality library
    /// confirms it: appends the resulting position and the move, records
    /// the details, clears selection and pending promotion, and snaps the
    /// view index. Message and thinking flag are the caller's business.
    proof fn lemma_commit_wf_basic(pre: ChessGame, post: ChessGame, m: Mv)
        requires
            pre.wf(),
            m.wf(),
            Self::committed(pre, post, m),
            post.position_history@.last().wf(),
        ensures
            post.position_history@.len() == post.move_history@.len() + 1,
            forall|i: int|
                0 <= i < post.position_history@.len() ==> (#[trigger] post
                    .position_history@[i]).wf(),
            forall|i: int|
                0 <= i < post.move_history@.len() ==> (#[trigger] post.move_history@[i]).wf(),
            forall|i: int|
                0 <= i < post.move_records@.len() ==> (#[trigger] post.move_records@[i]).move_num
                    == i + 1,
            forall|i: int|
                0 <= i < post.move_records@.len() ==> (#[trigger] post
                    .move_records@[i]).white_move is Some,
    {
        let n = pre.position_history@.len() as int;
        let rn = pre.move_records@.len() as int;
        assert forall|i: int| 0 <= i < post.position_history@.len() implies (#[trigger] post
            .position_history@[i]).wf() by {
            if i < n {
                assert(post.position_history@[i] == post.position_history@.subrange(0, n)[i]);
                assert(pre.position_history@[i].wf());
            } else {
                assert(post.position_history@[i] == post.position_history@.last());
            }
        }
        assert forall|i: int| 0 <= i < post.move_history@.len() implies (#[trigger] post
            .move_history@[i]).wf() by {
            if i < n - 1 {
                assert(post.move_history@[i] == pre.move_history@[i]);
                assert(pre.move_history@[i].wf());
            }
        }
        assert forall|i: int|
            0 <= i < post.move_records@.len() implies (#[trigger] post.move_records@[i]).move_num
            == i + 1 && post.move_records@[i].white_move is Some by {
            if pre.live().side_to_move is White {
                if i < rn {
                    assert(post.move_records@[i] == post.move_records@.subrange(0, rn)[i]);
                    assert(pre.move_records@[i].move_num == i + 1);
                    assert(pre.move_records@[i].white_move is Some);
                } else {
                    assert(post.move_records@[i] == post.move_records@.last());
                }
            } else if rn > 0 {
                if i < rn - 1 {
                    assert(post.move_records@[i] == post.move_records@.subrange(0, rn - 1)[i]);
                    assert(pre.move_records@.subrange(0, rn - 1)[i] == pre.move_records@[i]);
                    assert(pre.move_records@[i].move_num == i + 1);
                    assert(pre.move_records@[i].white_move is Some);
                } else {
                    assert(post.move_records@[i] == post.move_records@.last());
                    assert(pre.move_records@[rn - 1].move_num == rn);
                    assert(pre.move_records@[rn - 1] == pre.move_records@.last());
                }
            } else {
                assert(post.move_records@ == pre.move_records@);
                assert(pre.move_records@[i].move_num == i + 1);
                assert(pre.move_records@[i].white_move is Some);
            }
        }
    }

    proof fn lemma_commit_wf_alternation(pre: ChessGame, post: ChessGame, m: Mv)
        requires
            pre.wf(),
            Self::committed(pre, post, m),
            post.position_history@.last().side_to_move == pre.live().side_to_move.spec_other(),
        ensures
            Self::alternating(post.position_history@),
    {
        let n = pre.position_history@.len() as int;
        let np = post.position_history@.last();
        assert forall|k: int|
            0 <= k < post.position_history@.len() - 1 implies #[trigger] Self::alt_at(
            post.position_history@,
            k,
        ) by {
            if k < n - 1 {
                assert(post.position_history@[k] == post.position_history@.subrange(0, n)[k]);
                assert(post.position_history@[k + 1] == post.position_history@.subrange(0, n)[k
                    + 1]);
                assert(Self::alt_at(pre.position_history@, k));
            } else {
                assert(post.position_history@[k] == post.position_history@.subrange(0, n)[k]);
                assert(post.position_history@[k] == pre.live());
                assert(post.position_history@[k + 1] == np);
            }
        }
    }

    proof fn lemma_commit_wf_records(pre: ChessGame, post: ChessGame, m: Mv)
        requires
            pre.wf(),
            Self::committed(pre, post, m),
        ensures
            ({
                let first = pre.position_history@[0].side_to_move;
                let mnum = pre.move_history@.len() as int;
                &&& post.move_records@.len() == Self::records_len_for(first, mnum + 1)
                &&& forall|i: int|
                    0 <= i < post.move_records@.len() ==> ((#[trigger] post
                        .move_records@[i]).black_move is Some <==> Self::white_ply(first, i) + 2
                        <= mnum + 1)
            }),
    {
        let n = pre.position_history@.len() as int;
        let rn = pre.move_records@.len() as int;
        let first = pre.position_history@[0].side_to_move;
        let mnum = pre.move_history@.len() as int;
        Self::lemma_alternating_parity(pre.position_history@, n - 1);
        assert(post.move_records@.len() == Self::records_len_for(first, mnum + 1));
        assert forall|i: int|
            0 <= i < post.move_records@.len() implies ((#[trigger] post
            .move_records@[i]).black_move is Some <==> Self::white_ply(first, i) + 2 <= mnum + 1)
            by {
            if pre.live().side_to_move is White {
                if i < rn {
                    assert(post.move_records@[i] == post.move_records@.subrange(0, rn)[i]);
                    assert(post.move_records@[i] == pre.move_records@[i]);
                    assert(pre.move_records@[i].black_move is Some <==> Self::white_ply(first, i)
                        + 2 <= mnum);
                } else {
                    assert(post.move_records@[i] == post.move_records@.last());
                }
            } else if rn > 0 {
                if i < rn - 1 {
                    assert(post.move_records@[i] == post.move_records@.subrange(0, rn - 1)[i]);
                    assert(pre.move_records@.subrange(0, rn - 1)[i] == pre.move_records@[i]);
                    assert(pre.move_records@[i].black_move is Some <==> Self::white_ply(first, i)
                        + 2 <= mnum);
                } else {
                    assert(post.move_records@[i] == post.move_records@.last());
                }
            } else {
                assert(post.move_records@ == pre.move_records@);
            }
        }
    }

    /// A committed move preserves session well-formedness: the appended
    /// position continues the alternation (the move-legality library hands
    /// the move to the opponent), and the record list keeps one record per
    /// white half-move with its second half filled exactly for completed
    /// pairs.
    #[verifier::rlimit(100)]
    proof fn lemma_commit_wf(pre: ChessGame, post: ChessGame, m: Mv)
        requires
            pre.wf(),
            m.wf(),
            Self::committed(pre, post, m),
            post.position_history@.last().wf(),
            crate::fen::stm_token_of(fen_after(spec_to_fen(pre.live()), m)) == Some(
                pre.live().side_to_move.spec_other(),
            ),
        ensures
            post.wf(),
    {
        let n = pre.position_history@.len() as int;
        let nf = fen_after(spec_to_fen(pre.live()), m);
        Self::lemma_commit_wf_basic(pre, post, m);
        crate::fen::lemma_parse_stm_agrees(nf);
        assert(post.position_history@.last().side_to_move == pre.live().side_to_move
            .spec_other());
        Self::lemma_commit_wf_alternation(pre, post, m);
        Self::lemma_commit_wf_records(pre, post, m);
        assert(post.position_history@[0] == post.position_history@.subrange(0, n)[0]);
        assert(post.wf());
    }

    #[verifier::rlimit(100)]
    fn try_commit(&mut self, m: Mv) -> (r: bool)
        requires
            old(self).wf(),
            m.wf(),
        ensures
            final(self).wf(),
            r ==> Self::committed(*old(self), *final(self), m) && final(self).message == old(self).message && final(self).thinking == old(self).thinking,
            !r ==> *final(self) == *old(self),
            r == (fen_accepted(spec_to_fen(old(self).live())) && legal_moves_of(
                spec_to_fen(old(self).live()),
            ).contains(m) && spec_parse_position(
                fen_after(spec_to_fen(old(self).live()), m),
            ) is Some),
    {
        let n = self.position_history.len();
        let mover = self.position_history[n - 1].side_to_move;
        let details = crate::notation::move_to_details(&self.position_history[n - 1], m);
        let f = to_fen(&self.position_history[n - 1]);
        match chess_apply(f.as_str(), m) {
            None => false,
            Some(nf) => {
                match parse_position(nf.as_str()) {
                    None => false,
                    Some(np) => {
                        self.position_history.push(np);
                        self.move_history.push(m);
                        self.record_move(mover, details);
                        self.selected_square = None;
                        self.possible_moves.clear();
                        self.pending_promotion = None;
                        self.view_move_index = self.position_history.len() - 1;
                        self.view_mode = false;
                        proof {
                            assert(final(self).position_history@.subrange(0, n as int) =~= old(self).position_history@);
                            let pre = *old(self);
                            let post = *final(self);
                            assert(post.position_history@.last() == np);
                            assert(Self::committed(pre, post, m));
                            crate::fen::lemma_to_fen_stm(pre.live());
                            Self::lemma_commit_wf(pre, post, m);
                        }
                        true
                    },
                }
            },
        }
    }

    /// The moves of `ms` from index `i` on whose source is `sq`, in order.
    pub open spec fn moves_from_rec(ms: Seq<Mv>, i: int, sq: Sq) -> Seq<Mv>
        decreases ms.len() - i,
    {
        if i < 0 || i >= ms.len() {
            Seq::empty()
        } else if ms[i].from == sq {
            seq![ms[i]] + Self::moves_from_rec(ms, i + 1, sq)
        } else {
            Self::moves_from_rec(ms, i + 1, sq)
        }
    }

    /// The legal moves from `sq` in the position `f` describes (empty when
    /// the library rejects `f`).
    pub open spec fn spec_moves_from(f: Seq<char>, sq: Sq) -> Seq<Mv> {
        if fen_accepted(f) {
            Self::moves_from_rec(legal_moves_of(f), 0, sq)
        } else {
            Seq::empty()
        }
    }

    proof fn lemma_moves_from_props(ms: Seq<Mv>, i: int, sq: Sq)
        ensures
            forall|j: int|
                0 <= j < Self::moves_from_rec(ms, i, sq).len() ==> {
                    &&& (#[trigger] Self::moves_from_rec(ms, i, sq)[j]).from == sq
                    &&& ms.contains(Self::moves_from_rec(ms, i, sq)[j])
                },
        decreases ms.len() - i,
    {
        if 0 <= i < ms.len() {
            Self::lemma_moves_from_props(ms, i + 1, sq);
            if ms[i].from == sq {
                assert(ms.contains(ms[i]));
                assert forall|j: int|
                    0 <= j < Self::moves_from_rec(ms, i, sq).len() implies {
                    &&& (#[trigger] Self::moves_from_rec(ms, i, sq)[j]).from == sq
                    &&& ms.contains(Self::moves_from_rec(ms, i, sq)[j])
                } by {
                    if j > 0 {
                        assert(Self::moves_from_rec(ms, i, sq)[j] == Self::moves_from_rec(
                            ms,
                            i + 1,
                            sq,
                        )[j - 1]);
                    }
                }
            }
        }
    }

    /// Recomputes `possible_moves` as the legal moves whose source is the
    /// selected square (empty without a selection).
    pub fn update_possible_moves(&mut self)
        requires
            old(self).wf(),
        ensures
            final(self).wf(),
            *final(self) == (ChessGame { possible_moves: final(self).possible_moves, ..*old(self) }),
            final(self).possible_moves@ == (match old(self).selected_square {
                Some(sq) => Self::spec_moves_from(spec_to_fen(old(self).live()), sq),
                None => Seq::<Mv>::empty(),
            }),
    {
        self.possible_moves = Vec::new();
        let sq = match self.selected_square {
            None => {
                return ;
            },
            Some(sq) => sq,
        };
        let n = self.position_history.len();
        let f = to_fen(&self.position_history[n - 1]);
        let list = match chess_legal_moves(f.as_str()) {
            None => {
                return ;
            },
            Some(list) => list,
        };
        let len = list.len();
        let mut i: usize = 0;
        let mut out: Vec<Mv> = Vec::new();
        while i < len
            invariant
                i <= len,
                len == list@.len(),
                forall|j: int| 0 <= j < list@.len() ==> (#[trigger] list@[j]).wf(),
                out@ + Self::moves_from_rec(list@, i as int, sq) == Self::moves_from_rec(
                    list@,
                    0,
                    sq,
                ),
                forall|j: int|
                    0 <= j < out@.len() ==> (#[trigger] out@[j]).from == sq && out@[j].wf(),
            decreases len - i,
        {
            let x = list[i];
            let ghost prev = out@;
            if x.from == sq {
                out.push(x);
                proof {
                    assert(out@ + Self::moves_from_rec(list@, i as int + 1, sq) =~= prev
                        + Self::moves_from_rec(list@, i as int, sq));
                }
            }
            i = i + 1;
        }
        proof {
            assert(out@ =~= out@ + Self::moves_from_rec(list@, len as int, sq));
        }
        self.possible_moves = out;
    }

    pub fn set_thinking(&mut self, thinking: bool)
        requires
            old(self).wf(),
        ensures
            final(self).wf(),
            final(self).thinking == thinking,
            *final(self) == (ChessGame {
                thinking,
                message: final(self).message,
                ..*old(self)
            }),
            thinking ==> final(self).message@ == "Engine is thinking..."@,
            !thinking ==> final(self).message == old(self).message,
    {
        self.thinking = thinking;
        if thinking {
            self.message = String::from_str("Engine is thinking...");
        }
    }

    fn is_pawn_promotion_move(&self, m: Mv) -> (r: bool)
        requires
            self.wf(),
            m.wf(),
        ensures
            r == Self::spec_is_pawn_promotion(self.live(), m.from, m.to),
    {
        let n = self.position_history.len();
        match self.position_history[n - 1].piece_at(m.from) {
            Some((PieceKind::Pawn, _)) => {
                match self.position_history[n - 1].side_to_move {
                    Side::White => m.to.rank == 7,
                    Side::Black => m.to.rank == 0,
                }
            },
            _ => false,
        }
    }

    /// Handles one click on `square`.
    ///
    /// Clicks are ignored while it is not the human's turn or while view
    /// mode is active. A click on a destination of the selected piece
    /// commits the move — or, for a pawn reaching its farthest rank, opens
    /// the promotion choice without touching history. Any other click
    /// selects the clicked piece of the side to move, or clears the
    /// selection. Returns true exactly when a move was committed or the
    /// promotion choice was opened.
    #[verifier::rlimit(100)]
    pub fn select_square(&mut self, square: Sq) -> (r: bool)
        requires
            old(self).wf(),
            square.wf(),
        ensures
            final(self).wf(),
            old(self).view_mode ==> (*final(self) == *old(self) && !r),
            ({
                let pre = *old(self);
                let post = *final(self);
                let live = pre.live();
                let f = spec_to_fen(live);
                if live.side_to_move != pre.player_color || pre.view_mode {
                    post == pre && !r
                } else if pre.selected_square matches Some(sel) && Self::first_match_from(
                    pre.possible_moves@,
                    0,
                    square,
                ) < pre.possible_moves@.len() {
                    let mm = pre.possible_moves@[Self::first_match_from(
                        pre.possible_moves@,
                        0,
                        square,
                    )];
                    if mm.promotion is Some || Self::spec_is_pawn_promotion(live, mm.from, mm.to) {
                        &&& post.pending_promotion == Some((mm.from, mm.to))
                        &&& post.selected_square is None
                        &&& post.possible_moves@.len() == 0
                        &&& post.position_history@ == pre.position_history@
                        &&& post.move_history@ == pre.move_history@
                        &&& post.move_records@ == pre.move_records@
                        &&& post.message@ == "Select promotion piece"@
                        &&& post.thinking == pre.thinking
                        &&& post.player_color == pre.player_color
                        &&& post.view_mode == pre.view_mode
                        &&& post.view_move_index == pre.view_move_index
                        &&& r
                    } else if fen_accepted(f) && legal_moves_of(f).contains(mm)
                        && spec_parse_position(fen_after(f, mm)) is Some {
                        &&& Self::committed(pre, post, mm)
                        &&& post.thinking == pre.thinking
                        &&& post.message@ == "Move: "@ + spec_coord_notation(mm)
                        &&& r
                    } else {
                        post == pre && !r
                    }
                } else {
                    &&& !r
                    &&& post.position_history@ == pre.position_history@
                    &&& post.move_history@ == pre.move_history@
                    &&& post.move_records@ == pre.move_records@
                    &&& post.message == pre.message
                    &&& post.thinking == pre.thinking
                    &&& post.player_color == pre.player_color
                    &&& post.view_mode == pre.view_mode
                    &&& post.view_move_index == pre.view_move_index
                    &&& if Self::spec_piece_own(live, square) {
                        &&& post.selected_square == Some(square)
                        &&& post.possible_moves@ == Self::spec_moves_from(f, square)
                        &&& post.pending_promotion is None
                    } else if pre.selected_square is Some {
                        &&& post.selected_square is None
                        &&& post.possible_moves@.len() == 0
                        &&& post.pending_promotion == pre.pending_promotion
                    } else {
                        post == pre
                    }
                }
            }),
    {
        let n = self.position_history.len();
        let stm = self.position_history[n - 1].side_to_move;
        if stm != self.player_color {
            return false;
        }
        if self.view_mode {
            return false;
        }
        let is_selected = match self.selected_square {
            Some(_) => true,
            None => false,
        };
        if is_selected {
            let len = self.possible_moves.len();
            let mut i: usize = 0;
            while i < len && self.possible_moves[i].to != square
                invariant
                    i <= len,
                    len == self.possible_moves@.len(),
                    *self == *old(self),
                    Self::first_match_from(self.possible_moves@, 0, square)
                        == Self::first_match_from(self.possible_moves@, i as int, square),
                decreases len - i,
            {
                i = i + 1;
            }
            proof {
                assert(Self::first_match_from(self.possible_moves@, i as int, square) == if i
                    < len {
                    i as int
                } else {
                    len as int
                });
            }
            if i < len {
                let mm = self.possible_moves[i];
                let promo_set = match mm.promotion {
                    Some(_) => true,
                    None => false,
                };
                let needs_promotion = promo_set || self.is_pawn_promotion_move(mm);
                if needs_promotion {
                    self.pending_promotion = Some((mm.from, mm.to));
                    self.message = String::from_str("Select promotion piece");
                    self.selected_square = None;
                    self.possible_moves = Vec::new();
                    return true;
                }
                if self.try_commit(mm) {
                    let cs = crate::notation::coord_string(mm);
                    let mut msg = String::from_str("Move: ");
                    msg.append(cs.as_str());
                    self.message = msg;
                    return true;
                }
                return false;
            }
        }
        // A fresh selection attempt on the clicked square.
        let own = match self.position_history[n - 1].piece_at(square) {
            Some((_, c)) => c == stm,
            None => false,
        };
        if own {
            // Taking up a new selection abandons any promotion still
            // awaiting its piece.
            self.pending_promotion = None;
            self.possible_moves = Vec::new();
            self.selected_square = Some(square);
            self.update_possible_moves();
        } else if is_selected {
            self.selected_square = None;
            self.possible_moves = Vec::new();
        }
        false
    }

    /// Builds the pending promotion's move with the chosen piece and
    /// commits it; a no-op returning false when no promotion is pending.
    /// The pending pair is cleared either way.
    #[verifier::rlimit(100)]
    pub fn promote_pawn(&mut self, promotion_piece: PromotionPiece) -> (r: bool)
        requires
            old(self).wf(),
        ensures
            final(self).wf(),
            ({
                let pre = *old(self);
                let post = *final(self);
                match pre.pending_promotion {
                    None => post == pre && !r,
                    Some((from, to)) => {
                        let m = Mv { from, to, promotion: Some(promotion_piece.spec_kind()) };
                        let f = spec_to_fen(pre.live());
                        if fen_accepted(f) && legal_moves_of(f).contains(m)
                            && spec_parse_position(fen_after(f, m)) is Some {
                            &&& Self::committed(pre, post, m)
                            &&& post.thinking == pre.thinking
                            &&& post.message@ == "Move: "@ + spec_coord_notation(m)
                            &&& r
                        } else {
                            post == (ChessGame { pending_promotion: None, ..pre }) && !r
                        }
                    },
                }
            }),
    {
        let (from, to) = match self.pending_promotion {
            Some(p) => p,
            None => {
                return false;
            },
        };
        self.pending_promotion = None;
        let m = Mv { from, to, promotion: Some(promotion_piece.kind()) };
        if self.try_commit(m) {
            let cs = crate::notation::coord_string(m);
            let mut msg = String::from_str("Move: ");
            msg.append(cs.as_str());
            self.message = msg;
            true
        } else {
            false
        }
    }

    /// Applies an engine-supplied coordinate move. Strings shorter than
    /// four characters, coordinates off the board, and moves that match no
    /// legal move (the promotion letter included: its absence matches only
    /// non-promoting moves) are rejected with no state change. On success
    /// the move commits and the thinking flag clears.
    #[verifier::rlimit(100)]
    pub fn make_engine_move(&mut self, uci_move: &str) -> (r: bool)
        requires
            old(self).wf(),
        ensures
            final(self).wf(),
            uci_move@.len() < 4 ==> (*final(self) == *old(self) && !r),
            ({
                let pre = *old(self);
                let post = *final(self);
                let s = uci_move@;
                if s.len() < 4 {
                    post == pre && !r
                } else {
                    match (
                        crate::model::spec_file_of_char(s[0]),
                        crate::model::spec_rank_of_char(s[1]),
                        crate::model::spec_file_of_char(s[2]),
                        crate::model::spec_rank_of_char(s[3]),
                    ) {
                        (Some(ff), Some(fr), Some(tf), Some(tr)) => {
                            let promo = if s.len() >= 5 {
                                crate::model::spec_promo_of_char(s[4])
                            } else {
                                None
                            };
                            let m = Mv {
                                from: Sq { file: ff, rank: fr },
                                to: Sq { file: tf, rank: tr },
                                promotion: promo,
                            };
                            let f = spec_to_fen(pre.live());
                            if fen_accepted(f) && legal_moves_of(f).contains(m)
                                && spec_parse_position(fen_after(f, m)) is Some {
                                &&& Self::committed(pre, post, m)
                                &&& !post.thinking
                                &&& post.message@ == "Engine moved: "@ + s
                                &&& r
                            } else {
                                post == pre && !r
                            }
                        },
                        _ => post == pre && !r,
                    }
                }
            }),
    {
        let len = uci_move.unicode_len();
        if len < 4 {
            return false;
        }
        let ff = match crate::model::file_of_char(uci_move.get_char(0)) {
            Some(v) => v,
            None => {
                return false;
            },
        };
        let fr = match crate::model::rank_of_char(uci_move.get_char(1)) {
            Some(v) => v,
            None => {
                return false;
            },
        };
        let tf = match crate::model::file_of_char(uci_move.get_char(2)) {
            Some(v) => v,
            None => {
                return false;
            },
        };
        let tr = match crate::model::rank_of_char(uci_move.get_char(3)) {
            Some(v) => v,
            None => {
                return false;
            },
        };
        let promo = if len >= 5 {
            crate::model::promo_of_char(uci_move.get_char(4))
        } else {
            None
        };
        let m = Mv { from: Sq { file: ff, rank: fr }, to: Sq { file: tf, rank: tr }, promotion: promo };
        if self.try_commit(m) {
            self.thinking = false;
            let mut msg = String::from_str("Engine moved: ");
            msg.append(uci_move);
            self.message = msg;
            true
        } else {
            false
        }
    }

    /// The terminal state of the live position, if the game is over: a
    /// side is checkmated when the side to move has no legal move while in
    /// check, and the game is a stalemate when it has none while not in
    /// check.
    pub fn game_result(&self) -> (r: Option<GameResult>)
        requires
            self.wf(),
        ensures
            ({
                let f = spec_to_fen(self.live());
                if !fen_accepted(f) {
                    r is None
                } else if legal_moves_of(f).len() > 0 {
                    r is None
                } else if in_check_of(f) {
                    r == Some(
                        if self.live().side_to_move is Black {
                            GameResult::WhiteCheckmates
                        } else {
                            GameResult::BlackCheckmates
                        },
                    )
                } else {
                    r == Some(GameResult::Stalemate)
                }
            }),
    {
        let n = self.position_history.len();
        let f = to_fen(&self.position_history[n - 1]);
        let list = match chess_legal_moves(f.as_str()) {
            None => {
                return None;
            },
            Some(l) => l,
        };
        if list.len() > 0 {
            return None;
        }
        let checkers = match chess_checkers(f.as_str()) {
            Some(c) => c,
            None => 0,
        };
        if checkers > 0 {
            match self.position_history[n - 1].side_to_move {
                Side::Black => Some(GameResult::WhiteCheckmates),
                Side::White => Some(GameResult::BlackCheckmates),
            }
        } else {
            Some(GameResult::Stalemate)
        }
    }

    /// Renders a move against a pre-move position; see
    /// [`crate::notation::move_to_details`]. The side argument is accepted
    /// for callers that track it but plays no part in the rendering.
    pub fn move_to_details(&self, chess_move: Mv, board: &Position, _side: Side) -> (d:
        MoveDetails)
        requires
            board.wf(),
            chess_move.wf(),
        ensures
            details_data(d) == spec_move_details(*board, chess_move),
    {
        move_to_details(board, chess_move)
    }

    #[verifier::rlimit(100)]
    fn undo_one_ply(&mut self)
        requires
            old(self).position_history@.len() >= 2,
            old(self).position_history@.len() == old(self).move_history@.len() + 1,
            forall|i: int|
                0 <= i < old(self).position_history@.len() ==> (#[trigger] old(self).position_history@[i]).wf(),
            forall|i: int|
                0 <= i < old(self).move_history@.len() ==> (#[trigger] old(self).move_history@[i]).wf(),
            forall|i: int|
                0 <= i < old(self).move_records@.len() ==> (#[trigger] old(self).move_records@[i]).move_num == i + 1,
            forall|i: int|
                0 <= i < old(self).move_records@.len() ==> (#[trigger] old(self).move_records@[i]).white_move is Some,
            Self::alternating(old(self).position_history@),
            old(self).move_records@.len() == Self::records_len_for(
                old(self).position_history@[0].side_to_move,
                old(self).move_history@.len() as int,
            ),
            forall|i: int|
                0 <= i < old(self).move_records@.len() ==> ((#[trigger] old(self).move_records@[i]).black_move is Some <==> Self::white_ply(
                    old(self).position_history@[0].side_to_move,
                    i,
                ) + 2 <= old(self).move_history@.len()),
        ensures
            Self::undone_one(*old(self), *final(self)),
            *final(self) == (ChessGame {
                position_history: final(self).position_history,
                move_history: final(self).move_history,
                move_records: final(self).move_records,
                ..*old(self)
            }),
            final(self).position_history@.len() == final(self).move_history@.len() + 1,
            final(self).position_history@.len() >= 1,
            forall|i: int|
                0 <= i < final(self).position_history@.len() ==> (#[trigger] final(self).position_history@[i]).wf(),
            forall|i: int|
                0 <= i < final(self).move_history@.len() ==> (#[trigger] final(self).move_history@[i]).wf(),
            forall|i: int|
                0 <= i < final(self).move_records@.len() ==> (#[trigger] final(self).move_records@[i]).move_num == i + 1,
            forall|i: int|
                0 <= i < final(self).move_records@.len() ==> (#[trigger] final(self).move_records@[i]).white_move is Some,
            Self::alternating(final(self).position_history@),
            final(self).move_records@.len() == Self::records_len_for(
                final(self).position_history@[0].side_to_move,
                final(self).move_history@.len() as int,
            ),
            forall|i: int|
                0 <= i < final(self).move_records@.len() ==> ((#[trigger] final(self).move_records@[i]).black_move is Some <==> Self::white_ply(
                    final(self).position_history@[0].side_to_move,
                    i,
                ) + 2 <= final(self).move_history@.len()),
    {
        let n = self.position_history.len();
        let mover = self.position_history[n - 2].side_to_move;
        self.position_history.pop();
        self.move_history.pop();
        match mover {
            Side::White => {
                self.move_records.pop();
                proof {
                    assert(final(self).move_records@ =~= Self::trim_one(
                        old(self).move_records@,
                        mover,
                    ));
                }
            },
            Side::Black => {
                match self.move_records.pop() {
                    Some(rec) => {
                        self.move_records.push(
                            MoveRecord {
                                move_num: rec.move_num,
                                white_move: rec.white_move,
                                black_move: None,
                            },
                        );
                        proof {
                            assert(final(self).move_records@ =~= Self::trim_one(
                                old(self).move_records@,
                                mover,
                            ));
                        }
                    },
                    None => {},
                }
            },
        }
        proof {
            let pre = *old(self);
            let post = *final(self);
            assert(post.position_history@ =~= pre.position_history@.drop_last());
            assert(post.move_history@ =~= pre.move_history@.drop_last());
            assert forall|i: int| 0 <= i < post.position_history@.len() implies (#[trigger] post
                .position_history@[i]).wf() by {
                assert(post.position_history@[i] == pre.position_history@[i]);
            }
            assert forall|i: int| 0 <= i < post.move_history@.len() implies (#[trigger] post
                .move_history@[i]).wf() by {
                assert(post.move_history@[i] == pre.move_history@[i]);
            }
            let rn = pre.move_records@.len() as int;
            assert forall|i: int|
                0 <= i < post.move_records@.len() implies (#[trigger] post
                .move_records@[i]).move_num == i + 1 && post.move_records@[i].white_move
                is Some by {
                if rn > 0 && !(pre.position_history@[pre.position_history@.len() - 2].side_to_move
                    is White) && i == rn - 1 {
                    assert(pre.move_records@[i].move_num == i + 1);
                    assert(pre.move_records@[i].white_move is Some);
                    assert(pre.move_records@[rn - 1] == pre.move_records@.last());
                } else {
                    assert(post.move_records@[i] == pre.move_records@[i]);
                    assert(pre.move_records@[i].move_num == i + 1);
                    assert(pre.move_records@[i].white_move is Some);
                }
            }
            // The shorter history still alternates.
            assert forall|k: int|
                0 <= k < post.position_history@.len() - 1 implies #[trigger] Self::alt_at(
                post.position_history@,
                k,
            ) by {
                assert(post.position_history@[k] == pre.position_history@[k]);
                assert(post.position_history@[k + 1] == pre.position_history@[k + 1]);
                assert(Self::alt_at(pre.position_history@, k));
            }
            // The record count and the filled second halves follow the
            // undone ply's parity.
            let first = pre.position_history@[0].side_to_move;
            let mnum = pre.move_history@.len() as int;
            assert(post.position_history@[0] == pre.position_history@[0]);
            Self::lemma_alternating_parity(pre.position_history@, n as int - 2);
            let mover = pre.position_history@[n - 2].side_to_move;
            assert(post.move_records@ == Self::trim_one(pre.move_records@, mover));
            if rn > 0 && mover is White {
                assert(post.move_records@.len() == rn - 1);
            }
            assert(post.move_records@.len() == Self::records_len_for(first, mnum - 1));
            assert forall|i: int|
                0 <= i < post.move_records@.len() implies ((#[trigger] post
                .move_records@[i]).black_move is Some <==> Self::white_ply(first, i) + 2 <= mnum
                - 1) by {
                if mover is White {
                    assert(post.move_records@[i] == pre.move_records@[i]);
                    assert(pre.move_records@[i].black_move is Some <==> Self::white_ply(first, i)
                        + 2 <= mnum);
                } else if rn > 0 {
                    if i < rn - 1 {
                        assert(post.move_records@[i] == pre.move_records@[i]);
                        assert(pre.move_records@[i].black_move is Some <==> Self::white_ply(
                            first,
                            i,
                        ) + 2 <= mnum);
                    } else {
                        assert(post.move_records@[i] == post.move_records@.last());
                        assert(post.move_records@[i].black_move is None);
                    }
                } else {
                    assert(post.move_records@ == pre.move_records@);
                }
            }
        }
    }

    /// The shape of two plies taken back in one stroke.
    pub open spec fn undone_two(pre: ChessGame, post: ChessGame) -> bool {
        let n = pre.position_history@.len() as int;
        &&& post.position_history@ == pre.position_history@.subrange(0, n - 2)
        &&& post.move_history@ == pre.move_history@.subrange(0, n - 3)
        &&& post.move_records@ == Self::trim_one(
            Self::trim_one(pre.move_records@, pre.position_history@[n - 2].side_to_move),
            pre.position_history@[n - 3].side_to_move,
        )
    }

    /// Takes back moves. While the engine is thinking the human's last ply
    /// alone is removed and the outstanding request is forgotten;
    /// otherwise a full move pair is removed when both halves exist, else
    /// the single remaining ply. With no history this is a no-op with a
    /// status message.
    #[verifier::rlimit(100)]
    pub fn undo_move_pair(&mut self)
        requires
            old(self).wf(),
        ensures
            final(self).wf(),
            ({
                let pre = *old(self);
                let post = *final(self);
                if pre.thinking {
                    if pre.move_history@.len() >= 1 {
                        &&& Self::undone_one(pre, post)
                        &&& !post.thinking
                        &&& post.message@ == "Undid your move."@
                        &&& post.selected_square is None
                        &&& post.possible_moves@.len() == 0
                        &&& post.view_move_index == pre.position_history@.len() - 2
                        &&& post.view_mode == pre.view_mode
                        &&& post.player_color == pre.player_color
                        &&& post.pending_promotion == pre.pending_promotion
                    } else {
                        post == (ChessGame { message: post.message, ..pre }) && post.message@
                            == "No moves to undo."@
                    }
                } else {
                    if pre.move_history@.len() >= 2 {
                        &&& Self::undone_two(pre, post)
                        &&& post.thinking == pre.thinking
                        &&& post.message@ == "Undid last move pair."@
                        &&& post.selected_square is None
                        &&& post.possible_moves@.len() == 0
                        &&& post.view_move_index == pre.position_history@.len() - 3
                        &&& post.view_mode == pre.view_mode
                        &&& post.player_color == pre.player_color
                        &&& post.pending_promotion == pre.pending_promotion
                    } else if pre.move_history@.len() == 1 {
                        &&& Self::undone_one(pre, post)
                        &&& post.thinking == pre.thinking
                        &&& post.message@ == "Undid last move."@
                        &&& post.selected_square is None
                        &&& post.possible_moves@.len() == 0
                        &&& post.view_move_index == pre.position_history@.len() - 2
                        &&& post.view_mode == pre.view_mode
                        &&& post.player_color == pre.player_color
                        &&& post.pending_promotion == pre.pending_promotion
                    } else {
                        post == (ChessGame { message: post.message, ..pre }) && post.message@
                            == "No moves to undo."@
                    }
                }
            }),
    {
        if self.thinking {
            if self.move_history.len() >= 1 {
                self.undo_one_ply();
                self.thinking = false;
                self.message = String::from_str("Undid your move.");
            } else {
                self.message = String::from_str("No moves to undo.");
                return ;
            }
        } else {
            if self.move_history.len() >= 2 {
                self.undo_one_ply();
                self.undo_one_ply();
                self.message = String::from_str("Undid last move pair.");
            } else if self.move_history.len() == 1 {
                self.undo_one_ply();
                self.message = String::from_str("Undid last move.");
            } else {
                self.message = String::from_str("No moves to undo.");
                return ;
            }
        }
        self.selected_square = None;
        self.possible_moves = Vec::new();
        self.view_move_index = self.position_history.len() - 1;
        proof {
            let pre = *old(self);
            let n = pre.position_history@.len() as int;
            if !pre.thinking && pre.move_history@.len() >= 2 {
                assert(pre.position_history@.drop_last()[n - 3] == pre.position_history@[n - 3]);
                assert(self.position_history@ =~= pre.position_history@.subrange(0, n - 2));
                assert(self.move_history@ =~= pre.move_history@.subrange(0, n - 3));
            }
        }
    }

    /// The history-length invariant: every well-formed session holds
    /// exactly one more position than moves, the initial position
    /// included, so the relation holds after every commit and undo.
    pub proof fn lemma_history_lengths(g: ChessGame)
        requires
            g.wf(),
        ensures
            g.position_history@.len() == g.move_history@.len() + 1,
    {
    }

    /// Undo exactly inverts a commit: a committed move followed by a
    /// single-ply undo returns the position log, the move log and the
    /// record list to their pre-commit contents.
    #[verifier::rlimit(100)]
    pub proof fn lemma_undo_inverts_commit(
        pre: ChessGame,
        mid: ChessGame,
        post: ChessGame,
        m: Mv,
    )
        requires
            pre.wf(),
            Self::committed(pre, mid, m),
            Self::undone_one(mid, post),
        ensures
            post.position_history@ == pre.position_history@,
            post.move_history@ == pre.move_history@,
            post.move_records@ == pre.move_records@,
    {
        let n = pre.position_history@.len() as int;
        // In a well-formed session a black mover can never find its own
        // half already filled: the last record's second half is empty.
        let mnum = pre.move_history@.len() as int;
        Self::lemma_alternating_parity(pre.position_history@, mnum);
        if pre.live().side_to_move is Black && pre.move_records@.len() > 0 {
            let last = pre.move_records@.len() - 1;
            assert(pre.move_records@[last as int] == pre.move_records@.last());
            assert(pre.move_records@.last().black_move is None);
        }
        assert(forall|i: int|
            0 <= i < n ==> mid.position_history@[i] == #[trigger] mid.position_history@.subrange(
                0,
                n,
            )[i]);
        assert(post.position_history@ =~= pre.position_history@);
        assert(post.move_history@ =~= pre.move_history@);
        assert(mid.position_history@[n - 1] == pre.position_history@[n - 1]);
        assert(mid.position_history@[n - 1] == pre.live());
        let rn = pre.move_records@.len() as int;
        if pre.live().side_to_move is White {
            assert forall|i: int| 0 <= i < rn implies post.move_records@[i] == #[trigger] pre
                .move_records@[i] by {
                assert(post.move_records@[i] == mid.move_records@[i]);
                assert(mid.move_records@[i] == mid.move_records@.subrange(0, rn)[i]);
            }
            assert(post.move_records@ =~= pre.move_records@);
        } else if rn > 0 {
            assert forall|i: int| 0 <= i < rn implies post.move_records@[i] == #[trigger] pre
                .move_records@[i] by {
                if i < rn - 1 {
                    assert(mid.move_records@[i] == mid.move_records@.subrange(0, rn - 1)[i]);
                    assert(pre.move_records@[i] == pre.move_records@.subrange(0, rn - 1)[i]);
                } else {
                    assert(mid.move_records@[rn - 1] == mid.move_records@.last());
                    assert(pre.move_records@[rn - 1] == pre.move_records@.last());
                }
            }
            assert(post.move_records@ =~= pre.move_records@);
        } else {
            assert(post.move_records@ =~= pre.move_records@);
        }
    }
}

} // verus!
