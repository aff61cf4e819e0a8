//! The position model and its interchange-string codec.
//!
//! A [`Position`] holds, as plain values, everything the session logic ever
//! reads from a board: the piece on each square, the side to move, the four
//! castling rights and the en-passant file. The codec renders a position in
//! the rank-major interchange format (rank 8 first, '/'-separated, with
//! side-to-move, castling and en-passant tokens, and the two trailing
//! numeric fields fixed at `0 1`), and parses that format back.

use crate::chessio::{chess_parse_err, fen_accepted};
use crate::model::{digit_str, file_char, rank_char, PieceKind, Side, Sq};
use vstd::prelude::*;

verus! {

/// A complete board description, as plain values.
///
/// `squares` has one entry per square, indexed `rank * 8 + file`
/// (rank 0 is rank 1, file 0 is the a-file).
#[verifier::ext_equal]
#[derive(Debug)]
pub struct Position {
    pub squares: Vec<Option<(PieceKind, Side)>>,
    pub side_to_move: Side,
    pub castle_wk: bool,
    pub castle_wq: bool,
    pub castle_bk: bool,
    pub castle_bq: bool,
    pub ep_file: Option<u8>,
}

impl Position {
    pub open spec fn wf(self) -> bool {
        &&& self.squares@.len() == 64
        &&& match self.ep_file {
            Some(f) => f < 8,
            None => true,
        }
    }

    /// The piece standing on file `f`, rank `r`.
    pub open spec fn at(self, f: int, r: int) -> Option<(PieceKind, Side)>
        recommends
            0 <= f < 8 && 0 <= r < 8,
    {
        self.squares@[r * 8 + f]
    }

    pub fn piece_at(&self, sq: Sq) -> (r: Option<(PieceKind, Side)>)
        requires
            self.wf(),
            sq.wf(),
        ensures
            r == self.at(sq.file as int, sq.rank as int),
    {
        self.squares[(sq.rank as usize) * 8 + (sq.file as usize)]
    }

    /// An exact copy, built square by square.
    pub fn dup(&self) -> (r: Position)
        requires
            self.wf(),
        ensures
            same_board(r, *self),
            r.wf(),
    {
        let mut squares: Vec<Option<(PieceKind, Side)>> = Vec::new();
        let mut i: usize = 0;
        while i < 64
            invariant
                self.wf(),
                i <= 64,
                squares@.len() == i,
                forall|j: int| 0 <= j < i ==> squares@[j] == self.squares@[j],
            decreases 64 - i,
        {
            squares.push(self.squares[i]);
            i = i + 1;
        }
        proof {
            assert(squares@ =~= self.squares@);
        }
        Position {
            squares,
            side_to_move: self.side_to_move,
            castle_wk: self.castle_wk,
            castle_wq: self.castle_wq,
            castle_bk: self.castle_bk,
            castle_bq: self.castle_bq,
            ep_file: self.ep_file,
        }
    }
}

/// The two values describe the same board: equal square contents and equal
/// flags. (Two such values may still be distinct `Vec` allocations.)
pub open spec fn same_board(a: Position, b: Position) -> bool {
    &&& a.squares@ == b.squares@
    &&& a.side_to_move == b.side_to_move
    &&& a.castle_wk == b.castle_wk
    &&& a.castle_wq == b.castle_wq
    &&& a.castle_bk == b.castle_bk
    &&& a.castle_bq == b.castle_bq
    &&& a.ep_file == b.ep_file
}

proof fn lemma_rank_run_congruent(a: Position, b: Position, r: int, f: int, run: int)
    requires
        same_board(a, b),
    ensures
        rank_run(a, r, f, run) == rank_run(b, r, f, run),
    decreases 8 - f,
{
    if 0 <= f < 8 {
        lemma_rank_run_congruent(a, b, r, f + 1, run + 1);
        lemma_rank_run_congruent(a, b, r, f + 1, 0);
    }
}

proof fn lemma_ranks_congruent(a: Position, b: Position, r: int)
    requires
        same_board(a, b),
    ensures
        ranks_fen(a, r) == ranks_fen(b, r),
    decreases r,
{
    lemma_rank_run_congruent(a, b, if r <= 0 { 0 } else { r }, 0, 0);
    if r > 0 {
        lemma_ranks_congruent(a, b, r - 1);
    }
}

/// Two values describing the same board render to the same string.
pub proof fn lemma_to_fen_congruent(a: Position, b: Position)
    requires
        same_board(a, b),
    ensures
        spec_to_fen(a) == spec_to_fen(b),
{
    lemma_ranks_congruent(a, b, 7);
}

/// The letter the placement field uses for a piece of a given side.
pub open spec fn piece_char(k: PieceKind, c: Side) -> char {
    match (k, c) {
        (PieceKind::Pawn, Side::White) => 'P',
        (PieceKind::Knight, Side::White) => 'N',
        (PieceKind::Bishop, Side::White) => 'B',
        (PieceKind::Rook, Side::White) => 'R',
        (PieceKind::Queen, Side::White) => 'Q',
        (PieceKind::King, Side::White) => 'K',
        (PieceKind::Pawn, Side::Black) => 'p',
        (PieceKind::Knight, Side::Black) => 'n',
        (PieceKind::Bishop, Side::Black) => 'b',
        (PieceKind::Rook, Side::Black) => 'r',
        (PieceKind::Queen, Side::Black) => 'q',
        (PieceKind::King, Side::Black) => 'k',
    }
}

fn push_piece_char(k: PieceKind, c: Side, s: &mut String)
    ensures
        final(s)@ == old(s)@ + seq![piece_char(k, c)],
{
    proof {
        reveal_strlit("P");
        reveal_strlit("N");
        reveal_strlit("B");
        reveal_strlit("R");
        reveal_strlit("Q");
        reveal_strlit("K");
        reveal_strlit("p");
        reveal_strlit("n");
        reveal_strlit("b");
        reveal_strlit("r");
        reveal_strlit("q");
        reveal_strlit("k");
    }
    let lit = match (k, c) {
        (PieceKind::Pawn, Side::White) => "P",
        (PieceKind::Knight, Side::White) => "N",
        (PieceKind::Bishop, Side::White) => "B",
        (PieceKind::Rook, Side::White) => "R",
        (PieceKind::Queen, Side::White) => "Q",
        (PieceKind::King, Side::White) => "K",
        (PieceKind::Pawn, Side::Black) => "p",
        (PieceKind::Knight, Side::Black) => "n",
        (PieceKind::Bishop, Side::Black) => "b",
        (PieceKind::Rook, Side::Black) => "r",
        (PieceKind::Queen, Side::Black) => "q",
        (PieceKind::King, Side::Black) => "k",
    };
    proof {
        assert(lit@ =~= seq![piece_char(k, c)]);
    }
    s.append(lit);
}

/// The digits a run of `run` empty squares contributes (nothing for an
/// empty run).
pub open spec fn run_digits(run: int) -> Seq<char> {
    if run == 0 {
        Seq::empty()
    } else {
        seq![crate::model::digit_char(run)]
    }
}

/// The placement text of rank `r` from file `f` on, with `run` empty
/// squares already pending.
pub open spec fn rank_run(p: Position, r: int, f: int, run: int) -> Seq<char>
    decreases 8 - f,
{
    if f < 0 || f >= 8 {
        run_digits(run)
    } else {
        match p.at(f, r) {
            None => rank_run(p, r, f + 1, run + 1),
            Some((k, c)) => run_digits(run) + seq![piece_char(k, c)] + rank_run(p, r, f + 1, 0),
        }
    }
}

/// The placement text of ranks `r` down to rank 0, '/'-separated.
pub open spec fn ranks_fen(p: Position, r: int) -> Seq<char>
    decreases r,
{
    if r <= 0 {
        rank_run(p, 0, 0, 0)
    } else {
        rank_run(p, r, 0, 0) + seq!['/'] + ranks_fen(p, r - 1)
    }
}

fn push_rank_run(p: &Position, r: u8, f: u8, run: u8, s: &mut String)
    requires
        p.wf(),
        r < 8,
        f <= 8,
        run <= f,
    ensures
        final(s)@ == old(s)@ + rank_run(*p, r as int, f as int, run as int),
    decreases 8 - f,
{
    if f == 8 {
        if run > 0 {
            s.append(digit_str(run));
        }
    } else {
        match p.piece_at(Sq { file: f, rank: r }) {
            None => {
                push_rank_run(p, r, f + 1, run + 1, s);
            },
            Some((k, c)) => {
                if run > 0 {
                    s.append(digit_str(run));
                }
                push_piece_char(k, c, s);
                push_rank_run(p, r, f + 1, 0, s);
                proof {
                    assert(s@ =~= old(s)@ + rank_run(*p, r as int, f as int, run as int));
                }
            },
        }
    }
}

fn push_ranks(p: &Position, r: u8, s: &mut String)
    requires
        p.wf(),
        r < 8,
    ensures
        final(s)@ == old(s)@ + ranks_fen(*p, r as int),
    decreases r,
{
    push_rank_run(p, r, 0, 0, s);
    if r > 0 {
        proof {
            reveal_strlit("/");
        }
        s.append("/");
        proof {
            assert("/"@ =~= seq!['/']);
        }
        push_ranks(p, r - 1, s);
        proof {
            assert(s@ =~= old(s)@ + ranks_fen(*p, r as int));
        }
    }
}

/// Whether the white kingside castling right survives into the rendered
/// string: the flag is set and king and rook still stand at home.
pub open spec fn eff_wk(p: Position) -> bool {
    p.castle_wk && p.at(4, 0) == Some((PieceKind::King, Side::White)) && p.at(7, 0) == Some(
        (PieceKind::Rook, Side::White),
    )
}

pub open spec fn eff_wq(p: Position) -> bool {
    p.castle_wq && p.at(4, 0) == Some((PieceKind::King, Side::White)) && p.at(0, 0) == Some(
        (PieceKind::Rook, Side::White),
    )
}

pub open spec fn eff_bk(p: Position) -> bool {
    p.castle_bk && p.at(4, 7) == Some((PieceKind::King, Side::Black)) && p.at(7, 7) == Some(
        (PieceKind::Rook, Side::Black),
    )
}

pub open spec fn eff_bq(p: Position) -> bool {
    p.castle_bq && p.at(4, 7) == Some((PieceKind::King, Side::Black)) && p.at(0, 7) == Some(
        (PieceKind::Rook, Side::Black),
    )
}

/// The castling-rights token: the surviving rights in `KQkq` order, or '-'
/// if none survive.
pub open spec fn castling_seq(p: Position) -> Seq<char> {
    let s = (if eff_wk(p) {
        seq!['K']
    } else {
        Seq::<char>::empty()
    }) + (if eff_wq(p) {
        seq!['Q']
    } else {
        Seq::<char>::empty()
    }) + (if eff_bk(p) {
        seq!['k']
    } else {
        Seq::<char>::empty()
    }) + (if eff_bq(p) {
        seq!['q']
    } else {
        Seq::<char>::empty()
    });
    if s.len() == 0 {
        seq!['-']
    } else {
        s
    }
}

/// The en-passant token: target square from the stored file and the side to
/// move, or '-'.
pub open spec fn ep_seq(p: Position) -> Seq<char> {
    match p.ep_file {
        Some(f) => seq![
            file_char(f as int),
            if p.side_to_move is White {
                '6'
            } else {
                '3'
            },
        ],
        None => seq!['-'],
    }
}

pub open spec fn stm_char(p: Position) -> char {
    if p.side_to_move is White {
        'w'
    } else {
        'b'
    }
}

/// The full interchange string for `p`.
pub open spec fn spec_to_fen(p: Position) -> Seq<char> {
    ranks_fen(p, 7) + seq![' '] + seq![stm_char(p)] + seq![' '] + castling_seq(p) + seq![' ']
        + ep_seq(p) + " 0 1"@
}

fn sq_has(p: &Position, f: u8, r: u8, k: PieceKind, c: Side) -> (b: bool)
    requires
        p.wf(),
        f < 8,
        r < 8,
    ensures
        b == (p.at(f as int, r as int) == Some((k, c))),
{
    match p.piece_at(Sq { file: f, rank: r }) {
        Some((k2, c2)) => k2 == k && c2 == c,
        None => false,
    }
}

fn push_castling(p: &Position, s: &mut String)
    requires
        p.wf(),
    ensures
        final(s)@ == old(s)@ + castling_seq(*p),
{
    proof {
        reveal_strlit("K");
        reveal_strlit("Q");
        reveal_strlit("k");
        reveal_strlit("q");
        reveal_strlit("-");
    }
    let wk = p.castle_wk && sq_has(p, 4, 0, PieceKind::King, Side::White) && sq_has(
        p,
        7,
        0,
        PieceKind::Rook,
        Side::White,
    );
    let wq = p.castle_wq && sq_has(p, 4, 0, PieceKind::King, Side::White) && sq_has(
        p,
        0,
        0,
        PieceKind::Rook,
        Side::White,
    );
    let bk = p.castle_bk && sq_has(p, 4, 7, PieceKind::King, Side::Black) && sq_has(
        p,
        7,
        7,
        PieceKind::Rook,
        Side::Black,
    );
    let bq = p.castle_bq && sq_has(p, 4, 7, PieceKind::King, Side::Black) && sq_has(
        p,
        0,
        7,
        PieceKind::Rook,
        Side::Black,
    );
    if !wk && !wq && !bk && !bq {
        s.append("-");
        proof {
            assert(s@ =~= old(s)@ + castling_seq(*p));
        }
    } else {
        if wk {
            s.append("K");
        }
        if wq {
            s.append("Q");
        }
        if bk {
            s.append("k");
        }
        if bq {
            s.append("q");
        }
        proof {
            assert(s@ =~= old(s)@ + castling_seq(*p));
        }
    }
}

fn push_ep(p: &Position, s: &mut String)
    requires
        p.wf(),
    ensures
        final(s)@ == old(s)@ + ep_seq(*p),
{
    proof {
        reveal_strlit("6");
        reveal_strlit("3");
        reveal_strlit("-");
    }
    match p.ep_file {
        Some(f) => {
            s.append(file_str(f));
            match p.side_to_move {
                Side::White => s.append("6"),
                Side::Black => s.append("3"),
            }
        },
        None => s.append("-"),
    }
    proof {
        assert(s@ =~= old(s)@ + ep_seq(*p));
    }
}

/// Renders `p` in the interchange format.
pub fn to_fen(p: &Position) -> (r: String)
    requires
        p.wf(),
    ensures
        r@ == spec_to_fen(*p),
{
    proof {
        reveal_strlit(" ");
        reveal_strlit("w");
        reveal_strlit("b");
    }
    let mut s = String::new();
    push_ranks(p, 7, &mut s);
    s.append(" ");
    match p.side_to_move {
        Side::White => s.append("w"),
        Side::Black => s.append("b"),
    }
    s.append(" ");
    push_castling(p, &mut s);
    s.append(" ");
    push_ep(p, &mut s);
    s.append(" 0 1");
    proof {
        assert(s@ =~= spec_to_fen(*p));
    }
    s
}

pub(crate) fn file_str(f: u8) -> (r: &'static str)
    requires
        f < 8,
    ensures
        r@ == seq![file_char(f as int)],
{
    proof {
        reveal_strlit("a");
        reveal_strlit("b");
        reveal_strlit("c");
        reveal_strlit("d");
        reveal_strlit("e");
        reveal_strlit("f");
        reveal_strlit("g");
        reveal_strlit("h");
    }
    let r = match f {
        0 => "a",
        1 => "b",
        2 => "c",
        3 => "d",
        4 => "e",
        5 => "f",
        6 => "g",
        _ => "h",
    };
    proof {
        assert(r@ =~= seq![file_char(f as int)]);
    }
    r
}

/// The abstract content of a [`Position`]: what two values share exactly
/// when [`same_board`] holds of them.
#[verifier::ext_equal]
pub struct BoardData {
    pub squares: Seq<Option<(PieceKind, Side)>>,
    pub side_to_move: Side,
    pub castle_wk: bool,
    pub castle_wq: bool,
    pub castle_bk: bool,
    pub castle_bq: bool,
    pub ep_file: Option<u8>,
}

pub open spec fn board_data(p: Position) -> BoardData {
    BoardData {
        squares: p.squares@,
        side_to_move: p.side_to_move,
        castle_wk: p.castle_wk,
        castle_wq: p.castle_wq,
        castle_bk: p.castle_bk,
        castle_bq: p.castle_bq,
        ep_file: p.ep_file,
    }
}

/// The first index at or after `i` holding a space (or the end of `s`):
/// the interchange format's fields are separated by single spaces.
pub open spec fn sp_end(s: Seq<char>, i: int) -> int
    recommends
        0 <= i <= s.len(),
    decreases s.len() - i,
{
    if i < 0 || i >= s.len() {
        i
    } else if s[i] == ' ' {
        i
    } else {
        sp_end(s, i + 1)
    }
}

/// The piece named by a placement character, if any.
pub open spec fn piece_of_char(c: char) -> Option<(PieceKind, Side)> {
    if c == 'P' {
        Some((PieceKind::Pawn, Side::White))
    } else if c == 'N' {
        Some((PieceKind::Knight, Side::White))
    } else if c == 'B' {
        Some((PieceKind::Bishop, Side::White))
    } else if c == 'R' {
        Some((PieceKind::Rook, Side::White))
    } else if c == 'Q' {
        Some((PieceKind::Queen, Side::White))
    } else if c == 'K' {
        Some((PieceKind::King, Side::White))
    } else if c == 'p' {
        Some((PieceKind::Pawn, Side::Black))
    } else if c == 'n' {
        Some((PieceKind::Knight, Side::Black))
    } else if c == 'b' {
        Some((PieceKind::Bishop, Side::Black))
    } else if c == 'r' {
        Some((PieceKind::Rook, Side::Black))
    } else if c == 'q' {
        Some((PieceKind::Queen, Side::Black))
    } else if c == 'k' {
        Some((PieceKind::King, Side::Black))
    } else {
        None
    }
}

fn piece_of_char_exec(c: char) -> (r: Option<(PieceKind, Side)>)
    ensures
        r == piece_of_char(c),
{
    match c {
        'P' => Some((PieceKind::Pawn, Side::White)),
        'N' => Some((PieceKind::Knight, Side::White)),
        'B' => Some((PieceKind::Bishop, Side::White)),
        'R' => Some((PieceKind::Rook, Side::White)),
        'Q' => Some((PieceKind::Queen, Side::White)),
        'K' => Some((PieceKind::King, Side::White)),
        'p' => Some((PieceKind::Pawn, Side::Black)),
        'n' => Some((PieceKind::Knight, Side::Black)),
        'b' => Some((PieceKind::Bishop, Side::Black)),
        'r' => Some((PieceKind::Rook, Side::Black)),
        'q' => Some((PieceKind::Queen, Side::Black)),
        'k' => Some((PieceKind::King, Side::Black)),
        _ => None,
    }
}

/// The number of empty squares a placement digit stands for.
pub open spec fn run_of_char(c: char) -> Option<int> {
    if c == '1' {
        Some(1)
    } else if c == '2' {
        Some(2)
    } else if c == '3' {
        Some(3)
    } else if c == '4' {
        Some(4)
    } else if c == '5' {
        Some(5)
    } else if c == '6' {
        Some(6)
    } else if c == '7' {
        Some(7)
    } else if c == '8' {
        Some(8)
    } else {
        None
    }
}

fn run_of_char_exec(c: char) -> (r: Option<u8>)
    ensures
        match r {
            Some(d) => run_of_char(c) == Some(d as int) && 1 <= d <= 8,
            None => run_of_char(c) is None,
        },
{
    match c {
        '1' => Some(1u8),
        '2' => Some(2u8),
        '3' => Some(3u8),
        '4' => Some(4u8),
        '5' => Some(5u8),
        '6' => Some(6u8),
        '7' => Some(7u8),
        '8' => Some(8u8),
        _ => None,
    }
}

/// An all-empty board.
pub open spec fn empty_board() -> Seq<Option<(PieceKind, Side)>> {
    Seq::new(64, |i: int| None)
}

/// Parses the placement field from index `i` on, standing at file `f` of
/// rank `r`, with the squares read so far in `acc`. Succeeds only if the
/// text describes exactly eight files for each of eight ranks.
pub open spec fn parse_placement_rec(
    pl: Seq<char>,
    i: int,
    f: int,
    r: int,
    acc: Seq<Option<(PieceKind, Side)>>,
) -> Option<Seq<Option<(PieceKind, Side)>>>
    decreases pl.len() - i,
{
    if i < 0 || i >= pl.len() {
        if f == 8 && r == 0 {
            Some(acc)
        } else {
            None
        }
    } else {
        let c = pl[i];
        if c == '/' {
            if f == 8 && r > 0 {
                parse_placement_rec(pl, i + 1, 0, r - 1, acc)
            } else {
                None
            }
        } else if run_of_char(c) is Some {
            let d = run_of_char(c)->0;
            if f + d <= 8 {
                parse_placement_rec(pl, i + 1, f + d, r, acc)
            } else {
                None
            }
        } else if piece_of_char(c) is Some {
            if f < 8 && 0 <= r < 8 {
                parse_placement_rec(pl, i + 1, f + 1, r, acc.update(r * 8 + f, piece_of_char(c)))
            } else {
                None
            }
        } else {
            None
        }
    }
}

pub open spec fn spec_parse_placement(pl: Seq<char>) -> Option<Seq<Option<(PieceKind, Side)>>> {
    parse_placement_rec(pl, 0, 0, 7, empty_board())
}

/// The side named by the side-to-move field.
pub open spec fn spec_parse_stm(tok: Seq<char>) -> Option<Side> {
    if tok.len() == 1 && tok[0] == 'w' {
        Some(Side::White)
    } else if tok.len() == 1 && tok[0] == 'b' {
        Some(Side::Black)
    } else {
        None
    }
}

pub open spec fn has_char(tok: Seq<char>, c: char) -> bool {
    exists|j: int| 0 <= j < tok.len() && tok[j] == c
}

/// The en-passant file, read leniently: the first character when it names
/// a file, and nothing otherwise (so '-' yields no file).
pub open spec fn spec_parse_ep(tok: Seq<char>) -> Option<u8> {
    if tok.len() >= 1 {
        crate::model::spec_file_of_char(tok[0])
    } else {
        None
    }
}

/// The whole position a well-formed interchange string describes: at least
/// four space-separated fields, a placement of exactly 8 x 8 squares, a
/// side-to-move letter, the castling flags read by letter, and a lenient
/// en-passant file. Anything after the fourth field is ignored.
pub open spec fn spec_parse_position(s: Seq<char>) -> Option<BoardData> {
    let e0 = sp_end(s, 0);
    if e0 >= s.len() {
        None
    } else {
        let i1 = e0 + 1;
        let e1 = sp_end(s, i1);
        if e1 >= s.len() {
            None
        } else {
            let i2 = e1 + 1;
            let e2 = sp_end(s, i2);
            if e2 >= s.len() {
                None
            } else {
                let i3 = e2 + 1;
                let e3 = sp_end(s, i3);
                let pl = s.subrange(0, e0);
                let stm_tok = s.subrange(i1, e1);
                let cast_tok = s.subrange(i2, e2);
                let ep_tok = s.subrange(i3, e3);
                match (spec_parse_placement(pl), spec_parse_stm(stm_tok)) {
                    (Some(sqs), Some(stm)) => Some(
                        BoardData {
                            squares: sqs,
                            side_to_move: stm,
                            castle_wk: has_char(cast_tok, 'K'),
                            castle_wq: has_char(cast_tok, 'Q'),
                            castle_bk: has_char(cast_tok, 'k'),
                            castle_bq: has_char(cast_tok, 'q'),
                            ep_file: spec_parse_ep(ep_tok),
                        },
                    ),
                    _ => None,
                }
            }
        }
    }
}

/// The index of the first space at or after `from`.
fn find_sp(s: &str, from: usize) -> (e: usize)
    requires
        from <= s@.len(),
    ensures
        e == sp_end(s@, from as int),
        from <= e <= s@.len(),
    decreases s@.len() - from,
{
    let n = s.unicode_len();
    let mut i: usize = from;
    while i < n && s.get_char(i) != ' '
        invariant
            from <= i <= n,
            n == s@.len(),
            sp_end(s@, from as int) == sp_end(s@, i as int),
        decreases n - i,
    {
        i = i + 1;
    }
    proof {
        assert(sp_end(s@, i as int) == i as int);
    }
    i
}

/// Whether `c` occurs in `s` between `from` and `to`.
fn scan_char(s: &str, from: usize, to: usize, c: char) -> (b: bool)
    requires
        from <= to <= s@.len(),
    ensures
        b == has_char(s@.subrange(from as int, to as int), c),
{
    let mut i: usize = from;
    let mut found: bool = false;
    while i < to
        invariant
            from <= i <= to <= s@.len(),
            found == exists|j: int| from <= j < i && s@[j] == c,
        decreases to - i,
    {
        if s.get_char(i) == c {
            found = true;
        }
        i = i + 1;
    }
    proof {
        let tok = s@.subrange(from as int, to as int);
        assert(forall|j: int| 0 <= j < tok.len() ==> tok[j] == s@[j + from]);
        if found {
            let j = choose|j: int| from <= j < i && s@[j] == c;
            assert(tok[j - from as int] == c);
        }
    }
    found
}

/// Parses the placement field `s[0 .. e0]` into the 64 squares.
fn parse_placement_field(s: &str, e0: usize) -> (r: Option<Vec<Option<(PieceKind, Side)>>>)
    requires
        e0 <= s@.len(),
    ensures
        r is Some <==> spec_parse_placement(s@.subrange(0, e0 as int)) is Some,
        r matches Some(v) ==> v@.len() == 64 && spec_parse_placement(s@.subrange(0, e0 as int))
            == Some(v@),
{
    let ghost pl = s@.subrange(0, e0 as int);
    let mut squares: Vec<Option<(PieceKind, Side)>> = Vec::new();
    let mut k: usize = 0;
    while k < 64
        invariant
            k <= 64,
            squares@.len() == k,
            forall|j: int| 0 <= j < k ==> squares@[j] == Option::<(PieceKind, Side)>::None,
        decreases 64 - k,
    {
        squares.push(None);
        k = k + 1;
    }
    proof {
        assert(squares@ =~= empty_board());
    }
    let mut i: usize = 0;
    let mut f: u8 = 0;
    let mut rnk: u8 = 7;
    while i < e0
        invariant
            i <= e0,
            e0 <= s@.len(),
            pl == s@.subrange(0, e0 as int),
            f <= 8,
            rnk < 8,
            squares@.len() == 64,
            parse_placement_rec(pl, i as int, f as int, rnk as int, squares@)
                == spec_parse_placement(pl),
        decreases e0 - i,
    {
        let c = s.get_char(i);
        proof {
            assert(pl[i as int] == s@[i as int]);
        }
        if c == '/' {
            if f == 8 && rnk > 0 {
                f = 0;
                rnk = rnk - 1;
            } else {
                return None;
            }
        } else {
            match run_of_char_exec(c) {
                Some(d) => {
                    if f + d <= 8 {
                        f = f + d;
                    } else {
                        return None;
                    }
                },
                None => {
                    match piece_of_char_exec(c) {
                        Some(pc) => {
                            if f < 8 {
                                let idx: usize = (rnk as usize) * 8 + (f as usize);
                                squares[idx] = Some(pc);
                                f = f + 1;
                            } else {
                                return None;
                            }
                        },
                        None => {
                            return None;
                        },
                    }
                },
            }
        }
        i = i + 1;
    }
    if !(f == 8 && rnk == 0) {
        return None;
    }
    proof {
        assert(parse_placement_rec(pl, e0 as int, 8, 0, squares@) == Some(squares@));
    }
    Some(squares)
}

/// Parses an interchange string into a [`Position`].
pub fn parse_position(s: &str) -> (r: Option<Position>)
    ensures
        r is Some <==> spec_parse_position(s@) is Some,
        r matches Some(p) ==> p.wf() && spec_parse_position(s@) == Some(board_data(p)),
{
    let ghost sv = s@;
    let n = s.unicode_len();
    let e0 = find_sp(s, 0);
    if e0 >= n {
        return None;
    }
    let i1 = e0 + 1;
    let e1 = find_sp(s, i1);
    if e1 >= n {
        return None;
    }
    let i2 = e1 + 1;
    let e2 = find_sp(s, i2);
    if e2 >= n {
        return None;
    }
    let i3 = e2 + 1;
    let e3 = find_sp(s, i3);

    let ghost pl = sv.subrange(0, e0 as int);
    let squares = match parse_placement_field(s, e0) {
        Some(v) => v,
        None => {
            proof {
                assert(spec_parse_position(sv) is None);
            }
            return None;
        },
    };

    // Side to move: a single letter.
    let ghost stm_tok = sv.subrange(i1 as int, e1 as int);
    let side: Side;
    if e1 == i1 + 1 {
        let c = s.get_char(i1);
        proof {
            assert(stm_tok[0] == sv[i1 as int]);
        }
        if c == 'w' {
            side = Side::White;
        } else if c == 'b' {
            side = Side::Black;
        } else {
            proof {
                assert(spec_parse_stm(stm_tok) is None);
                assert(spec_parse_position(sv) is None);
            }
            return None;
        }
    } else {
        proof {
            assert(stm_tok.len() != 1);
            assert(spec_parse_stm(stm_tok) is None);
            assert(spec_parse_position(sv) is None);
        }
        return None;
    }

    // Castling rights, read by letter.
    let wk = scan_char(s, i2, e2, 'K');
    let wq = scan_char(s, i2, e2, 'Q');
    let bk = scan_char(s, i2, e2, 'k');
    let bq = scan_char(s, i2, e2, 'q');

    // En-passant file, read leniently.
    let ghost ep_tok = sv.subrange(i3 as int, e3 as int);
    let ep: Option<u8>;
    if i3 < e3 {
        let c = s.get_char(i3);
        proof {
            assert(ep_tok[0] == sv[i3 as int]);
        }
        ep = crate::model::file_of_char(c);
    } else {
        ep = None;
    }

    let p = Position {
        squares,
        side_to_move: side,
        castle_wk: wk,
        castle_wq: wq,
        castle_bk: bk,
        castle_bq: bq,
        ep_file: ep,
    };
    proof {
        assert(spec_parse_position(sv) == Some(board_data(p)));
    }
    Some(p)
}

/// Whether some square of `d` holds the piece `(k, c)`.
pub open spec fn has_piece(d: BoardData, k: PieceKind, c: Side) -> bool {
    exists|i: int| 0 <= i < 64 && d.squares[i] == Some((k, c))
}

/// Whether any square of rank `r` holds a pawn of either side.
pub open spec fn pawn_on_rank(d: BoardData, r: int) -> bool {
    exists|f: int|
        0 <= f < 8 && (#[trigger] d.squares[r * 8 + f] matches Some((PieceKind::Pawn, _)))
}

fn board_has(p: &Position, k: PieceKind, c: Side) -> (b: bool)
    requires
        p.wf(),
    ensures
        b == has_piece(board_data(*p), k, c),
{
    let mut i: usize = 0;
    let mut found: bool = false;
    while i < 64
        invariant
            p.wf(),
            i <= 64,
            found == exists|j: int| 0 <= j < i && p.squares@[j] == Some((k, c)),
        decreases 64 - i,
    {
        match self_square(p, i) {
            Some((k2, c2)) => {
                if k2 == k && c2 == c {
                    found = true;
                }
            },
            None => {},
        }
        i = i + 1;
    }
    found
}

fn self_square(p: &Position, i: usize) -> (r: Option<(PieceKind, Side)>)
    requires
        p.wf(),
        i < 64,
    ensures
        r == p.squares@[i as int],
{
    p.squares[i]
}

fn rank_has_pawn(p: &Position, r: u8) -> (b: bool)
    requires
        p.wf(),
        r < 8,
    ensures
        b == pawn_on_rank(board_data(*p), r as int),
{
    let mut f: u8 = 0;
    let mut found: bool = false;
    while f < 8
        invariant
            p.wf(),
            r < 8,
            f <= 8,
            found == exists|g: int|
                0 <= g < f && (#[trigger] p.squares@[r * 8 + g] matches Some((PieceKind::Pawn, _))),
        decreases 8 - f,
    {
        match self_square(p, (r as usize) * 8 + (f as usize)) {
            Some((PieceKind::Pawn, _)) => {
                found = true;
            },
            _ => {},
        }
        f = f + 1;
    }
    found
}

/// Whether `s` passes the whole load validation: it parses, both kings are
/// present, no pawn stands on either back rank, and the move-legality
/// library accepts it.
pub open spec fn spec_safe_parse_ok(s: Seq<char>) -> bool {
    match spec_parse_position(s) {
        Some(d) => {
            &&& has_piece(d, PieceKind::King, Side::White)
            &&& has_piece(d, PieceKind::King, Side::Black)
            &&& !pawn_on_rank(d, 7)
            &&& !pawn_on_rank(d, 0)
            &&& fen_accepted(s)
        },
        None => false,
    }
}

/// Validates a position string before it is ever handed to the
/// move-legality library, whose failure mode on structurally broken
/// positions is not a recoverable error: both kings must be present and no
/// pawn may stand on a back rank. Only then is the library itself asked to
/// accept the string; on success the parsed position is returned, on any
/// failure a human-readable reason.
pub fn safe_parse_board(fen: &str) -> (r: Result<Position, String>)
    ensures
        r is Ok <==> spec_safe_parse_ok(fen@),
        r matches Ok(p) ==> p.wf() && spec_parse_position(fen@) == Some(board_data(p)),
        spec_parse_position(fen@) matches Some(d) ==> {
            &&& !has_piece(d, PieceKind::King, Side::White) ==> (r matches Err(e) && e@
                == "Missing white king (K)"@)
            &&& (has_piece(d, PieceKind::King, Side::White) && !has_piece(
                d,
                PieceKind::King,
                Side::Black,
            )) ==> (r matches Err(e) && e@ == "Missing black king (k)"@)
            &&& (has_piece(d, PieceKind::King, Side::White) && has_piece(
                d,
                PieceKind::King,
                Side::Black,
            ) && pawn_on_rank(d, 7)) ==> (r matches Err(e) && e@ == "Pawns cannot be on rank 8"@)
            &&& (has_piece(d, PieceKind::King, Side::White) && has_piece(
                d,
                PieceKind::King,
                Side::Black,
            ) && !pawn_on_rank(d, 7) && pawn_on_rank(d, 0)) ==> (r matches Err(e) && e@
                == "Pawns cannot be on rank 1"@)
        },
{
    let p = match parse_position(fen) {
        Some(p) => p,
        None => {
            return Err(
                match chess_parse_err(fen) {
                    Some(e) => e,
                    None => String::from_str("unsupported position string"),
                },
            );
        },
    };
    if !board_has(&p, PieceKind::King, Side::White) {
        return Err(String::from_str("Missing white king (K)"));
    }
    if !board_has(&p, PieceKind::King, Side::Black) {
        return Err(String::from_str("Missing black king (k)"));
    }
    if rank_has_pawn(&p, 7) {
        return Err(String::from_str("Pawns cannot be on rank 8"));
    }
    if rank_has_pawn(&p, 0) {
        return Err(String::from_str("Pawns cannot be on rank 1"));
    }
    match chess_parse_err(fen) {
        Some(e) => Err(e),
        None => Ok(p),
    }
}

/// The piece standing on square `i` of the standard starting position.
pub open spec fn spec_start_sq(i: int) -> Option<(PieceKind, Side)> {
    let r = i / 8;
    let f = i % 8;
    if r == 0 {
        Some((back_rank_kind(f), Side::White))
    } else if r == 1 {
        Some((PieceKind::Pawn, Side::White))
    } else if r == 6 {
        Some((PieceKind::Pawn, Side::Black))
    } else if r == 7 {
        Some((back_rank_kind(f), Side::Black))
    } else {
        None
    }
}

pub open spec fn back_rank_kind(f: int) -> PieceKind {
    if f == 0 || f == 7 {
        PieceKind::Rook
    } else if f == 1 || f == 6 {
        PieceKind::Knight
    } else if f == 2 || f == 5 {
        PieceKind::Bishop
    } else if f == 3 {
        PieceKind::Queen
    } else {
        PieceKind::King
    }
}

fn start_sq(i: usize) -> (r: Option<(PieceKind, Side)>)
    requires
        i < 64,
    ensures
        r == spec_start_sq(i as int),
{
    let rk: usize = i / 8;
    let fl: usize = i % 8;
    let kind = match fl {
        0 => PieceKind::Rook,
        1 => PieceKind::Knight,
        2 => PieceKind::Bishop,
        3 => PieceKind::Queen,
        4 => PieceKind::King,
        5 => PieceKind::Bishop,
        6 => PieceKind::Knight,
        _ => PieceKind::Rook,
    };
    match rk {
        0 => Some((kind, Side::White)),
        1 => Some((PieceKind::Pawn, Side::White)),
        6 => Some((PieceKind::Pawn, Side::Black)),
        7 => Some((kind, Side::Black)),
        _ => None,
    }
}

/// The starting position's abstract content.
pub open spec fn spec_start_board() -> BoardData {
    BoardData {
        squares: Seq::new(64, |i: int| spec_start_sq(i)),
        side_to_move: Side::White,
        castle_wk: true,
        castle_wq: true,
        castle_bk: true,
        castle_bq: true,
        ep_file: None,
    }
}

impl Position {
    /// The standard starting position.
    pub fn start() -> (p: Position)
        ensures
            p.wf(),
            board_data(p) == spec_start_board(),
    {
        let mut squares: Vec<Option<(PieceKind, Side)>> = Vec::new();
        let mut i: usize = 0;
        while i < 64
            invariant
                i <= 64,
                squares@.len() == i,
                forall|j: int| 0 <= j < i ==> squares@[j] == spec_start_sq(j),
            decreases 64 - i,
        {
            squares.push(start_sq(i));
            i = i + 1;
        }
        proof {
            assert(squares@ =~= Seq::new(64, |i: int| spec_start_sq(i)));
        }
        let p = Position {
            squares,
            side_to_move: Side::White,
            castle_wk: true,
            castle_wq: true,
            castle_bk: true,
            castle_bq: true,
            ep_file: None,
        };
        proof {
            assert(board_data(p) =~= spec_start_board());
        }
        p
    }
}

/// The position-setup workspace: a board being edited, the palette piece
/// that clicks will place, the rendered position string, and the result of
/// validating it.
#[derive(Debug)]
pub struct SetupState {
    pub board: Position,
    pub selected_palette: Option<(PieceKind, Side)>,
    pub fen_string: String,
    pub fen_error: Option<String>,
    pub player_color: Side,
}

impl SetupState {
    /// Opens a setup workspace seeded from an existing position.
    pub fn from_board(p: &Position, player_color: Side) -> (s: SetupState)
        requires
            p.wf(),
        ensures
            same_board(s.board, *p),
            s.board.wf(),
            s.selected_palette == Some((PieceKind::Pawn, Side::White)),
            s.player_color == player_color,
            s.fen_string@ == spec_to_fen(*p),
            s.fen_error is None,
    {
        let board = p.dup();
        let fen_string = to_fen(&board);
        proof {
            lemma_to_fen_congruent(board, *p);
        }
        SetupState {
            board,
            selected_palette: Some((PieceKind::Pawn, Side::White)),
            fen_string,
            fen_error: None,
            player_color,
        }
    }

    /// Re-renders the edited board into `fen_string` and revalidates it.
    pub fn rebuild_fen(&mut self)
        requires
            old(self).board.wf(),
        ensures
            final(self).board == old(self).board,
            final(self).selected_palette == old(self).selected_palette,
            final(self).player_color == old(self).player_color,
            final(self).fen_string@ == spec_to_fen(old(self).board),
            final(self).fen_error is None <==> spec_safe_parse_ok(spec_to_fen(old(self).board)),
    {
        self.fen_string = to_fen(&self.board);
        self.fen_error = match safe_parse_board(self.fen_string.as_str()) {
            Ok(_) => None,
            Err(e) => Some(e),
        };
    }

    /// Adopts `fen` as the workspace text: on successful validation the
    /// board follows it, otherwise the board is kept and the error is
    /// recorded.
    pub fn parse_fen_to_state(&mut self, fen: &str)
        ensures
            final(self).fen_string@ == fen@,
            final(self).selected_palette == old(self).selected_palette,
            final(self).player_color == old(self).player_color,
            final(self).fen_error is None <==> spec_safe_parse_ok(fen@),
            spec_safe_parse_ok(fen@) ==> final(self).board.wf() && spec_parse_position(fen@)
                == Some(board_data(final(self).board)),
            !spec_safe_parse_ok(fen@) ==> final(self).board == old(self).board,
    {
        self.fen_string = fen.to_owned();
        match safe_parse_board(fen) {
            Ok(p) => {
                self.board = p;
                self.fen_error = None;
            },
            Err(e) => {
                self.fen_error = Some(e);
            },
        }
    }
}


/// The side named by the second space-separated field of `s`, read the
/// same way [`spec_parse_position`] reads it.
pub open spec fn stm_token_of(s: Seq<char>) -> Option<Side> {
    let e0 = sp_end(s, 0);
    if e0 >= s.len() {
        None
    } else {
        let i1 = e0 + 1;
        let e1 = sp_end(s, i1);
        spec_parse_stm(s.subrange(i1, e1))
    }
}

/// A parsed position's side to move is its string's second field.
pub proof fn lemma_parse_stm_agrees(s: Seq<char>)
    ensures
        spec_parse_position(s) matches Some(d) ==> stm_token_of(s) == Some(d.side_to_move),
{
}

proof fn lemma_rank_run_no_space(p: Position, r: int, f: int, run: int)
    ensures
        forall|i: int|
            0 <= i < rank_run(p, r, f, run).len() ==> #[trigger] rank_run(p, r, f, run)[i] != ' ',
    decreases 8 - f,
{
    if !(0 <= f < 8) {
        assert forall|i: int|
            0 <= i < rank_run(p, r, f, run).len() implies #[trigger] rank_run(p, r, f, run)[i]
            != ' ' by {
            assert(rank_run(p, r, f, run) == run_digits(run));
            assert(rank_run(p, r, f, run)[i] == crate::model::digit_char(run));
        }
    } else {
        lemma_rank_run_no_space(p, r, f + 1, run + 1);
        lemma_rank_run_no_space(p, r, f + 1, 0);
        match p.at(f, r) {
            None => {
                assert(rank_run(p, r, f, run) == rank_run(p, r, f + 1, run + 1));
            },
            Some((k, c)) => {
                assert forall|i: int|
                    0 <= i < rank_run(p, r, f, run).len() implies #[trigger] rank_run(
                    p,
                    r,
                    f,
                    run,
                )[i] != ' ' by {
                    let a = run_digits(run);
                    let b = seq![piece_char(k, c)];
                    let d = rank_run(p, r, f + 1, 0);
                    assert(rank_run(p, r, f, run) == a + b + d);
                    if i < a.len() {
                        assert((a + b + d)[i] == crate::model::digit_char(run));
                    } else if i == a.len() {
                        assert((a + b + d)[i] == piece_char(k, c));
                    } else {
                        assert((a + b + d)[i] == d[i - a.len() - 1]);
                    }
                }
            },
        }
    }
}

proof fn lemma_ranks_no_space(p: Position, r: int)
    ensures
        forall|i: int|
            0 <= i < ranks_fen(p, r).len() ==> #[trigger] ranks_fen(p, r)[i] != ' ',
    decreases r,
{
    if r <= 0 {
        lemma_rank_run_no_space(p, 0, 0, 0);
    } else {
        lemma_rank_run_no_space(p, r, 0, 0);
        lemma_ranks_no_space(p, r - 1);
        assert forall|i: int| 0 <= i < ranks_fen(p, r).len() implies #[trigger] ranks_fen(
            p,
            r,
        )[i] != ' ' by {
            let whole = rank_run(p, r, 0, 0) + seq!['/'] + ranks_fen(p, r - 1);
            assert(ranks_fen(p, r) == whole);
            let a = rank_run(p, r, 0, 0);
            if i < a.len() {
                assert(whole[i] == a[i]);
            } else if i == a.len() {
                assert(whole[i] == '/');
            } else {
                assert(whole[i] == ranks_fen(p, r - 1)[i - a.len() - 1]);
            }
        }
    }
}

/// `sp_end` lands on the first space: if everything before `k` (from
/// `from` on) is not a space and `s[k]` is one, the scan stops at `k`.
proof fn lemma_sp_end_at(s: Seq<char>, from: int, k: int)
    requires
        0 <= from <= k < s.len(),
        forall|i: int| from <= i < k ==> s[i] != ' ',
        s[k] == ' ',
    ensures
        sp_end(s, from) == k,
    decreases k - from,
{
    if from < k {
        lemma_sp_end_at(s, from + 1, k);
    }
}

/// The second field of a rendered position names exactly the position's
/// side to move.
pub proof fn lemma_to_fen_stm(p: Position)
    ensures
        stm_token_of(spec_to_fen(p)) == Some(p.side_to_move),
{
    reveal_strlit("w");
    reveal_strlit("b");
    reveal_strlit(" 0 1");
    let s = spec_to_fen(p);
    let pl = ranks_fen(p, 7);
    let n = pl.len() as int;
    lemma_ranks_no_space(p, 7);
    assert(s.len() >= n + 3);
    assert(s[n] == ' ');
    assert forall|i: int| 0 <= i < n implies s[i] != ' ' by {
        assert(s[i] == pl[i]);
    }
    lemma_sp_end_at(s, 0, n);
    assert(s[n + 1] == stm_char(p));
    assert(stm_char(p) != ' ');
    assert(s[n + 2] == ' ');
    lemma_sp_end_at(s, n + 1, n + 2);
    let tok = s.subrange(n + 1, n + 2);
    assert(tok.len() == 1 && tok[0] == stm_char(p));
    if p.side_to_move is White {
        assert(spec_parse_stm(tok) == Some(Side::White));
    } else {
        assert(spec_parse_stm(tok) == Some(Side::Black));
    }
}

pub(crate) fn rank_str(r0: u8) -> (r: &'static str)
    requires
        r0 < 8,
    ensures
        r@ == seq![rank_char(r0 as int)],
{
    proof {
        reveal_strlit("1");
        reveal_strlit("2");
        reveal_strlit("3");
        reveal_strlit("4");
        reveal_strlit("5");
        reveal_strlit("6");
        reveal_strlit("7");
        reveal_strlit("8");
    }
    let r = match r0 {
        0 => "1",
        1 => "2",
        2 => "3",
        3 => "4",
        4 => "5",
        5 => "6",
        6 => "7",
        _ => "8",
    };
    proof {
        assert(r@ =~= seq![rank_char(r0 as int)]);
    }
    r
}

} // verus!
