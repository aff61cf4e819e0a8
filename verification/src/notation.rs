//! The notation generator: a pure function from a pre-move position and a
//! move legal in it to the move's algebraic notation, with disambiguation,
//! capture and promotion marks, castling short forms, and the check or
//! checkmate suffix.

use crate::chessio::{
    chess_apply, chess_checkers, chess_legal_moves, fen_accepted, fen_after, in_check_of,
    legal_moves_of,
};
use crate::fen::{spec_to_fen, to_fen, Position};
use crate::model::{file_char, rank_char, sq_chars, Mv, PieceKind, Sq};
use vstd::prelude::*;

verus! {

/// A rendered move: the full notation, the piece that moved, the
/// destination fragment, whether it captured, and the display text (the
/// notation without its piece letter, for callers that draw the piece
/// instead).
#[derive(Debug, Clone)]
pub struct MoveDetails {
    pub notation: String,
    pub piece: PieceKind,
    pub destination: String,
    pub is_capture: bool,
    pub display_text: String,
}

/// What a move leaves the opponent with: no check, check with a reply, or
/// check without one.
#[derive(Clone, Copy, Debug, PartialEq, Eq, Structural)]
pub enum CheckKind {
    Quiet,
    Check,
    Mate,
}

/// The abstract content of a [`MoveDetails`].
#[verifier::ext_equal]
pub struct DetailsData {
    pub notation: Seq<char>,
    pub piece: PieceKind,
    pub destination: Seq<char>,
    pub is_capture: bool,
    pub display_text: Seq<char>,
}

pub open spec fn details_data(d: MoveDetails) -> DetailsData {
    DetailsData {
        notation: d.notation@,
        piece: d.piece,
        destination: d.destination@,
        is_capture: d.is_capture,
        display_text: d.display_text@,
    }
}

/// The upper-case letter naming a piece kind, empty for a pawn.
pub open spec fn piece_letter(k: PieceKind) -> Seq<char> {
    match k {
        PieceKind::Pawn => Seq::empty(),
        PieceKind::Knight => seq!['N'],
        PieceKind::Bishop => seq!['B'],
        PieceKind::Rook => seq!['R'],
        PieceKind::Queen => seq!['Q'],
        PieceKind::King => seq!['K'],
    }
}

/// The `=X` promotion suffix of the full notation.
pub open spec fn promo_suffix(p: Option<PieceKind>) -> Seq<char> {
    match p {
        Some(k) => seq!['='] + piece_letter(k),
        None => Seq::empty(),
    }
}

/// The lower-case promotion letter used by coordinate notation.
pub open spec fn promo_lower(p: Option<PieceKind>) -> Seq<char> {
    match p {
        Some(PieceKind::Queen) => seq!['q'],
        Some(PieceKind::Rook) => seq!['r'],
        Some(PieceKind::Bishop) => seq!['b'],
        Some(PieceKind::Knight) => seq!['n'],
        _ => Seq::empty(),
    }
}

/// Plain coordinate notation: both squares and the promotion letter.
pub open spec fn spec_coord_notation(m: Mv) -> Seq<char> {
    sq_chars(m.from) + sq_chars(m.to) + promo_lower(m.promotion)
}

/// Whether `x` is a disambiguation candidate against `m`: another legal
/// move to the same destination from a different source square that holds
/// the same kind of piece of the side to move.
pub open spec fn is_cand(p: Position, m: Mv, piece: PieceKind, x: Mv) -> bool {
    &&& x.to == m.to
    &&& x.from != m.from
    &&& p.at(x.from.file as int, x.from.rank as int) == Some((piece, p.side_to_move))
}

pub open spec fn has_cand(p: Position, m: Mv, piece: PieceKind, ms: Seq<Mv>) -> bool {
    exists|i: int| 0 <= i < ms.len() && is_cand(p, m, piece, #[trigger] ms[i])
}

pub open spec fn cand_shares_file(p: Position, m: Mv, piece: PieceKind, ms: Seq<Mv>) -> bool {
    exists|i: int|
        0 <= i < ms.len() && is_cand(p, m, piece, #[trigger] ms[i]) && ms[i].from.file
            == m.from.file
}

pub open spec fn cand_shares_rank(p: Position, m: Mv, piece: PieceKind, ms: Seq<Mv>) -> bool {
    exists|i: int|
        0 <= i < ms.len() && is_cand(p, m, piece, #[trigger] ms[i]) && ms[i].from.rank
            == m.from.rank
}

/// The disambiguation fragment: nothing without a candidate; the source
/// file if no candidate shares it; else the source rank if no candidate
/// shares it; else both.
pub open spec fn spec_disamb(p: Position, m: Mv, piece: PieceKind, ms: Seq<Mv>) -> Seq<char> {
    if !has_cand(p, m, piece, ms) {
        Seq::empty()
    } else if !cand_shares_file(p, m, piece, ms) {
        seq![file_char(m.from.file as int)]
    } else if !cand_shares_rank(p, m, piece, ms) {
        seq![rank_char(m.from.rank as int)]
    } else {
        sq_chars(m.from)
    }
}

/// The destination fragment of the full notation: a pawn capture names its
/// source file, any capture carries 'x', and the destination square closes
/// it.
pub open spec fn spec_dest_frag(piece: PieceKind, m: Mv, is_capture: bool) -> Seq<char> {
    if piece == PieceKind::Pawn && is_capture {
        seq![file_char(m.from.file as int), 'x'] + sq_chars(m.to)
    } else if is_capture {
        seq!['x'] + sq_chars(m.to)
    } else {
        sq_chars(m.to)
    }
}

/// The destination fragment of the display text, which drops a pawn
/// capture's source file (the piece is drawn instead).
pub open spec fn spec_display_frag(piece: PieceKind, m: Mv, is_capture: bool) -> Seq<char> {
    if piece == PieceKind::Pawn && is_capture {
        seq!['x'] + sq_chars(m.to)
    } else {
        spec_dest_frag(piece, m, is_capture)
    }
}

pub open spec fn suffix_chars(ck: CheckKind) -> Seq<char> {
    match ck {
        CheckKind::Quiet => Seq::empty(),
        CheckKind::Check => seq!['+'],
        CheckKind::Mate => seq!['#'],
    }
}

/// What playing a move whose resulting position is `nf` leaves the
/// opponent with.
pub open spec fn spec_check_kind(nf: Seq<char>) -> CheckKind {
    if !fen_accepted(nf) {
        CheckKind::Quiet
    } else if !in_check_of(nf) {
        CheckKind::Quiet
    } else if legal_moves_of(nf).len() == 0 {
        CheckKind::Mate
    } else {
        CheckKind::Check
    }
}

/// Whether `m` is the castling of the king standing on `m.from`: a king
/// move from the home file to file 6 (short) or file 2 (long).
pub open spec fn is_castle(piece: PieceKind, m: Mv) -> bool {
    piece == PieceKind::King && m.from.file == 4 && (m.to.file == 6 || m.to.file == 2)
}

pub open spec fn castle_text(m: Mv) -> Seq<char> {
    if m.to.file == 6 {
        "O-O"@
    } else {
        "O-O-O"@
    }
}

/// The check suffix `m` earns: computed only when `m` is one of the
/// position's legal moves, by looking at the position after it.
pub open spec fn spec_suffix(p: Position, m: Mv) -> Seq<char> {
    let f = spec_to_fen(p);
    if legal_moves_of(f).contains(m) {
        suffix_chars(spec_check_kind(fen_after(f, m)))
    } else {
        Seq::empty()
    }
}

/// The full notation of `m`, before its check suffix.
pub open spec fn spec_unsuffixed_notation(p: Position, m: Mv, piece: PieceKind, cap: bool) -> Seq<
    char,
> {
    let ms = legal_moves_of(spec_to_fen(p));
    let dis = if piece != PieceKind::Pawn && piece != PieceKind::King {
        spec_disamb(p, m, piece, ms)
    } else {
        Seq::empty()
    };
    piece_letter(piece) + dis + spec_dest_frag(piece, m, cap) + promo_suffix(m.promotion)
}

/// The display text of `m`, before its check suffix.
pub open spec fn spec_unsuffixed_display(p: Position, m: Mv, piece: PieceKind, cap: bool) -> Seq<
    char,
> {
    let ms = legal_moves_of(spec_to_fen(p));
    let dis = if piece != PieceKind::Pawn && piece != PieceKind::King {
        spec_disamb(p, m, piece, ms)
    } else {
        Seq::empty()
    };
    dis + spec_display_frag(piece, m, cap) + promo_suffix(m.promotion)
}

/// Everything [`move_to_details`] returns, as a function of the pre-move
/// position and the move:
/// - if the move-legality library rejects the position, or no piece stands
///   on the source square, plain coordinate notation (the defensive path);
/// - castling short forms, which short-circuit every further mark;
/// - otherwise piece letter, disambiguation against the position's legal
///   moves, capture mark, destination, promotion suffix, and the check or
///   checkmate suffix read from the position after the move.
pub open spec fn spec_move_details(p: Position, m: Mv) -> DetailsData {
    let f = spec_to_fen(p);
    if !fen_accepted(f) || p.at(m.from.file as int, m.from.rank as int) is None {
        DetailsData {
            notation: spec_coord_notation(m),
            piece: PieceKind::Pawn,
            destination: sq_chars(m.to),
            is_capture: false,
            display_text: sq_chars(m.to),
        }
    } else {
        let (piece, _c) = p.at(m.from.file as int, m.from.rank as int)->0;
        if is_castle(piece, m) {
            DetailsData {
                notation: castle_text(m),
                piece,
                destination: castle_text(m),
                is_capture: false,
                display_text: castle_text(m),
            }
        } else {
            let cap = p.at(m.to.file as int, m.to.rank as int) is Some;
            DetailsData {
                notation: spec_unsuffixed_notation(p, m, piece, cap) + spec_suffix(p, m),
                piece,
                destination: spec_dest_frag(piece, m, cap),
                is_capture: cap,
                display_text: spec_unsuffixed_display(p, m, piece, cap) + spec_suffix(p, m),
            }
        }
    }
}

/// Castling notation is exactly the short form: king from the home file to
/// file 6 renders as "O-O", to file 2 as "O-O-O", and the text never
/// carries a capture mark, a disambiguator, a promotion suffix or a check
/// suffix — it is those five or seven characters and nothing else.
pub proof fn lemma_castling_notation(p: Position, m: Mv)
    requires
        fen_accepted(spec_to_fen(p)),
        (p.at(m.from.file as int, m.from.rank as int) matches Some((k, _)) && k
            == PieceKind::King),
        m.from.file == 4,
        m.to.file == 6 || m.to.file == 2,
    ensures
        m.to.file == 6 ==> spec_move_details(p, m).notation == "O-O"@,
        m.to.file == 2 ==> spec_move_details(p, m).notation == "O-O-O"@,
        !spec_move_details(p, m).notation.contains('x'),
        !spec_move_details(p, m).notation.contains('+'),
        !spec_move_details(p, m).notation.contains('#'),
        !spec_move_details(p, m).is_capture,
{
    reveal_strlit("O-O");
    reveal_strlit("O-O-O");
    let nd = spec_move_details(p, m).notation;
    assert(nd == castle_text(m));
    if m.to.file == 6 {
        assert(nd.len() == 3);
        assert(nd[0] == 'O' && nd[1] == '-' && nd[2] == 'O');
        assert forall|i: int| 0 <= i < nd.len() implies nd[i] != 'x' && nd[i] != '+' && nd[i]
            != '#' by {}
    } else {
        assert(nd.len() == 5);
        assert(nd[0] == 'O' && nd[1] == '-' && nd[2] == 'O' && nd[3] == '-' && nd[4] == 'O');
        assert forall|i: int| 0 <= i < nd.len() implies nd[i] != 'x' && nd[i] != '+' && nd[i]
            != '#' by {}
    }
    if nd.contains('x') {
        let i = choose|i: int| 0 <= i < nd.len() && nd[i] == 'x';
        assert(false);
    }
    if nd.contains('+') {
        let i = choose|i: int| 0 <= i < nd.len() && nd[i] == '+';
        assert(false);
    }
    if nd.contains('#') {
        let i = choose|i: int| 0 <= i < nd.len() && nd[i] == '#';
        assert(false);
    }
}

/// The check and checkmate suffixes: a legal non-castling move's notation
/// ends in '#' exactly when the opponent it leaves is in check with no
/// legal reply, in '+' exactly when the opponent is in check with one, and
/// carries no suffix when the move does not give check.
pub proof fn lemma_check_suffix(p: Position, m: Mv)
    requires
        fen_accepted(spec_to_fen(p)),
        (p.at(m.from.file as int, m.from.rank as int) matches Some((k, _)) && !is_castle(k, m)),
        legal_moves_of(spec_to_fen(p)).contains(m),
        fen_accepted(fen_after(spec_to_fen(p), m)),
    ensures
        ({
            let nf = fen_after(spec_to_fen(p), m);
            let d = spec_move_details(p, m);
            let base = spec_unsuffixed_notation(p, m, d.piece, d.is_capture);
            &&& (in_check_of(nf) && legal_moves_of(nf).len() == 0) ==> d.notation == base
                + seq!['#']
            &&& (in_check_of(nf) && legal_moves_of(nf).len() > 0) ==> d.notation == base
                + seq!['+']
            &&& !in_check_of(nf) ==> d.notation == base
        }),
{
    let nf = fen_after(spec_to_fen(p), m);
    let d = spec_move_details(p, m);
    let base = spec_unsuffixed_notation(p, m, d.piece, d.is_capture);
    if !in_check_of(nf) {
        assert(d.notation =~= base);
    }
}

/// Disambiguation is order-independent: it depends only on which moves the
/// enumeration contains, not on the order it lists them in.
pub proof fn lemma_disamb_order_independent(
    p: Position,
    m: Mv,
    piece: PieceKind,
    ms1: Seq<Mv>,
    ms2: Seq<Mv>,
)
    requires
        forall|x: Mv|
            #![trigger ms1.contains(x)]
            #![trigger ms2.contains(x)]
            ms1.contains(x) <==> ms2.contains(x),
    ensures
        spec_disamb(p, m, piece, ms1) == spec_disamb(p, m, piece, ms2),
{
    lemma_cand_flags_transfer(p, m, piece, ms1, ms2);
    lemma_cand_flags_transfer(p, m, piece, ms2, ms1);
}

proof fn lemma_cand_flags_transfer(p: Position, m: Mv, piece: PieceKind, a: Seq<Mv>, b: Seq<Mv>)
    requires
        forall|x: Mv|
            #![trigger a.contains(x)]
            #![trigger b.contains(x)]
            a.contains(x) <==> b.contains(x),
    ensures
        has_cand(p, m, piece, a) ==> has_cand(p, m, piece, b),
        cand_shares_file(p, m, piece, a) ==> cand_shares_file(p, m, piece, b),
        cand_shares_rank(p, m, piece, a) ==> cand_shares_rank(p, m, piece, b),
{
    if has_cand(p, m, piece, a) {
        let i = choose|i: int| 0 <= i < a.len() && is_cand(p, m, piece, #[trigger] a[i]);
        assert(a.contains(a[i]));
        assert(b.contains(a[i]));
        let j = choose|j: int| 0 <= j < b.len() && b[j] == a[i];
        assert(is_cand(p, m, piece, b[j]));
    }
    if cand_shares_file(p, m, piece, a) {
        let i = choose|i: int|
            0 <= i < a.len() && is_cand(p, m, piece, #[trigger] a[i]) && a[i].from.file
                == m.from.file;
        assert(a.contains(a[i]));
        assert(b.contains(a[i]));
        let j = choose|j: int| 0 <= j < b.len() && b[j] == a[i];
        assert(is_cand(p, m, piece, b[j]) && b[j].from.file == m.from.file);
    }
    if cand_shares_rank(p, m, piece, a) {
        let i = choose|i: int|
            0 <= i < a.len() && is_cand(p, m, piece, #[trigger] a[i]) && a[i].from.rank
                == m.from.rank;
        assert(a.contains(a[i]));
        assert(b.contains(a[i]));
        let j = choose|j: int| 0 <= j < b.len() && b[j] == a[i];
        assert(is_cand(p, m, piece, b[j]) && b[j].from.rank == m.from.rank);
    }
}

fn piece_letter_str(k: PieceKind) -> (r: &'static str)
    ensures
        r@ == piece_letter(k),
{
    proof {
        reveal_strlit("");
        reveal_strlit("N");
        reveal_strlit("B");
        reveal_strlit("R");
        reveal_strlit("Q");
        reveal_strlit("K");
    }
    let r = match k {
        PieceKind::Pawn => "",
        PieceKind::Knight => "N",
        PieceKind::Bishop => "B",
        PieceKind::Rook => "R",
        PieceKind::Queen => "Q",
        PieceKind::King => "K",
    };
    proof {
        assert(r@ =~= piece_letter(k));
    }
    r
}

fn push_promo_suffix(s: &mut String, p: Option<PieceKind>)
    requires
        match p {
            Some(k) => k != PieceKind::Pawn && k != PieceKind::King,
            None => true,
        },
    ensures
        final(s)@ == old(s)@ + promo_suffix(p),
{
    proof {
        reveal_strlit("=Q");
        reveal_strlit("=R");
        reveal_strlit("=B");
        reveal_strlit("=N");
    }
    match p {
        None => {},
        Some(PieceKind::Queen) => s.append("=Q"),
        Some(PieceKind::Rook) => s.append("=R"),
        Some(PieceKind::Bishop) => s.append("=B"),
        Some(PieceKind::Knight) => s.append("=N"),
        Some(_) => {},
    }
    proof {
        assert(s@ =~= old(s)@ + promo_suffix(p));
    }
}

fn push_promo_lower(s: &mut String, p: Option<PieceKind>)
    ensures
        final(s)@ == old(s)@ + promo_lower(p),
{
    proof {
        reveal_strlit("q");
        reveal_strlit("r");
        reveal_strlit("b");
        reveal_strlit("n");
    }
    match p {
        Some(PieceKind::Queen) => s.append("q"),
        Some(PieceKind::Rook) => s.append("r"),
        Some(PieceKind::Bishop) => s.append("b"),
        Some(PieceKind::Knight) => s.append("n"),
        _ => {},
    }
    proof {
        assert(s@ =~= old(s)@ + promo_lower(p));
    }
}

fn push_sq(s: &mut String, sq: Sq)
    requires
        sq.wf(),
    ensures
        final(s)@ == old(s)@ + sq_chars(sq),
{
    s.append(crate::fen::file_str(sq.file));
    s.append(crate::fen::rank_str(sq.rank));
    proof {
        assert(s@ =~= old(s)@ + sq_chars(sq));
    }
}

/// The plain coordinate text of a move, as the engine protocol writes it.
pub fn coord_string(m: Mv) -> (r: String)
    requires
        m.wf(),
    ensures
        r@ == spec_coord_notation(m),
{
    let mut s = String::new();
    push_sq(&mut s, m.from);
    push_sq(&mut s, m.to);
    push_promo_lower(&mut s, m.promotion);
    proof {
        assert(s@ =~= spec_coord_notation(m));
    }
    s
}

/// Coordinate notation, the defensive fallback when the moved piece cannot
/// be determined.
fn fallback_details(m: Mv) -> (d: MoveDetails)
    requires
        m.wf(),
    ensures
        details_data(d) == (DetailsData {
            notation: spec_coord_notation(m),
            piece: PieceKind::Pawn,
            destination: sq_chars(m.to),
            is_capture: false,
            display_text: sq_chars(m.to),
        }),
{
    let notation = coord_string(m);
    let mut dest = String::new();
    push_sq(&mut dest, m.to);
    let mut display = String::new();
    push_sq(&mut display, m.to);
    proof {
        assert(notation@ =~= spec_coord_notation(m));
    }
    MoveDetails {
        notation,
        piece: PieceKind::Pawn,
        destination: dest,
        is_capture: false,
        display_text: display,
    }
}

fn castle_details(piece: PieceKind, m: Mv) -> (d: MoveDetails)
    requires
        is_castle(piece, m),
    ensures
        details_data(d) == (DetailsData {
            notation: castle_text(m),
            piece,
            destination: castle_text(m),
            is_capture: false,
            display_text: castle_text(m),
        }),
{
    let text = if m.to.file == 6 {
        "O-O"
    } else {
        "O-O-O"
    };
    MoveDetails {
        notation: text.to_owned(),
        piece,
        destination: text.to_owned(),
        is_capture: false,
        display_text: text.to_owned(),
    }
}

/// Whether `m` occurs in `list`.
pub(crate) fn mv_in_list(list: &Vec<Mv>, m: Mv) -> (r: bool)
    ensures
        r == list@.contains(m),
{
    let n = list.len();
    let mut i: usize = 0;
    let mut found: bool = false;
    while i < n
        invariant
            i <= n,
            n == list@.len(),
            found == exists|j: int| 0 <= j < i && list@[j] == m,
        decreases n - i,
    {
        let x = list[i];
        if x.from == m.from && x.to == m.to && crate::model::promo_eq(x.promotion, m.promotion) {
            proof {
                assert(list@[i as int] == m);
            }
            found = true;
        }
        i = i + 1;
    }
    proof {
        if found {
            let j = choose|j: int| 0 <= j < i && list@[j] == m;
            assert(list@.contains(m));
        }
        if list@.contains(m) {
            let j = choose|j: int| 0 <= j < list@.len() && list@[j] == m;
            assert(0 <= j < i);
        }
    }
    found
}

fn disamb_flags(p: &Position, m: Mv, piece: PieceKind, list: &Vec<Mv>) -> (r: (bool, bool, bool))
    requires
        p.wf(),
        m.wf(),
        forall|i: int| 0 <= i < list@.len() ==> (#[trigger] list@[i]).wf(),
    ensures
        r.0 == has_cand(*p, m, piece, list@),
        r.1 == cand_shares_file(*p, m, piece, list@),
        r.2 == cand_shares_rank(*p, m, piece, list@),
{
    let n = list.len();
    let mut i: usize = 0;
    let mut any: bool = false;
    let mut file_shared: bool = false;
    let mut rank_shared: bool = false;
    while i < n
        invariant
            p.wf(),
            m.wf(),
            i <= n,
            n == list@.len(),
            forall|j: int| 0 <= j < list@.len() ==> (#[trigger] list@[j]).wf(),
            any == exists|j: int| 0 <= j < i && is_cand(*p, m, piece, #[trigger] list@[j]),
            file_shared == exists|j: int|
                0 <= j < i && is_cand(*p, m, piece, #[trigger] list@[j]) && list@[j].from.file
                    == m.from.file,
            rank_shared == exists|j: int|
                0 <= j < i && is_cand(*p, m, piece, #[trigger] list@[j]) && list@[j].from.rank
                    == m.from.rank,
        decreases n - i,
    {
        let x = list[i];
        if x.to == m.to && x.from != m.from {
            match p.piece_at(x.from) {
                Some((k2, c2)) => {
                    if k2 == piece && c2 == p.side_to_move {
                        proof {
                            assert(is_cand(*p, m, piece, list@[i as int]));
                        }
                        any = true;
                        if x.from.file == m.from.file {
                            file_shared = true;
                        }
                        if x.from.rank == m.from.rank {
                            rank_shared = true;
                        }
                    }
                },
                None => {},
            }
        }
        i = i + 1;
    }
    (any, file_shared, rank_shared)
}

/// What the move leaves the opponent with, read from the position reached.
fn check_kind_of(nf: &str) -> (r: CheckKind)
    ensures
        r == spec_check_kind(nf@),
{
    match chess_checkers(nf) {
        None => CheckKind::Quiet,
        Some(c) => {
            if c == 0 {
                CheckKind::Quiet
            } else {
                match chess_legal_moves(nf) {
                    None => CheckKind::Quiet,  // unreachable: the position was accepted
                    Some(replies) => {
                        if replies.len() == 0 {
                            CheckKind::Mate
                        } else {
                            CheckKind::Check
                        }
                    },
                }
            }
        },
    }
}

fn push_suffix(s: &mut String, ck: CheckKind)
    ensures
        final(s)@ == old(s)@ + suffix_chars(ck),
{
    proof {
        reveal_strlit("+");
        reveal_strlit("#");
    }
    match ck {
        CheckKind::Quiet => {},
        CheckKind::Check => s.append("+"),
        CheckKind::Mate => s.append("#"),
    }
    proof {
        assert(s@ =~= old(s)@ + suffix_chars(ck));
    }
}

fn push_dest_frag(s: &mut String, piece: PieceKind, m: Mv, cap: bool)
    requires
        m.wf(),
    ensures
        final(s)@ == old(s)@ + spec_dest_frag(piece, m, cap),
{
    proof {
        reveal_strlit("x");
    }
    if piece == PieceKind::Pawn && cap {
        s.append(crate::fen::file_str(m.from.file));
        s.append("x");
    } else if cap {
        s.append("x");
    }
    push_sq(s, m.to);
    proof {
        assert(s@ =~= old(s)@ + spec_dest_frag(piece, m, cap));
    }
}

/// Renders `m` against the pre-move position `p`: the whole notation
/// algorithm, with the move-legality library consulted for the legal-move
/// enumeration and for the position after the move.
pub fn move_to_details(p: &Position, m: Mv) -> (d: MoveDetails)
    requires
        p.wf(),
        m.wf(),
    ensures
        details_data(d) == spec_move_details(*p, m),
{
    let f = to_fen(p);
    let list = match chess_legal_moves(f.as_str()) {
        Some(list) => list,
        None => {
            return fallback_details(m);
        },
    };
    let (piece, _pc) = match p.piece_at(m.from) {
        Some(pc) => pc,
        None => {
            return fallback_details(m);
        },
    };
    if piece == PieceKind::King && m.from.file == 4 && (m.to.file == 6 || m.to.file == 2) {
        return castle_details(piece, m);
    }
    let cap = p.piece_at(m.to).is_some();

    let mut disamb = String::new();
    if piece != PieceKind::Pawn && piece != PieceKind::King {
        let (any, file_shared, rank_shared) = disamb_flags(p, m, piece, &list);
        if any {
            if !file_shared {
                disamb.append(crate::fen::file_str(m.from.file));
            } else if !rank_shared {
                disamb.append(crate::fen::rank_str(m.from.rank));
            } else {
                push_sq(&mut disamb, m.from);
            }
        }
    }
    proof {
        assert(disamb@ == if piece != PieceKind::Pawn && piece != PieceKind::King {
            spec_disamb(*p, m, piece, legal_moves_of(f@))
        } else {
            Seq::<char>::empty()
        });
    }

    let ck: CheckKind;
    let ghost in_list = legal_moves_of(f@).contains(m);
    if mv_in_list(&list, m) {
        match chess_apply(f.as_str(), m) {
            Some(nf) => {
                ck = check_kind_of(nf.as_str());
            },
            None => {
                ck = CheckKind::Quiet;  // unreachable: the move is in the legal list
            },
        }
    } else {
        ck = CheckKind::Quiet;
    }
    proof {
        assert(suffix_chars(ck) == spec_suffix(*p, m));
    }

    let mut notation = String::from_str(piece_letter_str(piece));
    notation.append(disamb.as_str());
    push_dest_frag(&mut notation, piece, m, cap);
    push_promo_suffix(&mut notation, m.promotion);
    push_suffix(&mut notation, ck);

    let mut display = String::new();
    display.append(disamb.as_str());
    if piece == PieceKind::Pawn && cap {
        proof {
            reveal_strlit("x");
        }
        display.append("x");
        push_sq(&mut display, m.to);
        proof {
            assert(display@ =~= disamb@ + spec_display_frag(piece, m, cap));
        }
    } else {
        push_dest_frag(&mut display, piece, m, cap);
    }
    push_promo_suffix(&mut display, m.promotion);
    push_suffix(&mut display, ck);

    let mut dest = String::new();
    push_dest_frag(&mut dest, piece, m, cap);

    let d = MoveDetails { notation, piece, destination: dest, is_capture: cap, display_text: display };
    proof {
        assert(d.notation@ =~= spec_unsuffixed_notation(*p, m, piece, cap) + spec_suffix(*p, m));
        assert(d.display_text@ =~= spec_unsuffixed_display(*p, m, piece, cap) + spec_suffix(*p, m));
        assert(details_data(d) =~= spec_move_details(*p, m));
    }
    d
}

} // verus!
