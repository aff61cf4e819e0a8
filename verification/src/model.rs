//! Plain data the whole library is written over: sides, piece kinds,
//! squares and coordinate moves, together with the character tables used
//! by both the notation generator and the position-string codec.

use vstd::prelude::*;

verus! {

/// One of the two players.
#[derive(Clone, Copy, Debug, PartialEq, Eq, Structural)]
pub enum Side {
    White,
    Black,
}

impl Side {
    /// The opponent of `self`.
    pub open spec fn spec_other(self) -> Side {
        if self is White {
            Side::Black
        } else {
            Side::White
        }
    }

    pub fn other(self) -> (r: Side)
        ensures
            r == self.spec_other(),
    {
        match self {
            Side::White => Side::Black,
            Side::Black => Side::White,
        }
    }
}

/// A kind of chess piece, without its colour.
#[derive(Clone, Copy, Debug, PartialEq, Eq, Structural)]
pub enum PieceKind {
    Pawn,
    Knight,
    Bishop,
    Rook,
    Queen,
    King,
}

/// A board square, as file and rank indices, both in `0 .. 8`
/// (file 0 is the a-file, rank 0 is rank 1).
#[derive(Clone, Copy, Debug, PartialEq, Eq, Structural)]
pub struct Sq {
    pub file: u8,
    pub rank: u8,
}

impl Sq {
    pub open spec fn wf(self) -> bool {
        self.file < 8 && self.rank < 8
    }
}

/// A coordinate move: source, destination, and an optional promotion kind.
#[derive(Clone, Copy, Debug)]
pub struct Mv {
    pub from: Sq,
    pub to: Sq,
    pub promotion: Option<PieceKind>,
}

impl Mv {
    /// Both squares are on the board and a promotion, when present, is one
    /// of the four kinds a pawn may become.
    pub open spec fn wf(self) -> bool {
        &&& self.from.wf()
        &&& self.to.wf()
        &&& match self.promotion {
            Some(k) => k != PieceKind::Pawn && k != PieceKind::King,
            None => true,
        }
    }
}

/// The piece a pawn may be promoted to.
#[derive(Clone, Copy, Debug, PartialEq, Eq, Structural)]
pub enum PromotionPiece {
    Queen,
    Rook,
    Bishop,
    Knight,
}

impl PromotionPiece {
    pub open spec fn spec_kind(self) -> PieceKind {
        match self {
            PromotionPiece::Queen => PieceKind::Queen,
            PromotionPiece::Rook => PieceKind::Rook,
            PromotionPiece::Bishop => PieceKind::Bishop,
            PromotionPiece::Knight => PieceKind::Knight,
        }
    }

    pub fn kind(self) -> (k: PieceKind)
        ensures
            k == self.spec_kind(),
    {
        match self {
            PromotionPiece::Queen => PieceKind::Queen,
            PromotionPiece::Rook => PieceKind::Rook,
            PromotionPiece::Bishop => PieceKind::Bishop,
            PromotionPiece::Knight => PieceKind::Knight,
        }
    }
}

/// Outcome of a finished game, as far as this core can decide it from the
/// current position alone.
#[derive(Clone, Copy, Debug, PartialEq, Eq, Structural)]
pub enum GameResult {
    WhiteCheckmates,
    BlackCheckmates,
    Stalemate,
}

/// The letter naming file `f` (0 maps to 'a', ..., 7 to 'h').
pub open spec fn file_char(f: int) -> char {
    if f == 0 {
        'a'
    } else if f == 1 {
        'b'
    } else if f == 2 {
        'c'
    } else if f == 3 {
        'd'
    } else if f == 4 {
        'e'
    } else if f == 5 {
        'f'
    } else if f == 6 {
        'g'
    } else {
        'h'
    }
}

/// The digit naming rank `r` (0 maps to '1', ..., 7 to '8').
pub open spec fn rank_char(r: int) -> char {
    if r == 0 {
        '1'
    } else if r == 1 {
        '2'
    } else if r == 2 {
        '3'
    } else if r == 3 {
        '4'
    } else if r == 4 {
        '5'
    } else if r == 5 {
        '6'
    } else if r == 6 {
        '7'
    } else {
        '8'
    }
}

/// The decimal digit character for `d` in `0 .. 10`.
pub open spec fn digit_char(d: int) -> char {
    if d == 0 {
        '0'
    } else if d == 1 {
        '1'
    } else if d == 2 {
        '2'
    } else if d == 3 {
        '3'
    } else if d == 4 {
        '4'
    } else if d == 5 {
        '5'
    } else if d == 6 {
        '6'
    } else if d == 7 {
        '7'
    } else if d == 8 {
        '8'
    } else {
        '9'
    }
}

/// Both coordinate characters of a square, file letter then rank digit.
pub open spec fn sq_chars(s: Sq) -> Seq<char> {
    seq![file_char(s.file as int), rank_char(s.rank as int)]
}

/// The file index named by `c`, if `c` is one of 'a' ..= 'h'.
pub open spec fn spec_file_of_char(c: char) -> Option<u8> {
    if c == 'a' {
        Some(0u8)
    } else if c == 'b' {
        Some(1u8)
    } else if c == 'c' {
        Some(2u8)
    } else if c == 'd' {
        Some(3u8)
    } else if c == 'e' {
        Some(4u8)
    } else if c == 'f' {
        Some(5u8)
    } else if c == 'g' {
        Some(6u8)
    } else if c == 'h' {
        Some(7u8)
    } else {
        None
    }
}

pub fn file_of_char(c: char) -> (r: Option<u8>)
    ensures
        r == spec_file_of_char(c),
        r matches Some(f) ==> f < 8 && file_char(f as int) == c,
{
    match c {
        'a' => Some(0u8),
        'b' => Some(1u8),
        'c' => Some(2u8),
        'd' => Some(3u8),
        'e' => Some(4u8),
        'f' => Some(5u8),
        'g' => Some(6u8),
        'h' => Some(7u8),
        _ => None,
    }
}

/// The rank index named by `c`, if `c` is one of '1' ..= '8'.
pub open spec fn spec_rank_of_char(c: char) -> Option<u8> {
    if c == '1' {
        Some(0u8)
    } else if c == '2' {
        Some(1u8)
    } else if c == '3' {
        Some(2u8)
    } else if c == '4' {
        Some(3u8)
    } else if c == '5' {
        Some(4u8)
    } else if c == '6' {
        Some(5u8)
    } else if c == '7' {
        Some(6u8)
    } else if c == '8' {
        Some(7u8)
    } else {
        None
    }
}

pub fn rank_of_char(c: char) -> (r: Option<u8>)
    ensures
        r == spec_rank_of_char(c),
        r matches Some(k) ==> k < 8 && rank_char(k as int) == c,
{
    match c {
        '1' => Some(0u8),
        '2' => Some(1u8),
        '3' => Some(2u8),
        '4' => Some(3u8),
        '5' => Some(4u8),
        '6' => Some(5u8),
        '7' => Some(6u8),
        '8' => Some(7u8),
        _ => None,
    }
}

pub(crate) fn digit_str(d: u8) -> (r: &'static str)
    requires
        d < 10,
    ensures
        r@ == seq![digit_char(d as int)],
{
    proof {
        reveal_strlit("0");
        reveal_strlit("1");
        reveal_strlit("2");
        reveal_strlit("3");
        reveal_strlit("4");
        reveal_strlit("5");
        reveal_strlit("6");
        reveal_strlit("7");
        reveal_strlit("8");
        reveal_strlit("9");
    }
    let r = match d {
        0 => "0",
        1 => "1",
        2 => "2",
        3 => "3",
        4 => "4",
        5 => "5",
        6 => "6",
        7 => "7",
        8 => "8",
        _ => "9",
    };
    proof {
        assert(r@ =~= seq![digit_char(d as int)]);
    }
    r
}

/// The promotion kind named by a coordinate-move letter, if any.
pub open spec fn spec_promo_of_char(c: char) -> Option<PieceKind> {
    if c == 'q' {
        Some(PieceKind::Queen)
    } else if c == 'r' {
        Some(PieceKind::Rook)
    } else if c == 'b' {
        Some(PieceKind::Bishop)
    } else if c == 'n' {
        Some(PieceKind::Knight)
    } else {
        None
    }
}

pub fn promo_of_char(c: char) -> (r: Option<PieceKind>)
    ensures
        r == spec_promo_of_char(c),
        r matches Some(k) ==> k != PieceKind::Pawn && k != PieceKind::King,
{
    match c {
        'q' => Some(PieceKind::Queen),
        'r' => Some(PieceKind::Rook),
        'b' => Some(PieceKind::Bishop),
        'n' => Some(PieceKind::Knight),
        _ => None,
    }
}

/// Equality on optional promotion kinds, decided in executable code.
pub fn promo_eq(a: Option<PieceKind>, b: Option<PieceKind>) -> (r: bool)
    ensures
        r == (a == b),
{
    match (a, b) {
        (Option::None, Option::None) => true,
        (Option::Some(x), Option::Some(y)) => x == y,
        _ => false,
    }
}

} // verus!
