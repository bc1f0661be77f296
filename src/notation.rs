use vstd::prelude::*;
use vstd::slice::slice_subrange;
use vstd::string::StringSliceAdditionalSpecFns;
use crate::board::PieceType;
use crate::error::ChessError;
use crate::square::Square;

verus! {

pub const DASH: u8 = 45;
pub const DIGIT_0: u8 = 48;
pub const DIGIT_1: u8 = 49;
pub const DIGIT_8: u8 = 56;
pub const EQUALS: u8 = 61;
pub const HASH: u8 = 35;
pub const LOWER_A: u8 = 97;
pub const LOWER_B: u8 = 98;
pub const LOWER_H: u8 = 104;
pub const LOWER_K: u8 = 107;
pub const LOWER_N: u8 = 110;
pub const LOWER_P: u8 = 112;
pub const LOWER_Q: u8 = 113;
pub const LOWER_R: u8 = 114;
pub const LOWER_X: u8 = 120;
pub const PLUS: u8 = 43;
pub const SPACE: u8 = 32;
pub const UPPER_B: u8 = 66;
pub const UPPER_K: u8 = 75;
pub const UPPER_N: u8 = 78;
pub const UPPER_P: u8 = 80;
pub const UPPER_Q: u8 = 81;
pub const UPPER_R: u8 = 82;
pub const UPPER_X: u8 = 88;

/// What a move text asks for, before the board is consulted.
#[derive(Clone, Copy, Debug, PartialEq, Eq, Structural)]
pub enum MoveIntent {
    Castle { kingside: bool },
    /// A piece of this type moves to `dst`; the source may be narrowed to a
    /// file or a rank.
    Piece { typ: PieceType, dst: Square, src_file: Option<u8>, src_rank: Option<u8> },
    /// Source and destination given outright.
    Squares { src: Square, dst: Square },
}

#[derive(Clone, Copy, Debug, PartialEq, Eq, Structural)]
pub struct ParsedMove {
    pub intent: MoveIntent,
    pub promotion: Option<PieceType>,
}

pub open spec fn file_of(c: u8) -> Option<u8> {
    if LOWER_A <= c <= LOWER_H {
        Some((c - LOWER_A) as u8)
    } else {
        None
    }
}

pub open spec fn rank_of(c: u8) -> Option<u8> {
    if DIGIT_1 <= c <= DIGIT_8 {
        Some((c - DIGIT_1) as u8)
    } else {
        None
    }
}

pub open spec fn square_of(f: u8, r: u8) -> Option<Square> {
    match (file_of(f), rank_of(r)) {
        (Some(x), Some(y)) => Some(Square::at(x as int, y as int)),
        _ => None,
    }
}

/// The letter that opens a piece move. Lower case is accepted too, except
/// `b`, which always names the b-file.
pub open spec fn piece_letter(c: u8) -> Option<PieceType> {
    if c == UPPER_P || c == LOWER_P {
        Some(PieceType::Pawn)
    } else if c == UPPER_N || c == LOWER_N {
        Some(PieceType::Knight)
    } else if c == UPPER_B {
        Some(PieceType::Bishop)
    } else if c == UPPER_R || c == LOWER_R {
        Some(PieceType::Rook)
    } else if c == UPPER_Q || c == LOWER_Q {
        Some(PieceType::Queen)
    } else if c == UPPER_K || c == LOWER_K {
        Some(PieceType::King)
    } else {
        None
    }
}

/// The letter after `=` that names the promotion piece, in either case.
pub open spec fn promotion_letter(c: u8) -> Option<PieceType> {
    if c == UPPER_N || c == LOWER_N {
        Some(PieceType::Knight)
    } else if c == UPPER_B || c == LOWER_B {
        Some(PieceType::Bishop)
    } else if c == UPPER_R || c == LOWER_R {
        Some(PieceType::Rook)
    } else if c == UPPER_Q || c == LOWER_Q {
        Some(PieceType::Queen)
    } else {
        None
    }
}

pub open spec fn is_capture_mark(c: u8) -> bool {
    c == LOWER_X || c == UPPER_X
}

pub open spec fn is_separator(c: u8) -> bool {
    c == SPACE || c == DASH || is_capture_mark(c)
}

/// The text without a trailing `+`, `++` or `#`.
pub open spec fn without_check_mark(s: Seq<u8>) -> Seq<u8> {
    let n = s.len() as int;
    if n >= 2 && s[n - 1] == PLUS && s[n - 2] == PLUS {
        s.take(n - 2)
    } else if n >= 1 && (s[n - 1] == PLUS || s[n - 1] == HASH) {
        s.take(n - 1)
    } else {
        s
    }
}

/// The piece named by a trailing `=X`.
pub open spec fn promotion_of(s: Seq<u8>) -> Option<PieceType> {
    let n = s.len() as int;
    if n >= 2 && s[n - 2] == EQUALS {
        promotion_letter(s[n - 1])
    } else {
        None
    }
}

/// The text without a valid trailing `=X`.
pub open spec fn without_promotion(s: Seq<u8>) -> Seq<u8> {
    if promotion_of(s) is Some {
        s.take(s.len() - 2)
    } else {
        s
    }
}

/// `e4`, `exd5`, `ed5`: a pawn move, with the source file for a capture.
pub open spec fn pawn_body(b: Seq<u8>) -> Option<MoveIntent> {
    let n = b.len();
    if n < 2 || n > 4 {
        None
    } else {
        match square_of(b[n - 2], b[n - 1]) {
            None => None,
            Some(d) => if n == 2 {
                Some(MoveIntent::Piece { typ: PieceType::Pawn, dst: d, src_file: None, src_rank: None })
            } else if file_of(b[0]) is Some && (n == 3 || is_capture_mark(b[1])) {
                Some(MoveIntent::Piece { typ: PieceType::Pawn, dst: d, src_file: file_of(b[0]), src_rank: None })
            } else {
                None
            },
        }
    }
}

/// `Nf3`, `Nxf3`, `Ngf3`, `N1f3`, `Ngxf3`, `N1xf3`.
pub open spec fn piece_body(b: Seq<u8>) -> Option<MoveIntent> {
    let n = b.len();
    if n < 3 || n > 5 {
        None
    } else {
        match (piece_letter(b[0]), square_of(b[n - 2], b[n - 1])) {
            (Some(t), Some(d)) => {
                let narrowed = file_of(b[1]) is Some || rank_of(b[1]) is Some;
                if n == 3 || (n == 4 && is_capture_mark(b[1])) {
                    Some(MoveIntent::Piece { typ: t, dst: d, src_file: None, src_rank: None })
                } else if narrowed && (n == 4 || is_capture_mark(b[2])) {
                    Some(MoveIntent::Piece { typ: t, dst: d, src_file: file_of(b[1]), src_rank: rank_of(b[1]) })
                } else {
                    None
                }
            },
            _ => None,
        }
    }
}

pub open spec fn castle_body(b: Seq<u8>) -> Option<MoveIntent> {
    if b == seq![DIGIT_0, DASH, DIGIT_0, DASH, DIGIT_0] {
        Some(MoveIntent::Castle { kingside: false })
    } else if b == seq![DIGIT_0, DASH, DIGIT_0] {
        Some(MoveIntent::Castle { kingside: true })
    } else {
        None
    }
}

pub open spec fn standard_body(b: Seq<u8>) -> Option<MoveIntent> {
    if castle_body(b) is Some {
        castle_body(b)
    } else if pawn_body(b) is Some {
        pawn_body(b)
    } else {
        piece_body(b)
    }
}

/// Standard notation: a castling, pawn or piece move, then an optional
/// promotion, then an optional check or mate mark.
pub open spec fn parse_standard(s: Seq<u8>) -> Option<ParsedMove> {
    let t = without_check_mark(s);
    match standard_body(without_promotion(t)) {
        Some(m) => Some(ParsedMove { intent: m, promotion: promotion_of(t) }),
        None => None,
    }
}

/// Simple notation: source square, optional separator, destination square,
/// optional promotion.
pub open spec fn parse_simple(s: Seq<u8>) -> Option<ParsedMove> {
    let b = without_promotion(s);
    let n = b.len();
    if n == 4 || (n == 5 && is_separator(b[2])) {
        match (square_of(b[0], b[1]), square_of(b[n - 2], b[n - 1])) {
            (Some(a), Some(d)) => Some(
                ParsedMove { intent: MoveIntent::Squares { src: a, dst: d }, promotion: promotion_of(s) },
            ),
            _ => None,
        }
    } else {
        None
    }
}

pub open spec fn parse_spec(s: Seq<u8>) -> Result<ParsedMove, ChessError> {
    match parse_standard(s) {
        Some(m) => Ok(m),
        None => match parse_simple(s) {
            Some(m) => Ok(m),
            None => Err(ChessError::SyntaxError),
        },
    }
}

fn file_code(c: u8) -> (r: Option<u8>)
    ensures
        r == file_of(c),
{
    if LOWER_A <= c && c <= LOWER_H {
        Some(c - LOWER_A)
    } else {
        None
    }
}

fn rank_code(c: u8) -> (r: Option<u8>)
    ensures
        r == rank_of(c),
{
    if DIGIT_1 <= c && c <= DIGIT_8 {
        Some(c - DIGIT_1)
    } else {
        None
    }
}

fn square_code(f: u8, r: u8) -> (s: Option<Square>)
    ensures
        s == square_of(f, r),
{
    match (file_code(f), rank_code(r)) {
        (Some(x), Some(y)) => Some(Square::new(x, y)),
        _ => None,
    }
}

fn piece_code(c: u8) -> (r: Option<PieceType>)
    ensures
        r == piece_letter(c),
{
    if c == UPPER_P || c == LOWER_P {
        Some(PieceType::Pawn)
    } else if c == UPPER_N || c == LOWER_N {
        Some(PieceType::Knight)
    } else if c == UPPER_B {
        Some(PieceType::Bishop)
    } else if c == UPPER_R || c == LOWER_R {
        Some(PieceType::Rook)
    } else if c == UPPER_Q || c == LOWER_Q {
        Some(PieceType::Queen)
    } else if c == UPPER_K || c == LOWER_K {
        Some(PieceType::King)
    } else {
        None
    }
}

fn promotion_code(c: u8) -> (r: Option<PieceType>)
    ensures
        r == promotion_letter(c),
{
    if c == UPPER_N || c == LOWER_N {
        Some(PieceType::Knight)
    } else if c == UPPER_B || c == LOWER_B {
        Some(PieceType::Bishop)
    } else if c == UPPER_R || c == LOWER_R {
        Some(PieceType::Rook)
    } else if c == UPPER_Q || c == LOWER_Q {
        Some(PieceType::Queen)
    } else {
        None
    }
}

fn capture_mark(c: u8) -> (r: bool)
    ensures
        r == is_capture_mark(c),
{
    c == LOWER_X || c == UPPER_X
}

fn strip_check_mark(s: &[u8]) -> (r: &[u8])
    ensures
        r@ == without_check_mark(s@),
{
    let n = s.len();
    if n >= 2 && s[n - 1] == PLUS && s[n - 2] == PLUS {
        slice_subrange(s, 0, n - 2)
    } else if n >= 1 && (s[n - 1] == PLUS || s[n - 1] == HASH) {
        slice_subrange(s, 0, n - 1)
    } else {
        s
    }
}

fn find_promotion(s: &[u8]) -> (r: Option<PieceType>)
    ensures
        r == promotion_of(s@),
{
    let n = s.len();
    if n >= 2 && s[n - 2] == EQUALS {
        promotion_code(s[n - 1])
    } else {
        None
    }
}

fn strip_promotion(s: &[u8]) -> (r: &[u8])
    ensures
        r@ == without_promotion(s@),
{
    if find_promotion(s).is_some() {
        slice_subrange(s, 0, s.len() - 2)
    } else {
        s
    }
}

fn pawn_move(b: &[u8]) -> (r: Option<MoveIntent>)
    ensures
        r == pawn_body(b@),
{
    let n = b.len();
    if n < 2 || n > 4 {
        return None;
    }
    match square_code(b[n - 2], b[n - 1]) {
        None => None,
        Some(d) => if n == 2 {
            Some(MoveIntent::Piece { typ: PieceType::Pawn, dst: d, src_file: None, src_rank: None })
        } else {
            let f = file_code(b[0]);
            if f.is_some() && (n == 3 || capture_mark(b[1])) {
                Some(MoveIntent::Piece { typ: PieceType::Pawn, dst: d, src_file: f, src_rank: None })
            } else {
                None
            }
        },
    }
}

fn piece_move(b: &[u8]) -> (r: Option<MoveIntent>)
    ensures
        r == piece_body(b@),
{
    let n = b.len();
    if n < 3 || n > 5 {
        return None;
    }
    match (piece_code(b[0]), square_code(b[n - 2], b[n - 1])) {
        (Some(t), Some(d)) => {
            let f = file_code(b[1]);
            let k = rank_code(b[1]);
            if n == 3 || (n == 4 && capture_mark(b[1])) {
                Some(MoveIntent::Piece { typ: t, dst: d, src_file: None, src_rank: None })
            } else if (f.is_some() || k.is_some()) && (n == 4 || capture_mark(b[2])) {
                Some(MoveIntent::Piece { typ: t, dst: d, src_file: f, src_rank: k })
            } else {
                None
            }
        },
        _ => None,
    }
}

fn castle_move(b: &[u8]) -> (r: Option<MoveIntent>)
    ensures
        r == castle_body(b@),
{
    if b.len() == 5 && b[0] == DIGIT_0 && b[1] == DASH && b[2] == DIGIT_0 && b[3] == DASH && b[4] == DIGIT_0 {
        assert(b@ == seq![DIGIT_0, DASH, DIGIT_0, DASH, DIGIT_0]);
        Some(MoveIntent::Castle { kingside: false })
    } else if b.len() == 3 && b[0] == DIGIT_0 && b[1] == DASH && b[2] == DIGIT_0 {
        assert(b@ == seq![DIGIT_0, DASH, DIGIT_0]);
        Some(MoveIntent::Castle { kingside: true })
    } else {
        None
    }
}

fn standard_move(s: &[u8]) -> (r: Option<ParsedMove>)
    ensures
        r == parse_standard(s@),
{
    let t = strip_check_mark(s);
    let body = strip_promotion(t);
    let intent = match castle_move(body) {
        Some(m) => Some(m),
        None => match pawn_move(body) {
            Some(m) => Some(m),
            None => piece_move(body),
        },
    };
    match intent {
        Some(m) => Some(ParsedMove { intent: m, promotion: find_promotion(t) }),
        None => None,
    }
}

fn simple_move(s: &[u8]) -> (r: Option<ParsedMove>)
    ensures
        r == parse_simple(s@),
{
    let b = strip_promotion(s);
    let n = b.len();
    if n == 4 || (n == 5 && (b[2] == SPACE || b[2] == DASH || capture_mark(b[2]))) {
        match (square_code(b[0], b[1]), square_code(b[n - 2], b[n - 1])) {
            (Some(a), Some(d)) => Some(
                ParsedMove {
                    intent: MoveIntent::Squares { src: a, dst: d },
                    promotion: find_promotion(s),
                },
            ),
            _ => None,
        }
    } else {
        None
    }
}

/// Parses a move in standard notation, or failing that in simple notation.
pub fn parse_move(text: &str) -> (r: Result<ParsedMove, ChessError>)
    ensures
        r == parse_spec(text.spec_bytes()),
{
    let s = text.as_bytes();
    match standard_move(s) {
        Some(m) => Ok(m),
        None => match simple_move(s) {
            Some(m) => Ok(m),
            None => Err(ChessError::SyntaxError),
        },
    }
}

} // verus!
