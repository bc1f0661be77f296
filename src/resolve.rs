use vstd::prelude::*;
use crate::board::{Piece, PieceType, at, on};
use crate::error::ChessError;
use crate::notation::{MoveIntent, ParsedMove};
use crate::rules::{ChessGame, GameView, home_rank, in_board, is_pseudo_legal, promotes, pseudo_legal, rights};
use crate::square::{Square, lemma_square_at, lemma_valid_square};

verus! {

/// A piece of the side to move, of type `t`, on `(x, y)`, that reaches `dst`
/// and stands on the file and rank that the move names, if it names them.
pub open spec fn candidate(
    g: GameView,
    t: PieceType,
    dst: Square,
    f: Option<u8>,
    r: Option<u8>,
    x: int,
    y: int,
) -> bool {
    let p = Piece { typ: t, black: g.black_to_move };
    &&& at(g.board, x, y) == Some(p)
    &&& pseudo_legal(g, p, x, y, dst.file(), dst.rank())
    &&& f matches Some(ff) ==> ff == x
    &&& r matches Some(rr) ==> rr == y
}

pub open spec fn no_candidate(g: GameView, t: PieceType, dst: Square, f: Option<u8>, r: Option<u8>) -> bool {
    forall|x: int, y: int| in_board(x, y) ==> !#[trigger] candidate(g, t, dst, f, r, x, y)
}

/// Two different squares hold a candidate.
pub open spec fn two_candidates(g: GameView, t: PieceType, dst: Square, f: Option<u8>, r: Option<u8>) -> bool {
    exists|x1: int, y1: int, x2: int, y2: int|
        in_board(x1, y1) && in_board(x2, y2) && (x1 != x2 || y1 != y2) && #[trigger] candidate(
            g,
            t,
            dst,
            f,
            r,
            x1,
            y1,
        ) && #[trigger] candidate(g, t, dst, f, r, x2, y2)
}

/// Source and destination named by the move, before promotion is considered.
pub open spec fn squares_of(g: GameView, m: MoveIntent) -> Result<(Square, Square), ChessError> {
    match m {
        MoveIntent::Castle { kingside } => {
            let r = home_rank(g.black_to_move);
            let held = if kingside {
                rights(g, g.black_to_move).kingside
            } else {
                rights(g, g.black_to_move).queenside
            };
            if held {
                Ok((Square::at(4, r), Square::at(if kingside { 6 } else { 2 }, r)))
            } else {
                Err(ChessError::IllegalMove)
            }
        },
        MoveIntent::Squares { src, dst } => if src.valid() && dst.valid() {
            Ok((src, dst))
        } else {
            Err(ChessError::InvalidMove)
        },
        MoveIntent::Piece { typ, dst, src_file, src_rank } => {
            if !dst.valid() || no_candidate(g, typ, dst, src_file, src_rank) {
                Err(ChessError::InvalidMove)
            } else if two_candidates(g, typ, dst, src_file, src_rank) {
                Err(ChessError::AmbiguousMove)
            } else {
                let c = choose|c: (int, int)|
                    in_board(c.0, c.1) && #[trigger] candidate(g, typ, dst, src_file, src_rank, c.0, c.1);
                Ok((Square::at(c.0, c.1), dst))
            }
        },
    }
}

/// A pawn stands on `s` and `d` is on its last rank.
pub open spec fn promotion_due(g: GameView, s: Square, d: Square) -> bool {
    match on(g.board, s) {
        Some(p) => promotes(p, d.rank()),
        None => false,
    }
}

pub open spec fn resolve_spec(g: GameView, m: ParsedMove) -> Result<(Square, Square), ChessError> {
    match squares_of(g, m.intent) {
        Err(e) => Err(e),
        Ok((s, d)) => if promotion_due(g, s, d) && m.promotion is None {
            Err(ChessError::MissingPromotion)
        } else if !promotion_due(g, s, d) && m.promotion is Some {
            Err(ChessError::UnexpectedPromotion)
        } else {
            Ok((s, d))
        },
    }
}

pub open spec fn scanned(x: int, y: int, sx: int, sy: int) -> bool {
    y < sy || (y == sy && x < sx)
}

/// Finds the one piece of the side to move that fits a piece move.
fn find_source(
    game: &ChessGame,
    typ: PieceType,
    dst: Square,
    src_file: Option<u8>,
    src_rank: Option<u8>,
) -> (r: Result<Square, ChessError>)
    requires
        dst.valid(),
    ensures
        r == match squares_of(game@, MoveIntent::Piece { typ, dst, src_file, src_rank }) {
            Ok((s, _)) => Ok(s),
            Err(e) => Err(e),
        },
        r matches Ok(s) ==> s.valid(),
{
    let ghost g = game@;
    let piece = Piece { typ, black: game.black_to_move };
    let dx = dst.x();
    let dy = dst.y();
    let mut found: Option<Square> = None;
    let mut y: u8 = 0;
    while y < 8
        invariant
            y <= 8,
            g == game@,
            dst.valid(),
            dx == dst.file(),
            dy == dst.rank(),
            dx < 8,
            dy < 8,
            piece == (Piece { typ, black: g.black_to_move }),
            found is None ==> forall|i: int, j: int|
                in_board(i, j) && scanned(i, j, 0, y as int) ==> !#[trigger] candidate(
                    g,
                    typ,
                    dst,
                    src_file,
                    src_rank,
                    i,
                    j,
                ),
            found matches Some(s) ==> s.valid() && 0 <= s.rank() < y && candidate(
                g,
                typ,
                dst,
                src_file,
                src_rank,
                s.file(),
                s.rank(),
            ) && s == Square::at(s.file(), s.rank()) && forall|i: int, j: int|
                in_board(i, j) && scanned(i, j, 0, y as int) && #[trigger] candidate(
                    g,
                    typ,
                    dst,
                    src_file,
                    src_rank,
                    i,
                    j,
                ) ==> i == s.file() && j == s.rank(),
        decreases 8 - y,
    {
        let mut x: u8 = 0;
        while x < 8
            invariant
                x <= 8,
                y < 8,
                g == game@,
                dst.valid(),
                dx == dst.file(),
                dy == dst.rank(),
                dx < 8,
                dy < 8,
                piece == (Piece { typ, black: g.black_to_move }),
                found is None ==> forall|i: int, j: int|
                    in_board(i, j) && scanned(i, j, x as int, y as int) ==> !#[trigger] candidate(
                        g,
                        typ,
                        dst,
                        src_file,
                        src_rank,
                        i,
                        j,
                    ),
                found matches Some(s) ==> s.valid() && scanned(s.file(), s.rank(), x as int, y as int)
                    && candidate(g, typ, dst, src_file, src_rank, s.file(), s.rank()) && s
                    == Square::at(s.file(), s.rank()) && forall|i: int, j: int|
                    in_board(i, j) && scanned(i, j, x as int, y as int) && #[trigger] candidate(
                        g,
                        typ,
                        dst,
                        src_file,
                        src_rank,
                        i,
                        j,
                    ) ==> i == s.file() && j == s.rank(),
            decreases 8 - x,
        {
            let fits_file = match src_file {
                Some(f) => f == x,
                None => true,
            };
            let fits_rank = match src_rank {
                Some(k) => k == y,
                None => true,
            };
            if fits_file && fits_rank && game.board[y as usize][x as usize] == Some(piece)
                && is_pseudo_legal(game, piece, x, y, dx, dy) {
                assert(candidate(g, typ, dst, src_file, src_rank, x as int, y as int));
                match found {
                    Some(s) => {
                        assert(two_candidates(g, typ, dst, src_file, src_rank)) by {
                            lemma_valid_square(s);
                            assert(candidate(g, typ, dst, src_file, src_rank, s.file(), s.rank()));
                        }
                        return Err(ChessError::AmbiguousMove);
                    },
                    None => {
                        found = Some(Square::new(x, y));
                    },
                }
            }
            x = x + 1;
        }
        y = y + 1;
    }
    match found {
        None => Err(ChessError::InvalidMove),
        Some(s) => {
            proof {
                lemma_valid_square(s);
                assert(!two_candidates(g, typ, dst, src_file, src_rank));
                assert(in_board(s.file(), s.rank()) && candidate(g, typ, dst, src_file, src_rank, s.file(), s.rank()));
                let w = (s.file(), s.rank());
                assert(in_board(w.0, w.1) && candidate(g, typ, dst, src_file, src_rank, w.0, w.1));
                let c = choose|c: (int, int)|
                    in_board(c.0, c.1) && #[trigger] candidate(g, typ, dst, src_file, src_rank, c.0, c.1);
                assert(!no_candidate(g, typ, dst, src_file, src_rank));
                assert(in_board(c.0, c.1) && candidate(g, typ, dst, src_file, src_rank, c.0, c.1));
                if c.0 != s.file() || c.1 != s.rank() {
                    assert(two_candidates(g, typ, dst, src_file, src_rank));
                }
                assert(Square::at(c.0, c.1) == s);
            }
            Ok(s)
        },
    }
}

/// Turns a parsed move into a source and a destination on the game's board.
pub fn resolve_move(parsed: &ParsedMove, game: &ChessGame) -> (r: Result<(Square, Square), ChessError>)
    ensures
        r == resolve_spec(game@, *parsed),
        r matches Ok((s, d)) ==> s.valid() && d.valid(),
{
    let (src, dst) = match parsed.intent {
        MoveIntent::Castle { kingside } => {
            let r: u8 = if game.black_to_move {
                7
            } else {
                0
            };
            let rights = if game.black_to_move {
                game.castle_state.1
            } else {
                game.castle_state.0
            };
            let held = if kingside {
                rights.kingside
            } else {
                rights.queenside
            };
            if !held {
                return Err(ChessError::IllegalMove);
            }
            let to: u8 = if kingside {
                6
            } else {
                2
            };
            (Square::new(4, r), Square::new(to, r))
        },
        MoveIntent::Squares { src, dst } => {
            if !src.is_valid() || !dst.is_valid() {
                return Err(ChessError::InvalidMove);
            }
            (src, dst)
        },
        MoveIntent::Piece { typ, dst, src_file, src_rank } => {
            if !dst.is_valid() {
                return Err(ChessError::InvalidMove);
            }
            match find_source(game, typ, dst, src_file, src_rank) {
                Ok(s) => (s, dst),
                Err(e) => {
                    return Err(e);
                },
            }
        },
    };
    let due = match src.get(&game.board) {
        Some(p) => p.typ == PieceType::Pawn && dst.y() == if p.black {
            0
        } else {
            7
        },
        None => false,
    };
    if due && parsed.promotion.is_none() {
        Err(ChessError::MissingPromotion)
    } else if !due && parsed.promotion.is_some() {
        Err(ChessError::UnexpectedPromotion)
    } else {
        Ok((src, dst))
    }
}

/// A knight move to `dst`, narrowed to file `f` and rank `r` when given.
pub open spec fn knight_move(dst: Square, f: Option<u8>, r: Option<u8>) -> ParsedMove {
    ParsedMove {
        intent: MoveIntent::Piece { typ: PieceType::Knight, dst, src_file: f, src_rank: r },
        promotion: None,
    }
}

/// Disambiguation of knight moves. When two knights of the side to move fit
/// the move (both reach `dst` and stand on the named file and rank, if any),
/// the move is ambiguous; when exactly one fits, the move resolves to it; when
/// none fits, the move is invalid.
pub proof fn lemma_knight_disambiguation(g: GameView, dst: Square, f: Option<u8>, r: Option<u8>)
    requires
        dst.valid(),
    ensures
        two_candidates(g, PieceType::Knight, dst, f, r) ==> resolve_spec(g, knight_move(dst, f, r))
            == Err::<(Square, Square), ChessError>(ChessError::AmbiguousMove),
        no_candidate(g, PieceType::Knight, dst, f, r) ==> resolve_spec(g, knight_move(dst, f, r))
            == Err::<(Square, Square), ChessError>(ChessError::InvalidMove),
        forall|x: int, y: int|
            in_board(x, y) && #[trigger] candidate(g, PieceType::Knight, dst, f, r, x, y) && (forall|
                i: int,
                j: int,
            |
                in_board(i, j) && #[trigger] candidate(g, PieceType::Knight, dst, f, r, i, j) ==> i
                    == x && j == y) ==> resolve_spec(g, knight_move(dst, f, r)) == Ok::<
                (Square, Square),
                ChessError,
            >((Square::at(x, y), dst)),
{
    let t = PieceType::Knight;
    if two_candidates(g, t, dst, f, r) {
        let (x1, y1, x2, y2) = choose|x1: int, y1: int, x2: int, y2: int|
            in_board(x1, y1) && in_board(x2, y2) && (x1 != x2 || y1 != y2) && #[trigger] candidate(
                g,
                t,
                dst,
                f,
                r,
                x1,
                y1,
            ) && #[trigger] candidate(g, t, dst, f, r, x2, y2);
        assert(!no_candidate(g, t, dst, f, r));
    }
    assert forall|x: int, y: int|
        in_board(x, y) && #[trigger] candidate(g, t, dst, f, r, x, y) && (forall|i: int, j: int|
            in_board(i, j) && #[trigger] candidate(g, t, dst, f, r, i, j) ==> i == x && j == y)
        implies resolve_spec(g, knight_move(dst, f, r)) == Ok::<(Square, Square), ChessError>(
        (Square::at(x, y), dst),
    ) by {
        assert(!no_candidate(g, t, dst, f, r));
        assert(!two_candidates(g, t, dst, f, r));
        let c = choose|c: (int, int)| in_board(c.0, c.1) && #[trigger] candidate(g, t, dst, f, r, c.0, c.1);
        assert(in_board((x, y).0, (x, y).1) && candidate(g, t, dst, f, r, (x, y).0, (x, y).1));
        assert(c.0 == x && c.1 == y);
        lemma_square_at(x, y);
        assert(on(g.board, Square::at(x, y)) == at(g.board, x, y));
    }
}

} // verus!
