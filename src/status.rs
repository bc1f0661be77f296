use vstd::prelude::*;
use crate::board::{PieceType, at};
use crate::rules::{
    ChessGame, GameView, apply, attempt_move, in_board, in_check, king_attacked, king_in_check,
    move_ok,
};
use crate::square::Square;

verus! {

#[derive(Clone, Copy, Debug, PartialEq, Eq, Structural)]
pub enum GameStatus {
    Ongoing,
    Checkmate,
    Stalemate,
}

/// The game with a queen chosen for any promotion: the choice of piece cannot
/// change whether the mover's own king ends up attacked.
pub open spec fn with_queen(g: GameView) -> GameView {
    GameView { promote_piece: Some(PieceType::Queen), ..g }
}

/// The side to move has a piece on `(sx, sy)` that can move to `(dx, dy)`
/// without leaving its own king attacked.
pub open spec fn legal_from(g: GameView, sx: int, sy: int, dx: int, dy: int) -> bool {
    match at(g.board, sx, sy) {
        Some(p) => p.black == g.black_to_move && move_ok(with_queen(g), p, sx, sy, dx, dy)
            && !king_in_check(apply(with_queen(g), p, sx, sy, dx, dy).board, g.black_to_move),
        None => false,
    }
}

pub open spec fn has_legal_move(g: GameView) -> bool {
    exists|sx: int, sy: int, dx: int, dy: int|
        in_board(sx, sy) && in_board(dx, dy) && #[trigger] legal_from(g, sx, sy, dx, dy)
}

/// Ongoing while a legal move exists; otherwise checkmate when the side to
/// move is in check, stalemate when it is not.
pub open spec fn status_of(g: GameView) -> GameStatus {
    if has_legal_move(g) {
        GameStatus::Ongoing
    } else if in_check(g) {
        GameStatus::Checkmate
    } else {
        GameStatus::Stalemate
    }
}

/// Whether the piece on `(sx, sy)` has a legal move; `trial` is the game with a
/// queen chosen for promotion.
fn has_move_from(game: &ChessGame, trial: &ChessGame, sx: u8, sy: u8) -> (r: bool)
    requires
        sx < 8,
        sy < 8,
        trial@ == with_queen(game@),
    ensures
        r == exists|dx: int, dy: int| in_board(dx, dy) && #[trigger] legal_from(game@, sx as int, sy as int, dx, dy),
{
    let ghost g = game@;
    let piece = match game.board[sy as usize][sx as usize] {
        Some(p) => p,
        None => {
            assert forall|dx: int, dy: int| in_board(dx, dy) implies !#[trigger] legal_from(g, sx as int, sy as int, dx, dy) by {}
            return false;
        },
    };
    if piece.black != game.black_to_move {
        assert forall|dx: int, dy: int| in_board(dx, dy) implies !#[trigger] legal_from(g, sx as int, sy as int, dx, dy) by {}
        return false;
    }
    let src = Square::new(sx, sy);
    let mut dy: u8 = 0;
    while dy < 8
        invariant
            dy <= 8,
            sx < 8,
            sy < 8,
            g == game@,
            trial@ == with_queen(g),
            at(g.board, sx as int, sy as int) == Some(piece),
            piece.black == g.black_to_move,
            src == Square::at(sx as int, sy as int),
            src.valid() && src.file() == sx && src.rank() == sy,
            forall|i: int, j: int| 0 <= i < 8 && 0 <= j < dy ==> !#[trigger] legal_from(g, sx as int, sy as int, i, j),
        decreases 8 - dy,
    {
        let mut dx: u8 = 0;
        while dx < 8
            invariant
                dx <= 8,
                dy < 8,
                sx < 8,
                sy < 8,
                g == game@,
                trial@ == with_queen(g),
                at(g.board, sx as int, sy as int) == Some(piece),
                piece.black == g.black_to_move,
                src.valid() && src.file() == sx && src.rank() == sy,
                forall|i: int, j: int| 0 <= i < 8 && 0 <= j < dy ==> !#[trigger] legal_from(g, sx as int, sy as int, i, j),
                forall|i: int| 0 <= i < dx ==> !#[trigger] legal_from(g, sx as int, sy as int, i, dy as int),
            decreases 8 - dx,
        {
            let dst = Square::new(dx, dy);
            let mut after = *trial;
            let moved = attempt_move(piece, src, dst, &mut after, false);
            if moved && king_attacked(&after.board, piece.black).is_none() {
                assert(legal_from(g, sx as int, sy as int, dx as int, dy as int));
                return true;
            }
            dx = dx + 1;
        }
        dy = dy + 1;
    }
    false
}

/// Classifies the position for the side to move by trying every move of each
/// of its pieces on a scratch copy.
pub fn classify(game: &ChessGame) -> (r: GameStatus)
    ensures
        r == status_of(game@),
{
    let ghost g = game@;
    let mut trial = *game;
    trial.promote_piece = Some(PieceType::Queen);
    assert(trial@ == with_queen(g));
    let mut sy: u8 = 0;
    while sy < 8
        invariant
            sy <= 8,
            g == game@,
            trial@ == with_queen(g),
            forall|a: int, b: int, i: int, j: int|
                0 <= a < 8 && 0 <= b < sy && in_board(i, j) ==> !#[trigger] legal_from(g, a, b, i, j),
        decreases 8 - sy,
    {
        let mut sx: u8 = 0;
        while sx < 8
            invariant
                sx <= 8,
                sy < 8,
                g == game@,
                trial@ == with_queen(g),
                forall|a: int, b: int, i: int, j: int|
                    0 <= a < 8 && 0 <= b < sy && in_board(i, j) ==> !#[trigger] legal_from(g, a, b, i, j),
                forall|a: int, i: int, j: int|
                    0 <= a < sx && in_board(i, j) ==> !#[trigger] legal_from(g, a, sy as int, i, j),
            decreases 8 - sx,
        {
            if has_move_from(game, &trial, sx, sy) {
                return GameStatus::Ongoing;
            }
            sx = sx + 1;
        }
        sy = sy + 1;
    }
    if king_attacked(&game.board, game.black_to_move).is_some() {
        GameStatus::Checkmate
    } else {
        GameStatus::Stalemate
    }
}

/// Classification is idempotent: `classify` leaves the game unchanged and its
/// result is a function of the game's model alone, so calling it twice on the
/// same game, or on two games with one model, gives the same status.
pub proof fn lemma_classify_idempotent(a: ChessGame, b: ChessGame)
    requires
        a@ == b@,
    ensures
        status_of(a@) == status_of(b@),
{
}

} // verus!
