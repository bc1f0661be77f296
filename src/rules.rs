use vstd::prelude::*;
use crate::board::{Board, Grid, Piece, PieceType, at, grid, on, put};
use crate::square::{Square, lemma_square_at, lemma_valid_square};

verus! {

/// The castling rights of one color.
#[derive(Clone, Copy, Debug, PartialEq, Eq, Structural)]
pub struct CastleState {
    pub queenside: bool,
    pub kingside: bool,
}

/// One game between two players.
#[derive(Clone, Copy, Debug, PartialEq, Eq)]
pub struct ChessGame {
    pub user_white: u64,
    pub user_black: u64,
    pub black_to_move: bool,
    /// White's rights, then Black's.
    pub castle_state: (CastleState, CastleState),
    /// The square a pawn just passed over with a double step, or the sentinel.
    pub en_passant_square: Square,
    pub board: Board,
    /// The piece a pawn reaching the last rank turns into, set only while a
    /// move is being applied.
    pub promote_piece: Option<PieceType>,
    /// Source and destination of the last move, or two sentinels.
    pub last_move: (Square, Square),
}

/// The mathematical model of a game: the board as a grid.
pub struct GameView {
    pub user_white: u64,
    pub user_black: u64,
    pub black_to_move: bool,
    pub castle_state: (CastleState, CastleState),
    pub en_passant_square: Square,
    pub board: Grid,
    pub promote_piece: Option<PieceType>,
    pub last_move: (Square, Square),
}

impl View for ChessGame {
    type V = GameView;

    open spec fn view(&self) -> GameView {
        GameView {
            user_white: self.user_white,
            user_black: self.user_black,
            black_to_move: self.black_to_move,
            castle_state: self.castle_state,
            en_passant_square: self.en_passant_square,
            board: grid(self.board),
            promote_piece: self.promote_piece,
            last_move: self.last_move,
        }
    }
}

pub open spec fn dist(a: int, b: int) -> int {
    if a >= b {
        a - b
    } else {
        b - a
    }
}

pub open spec fn sign(a: int) -> int {
    if a > 0 {
        1
    } else if a < 0 {
        -1
    } else {
        0
    }
}

/// The coordinate `k` steps from `s` in direction `step` (one of -1, 0, 1).
pub open spec fn ray(s: int, step: int, k: int) -> int {
    if step > 0 {
        s + k
    } else if step < 0 {
        s - k
    } else {
        s
    }
}

pub open spec fn in_board(x: int, y: int) -> bool {
    0 <= x < 8 && 0 <= y < 8
}

/// Every square strictly between the two ends of a line is empty.
pub open spec fn clear_between(b: Grid, sx: int, sy: int, dx: int, dy: int) -> bool {
    let n = if dist(sx, dx) >= dist(sy, dy) {
        dist(sx, dx)
    } else {
        dist(sy, dy)
    };
    forall|k: int|
        0 < k < n ==> #[trigger] at(b, ray(sx, sign(dx - sx), k), ray(sy, sign(dy - sy), k))
            is None
}

/// The destination is empty or holds an enemy piece.
pub open spec fn lands_on(b: Grid, p: Piece, x: int, y: int) -> bool {
    match at(b, x, y) {
        None => true,
        Some(q) => q.black != p.black,
    }
}

/// The destination holds an enemy piece.
pub open spec fn captures_on(b: Grid, p: Piece, x: int, y: int) -> bool {
    match at(b, x, y) {
        None => false,
        Some(q) => q.black != p.black,
    }
}

/// Whether a move of file distance `fx` and rank distance `ry` fits the
/// pattern of a piece of type `t` other than a pawn.
pub open spec fn shape_ok(t: PieceType, fx: int, ry: int) -> bool {
    match t {
        PieceType::Knight => (fx == 1 && ry == 2) || (fx == 2 && ry == 1),
        PieceType::King => fx <= 1 && ry <= 1 && (fx != 0 || ry != 0),
        PieceType::Rook => (fx == 0) != (ry == 0),
        PieceType::Bishop => fx == ry && fx != 0,
        PieceType::Queen => ((fx == 0) != (ry == 0)) || (fx == ry && fx != 0),
        PieceType::Pawn => false,
    }
}

pub open spec fn slides(t: PieceType) -> bool {
    t == PieceType::Rook || t == PieceType::Bishop || t == PieceType::Queen
}

/// A pseudo-legal move of a piece other than a pawn, castling aside.
pub open spec fn piece_step(b: Grid, p: Piece, sx: int, sy: int, dx: int, dy: int) -> bool {
    &&& shape_ok(p.typ, dist(sx, dx), dist(sy, dy))
    &&& slides(p.typ) ==> clear_between(b, sx, sy, dx, dy)
    &&& lands_on(b, p, dx, dy)
}


pub open spec fn forward(black: bool) -> int {
    if black {
        -1
    } else {
        1
    }
}

pub open spec fn pawn_start(black: bool) -> int {
    if black {
        6
    } else {
        1
    }
}

/// The rank on which a pawn of this color promotes.
pub open spec fn last_rank(black: bool) -> int {
    if black {
        0
    } else {
        7
    }
}

/// The rank on which this color's king and rooks start.
pub open spec fn home_rank(black: bool) -> int {
    if black {
        7
    } else {
        0
    }
}

/// A pseudo-legal pawn move: a step forward onto an empty square, a double
/// step from the starting rank over two empty squares, or a diagonal step onto
/// an enemy piece or onto the en-passant square.
pub open spec fn pawn_step(g: GameView, p: Piece, sx: int, sy: int, dx: int, dy: int) -> bool {
    let b = g.board;
    let f = forward(p.black);
    ||| dx == sx && dy == sy + f && at(b, dx, dy) is None
    ||| dx == sx && sy == pawn_start(p.black) && dy == sy + 2 * f && at(b, sx, sy + f) is None
        && at(b, dx, dy) is None
    ||| dist(sx, dx) == 1 && dy == sy + f && (captures_on(b, p, dx, dy) || (
    g.en_passant_square.valid() && g.en_passant_square == Square::at(dx, dy)))
}

/// A move that obeys the piece's pattern and the occupancy rules, whether or
/// not it leaves the mover's king in check. Castling is not among these.
pub open spec fn pseudo_legal(g: GameView, p: Piece, sx: int, sy: int, dx: int, dy: int) -> bool {
    if p.typ == PieceType::Pawn {
        pawn_step(g, p, sx, sy, dx, dy)
    } else {
        piece_step(g.board, p, sx, sy, dx, dy)
    }
}

/// A pawn attacks the two squares diagonally ahead of it, whatever stands
/// there, unless a piece of its own color does.
pub open spec fn pawn_attack(b: Grid, p: Piece, ax: int, ay: int, x: int, y: int) -> bool {
    dist(ax, x) == 1 && y == ay + forward(p.black) && lands_on(b, p, x, y)
}

pub open spec fn attacks(b: Grid, p: Piece, ax: int, ay: int, x: int, y: int) -> bool {
    if p.typ == PieceType::Pawn {
        pawn_attack(b, p, ax, ay, x, y)
    } else {
        piece_step(b, p, ax, ay, x, y)
    }
}

/// A piece of color `by_black` stands on `(ax, ay)` and attacks `(x, y)`.
pub open spec fn attacker_at(b: Grid, ax: int, ay: int, x: int, y: int, by_black: bool) -> bool {
    match at(b, ax, ay) {
        Some(q) => q.black == by_black && attacks(b, q, ax, ay, x, y),
        None => false,
    }
}

pub open spec fn attacked(b: Grid, x: int, y: int, by_black: bool) -> bool {
    exists|ax: int, ay: int| in_board(ax, ay) && #[trigger] attacker_at(b, ax, ay, x, y, by_black)
}

pub open spec fn is_king_of(v: Option<Piece>, black: bool) -> bool {
    v == Some(Piece { typ: PieceType::King, black })
}

/// A king of color `black` stands on an attacked square.
pub open spec fn king_in_check(b: Grid, black: bool) -> bool {
    exists|x: int, y: int|
        in_board(x, y) && #[trigger] is_king_of(at(b, x, y), black) && attacked(b, x, y, !black)
}

/// The side to move is in check.
pub open spec fn in_check(g: GameView) -> bool {
    king_in_check(g.board, g.black_to_move)
}

pub open spec fn rights(g: GameView, black: bool) -> CastleState {
    if black {
        g.castle_state.1
    } else {
        g.castle_state.0
    }
}

/// Castling: the king steps two files toward a rook whose right is still held,
/// over empty squares, from a square that is not attacked, through a square
/// that is not attacked. The landing square is not tested.
pub open spec fn castle_ok(g: GameView, p: Piece, sx: int, sy: int, dx: int, dy: int) -> bool {
    let b = g.board;
    let r = home_rank(p.black);
    let enemy = !p.black;
    &&& p.typ == PieceType::King
    &&& sx == 4 && sy == r && dy == r
    &&& !attacked(b, 4, r, enemy)
    &&& {
        ||| dx == 6 && rights(g, p.black).kingside && at(b, 5, r) is None && at(b, 6, r) is None
            && !attacked(b, 5, r, enemy)
        ||| dx == 2 && rights(g, p.black).queenside && at(b, 1, r) is None && at(b, 2, r) is None
            && at(b, 3, r) is None && !attacked(b, 3, r, enemy)
    }
}

pub open spec fn promotes(p: Piece, dy: int) -> bool {
    p.typ == PieceType::Pawn && dy == last_rank(p.black)
}

/// A move that `attempt_move` applies: pseudo-legal, with a promotion piece
/// chosen when a pawn reaches the last rank, or a castling move.
pub open spec fn move_ok(g: GameView, p: Piece, sx: int, sy: int, dx: int, dy: int) -> bool {
    ||| pseudo_legal(g, p, sx, sy, dx, dy) && (promotes(p, dy) ==> g.promote_piece is Some)
    ||| castle_ok(g, p, sx, sy, dx, dy)
}

/// The piece that ends up on the destination.
pub open spec fn placed_piece(g: GameView, p: Piece, dy: int) -> Piece {
    if promotes(p, dy) && g.promote_piece is Some {
        Piece { typ: g.promote_piece.unwrap(), black: p.black }
    } else {
        p
    }
}

pub open spec fn is_en_passant(b: Grid, p: Piece, sx: int, dx: int, dy: int) -> bool {
    p.typ == PieceType::Pawn && dx != sx && at(b, dx, dy) is None
}

pub open spec fn is_castling(p: Piece, sx: int, dx: int) -> bool {
    p.typ == PieceType::King && dist(sx, dx) == 2
}

/// The board after the move: the piece leaves its square and lands (promoted
/// if due) on the destination; an en-passant capture removes the passed pawn;
/// castling brings the rook to the square the king passed over.
pub open spec fn board_after(g: GameView, p: Piece, sx: int, sy: int, dx: int, dy: int) -> Grid {
    let b = g.board;
    let b1 = put(put(b, sx, sy, None), dx, dy, Some(placed_piece(g, p, dy)));
    if is_en_passant(b, p, sx, dx, dy) {
        put(b1, dx, sy, None)
    } else if is_castling(p, sx, dx) {
        if dx > sx {
            put(put(b1, 7, sy, None), 5, sy, at(b, 7, sy))
        } else {
            put(put(b1, 0, sy, None), 3, sy, at(b, 0, sy))
        }
    } else {
        b1
    }
}

/// Rights of color `black` after the move: lost for good when its king moves,
/// and on one side when anything leaves or lands on that side's rook corner.
pub open spec fn rights_after(
    c: CastleState,
    black: bool,
    p: Piece,
    sx: int,
    sy: int,
    dx: int,
    dy: int,
) -> CastleState {
    let r = home_rank(black);
    let king_moves = p.typ == PieceType::King && p.black == black;
    CastleState {
        queenside: c.queenside && !king_moves && !(sx == 0 && sy == r) && !(dx == 0 && dy == r),
        kingside: c.kingside && !king_moves && !(sx == 7 && sy == r) && !(dx == 7 && dy == r),
    }
}

/// Only a double pawn step leaves an en-passant square: the one it passed.
pub open spec fn en_passant_after(p: Piece, sx: int, sy: int, dy: int) -> Square {
    if p.typ == PieceType::Pawn && dist(sy, dy) == 2 {
        Square::at(sx, sy + forward(p.black))
    } else {
        Square::sentinel()
    }
}

pub open spec fn apply(g: GameView, p: Piece, sx: int, sy: int, dx: int, dy: int) -> GameView {
    GameView {
        user_white: g.user_white,
        user_black: g.user_black,
        black_to_move: g.black_to_move,
        castle_state: (
            rights_after(g.castle_state.0, false, p, sx, sy, dx, dy),
            rights_after(g.castle_state.1, true, p, sx, sy, dx, dy),
        ),
        en_passant_square: en_passant_after(p, sx, sy, dy),
        board: board_after(g, p, sx, sy, dx, dy),
        promote_piece: g.promote_piece,
        last_move: g.last_move,
    }
}

fn dist_u8(a: u8, b: u8) -> (r: u8)
    ensures
        r == dist(a as int, b as int),
{
    if a >= b {
        a - b
    } else {
        b - a
    }
}

/// Direction of travel from `a` to `b` along one axis.
fn sign_between(a: u8, b: u8) -> (r: i8)
    ensures
        r == sign(b - a),
{
    if b > a {
        1
    } else if b < a {
        -1
    } else {
        0
    }
}

fn lands_ok(board: &Board, piece: Piece, x: u8, y: u8) -> (r: bool)
    requires
        x < 8,
        y < 8,
    ensures
        r == lands_on(grid(*board), piece, x as int, y as int),
{
    match board[y as usize][x as usize] {
        None => true,
        Some(q) => q.black != piece.black,
    }
}

/// Tests that no piece stands strictly between the two ends of a rank, file
/// or diagonal.
fn path_clear(board: &Board, sx: u8, sy: u8, dx: u8, dy: u8) -> (r: bool)
    requires
        sx < 8,
        sy < 8,
        dx < 8,
        dy < 8,
        sx == dx || sy == dy || dist(sx as int, dx as int) == dist(sy as int, dy as int),
    ensures
        r == clear_between(grid(*board), sx as int, sy as int, dx as int, dy as int),
{
    let step_x = sign_between(sx, dx);
    let step_y = sign_between(sy, dy);
    let fx = dist_u8(sx, dx);
    let ry = dist_u8(sy, dy);
    let n: u8 = if fx >= ry {
        fx
    } else {
        ry
    };
    let ghost b = grid(*board);
    let mut k: u8 = 1;
    let mut x: i8 = sx as i8 + step_x;
    let mut y: i8 = sy as i8 + step_y;
    while k < n
        invariant
            1 <= k <= n || n == 0,
            n == if fx >= ry {
                fx
            } else {
                ry
            },
            fx == dist(sx as int, dx as int),
            ry == dist(sy as int, dy as int),
            step_x == sign(dx - sx),
            step_y == sign(dy - sy),
            sx < 8,
            sy < 8,
            dx < 8,
            dy < 8,
            sx == dx || sy == dy || fx == ry,
            x == ray(sx as int, step_x as int, k as int),
            y == ray(sy as int, step_y as int, k as int),
            b == grid(*board),
            forall|j: int|
                0 < j < k ==> #[trigger] at(b, ray(sx as int, step_x as int, j), ray(sy as int, step_y as int, j)) is None,
        decreases n - k,
    {
        if board[y as usize][x as usize].is_some() {
            assert(at(b, ray(sx as int, step_x as int, k as int), ray(sy as int, step_y as int, k as int)) is Some);
            return false;
        }
        k = k + 1;
        x = x + step_x;
        y = y + step_y;
    }
    true
}


/// Tests the pattern of a piece other than a pawn, castling aside.
fn piece_reaches(board: &Board, piece: Piece, sx: u8, sy: u8, dx: u8, dy: u8) -> (r: bool)
    requires
        sx < 8,
        sy < 8,
        dx < 8,
        dy < 8,
    ensures
        r == piece_step(grid(*board), piece, sx as int, sy as int, dx as int, dy as int),
{
    let fx = dist_u8(sx, dx);
    let ry = dist_u8(sy, dy);
    let shape = match piece.typ {
        PieceType::Knight => (fx == 1 && ry == 2) || (fx == 2 && ry == 1),
        PieceType::King => fx <= 1 && ry <= 1 && (fx != 0 || ry != 0),
        PieceType::Rook => (fx == 0) != (ry == 0),
        PieceType::Bishop => fx == ry && fx != 0,
        PieceType::Queen => ((fx == 0) != (ry == 0)) || (fx == ry && fx != 0),
        PieceType::Pawn => false,
    };
    if !shape {
        return false;
    }
    let sliding = match piece.typ {
        PieceType::Rook | PieceType::Bishop | PieceType::Queen => true,
        _ => false,
    };
    if sliding && !path_clear(board, sx, sy, dx, dy) {
        return false;
    }
    lands_ok(board, piece, dx, dy)
}

/// Tests the pawn rules, en passant included.
fn pawn_reaches(game: &ChessGame, piece: Piece, sx: u8, sy: u8, dx: u8, dy: u8) -> (r: bool)
    requires
        sx < 8,
        sy < 8,
        dx < 8,
        dy < 8,
    ensures
        r == pawn_step(game@, piece, sx as int, sy as int, dx as int, dy as int),
{
    let one = if piece.black {
        sy >= 1 && dy == sy - 1
    } else {
        dy == sy + 1
    };
    if dx == sx {
        if one {
            return game.board[dy as usize][dx as usize].is_none();
        }
        let two = if piece.black {
            sy == 6 && dy == 4
        } else {
            sy == 1 && dy == 3
        };
        if two {
            let mid: u8 = if piece.black {
                5
            } else {
                2
            };
            return game.board[mid as usize][sx as usize].is_none()
                && game.board[dy as usize][dx as usize].is_none();
        }
        return false;
    }
    if dist_u8(sx, dx) == 1 && one {
        let captures = match game.board[dy as usize][dx as usize] {
            Some(q) => q.black != piece.black,
            None => false,
        };
        let ep = game.en_passant_square;
        proof {
            lemma_square_at(dx as int, dy as int);
            if ep.valid() {
                lemma_valid_square(ep);
            }
        }
        return captures || (ep.is_valid() && ep.x() == dx && ep.y() == dy);
    }
    false
}

/// The simulate path of the legality engine: pseudo-legality, without any
/// change to the game and without castling.
pub fn is_pseudo_legal(game: &ChessGame, piece: Piece, sx: u8, sy: u8, dx: u8, dy: u8) -> (r:
    bool)
    requires
        sx < 8,
        sy < 8,
        dx < 8,
        dy < 8,
    ensures
        r == pseudo_legal(game@, piece, sx as int, sy as int, dx as int, dy as int),
{
    if piece.typ == PieceType::Pawn {
        pawn_reaches(game, piece, sx, sy, dx, dy)
    } else {
        piece_reaches(&game.board, piece, sx, sy, dx, dy)
    }
}

fn attacks_from(board: &Board, piece: Piece, ax: u8, ay: u8, x: u8, y: u8) -> (r: bool)
    requires
        ax < 8,
        ay < 8,
        x < 8,
        y < 8,
    ensures
        r == attacks(grid(*board), piece, ax as int, ay as int, x as int, y as int),
{
    if piece.typ == PieceType::Pawn {
        let ahead = if piece.black {
            ay >= 1 && y == ay - 1
        } else {
            y == ay + 1
        };
        dist_u8(ax, x) == 1 && ahead && lands_ok(board, piece, x, y)
    } else {
        piece_reaches(board, piece, ax, ay, x, y)
    }
}

/// Scans every square for a piece of color `by_black` that attacks `(x, y)`.
pub fn attacked_by(board: &Board, x: u8, y: u8, by_black: bool) -> (r: bool)
    requires
        x < 8,
        y < 8,
    ensures
        r == attacked(grid(*board), x as int, y as int, by_black),
{
    let ghost b = grid(*board);
    let mut ay: u8 = 0;
    while ay < 8
        invariant
            ay <= 8,
            x < 8,
            y < 8,
            b == grid(*board),
            forall|i: int, j: int|
                0 <= i < 8 && 0 <= j < ay ==> !#[trigger] attacker_at(
                    b,
                    i,
                    j,
                    x as int,
                    y as int,
                    by_black,
                ),
        decreases 8 - ay,
    {
        let mut ax: u8 = 0;
        while ax < 8
            invariant
                ax <= 8,
                ay < 8,
                x < 8,
                y < 8,
                b == grid(*board),
                forall|i: int, j: int|
                    0 <= i < 8 && 0 <= j < ay ==> !#[trigger] attacker_at(
                        b,
                        i,
                        j,
                        x as int,
                        y as int,
                        by_black,
                    ),
                forall|i: int|
                    0 <= i < ax ==> !#[trigger] attacker_at(
                        b,
                        i,
                        ay as int,
                        x as int,
                        y as int,
                        by_black,
                    ),
            decreases 8 - ax,
        {
            if let Some(q) = board[ay as usize][ax as usize] {
                if q.black == by_black && attacks_from(board, q, ax, ay, x, y) {
                    assert(attacker_at(b, ax as int, ay as int, x as int, y as int, by_black));
                    return true;
                }
            }
            ax = ax + 1;
        }
        ay = ay + 1;
    }
    false
}

/// Whether a piece of the side not to move attacks the square.
pub fn is_attacked(square: Square, game: &ChessGame) -> (r: bool)
    requires
        square.valid(),
    ensures
        r == attacked(game@.board, square.file(), square.rank(), !game.black_to_move),
{
    attacked_by(&game.board, square.x(), square.y(), !game.black_to_move)
}

/// Finds whether the king of color `black` stands attacked.
pub fn king_attacked(board: &Board, black: bool) -> (r: Option<Square>)
    ensures
        r is None <==> !king_in_check(grid(*board), black),
        r matches Some(s) ==> s.valid() && is_king_of(on(grid(*board), s), black) && attacked(
            grid(*board),
            s.file(),
            s.rank(),
            !black,
        ),
{
    let ghost b = grid(*board);
    let mut y: u8 = 0;
    while y < 8
        invariant
            y <= 8,
            b == grid(*board),
            forall|i: int, j: int|
                0 <= i < 8 && 0 <= j < y ==> !(#[trigger] is_king_of(at(b, i, j), black) && attacked(
                    b,
                    i,
                    j,
                    !black,
                )),
        decreases 8 - y,
    {
        let mut x: u8 = 0;
        while x < 8
            invariant
                x <= 8,
                y < 8,
                b == grid(*board),
                forall|i: int, j: int|
                    0 <= i < 8 && 0 <= j < y ==> !(#[trigger] is_king_of(at(b, i, j), black)
                        && attacked(b, i, j, !black)),
                forall|i: int|
                    0 <= i < x ==> !(#[trigger] is_king_of(at(b, i, y as int), black) && attacked(
                        b,
                        i,
                        y as int,
                        !black,
                    )),
            decreases 8 - x,
        {
            let cell = board[y as usize][x as usize];
            if cell == Some(Piece { typ: PieceType::King, black }) {
                if attacked_by(board, x, y, !black) {
                    let s = Square::new(x, y);
                    assert(is_king_of(at(b, x as int, y as int), black) && attacked(
                        b,
                        x as int,
                        y as int,
                        !black,
                    ));
                    return Some(s);
                }
            }
            x = x + 1;
        }
        y = y + 1;
    }
    None
}

/// The square of the side to move's king, when that king is attacked.
pub fn checked_king_square(game: &ChessGame) -> (r: Option<Square>)
    ensures
        r is None <==> !in_check(game@),
        r matches Some(s) ==> s.valid() && is_king_of(on(game@.board, s), game.black_to_move)
            && attacked(game@.board, s.file(), s.rank(), !game.black_to_move),
{
    king_attacked(&game.board, game.black_to_move)
}

/// Tests the castling conditions; attack tests go through the simulate path.
fn can_castle(game: &ChessGame, piece: Piece, sx: u8, sy: u8, dx: u8, dy: u8) -> (r: bool)
    requires
        sx < 8,
        sy < 8,
        dx < 8,
        dy < 8,
    ensures
        r == castle_ok(game@, piece, sx as int, sy as int, dx as int, dy as int),
{
    let r: u8 = if piece.black {
        7
    } else {
        0
    };
    if piece.typ != PieceType::King || sx != 4 || sy != r || dy != r {
        return false;
    }
    let enemy = !piece.black;
    let held = if piece.black {
        game.castle_state.1
    } else {
        game.castle_state.0
    };
    let b = &game.board;
    let ri = r as usize;
    if dx == 6 {
        held.kingside && b[ri][5].is_none() && b[ri][6].is_none() && !attacked_by(b, 4, r, enemy)
            && !attacked_by(b, 5, r, enemy)
    } else if dx == 2 {
        held.queenside && b[ri][1].is_none() && b[ri][2].is_none() && b[ri][3].is_none()
            && !attacked_by(b, 4, r, enemy) && !attacked_by(b, 3, r, enemy)
    } else {
        false
    }
}

fn set_cell(board: &mut Board, x: u8, y: u8, v: Option<Piece>)
    requires
        x < 8,
        y < 8,
    ensures
        grid(*final(board)) == put(grid(*old(board)), x as int, y as int, v),
{
    Square::new(x, y).set(board, v);
}

/// Applies a move that has passed the checks.
fn place_move(game: &mut ChessGame, piece: Piece, sx: u8, sy: u8, dx: u8, dy: u8)
    requires
        sx < 8,
        sy < 8,
        dx < 8,
        dy < 8,
        move_ok(old(game)@, piece, sx as int, sy as int, dx as int, dy as int),
    ensures
        final(game)@ == apply(old(game)@, piece, sx as int, sy as int, dx as int, dy as int),
{
    let ghost g0 = game@;
    let target_empty = game.board[dy as usize][dx as usize].is_none();
    let last: u8 = if piece.black {
        0
    } else {
        7
    };
    let placed = match game.promote_piece {
        Some(t) => if piece.typ == PieceType::Pawn && dy == last {
            Piece { typ: t, black: piece.black }
        } else {
            piece
        },
        None => piece,
    };
    set_cell(&mut game.board, sx, sy, None);
    set_cell(&mut game.board, dx, dy, Some(placed));
    if piece.typ == PieceType::Pawn && dx != sx && target_empty {
        set_cell(&mut game.board, dx, sy, None);
    } else if piece.typ == PieceType::King && dist_u8(sx, dx) == 2 {
        if dx > sx {
            let rook = game.board[sy as usize][7];
            set_cell(&mut game.board, 7, sy, None);
            set_cell(&mut game.board, 5, sy, rook);
        } else {
            let rook = game.board[sy as usize][0];
            set_cell(&mut game.board, 0, sy, None);
            set_cell(&mut game.board, 3, sy, rook);
        }
    }
    let w = game.castle_state.0;
    let k = game.castle_state.1;
    let white_king = piece.typ == PieceType::King && !piece.black;
    let black_king = piece.typ == PieceType::King && piece.black;
    game.castle_state = (
        CastleState {
            queenside: w.queenside && !white_king && !(sx == 0 && sy == 0) && !(dx == 0 && dy == 0),
            kingside: w.kingside && !white_king && !(sx == 7 && sy == 0) && !(dx == 7 && dy == 0),
        },
        CastleState {
            queenside: k.queenside && !black_king && !(sx == 0 && sy == 7) && !(dx == 0 && dy == 7),
            kingside: k.kingside && !black_king && !(sx == 7 && sy == 7) && !(dx == 7 && dy == 7),
        },
    );
    if piece.typ == PieceType::Pawn && dist_u8(sy, dy) == 2 {
        let mid: u8 = if piece.black {
            5
        } else {
            2
        };
        game.en_passant_square = Square::new(sx, mid);
    } else {
        game.en_passant_square = Square::invalid();
    }
    assert(game@.board == board_after(g0, piece, sx as int, sy as int, dx as int, dy as int));
    assert(game@.castle_state == apply(g0, piece, sx as int, sy as int, dx as int, dy as int).castle_state);
    assert(game@.en_passant_square == en_passant_after(piece, sx as int, sy as int, dy as int));
}

/// Tries to move `piece` from `src` to `dst`.
///
/// With `simulate` set nothing changes and the result is pseudo-legality,
/// castling left out; this path never tests attacks, so attack detection can
/// rely on it. Otherwise the move, castling included, is applied in place when
/// it is allowed; whether the mover's own king is left in check is not tested.
pub fn attempt_move(piece: Piece, src: Square, dst: Square, game: &mut ChessGame, simulate: bool) -> (r:
    bool)
    requires
        src.valid(),
        dst.valid(),
    ensures
        simulate ==> r == pseudo_legal(
            old(game)@,
            piece,
            src.file(),
            src.rank(),
            dst.file(),
            dst.rank(),
        ) && *final(game) == *old(game),
        !simulate ==> r == move_ok(old(game)@, piece, src.file(), src.rank(), dst.file(), dst.rank()),
        !simulate ==> final(game)@ == if r {
            apply(old(game)@, piece, src.file(), src.rank(), dst.file(), dst.rank())
        } else {
            old(game)@
        },
{
    let sx = src.x();
    let sy = src.y();
    let dx = dst.x();
    let dy = dst.y();
    let legal = is_pseudo_legal(game, piece, sx, sy, dx, dy);
    if simulate {
        return legal;
    }
    if legal {
        let last: u8 = if piece.black {
            0
        } else {
            7
        };
        if piece.typ == PieceType::Pawn && dy == last && game.promote_piece.is_none() {
            return false;
        }
    } else if !can_castle(game, piece, sx, sy, dx, dy) {
        return false;
    }
    place_move(game, piece, sx, sy, dx, dy);
    true
}

} // verus!
