use vstd::prelude::*;
use crate::board::{Board, Grid, Piece, PieceType, grid, on};
use crate::error::ChessError;
use crate::notation::{parse_move, parse_spec};
use crate::resolve::{resolve_move, resolve_spec};
use crate::rules::{
    CastleState, ChessGame, GameView, apply, attempt_move, king_attacked, king_in_check, move_ok,
};
use crate::square::Square;
use vstd::string::StringSliceAdditionalSpecFns;
use crate::status::{GameStatus, classify, status_of};

verus! {

/// Display options of one player, kept across games.
#[derive(Clone, Copy, Debug, PartialEq, Eq, Structural)]
pub struct ChessOptions {
    /// Show the board from the viewer's side.
    pub flip: bool,
}

impl Default for ChessOptions {
    fn default() -> (r: ChessOptions)
        ensures
            r.flip,
    {
        ChessOptions { flip: true }
    }
}

/// The chess record of one group: its live games and its players' options.
#[derive(Clone, Debug, PartialEq, Eq)]
pub struct ChessState {
    pub games: Vec<ChessGame>,
    pub options: Vec<(u64, ChessOptions)>,
}

pub open spec fn in_game(g: ChessGame, user: u64) -> bool {
    g.user_white == user || g.user_black == user
}

/// Some player is in both games.
pub open spec fn share_player(a: ChessGame, b: ChessGame) -> bool {
    in_game(b, a.user_white) || in_game(b, a.user_black)
}

/// The player whose turn it is.
pub open spec fn to_move(g: GameView) -> u64 {
    if g.black_to_move {
        g.user_black
    } else {
        g.user_white
    }
}

pub open spec fn opponent(g: ChessGame, user: u64) -> u64 {
    if g.user_white == user {
        g.user_black
    } else {
        g.user_white
    }
}

pub open spec fn back_rank_piece(x: int) -> PieceType {
    if x == 0 || x == 7 {
        PieceType::Rook
    } else if x == 1 || x == 6 {
        PieceType::Knight
    } else if x == 2 || x == 5 {
        PieceType::Bishop
    } else if x == 3 {
        PieceType::Queen
    } else {
        PieceType::King
    }
}

pub open spec fn initial_cell(x: int, y: int) -> Option<Piece> {
    if y == 0 || y == 7 {
        Some(Piece { typ: back_rank_piece(x), black: y == 7 })
    } else if y == 1 || y == 6 {
        Some(Piece { typ: PieceType::Pawn, black: y == 6 })
    } else {
        None
    }
}

pub open spec fn initial_grid() -> Grid {
    Seq::new(8, |y: int| Seq::new(8, |x: int| initial_cell(x, y)))
}

/// A fresh game: the starting position, White to move, all castling rights.
pub open spec fn initial_view(white: u64, black: u64) -> GameView {
    GameView {
        user_white: white,
        user_black: black,
        black_to_move: false,
        castle_state: (
            CastleState { queenside: true, kingside: true },
            CastleState { queenside: true, kingside: true },
        ),
        en_passant_square: Square::sentinel(),
        board: initial_grid(),
        promote_piece: None,
        last_move: (Square::sentinel(), Square::sentinel()),
    }
}

fn back_rank(black: bool) -> (r: [Option<Piece>; 8])
    ensures
        forall|x: int| 0 <= x < 8 ==> r@[x] == Some(Piece { typ: back_rank_piece(x), black }),
{
    [
        Some(Piece { typ: PieceType::Rook, black }),
        Some(Piece { typ: PieceType::Knight, black }),
        Some(Piece { typ: PieceType::Bishop, black }),
        Some(Piece { typ: PieceType::Queen, black }),
        Some(Piece { typ: PieceType::King, black }),
        Some(Piece { typ: PieceType::Bishop, black }),
        Some(Piece { typ: PieceType::Knight, black }),
        Some(Piece { typ: PieceType::Rook, black }),
    ]
}

fn pawn_rank(black: bool) -> (r: [Option<Piece>; 8])
    ensures
        forall|x: int| 0 <= x < 8 ==> r@[x] == Some(Piece { typ: PieceType::Pawn, black }),
{
    let p = Some(Piece { typ: PieceType::Pawn, black });
    [p, p, p, p, p, p, p, p]
}

fn empty_rank() -> (r: [Option<Piece>; 8])
    ensures
        forall|x: int| 0 <= x < 8 ==> r@[x] is None,
{
    [None, None, None, None, None, None, None, None]
}

/// A game in the starting position.
pub fn new_game(white: u64, black: u64) -> (r: ChessGame)
    ensures
        r@ == initial_view(white, black),
{
    let board: Board = [
        back_rank(false),
        pawn_rank(false),
        empty_rank(),
        empty_rank(),
        empty_rank(),
        empty_rank(),
        pawn_rank(true),
        back_rank(true),
    ];
    assert(grid(board) =~~= initial_grid());
    ChessGame {
        user_white: white,
        user_black: black,
        black_to_move: false,
        castle_state: (
            CastleState { queenside: true, kingside: true },
            CastleState { queenside: true, kingside: true },
        ),
        en_passant_square: Square::invalid(),
        board,
        promote_piece: None,
        last_move: (Square::invalid(), Square::invalid()),
    }
}


/// What a successful move reports: the game after it and its classification.
#[derive(Clone, Copy, Debug)]
pub struct MoveReport {
    pub game: ChessGame,
    pub status: GameStatus,
}

pub open spec fn with_promotion(g: GameView, p: Option<PieceType>) -> GameView {
    GameView { promote_piece: p, ..g }
}

/// The game after `user` plays the move `text`, or why the move is refused:
/// it must be the user's turn, the text must parse and resolve to a piece of
/// the side to move, the move must be allowed, and it must not leave the
/// mover's king attacked. The turn then passes to the opponent.
pub open spec fn play_spec(g: GameView, user: u64, text: Seq<u8>) -> Result<GameView, ChessError> {
    if to_move(g) != user {
        Err(ChessError::WrongTurn)
    } else {
        match parse_spec(text) {
            Err(e) => Err(e),
            Ok(m) => match resolve_spec(g, m) {
                Err(e) => Err(e),
                Ok((s, d)) => match on(g.board, s) {
                    None => Err(ChessError::InvalidMove),
                    Some(p) => {
                        let h = with_promotion(g, m.promotion);
                        if p.black != g.black_to_move {
                            Err(ChessError::InvalidMove)
                        } else if !move_ok(h, p, s.file(), s.rank(), d.file(), d.rank()) {
                            Err(ChessError::IllegalMove)
                        } else {
                            let a = apply(h, p, s.file(), s.rank(), d.file(), d.rank());
                            if king_in_check(a.board, g.black_to_move) {
                                Err(ChessError::IllegalMove)
                            } else {
                                Ok(
                                    GameView {
                                        black_to_move: !g.black_to_move,
                                        promote_piece: None,
                                        last_move: (s, d),
                                        ..a
                                    },
                                )
                            }
                        }
                    },
                },
            },
        }
    }
}


/// A move that succeeds never leaves the mover's king attacked: after it, the
/// king of the side that just moved (no longer the side to move) is safe.
pub proof fn lemma_move_keeps_king_safe(g: GameView, user: u64, text: Seq<u8>)
    ensures
        play_spec(g, user, text) matches Ok(v) ==> !king_in_check(v.board, !v.black_to_move),
{
}

/// The flip option of a player: the stored one, or the default.
pub open spec fn flip_of(options: Seq<(u64, ChessOptions)>, user: u64) -> bool {
    if exists|i: int| 0 <= i < options.len() && (#[trigger] options[i]).0 == user {
        options[choose|i: int| 0 <= i < options.len() && (#[trigger] options[i]).0 == user].1.flip
    } else {
        true
    }
}


pub open spec fn keys_unique(options: Seq<(u64, ChessOptions)>) -> bool {
    forall|i: int, j: int|
        0 <= i < options.len() && 0 <= j < options.len() && i != j ==> (#[trigger] options[i]).0
            != (#[trigger] options[j]).0
}

/// With unique keys, the flip option of a stored player is their entry's.
proof fn lemma_flip_of_entry(options: Seq<(u64, ChessOptions)>, user: u64, j: int)
    requires
        keys_unique(options),
        0 <= j < options.len(),
        options[j].0 == user,
    ensures
        flip_of(options, user) == options[j].1.flip,
{
    let k = choose|k: int| 0 <= k < options.len() && (#[trigger] options[k]).0 == user;
    assert(options[k].0 == user);
    if k != j {
        assert(options[k].0 != options[j].0);
    }
}

/// Relies on rand::random::<bool>: a coin flip; nothing is promised of it.
#[verifier::external_body]
fn coin_flip() -> bool {
    rand::random::<bool>()
}

impl ChessState {
    /// No player is on both sides of a game or in two games, and each player
    /// has at most one options entry.
    pub open spec fn wf(&self) -> bool {
        &&& forall|i: int|
            0 <= i < self.games@.len() ==> (#[trigger] self.games@[i]).user_white
                != self.games@[i].user_black
        &&& forall|i: int, j: int|
            0 <= i < self.games@.len() && 0 <= j < self.games@.len() && i != j ==> !share_player(
                #[trigger] self.games@[i],
                #[trigger] self.games@[j],
            )
        &&& keys_unique(self.options@)
    }

    /// The player is in one of the live games.
    pub open spec fn playing(&self, user: u64) -> bool {
        exists|i: int| 0 <= i < self.games@.len() && in_game(#[trigger] self.games@[i], user)
    }

    /// The index of the player's game.
    pub open spec fn game_index(&self, user: u64) -> int {
        choose|i: int| 0 <= i < self.games@.len() && in_game(#[trigger] self.games@[i], user)
    }

    pub fn new() -> (r: ChessState)
        ensures
            r.wf(),
            r.games@.len() == 0,
            r.options@.len() == 0,
    {
        ChessState { games: Vec::new(), options: Vec::new() }
    }

    /// Finds the index of the player's game.
    pub fn find_game(&self, user: u64) -> (r: Option<usize>)
        requires
            self.wf(),
        ensures
            r is None <==> !self.playing(user),
            r matches Some(i) ==> i < self.games@.len() && in_game(self.games@[i as int], user)
                && i == self.game_index(user),
    {
        let mut i: usize = 0;
        while i < self.games.len()
            invariant
                i <= self.games@.len(),
                self.wf(),
                forall|j: int| 0 <= j < i ==> !in_game(#[trigger] self.games@[j], user),
            decreases self.games@.len() - i,
        {
            let g = &self.games[i];
            if g.user_white == user || g.user_black == user {
                assert(in_game(self.games@[i as int], user));
                proof {
                    let k = self.game_index(user);
                    if k != i {
                        assert(share_player(self.games@[k], self.games@[i as int]));
                    }
                }
                return Some(i);
            }
            i = i + 1;
        }
        None
    }

    /// The player's game, if they are in one.
    pub fn get_game(&self, user: u64) -> (r: Option<&ChessGame>)
        requires
            self.wf(),
        ensures
            r is None <==> !self.playing(user),
            r matches Some(g) ==> *g == self.games@[self.game_index(user)] && in_game(*g, user),
    {
        match self.find_game(user) {
            Some(i) => Some(&self.games[i]),
            None => None,
        }
    }

    /// Starts a game between two players, `user_a` taking White when
    /// `a_plays_white` holds.
    pub fn start_game(&mut self, user_a: u64, user_b: u64, a_plays_white: bool) -> (r: Result<(), ChessError>)
        requires
            old(self).wf(),
        ensures
            final(self).wf(),
            user_a == user_b ==> r == Err::<(), ChessError>(ChessError::UnknownOpponent),
            user_a != user_b && (old(self).playing(user_a) || old(self).playing(user_b)) ==> r
                == Err::<(), ChessError>(ChessError::AlreadyInGame),
            r is Err ==> *final(self) == *old(self),
            r is Ok <==> user_a != user_b && !old(self).playing(user_a) && !old(self).playing(user_b),
            r is Ok ==> {
                &&& final(self).options@ == old(self).options@
                &&& final(self).games@.len() == old(self).games@.len() + 1
                &&& final(self).games@.take(old(self).games@.len() as int) == old(self).games@
                &&& final(self).games@.last()@ == if a_plays_white {
                    initial_view(user_a, user_b)
                } else {
                    initial_view(user_b, user_a)
                }
            },
    {
        if user_a == user_b {
            return Err(ChessError::UnknownOpponent);
        }
        if self.find_game(user_a).is_some() || self.find_game(user_b).is_some() {
            return Err(ChessError::AlreadyInGame);
        }
        let (white, black) = if a_plays_white {
            (user_a, user_b)
        } else {
            (user_b, user_a)
        };
        let game = new_game(white, black);
        let ghost before = self.games@;
        self.games.push(game);
        proof {
            assert(self.games@.take(before.len() as int) =~= before);
            assert forall|i: int, j: int|
                0 <= i < self.games@.len() && 0 <= j < self.games@.len() && i != j implies !share_player(
                    #[trigger] self.games@[i],
                    #[trigger] self.games@[j],
                ) by {
                if i == before.len() {
                    assert(!in_game(before[j], user_a));
                    assert(!in_game(before[j], user_b));
                } else if j == before.len() {
                    assert(!in_game(before[i], user_a));
                    assert(!in_game(before[i], user_b));
                }
            }
        }
        Ok(())
    }

    /// Starts a game with colors given by a coin flip.
    pub fn start_game_random(&mut self, user_a: u64, user_b: u64) -> (r: Result<(), ChessError>)
        requires
            old(self).wf(),
        ensures
            final(self).wf(),
            user_a == user_b ==> r == Err::<(), ChessError>(ChessError::UnknownOpponent),
            user_a != user_b && (old(self).playing(user_a) || old(self).playing(user_b)) ==> r
                == Err::<(), ChessError>(ChessError::AlreadyInGame),
            r is Err ==> *final(self) == *old(self),
            r is Ok <==> user_a != user_b && !old(self).playing(user_a) && !old(self).playing(user_b),
            r is Ok ==> {
                &&& final(self).options@ == old(self).options@
                &&& final(self).games@.len() == old(self).games@.len() + 1
                &&& final(self).games@.take(old(self).games@.len() as int) == old(self).games@
                &&& final(self).games@.last()@ == initial_view(user_a, user_b)
                    || final(self).games@.last()@ == initial_view(user_b, user_a)
            },
    {
        let a_plays_white = coin_flip();
        self.start_game(user_a, user_b, a_plays_white)
    }

    /// Plays a move for `user` in their game. The game leaves the list when the
    /// move ends it.
    pub fn apply_move(&mut self, user: u64, text: &str) -> (r: Result<MoveReport, ChessError>)
        requires
            old(self).wf(),
        ensures
            final(self).wf(),
            !old(self).playing(user) ==> r == Err::<MoveReport, ChessError>(ChessError::NotInGame),
            r is Err ==> *final(self) == *old(self),
            old(self).playing(user) ==> {
                let i = old(self).game_index(user);
                match play_spec(old(self).games@[i]@, user, text.spec_bytes()) {
                    Err(e) => r == Err::<MoveReport, ChessError>(e),
                    Ok(v) => r matches Ok(rep) && rep.game@ == v && rep.status == status_of(v)
                        && final(self).options@ == old(self).options@ && if rep.status
                        == GameStatus::Ongoing {
                        final(self).games@ == old(self).games@.update(i, rep.game)
                    } else {
                        final(self).games@ == old(self).games@.remove(i)
                    },
                }
            },
            r matches Ok(rep) ==> !king_in_check(rep.game@.board, !rep.game.black_to_move),
    {
        let i = match self.find_game(user) {
            Some(i) => i,
            None => {
                return Err(ChessError::NotInGame);
            },
        };
        let game = self.games[i];
        let mover = if game.black_to_move {
            game.user_black
        } else {
            game.user_white
        };
        if mover != user {
            return Err(ChessError::WrongTurn);
        }
        let parsed = match parse_move(text) {
            Ok(m) => m,
            Err(e) => {
                return Err(e);
            },
        };
        let (src, dst) = match resolve_move(&parsed, &game) {
            Ok(pair) => pair,
            Err(e) => {
                return Err(e);
            },
        };
        let piece = match *src.get(&game.board) {
            Some(p) => p,
            None => {
                return Err(ChessError::InvalidMove);
            },
        };
        if piece.black != game.black_to_move {
            return Err(ChessError::InvalidMove);
        }
        let mut scratch = game;
        scratch.promote_piece = parsed.promotion;
        assert(scratch@ == with_promotion(game@, parsed.promotion));
        if !attempt_move(piece, src, dst, &mut scratch, false) {
            return Err(ChessError::IllegalMove);
        }
        if king_attacked(&scratch.board, game.black_to_move).is_some() {
            return Err(ChessError::IllegalMove);
        }
        scratch.promote_piece = None;
        scratch.last_move = (src, dst);
        scratch.black_to_move = !game.black_to_move;
        let status = classify(&scratch);
        let ghost before = self.games@;
        if status == GameStatus::Ongoing {
            self.games.set(i, scratch);
        } else {
            self.games.remove(i);
        }
        proof {
            assert forall|a: int, b: int|
                0 <= a < self.games@.len() && 0 <= b < self.games@.len() && a != b implies !share_player(
                    #[trigger] self.games@[a],
                    #[trigger] self.games@[b],
                ) by {
                if status == GameStatus::Ongoing {
                    assert(before[a].user_white == self.games@[a].user_white);
                    assert(before[b].user_white == self.games@[b].user_white);
                    assert(before[a].user_black == self.games@[a].user_black);
                    assert(before[b].user_black == self.games@[b].user_black);
                    assert(!share_player(before[a], before[b]));
                } else {
                    let a0 = if a < i { a } else { a + 1 };
                    let b0 = if b < i { b } else { b + 1 };
                    assert(self.games@[a] == before[a0]);
                    assert(self.games@[b] == before[b0]);
                    assert(!share_player(before[a0], before[b0]));
                }
            }
            assert forall|a: int| 0 <= a < self.games@.len() implies (#[trigger] self.games@[a]).user_white
                != self.games@[a].user_black by {
                if status != GameStatus::Ongoing && a >= i {
                    assert(self.games@[a] == before[a + 1]);
                }
            }
        }
        Ok(MoveReport { game: scratch, status })
    }

    /// Ends the player's game at once; the opponent wins and is returned.
    pub fn resign(&mut self, user: u64) -> (r: Result<u64, ChessError>)
        requires
            old(self).wf(),
        ensures
            final(self).wf(),
            r is Err <==> !old(self).playing(user),
            r is Err ==> r == Err::<u64, ChessError>(ChessError::NotInGame) && *final(self)
                == *old(self),
            r matches Ok(winner) ==> {
                let i = old(self).game_index(user);
                &&& winner == opponent(old(self).games@[i], user)
                &&& final(self).games@ == old(self).games@.remove(i)
                &&& final(self).options@ == old(self).options@
            },
    {
        let i = match self.find_game(user) {
            Some(i) => i,
            None => {
                return Err(ChessError::NotInGame);
            },
        };
        let ghost before = self.games@;
        let game = self.games.remove(i);
        let winner = if game.user_white == user {
            game.user_black
        } else {
            game.user_white
        };
        proof {
            assert forall|a: int, b: int|
                0 <= a < self.games@.len() && 0 <= b < self.games@.len() && a != b implies !share_player(
                    #[trigger] self.games@[a],
                    #[trigger] self.games@[b],
                ) by {
                let a0 = if a < i { a } else { a + 1 };
                let b0 = if b < i { b } else { b + 1 };
                assert(self.games@[a] == before[a0]);
                assert(self.games@[b] == before[b0]);
                assert(!share_player(before[a0], before[b0]));
            }
            assert forall|a: int| 0 <= a < self.games@.len() implies (#[trigger] self.games@[a]).user_white
                != self.games@[a].user_black by {
                if a >= i {
                    assert(self.games@[a] == before[a + 1]);
                }
            }
        }
        Ok(winner)
    }

    /// The player's display options; a player never seen has the default.
    pub fn get_options(&self, user: u64) -> (r: ChessOptions)
        requires
            self.wf(),
        ensures
            r.flip == flip_of(self.options@, user),
    {
        let mut i: usize = 0;
        while i < self.options.len()
            invariant
                i <= self.options@.len(),
                self.wf(),
                forall|j: int| 0 <= j < i ==> (#[trigger] self.options@[j]).0 != user,
            decreases self.options@.len() - i,
        {
            if self.options[i].0 == user {
                proof {
                    let o = self.options@;
                    assert(o[i as int].0 == user);
                    let k = choose|k: int| 0 <= k < o.len() && (#[trigger] o[k]).0 == user;
                    if k != i {
                        assert(o[k].0 != o[i as int].0);
                    }
                }
                return self.options[i].1;
            }
            i = i + 1;
        }
        ChessOptions::default()
    }

    /// Sets whether the player's board is shown from their side.
    pub fn set_flip(&mut self, user: u64, flip: bool)
        requires
            old(self).wf(),
        ensures
            final(self).wf(),
            final(self).games@ == old(self).games@,
            flip_of(final(self).options@, user) == flip,
            forall|u: u64| u != user ==> flip_of(final(self).options@, u) == flip_of(old(self).options@, u),
    {
        let ghost before = self.options@;
        let mut i: usize = 0;
        while i < self.options.len() && self.options[i].0 != user
            invariant
                i <= self.options@.len(),
                forall|j: int| 0 <= j < i ==> (#[trigger] self.options@[j]).0 != user,
            decreases self.options@.len() - i,
        {
            i = i + 1;
        }
        if i < self.options.len() {
            self.options.set(i, (user, ChessOptions { flip }));
            proof {
                let o = self.options@;
                assert(before[i as int].0 == user);
                lemma_flip_of_entry(o, user, i as int);
                assert forall|u: u64| u != user implies flip_of(o, u) == flip_of(before, u) by {
                    if exists|j: int| 0 <= j < before.len() && (#[trigger] before[j]).0 == u {
                        let j = choose|j: int| 0 <= j < before.len() && (#[trigger] before[j]).0 == u;
                        lemma_flip_of_entry(before, u, j);
                        lemma_flip_of_entry(o, u, j);
                    } else {
                        assert forall|j: int| 0 <= j < o.len() implies (#[trigger] o[j]).0 != u by {
                            if j != i {
                                assert(o[j] == before[j]);
                            }
                        }
                    }
                }
            }
            return;
        }
        self.options.push((user, ChessOptions { flip }));
        proof {
            let o = self.options@;
            let n = before.len() as int;
            assert forall|a: int, b: int|
                0 <= a < o.len() && 0 <= b < o.len() && a != b implies (#[trigger] o[a]).0 != (
                #[trigger] o[b]).0 by {
                if a < n && b < n {
                    assert(o[a] == before[a] && o[b] == before[b]);
                }
            }
            lemma_flip_of_entry(o, user, n);
            assert forall|u: u64| u != user implies flip_of(o, u) == flip_of(before, u) by {
                if exists|j: int| 0 <= j < before.len() && (#[trigger] before[j]).0 == u {
                    let j = choose|j: int| 0 <= j < before.len() && (#[trigger] before[j]).0 == u;
                    lemma_flip_of_entry(before, u, j);
                    lemma_flip_of_entry(o, u, j);
                } else {
                    assert forall|j: int| 0 <= j < o.len() implies (#[trigger] o[j]).0 != u by {
                        if j < n {
                            assert(o[j] == before[j]);
                        }
                    }
                }
            }
        }
    }
}

} // verus!
