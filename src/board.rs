use vstd::prelude::*;
use crate::square::{Square, lemma_valid_square};
use vstd::string::StringExecFns;

verus! {

#[derive(Clone, Copy, Debug, PartialEq, Eq, Structural)]
pub enum PieceType {
    Rook,
    Knight,
    Bishop,
    Queen,
    King,
    Pawn,
}

#[derive(Clone, Copy, Debug, PartialEq, Eq, Structural)]
pub struct Piece {
    pub typ: PieceType,
    pub black: bool,
}

/// Rows are ranks 1..8 (index 0 is White's back rank), columns files a..h.
pub type Board = [[Option<Piece>; 8]; 8];

/// The board as a sequence of ranks, each a sequence of eight cells.
pub type Grid = Seq<Seq<Option<Piece>>>;

pub open spec fn grid(b: Board) -> Grid {
    b@.map_values(|r: [Option<Piece>; 8]| r@)
}

/// What stands at file `x`, rank `y`.
pub open spec fn at(g: Grid, x: int, y: int) -> Option<Piece> {
    g[y][x]
}

/// What stands on a square.
pub open spec fn on(g: Grid, s: Square) -> Option<Piece> {
    at(g, s.file(), s.rank())
}

/// `g` with file `x`, rank `y` replaced by `v`.
pub open spec fn put(g: Grid, x: int, y: int, v: Option<Piece>) -> Grid {
    g.update(y, g[y].update(x, v))
}

/// The letter of a piece: upper case for White, lower case for Black.
pub open spec fn piece_char(p: Piece) -> char {
    match (p.typ, p.black) {
        (PieceType::Pawn, false) => 'P',
        (PieceType::Pawn, true) => 'p',
        (PieceType::Rook, false) => 'R',
        (PieceType::Rook, true) => 'r',
        (PieceType::Knight, false) => 'N',
        (PieceType::Knight, true) => 'n',
        (PieceType::Bishop, false) => 'B',
        (PieceType::Bishop, true) => 'b',
        (PieceType::Queen, false) => 'Q',
        (PieceType::Queen, true) => 'q',
        (PieceType::King, false) => 'K',
        (PieceType::King, true) => 'k',
    }
}

/// The digit for a run of one to eight empty squares.
pub open spec fn digit_char(n: nat) -> char {
    if n == 1 {
        '1'
    } else if n == 2 {
        '2'
    } else if n == 3 {
        '3'
    } else if n == 4 {
        '4'
    } else if n == 5 {
        '5'
    } else if n == 6 {
        '6'
    } else if n == 7 {
        '7'
    } else {
        '8'
    }
}

pub open spec fn run_text(run: nat) -> Seq<char> {
    if run == 0 {
        Seq::empty()
    } else {
        seq![digit_char(run)]
    }
}

/// One rank, left to right: piece letters, with each run of empty squares as
/// its length; `run` empty squares precede `row`.
pub open spec fn rank_text(row: Seq<Option<Piece>>, run: nat) -> Seq<char>
    decreases row.len(),
{
    if row.len() == 0 {
        run_text(run)
    } else {
        match row[0] {
            None => rank_text(row.drop_first(), run + 1),
            Some(p) => run_text(run) + seq![piece_char(p)] + rank_text(row.drop_first(), 0),
        }
    }
}

/// Ranks `n - 1` down to `0`, joined by `/`.
pub open spec fn ranks_text(g: Grid, n: int) -> Seq<char>
    decreases n,
{
    if n <= 1 {
        rank_text(g[0], 0)
    } else {
        rank_text(g[n - 1], 0) + seq!['/'] + ranks_text(g, n - 1)
    }
}

/// The placement field of FEN: ranks 8 down to 1.
pub open spec fn fen_of(g: Grid) -> Seq<char> {
    ranks_text(g, 8)
}

fn piece_str(p: Piece) -> (r: &'static str)
    ensures
        r@ == seq![piece_char(p)],
{
    match (p.typ, p.black) {
        (PieceType::Pawn, false) => {
            proof {
                reveal_strlit("P");
            }
            "P"
        },
        (PieceType::Pawn, true) => {
            proof {
                reveal_strlit("p");
            }
            "p"
        },
        (PieceType::Rook, false) => {
            proof {
                reveal_strlit("R");
            }
            "R"
        },
        (PieceType::Rook, true) => {
            proof {
                reveal_strlit("r");
            }
            "r"
        },
        (PieceType::Knight, false) => {
            proof {
                reveal_strlit("N");
            }
            "N"
        },
        (PieceType::Knight, true) => {
            proof {
                reveal_strlit("n");
            }
            "n"
        },
        (PieceType::Bishop, false) => {
            proof {
                reveal_strlit("B");
            }
            "B"
        },
        (PieceType::Bishop, true) => {
            proof {
                reveal_strlit("b");
            }
            "b"
        },
        (PieceType::Queen, false) => {
            proof {
                reveal_strlit("Q");
            }
            "Q"
        },
        (PieceType::Queen, true) => {
            proof {
                reveal_strlit("q");
            }
            "q"
        },
        (PieceType::King, false) => {
            proof {
                reveal_strlit("K");
            }
            "K"
        },
        (PieceType::King, true) => {
            proof {
                reveal_strlit("k");
            }
            "k"
        },
    }
}

fn digit_str(n: u8) -> (r: &'static str)
    requires
        1 <= n <= 8,
    ensures
        r@ == seq![digit_char(n as nat)],
{
    if n == 1 {
        proof {
            reveal_strlit("1");
        }
        "1"
    } else if n == 2 {
        proof {
            reveal_strlit("2");
        }
        "2"
    } else if n == 3 {
        proof {
            reveal_strlit("3");
        }
        "3"
    } else if n == 4 {
        proof {
            reveal_strlit("4");
        }
        "4"
    } else if n == 5 {
        proof {
            reveal_strlit("5");
        }
        "5"
    } else if n == 6 {
        proof {
            reveal_strlit("6");
        }
        "6"
    } else if n == 7 {
        proof {
            reveal_strlit("7");
        }
        "7"
    } else {
        proof {
            reveal_strlit("8");
        }
        "8"
    }
}

fn push_rank(out: &mut String, row: &[Option<Piece>; 8])
    ensures
        final(out)@ == old(out)@ + rank_text(row@, 0),
{
    let ghost start = out@;
    let mut run: u8 = 0;
    let mut i: usize = 0;
    assert(row@.skip(0) =~= row@);
    while i < 8
        invariant
            i <= 8,
            run <= i,
            out@ + rank_text(row@.skip(i as int), run as nat) == start + rank_text(row@, 0),
        decreases 8 - i,
    {
        let ghost rest = row@.skip(i as int);
        assert(rest.drop_first() =~= row@.skip(i + 1));
        match row[i] {
            None => {
                run = run + 1;
            },
            Some(p) => {
                let ghost before = out@;
                if run != 0 {
                    out.append(digit_str(run));
                }
                out.append(piece_str(p));
                assert(out@ =~= before + run_text(run as nat) + seq![piece_char(p)]);
                run = 0;
            },
        }
        i = i + 1;
    }
    let ghost before = out@;
    assert(row@.skip(8) =~= Seq::<Option<Piece>>::empty());
    if run != 0 {
        out.append(digit_str(run));
    }
    assert(out@ =~= before + run_text(run as nat));
}

/// The board in FEN placement form, for the image renderer: ranks 8 down to
/// 1 separated by `/`, White's pieces in upper case and Black's in lower case,
/// each run of empty squares written as its length.
pub fn board_fen(board: &Board) -> (r: String)
    ensures
        r@ == fen_of(grid(*board)),
{
    let ghost g = grid(*board);
    let mut out = String::new();
    let mut n: usize = 8;
    while n > 0
        invariant
            0 <= n <= 8,
            g == grid(*board),
            0 < n < 8 ==> out@ + seq!['/'] + ranks_text(g, n as int) == ranks_text(g, 8),
            n == 8 ==> out@ == Seq::<char>::empty(),
            n == 0 ==> out@ == ranks_text(g, 8),
        decreases n,
    {
        let ghost before = out@;
        if n < 8 {
            proof {
                reveal_strlit("/");
            }
            out.append("/");
        }
        push_rank(&mut out, &board[n - 1]);
        proof {
            let r = rank_text(g[n - 1], 0);
            if n > 1 {
                assert(ranks_text(g, n as int) == r + seq!['/'] + ranks_text(g, n - 1));
                if n < 8 {
                    assert(out@ =~= before + seq!['/'] + r);
                    assert(before + seq!['/'] + (r + seq!['/'] + ranks_text(g, n - 1)) =~= out@ + seq!['/']
                        + ranks_text(g, n - 1));
                } else {
                    assert(out@ =~= r);
                }
            } else {
                assert(out@ =~= before + seq!['/'] + r);
            }
        }
        n = n - 1;
    }
    out
}

impl Square {
    pub fn get<'a>(&self, board: &'a Board) -> (r: &'a Option<Piece>)
        requires
            self.valid(),
        ensures
            *r == on(grid(*board), *self),
    {
        proof {
            lemma_valid_square(*self);
        }
        &board[self.y() as usize][self.x() as usize]
    }

    pub fn get_mut<'a>(&self, board: &'a mut Board) -> (r: &'a mut Option<Piece>)
        requires
            self.valid(),
        ensures
            *r == on(grid(*old(board)), *self),
            grid(*final(board)) == put(grid(*old(board)), self.file(), self.rank(), *final(r)),
    {
        proof {
            lemma_valid_square(*self);
        }
        let y = self.y() as usize;
        let x = self.x() as usize;
        &mut board[y][x]
    }

    /// Stores `v` on this square.
    pub fn set(&self, board: &mut Board, v: Option<Piece>)
        requires
            self.valid(),
        ensures
            grid(*final(board)) == put(grid(*old(board)), self.file(), self.rank(), v),
    {
        *self.get_mut(board) = v;
    }
}

} // verus!
