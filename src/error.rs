use vstd::prelude::*;

verus! {

/// Why a command was refused. None of these changes any state.
#[derive(Clone, Copy, Debug, PartialEq, Eq, Structural)]
pub enum ChessError {
    /// The move text matches neither notation.
    SyntaxError,
    /// More than one piece fits the move.
    AmbiguousMove,
    /// No piece fits the move.
    InvalidMove,
    /// A promotion piece was named for a move that does not promote.
    UnexpectedPromotion,
    /// A pawn reaches the last rank and no promotion piece was named.
    MissingPromotion,
    /// The move breaks the rules, or leaves the mover's king in check.
    IllegalMove,
    /// The player is in a game, and it is the opponent's move.
    WrongTurn,
    /// The player is in no game.
    NotInGame,
    /// A player is already in a game.
    AlreadyInGame,
    /// A player tried to play against themselves.
    UnknownOpponent,
}

} // verus!
