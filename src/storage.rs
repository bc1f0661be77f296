use vstd::prelude::*;
use crate::rules::ChessGame;
use crate::session::{ChessOptions, ChessState};
use vstd::string::StringExecFns;

verus! {

/// A group's record as last saved: its command prefix and its chess record.
pub struct GuildStorage {
    pub command_prefix: String,
    pub chess_state: ChessState,
}

/// The prefix of a group that has not chosen one: `$`.
pub fn default_command_prefix() -> (r: String)
    ensures
        r@ == seq!['$'],
{
    proof {
        reveal_strlit("$");
    }
    String::from_str("$")
}

/// Exclusive access to a working copy of a group's record. It ends with
/// `save`, which hands the copy back to be stored, or with `discard`, which
/// drops it and leaves the stored record as it was.
#[must_use]
pub struct StorageRef {
    pub chess_state: ChessState,
}

/// An exact copy of a record.
pub fn copy_state(state: &ChessState) -> (r: ChessState)
    ensures
        r.games@ == state.games@,
        r.options@ == state.options@,
{
    let mut games: Vec<ChessGame> = Vec::new();
    let mut i: usize = 0;
    while i < state.games.len()
        invariant
            i <= state.games@.len(),
            games@ == state.games@.take(i as int),
        decreases state.games@.len() - i,
    {
        games.push(state.games[i]);
        i = i + 1;
        assert(games@ =~= state.games@.take(i as int));
    }
    let mut options: Vec<(u64, ChessOptions)> = Vec::new();
    let mut j: usize = 0;
    while j < state.options.len()
        invariant
            j <= state.options@.len(),
            options@ == state.options@.take(j as int),
        decreases state.options@.len() - j,
    {
        options.push(state.options[j]);
        j = j + 1;
        assert(options@ =~= state.options@.take(j as int));
    }
    assert(games@ =~= state.games@);
    assert(options@ =~= state.options@);
    ChessState { games, options }
}

impl GuildStorage {
    /// A record with the default prefix, no games and no options.
    pub fn new() -> (r: GuildStorage)
        ensures
            r.command_prefix@ == seq!['$'],
            r.chess_state.wf(),
            r.chess_state.games@.len() == 0,
            r.chess_state.options@.len() == 0,
    {
        GuildStorage { command_prefix: default_command_prefix(), chess_state: ChessState::new() }
    }

    /// Opens an exclusive session on a copy of the stored record.
    pub fn get_mut(&self) -> (r: StorageRef)
        ensures
            r.chess_state.games@ == self.chess_state.games@,
            r.chess_state.options@ == self.chess_state.options@,
    {
        StorageRef { chess_state: copy_state(&self.chess_state) }
    }
}

impl StorageRef {
    /// Ends the session by storing the working copy.
    pub fn save(self, storage: &mut GuildStorage)
        ensures
            final(storage).chess_state == self.chess_state,
            final(storage).command_prefix == old(storage).command_prefix,
    {
        storage.chess_state = self.chess_state;
    }

    /// Ends the session without storing anything.
    pub fn discard(self) {
    }
}

} // verus!
