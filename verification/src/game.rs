//! A small turn-based board game shared between the peers of a room.

pub mod board;

use crate::game::board::{Board, Piece};
use crate::identity::NodeId;
use std::collections::HashSet;
use vstd::prelude::*;

verus! {

/// Who moves the pieces of a player that this node is responsible for.
#[derive(Debug, Default, Clone, Copy, PartialEq, Eq, Hash, Structural)]
pub enum PlayerType {
    #[default]
    Spectator,
    Human,
    Ai,
}

/// A participant of the game.
#[derive(Debug, Clone, Copy, PartialEq, Eq, Hash)]
pub enum Player {
    /// Local node is responsible for this player.
    Local(PlayerType),
    /// Remote node is responsible for this player.
    Remote(NodeId),
}

/// How far the game has come.
#[derive(Debug, Clone, Copy)]
pub enum GamePhase {
    /// Lobby waiting to assign players ready to start game.
    New,
    /// Game is in progress.
    InProgress { turn: usize, board: Board },
    /// Game is over.
    Finished { winner: Player },
}

/// Game information.
#[derive(Debug)]
pub struct Game {
    /// Game state.
    pub state: GamePhase,
    /// Participating nodes, including spectators.
    pub participants: HashSet<Player>,
    /// Incremental version for optimistic concurrency or simple change
    /// detection.
    pub version: u64,
}

impl Game {
    /// Create a new game: in the lobby, with no participants, at version
    /// zero.
    pub fn new() -> (game: Game)
        ensures
            game.state is New,
            game.participants@ == Set::<Player>::empty(),
            game.version == 0,
    {
        Game { state: GamePhase::New, participants: HashSet::new(), version: 0 }
    }

    /// Starts the game on an empty board, at the first turn. Participants
    /// and version stay as they are.
    pub fn start_game(&mut self)
        ensures
            final(self).state matches GamePhase::InProgress { turn, board } && turn == 0
                && board@.len() == 9 && (forall|i: int| 0 <= i < 9 ==> board@[i] == Piece::Empty),
            final(self).participants == old(self).participants,
            final(self).version == old(self).version,
    {
        self.state = GamePhase::InProgress { turn: 0, board: Board::new() };
    }
}

} // verus!
