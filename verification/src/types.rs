//! The small value types of the game: cell marks, players, outcomes and
//! the ways a move can be rejected.

use vstd::prelude::*;

verus! {

/// What one cell of a sub-board holds.
#[derive(Clone, Copy, PartialEq, Eq, Structural, Debug)]
pub enum Mark {
    Empty,
    X,
    O,
}

/// One of the two players.
#[derive(Clone, Copy, PartialEq, Eq, Structural, Debug)]
pub enum Player {
    X,
    O,
}

/// Terminal classification of a board (sub-board or super-board):
/// still ongoing, won by a player, or drawn.
#[derive(Clone, Copy, PartialEq, Eq, Structural, Debug)]
pub enum WonByPlayer {
    X,
    O,
    Tie,
    HasntFinished,
}

/// The three ways a move can be rejected. Every error is recoverable:
/// a rejected move leaves the game unchanged.
#[derive(Clone, Copy, PartialEq, Eq, Structural, Debug)]
pub enum BoardError {
    /// The move targets a sub-board other than the one the previous
    /// move sent the player to.
    MoveAtNotSentBoard,
    /// The target cell already holds a mark.
    MoveAtAlreadyFilledTile,
    /// The target sub-board is already decided, while any undecided
    /// sub-board could have been chosen.
    MoveAtAlreadyFinishedBoard,
}

impl Player {
    /// The mark this player leaves in a cell.
    pub open spec fn as_mark(self) -> Mark {
        match self {
            Player::X => Mark::X,
            Player::O => Mark::O,
        }
    }

    /// The opponent of this player.
    pub open spec fn other(self) -> Player {
        match self {
            Player::X => Player::O,
            Player::O => Player::X,
        }
    }

    /// The single letter that stands for this player.
    pub open spec fn spec_letter(self) -> Seq<char> {
        match self {
            Player::X => "X"@,
            Player::O => "O"@,
        }
    }

    /// The mark this player leaves in a cell.
    pub fn to_mark(&self) -> (m: Mark)
        ensures
            m == self.as_mark(),
    {
        match *self {
            Player::X => Mark::X,
            Player::O => Mark::O,
        }
    }

    /// The single letter that stands for this player.
    pub fn get_letter(&self) -> (r: &str)
        ensures
            r@ == self.spec_letter(),
    {
        match *self {
            Player::X => "X",
            Player::O => "O",
        }
    }
}

impl Mark {
    /// The single character that stands for this mark when a board is
    /// drawn as text: a blank for an empty cell.
    pub open spec fn spec_letter(self) -> Seq<char> {
        match self {
            Mark::Empty => " "@,
            Mark::X => "X"@,
            Mark::O => "O"@,
        }
    }

    /// The single character that stands for this mark when a board is
    /// drawn as text: a blank for an empty cell.
    pub fn get_letter(&self) -> (r: &str)
        ensures
            r@ == self.spec_letter(),
    {
        match *self {
            Mark::Empty => " ",
            Mark::X => "X",
            Mark::O => "O",
        }
    }
}

/// Whether a board outcome is terminal.
pub open spec fn is_decided(w: WonByPlayer) -> bool {
    !(w is HasntFinished)
}

} // verus!
