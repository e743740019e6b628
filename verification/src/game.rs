//! One game session: the outer board plus turn tracking. `make_move` is
//! the single mutation entry point; the player toggles exactly when a move
//! succeeds.

use vstd::prelude::*;
use crate::big_board::BigBoard;
use crate::small_board::SmallBoard;
use crate::types::{is_decided, BoardError, Mark, Player, WonByPlayer};

verus! {

/// A whole game of Ultimate Tic-Tac-Toe, owned by its caller.
pub struct Game {
    game: BigBoard,
    next_player: Player,
}

impl Game {
    /// The outer board the session plays on.
    pub closed spec fn board(self) -> BigBoard {
        self.game
    }

    /// The player whose move is next.
    pub closed spec fn player_to_move(self) -> Player {
        self.next_player
    }

    /// The sub-board at an index.
    pub open spec fn sub_board(self, j: int) -> SmallBoard {
        self.board().boards_seq()[j]
    }

    /// The sub-board the next move is sent to, if any.
    pub open spec fn forced(self) -> Option<u8> {
        self.board().forced()
    }

    /// Whether the next move may choose its sub-board freely.
    pub open spec fn can_any(self) -> bool {
        self.board().can_any()
    }

    /// The outer outcome.
    pub open spec fn status(self) -> WonByPlayer {
        self.board().status()
    }

    /// See `BigBoard::wrong_board`.
    pub open spec fn wrong_board(self, pos: u8) -> bool {
        self.board().wrong_board(pos)
    }

    /// See `BigBoard::board_finished`.
    pub open spec fn board_finished(self, pos: u8) -> bool {
        self.board().board_finished(pos)
    }

    /// See `BigBoard::tile_filled`.
    pub open spec fn tile_filled(self, pos: u8, tile: u8) -> bool {
        self.board().tile_filled(pos, tile)
    }

    /// See `BigBoard::move_legal`.
    pub open spec fn move_legal(self, pos: u8, tile: u8) -> bool {
        self.board().move_legal(pos, tile)
    }

    /// Well-formed: the outer board is.
    pub open spec fn wf(self) -> bool {
        self.board().wf()
    }

    /// A fresh game: all boards empty and ongoing, X to move, free choice
    /// of sub-board.
    pub fn new() -> (g: Game)
        ensures
            g.wf(),
            g.player_to_move() == Player::X,
            forall|j: int|
                0 <= j < 9 ==> (#[trigger] g.sub_board(j)).cells() == Seq::new(
                    9,
                    |i: int| Mark::Empty,
                ),
            forall|j: int| 0 <= j < 9 ==> (#[trigger] g.sub_board(j)).status() is HasntFinished,
            g.forced() is None,
            g.status() is HasntFinished,
    {
        Game { game: BigBoard::new(), next_player: Player::X }
    }

    /// The player whose move is next.
    pub fn get_next_player(&self) -> (p: &Player)
        ensures
            *p == self.player_to_move(),
    {
        &self.next_player
    }

    /// Toggle whose move is next.
    fn switch_next_player(&mut self)
        ensures
            final(self).player_to_move() == old(self).player_to_move().other(),
            final(self).game == old(self).game,
    {
        self.next_player = match self.next_player {
            Player::X => Player::O,
            Player::O => Player::X,
        };
    }

    /// Whether the next move may choose its sub-board freely.
    pub fn current_move_can_be_put_anywhere(&self) -> (r: bool)
        requires
            self.wf(),
        ensures
            r == self.can_any(),
    {
        self.game.current_move_can_be_put_anywhere()
    }

    /// The sub-board the next move is sent to; `None` before the first
    /// move. Meant to be unwrapped only when free choice does not hold.
    pub fn last_sent_board_index(&self) -> (r: Option<u8>)
        ensures
            r == self.forced(),
    {
        self.game.get_forced_index()
    }

    /// The mark at cell `tile_pos` of sub-board `board_pos`, for a
    /// renderer.
    pub fn get_tile(&self, board_pos: u8, tile_pos: u8) -> (m: Mark)
        requires
            board_pos < 9,
            tile_pos < 9,
        ensures
            m == self.sub_board(board_pos as int).cells()[tile_pos as int],
    {
        self.game.board_at(board_pos).get_tile(tile_pos)
    }

    /// The outcome of sub-board `board_pos`, for a renderer.
    pub fn sub_board_won_by(&self, board_pos: u8) -> (r: WonByPlayer)
        requires
            board_pos < 9,
        ensures
            r == self.sub_board(board_pos as int).status(),
    {
        self.game.board_at(board_pos).get_won_by()
    }

    /// The outer outcome.
    pub fn get_current_finish_status(&self) -> (r: WonByPlayer)
        requires
            self.wf(),
        ensures
            r == self.status(),
    {
        self.game.get_current_finish_status()
    }

    /// Play the next player's mark at cell `tile_pos` of sub-board
    /// `small_board_pos`. A rejected move returns its error and changes
    /// nothing, the turn included; a successful move fills the cell,
    /// designates `tile_pos` as the opponent's sub-board, toggles the
    /// turn, and returns the outer outcome.
    pub fn make_move(&mut self, small_board_pos: u8, tile_pos: u8) -> (r: Result<
        WonByPlayer,
        BoardError,
    >)
        requires
            old(self).wf(),
            small_board_pos < 9,
            tile_pos < 9,
        ensures
            final(self).wf(),
            r is Ok <==> old(self).move_legal(small_board_pos, tile_pos),
            old(self).wrong_board(small_board_pos) ==> {
                &&& r == Err::<WonByPlayer, BoardError>(BoardError::MoveAtNotSentBoard)
                &&& *final(self) == *old(self)
            },
            old(self).board_finished(small_board_pos) ==> {
                &&& r == Err::<WonByPlayer, BoardError>(BoardError::MoveAtAlreadyFinishedBoard)
                &&& *final(self) == *old(self)
            },
            old(self).tile_filled(small_board_pos, tile_pos) ==> {
                &&& r == Err::<WonByPlayer, BoardError>(BoardError::MoveAtAlreadyFilledTile)
                &&& *final(self) == *old(self)
            },
            old(self).move_legal(small_board_pos, tile_pos) ==> {
                &&& final(self).sub_board(small_board_pos as int).cells() == old(self).sub_board(
                    small_board_pos as int,
                ).cells().update(tile_pos as int, old(self).player_to_move().as_mark())
                &&& final(self).sub_board(small_board_pos as int).filled_count() == old(
                    self,
                ).sub_board(small_board_pos as int).filled_count() + 1
                &&& forall|j: int|
                    0 <= j < 9 && j != small_board_pos as int ==> final(self).sub_board(j) == old(
                        self,
                    ).sub_board(j)
                &&& final(self).forced() == Some(tile_pos)
                &&& final(self).player_to_move() == old(self).player_to_move().other()
                &&& r == Ok::<WonByPlayer, BoardError>(final(self).status())
            },
            r is Err ==> final(self).player_to_move() == old(self).player_to_move(),
            forall|j: int|
                0 <= j < 9 && is_decided(#[trigger] old(self).sub_board(j).status())
                    ==> final(self).sub_board(j) == old(self).sub_board(j),
    {
        let mover = self.next_player;
        let successful = self.game.make_move(small_board_pos, tile_pos, mover);
        if successful.is_ok() {
            self.switch_next_player();
        }
        successful
    }
}

} // verus!
