//! The outer 3x3 grid of sub-boards. Tracks which sub-boards each player
//! has won in two nine-bit ownership masks (a drawn sub-board counts as
//! decided but is owned by neither player), counts decided sub-boards, and
//! enforces the forced-board rule: every move sends the opponent to the
//! sub-board whose index is the cell just played, unless that sub-board is
//! already decided.

use vstd::prelude::*;
use crate::masks::{
    bit_is_set, count_decided, lemma_count_decided_all_ongoing, lemma_count_decided_lt_len,
    lemma_count_decided_update, lemma_line_masks, lemma_set_bit, lemma_zero_mask, line_won_by,
};
use crate::small_board::SmallBoard;
use crate::types::{is_decided, BoardError, Mark, Player, WonByPlayer};

verus! {

/// The mark a sub-board outcome contributes to the outer win check: a won
/// sub-board stands in for a cell of its winner; a drawn or ongoing one is
/// owned by neither player.
pub open spec fn owner_mark(w: WonByPlayer) -> Mark {
    match w {
        WonByPlayer::X => Mark::X,
        WonByPlayer::O => Mark::O,
        WonByPlayer::Tie => Mark::Empty,
        WonByPlayer::HasntFinished => Mark::Empty,
    }
}

/// The nine sub-boards with the derived state the forced-board rule and
/// the outer win check need.
pub struct BigBoard {
    /// The sub-boards, indexed 0..8 row-major like the cells of a
    /// sub-board.
    boards: [SmallBoard; 9],
    /// Bit per sub-board index that X has won.
    x_bits: u16,
    /// Bit per sub-board index that O has won.
    o_bits: u16,
    /// Number of decided sub-boards, 0 to 9.
    filled_boards: u8,
    /// The sub-board the next move is sent to: the cell index of the
    /// previous move, or `None` before the first move.
    last_sent_board_index: Option<u8>,
}

impl BigBoard {
    /// The nine sub-boards.
    pub closed spec fn boards_seq(self) -> Seq<SmallBoard> {
        self.boards@
    }

    /// The nine sub-board outcomes.
    pub open spec fn statuses(self) -> Seq<WonByPlayer> {
        Seq::new(9, |j: int| self.boards_seq()[j].status())
    }

    /// The nine ownership marks the outer win check runs on.
    pub open spec fn owners(self) -> Seq<Mark> {
        Seq::new(9, |j: int| owner_mark(self.boards_seq()[j].status()))
    }

    /// The sub-board the next move is sent to, if any.
    pub closed spec fn forced(self) -> Option<u8> {
        self.last_sent_board_index
    }

    /// The number of decided sub-boards the board has recorded.
    pub closed spec fn decided_count(self) -> int {
        self.filled_boards as int
    }

    /// Whether the next move may choose its sub-board freely: no board was
    /// designated yet, or the designated one is already decided.
    pub open spec fn can_any(self) -> bool {
        match self.forced() {
            Option::None => true,
            Option::Some(i) => is_decided(self.boards_seq()[i as int].status()),
        }
    }

    /// The outer outcome: the sub-board ownership marks are run through
    /// the same line check as a single board's cells, with all nine
    /// sub-boards decided as the draw condition. The win check takes
    /// priority over the draw check.
    pub open spec fn status(self) -> WonByPlayer {
        if line_won_by(self.owners(), Mark::X) {
            WonByPlayer::X
        } else if line_won_by(self.owners(), Mark::O) {
            WonByPlayer::O
        } else if count_decided(self.statuses()) == 9 {
            WonByPlayer::Tie
        } else {
            WonByPlayer::HasntFinished
        }
    }

    /// A move at sub-board `pos` is rejected because the mover was sent
    /// elsewhere: free choice does not hold and `pos` is not the
    /// designated sub-board.
    pub open spec fn wrong_board(self, pos: u8) -> bool {
        !self.can_any() && self.forced() != Some(pos)
    }

    /// A move at sub-board `pos` is rejected because `pos` is already
    /// decided while the mover could have chosen any undecided sub-board.
    pub open spec fn board_finished(self, pos: u8) -> bool {
        self.can_any() && is_decided(self.boards_seq()[pos as int].status())
    }

    /// A move is rejected because its target cell already holds a mark,
    /// the target sub-board itself being legal.
    pub open spec fn tile_filled(self, pos: u8, tile: u8) -> bool {
        &&& !self.wrong_board(pos)
        &&& !self.board_finished(pos)
        &&& self.boards_seq()[pos as int].cells()[tile as int] != Mark::Empty
    }

    /// A move is legal: the target sub-board is undecided and permitted by
    /// the forced-board rule, and the target cell is empty.
    pub open spec fn move_legal(self, pos: u8, tile: u8) -> bool {
        &&& !self.wrong_board(pos)
        &&& !self.board_finished(pos)
        &&& self.boards_seq()[pos as int].cells()[tile as int] == Mark::Empty
    }

    /// Each ownership bit is set exactly for the sub-boards that player
    /// has won.
    pub closed spec fn bits_match(self) -> bool {
        &&& forall|j: u16|
            j < 9 ==> (#[trigger] bit_is_set(self.x_bits, j)
                <==> self.boards@[j as int].status() is X)
        &&& forall|j: u16|
            j < 9 ==> (#[trigger] bit_is_set(self.o_bits, j)
                <==> self.boards@[j as int].status() is O)
    }

    /// Well-formed: every sub-board is well-formed, each ownership bit is
    /// set exactly for the sub-boards that player has won, the decided
    /// counter matches the outcomes, and the designated index is in range.
    pub open spec fn wf(self) -> bool {
        &&& forall|j: int| 0 <= j < 9 ==> (#[trigger] self.boards_seq()[j]).wf()
        &&& self.bits_match()
        &&& self.decided_count() == count_decided(self.statuses())
        &&& (self.forced() matches Some(i) ==> i < 9)
    }

    /// A fresh outer board: nine empty ongoing sub-boards, no board
    /// designated yet.
    pub fn new() -> (b: BigBoard)
        ensures
            b.wf(),
            forall|j: int|
                0 <= j < 9 ==> (#[trigger] b.boards_seq()[j]).cells() == Seq::new(
                    9,
                    |i: int| Mark::Empty,
                ),
            forall|j: int| 0 <= j < 9 ==> (#[trigger] b.boards_seq()[j]).status() is HasntFinished,
            b.forced() is None,
            b.status() is HasntFinished,
    {
        let sb = SmallBoard::new();
        let b = BigBoard {
            boards: [sb, sb, sb, sb, sb, sb, sb, sb, sb],
            x_bits: 0,
            o_bits: 0,
            filled_boards: 0,
            last_sent_board_index: None,
        };
        proof {
            assert forall|j: u16| j < 9 implies !(#[trigger] bit_is_set(0u16, j)) by {
                lemma_zero_mask(j);
            }
            lemma_count_decided_all_ongoing(b.statuses());
        }
        b
    }

    /// The sub-board at an index, for read-only queries.
    pub fn board_at(&self, index: u8) -> (b: &SmallBoard)
        requires
            index < 9,
        ensures
            *b == self.boards_seq()[index as int],
    {
        &self.boards[index as usize]
    }

    /// The sub-board the next move is sent to, if any.
    pub fn get_forced_index(&self) -> (r: Option<u8>)
        ensures
            r == self.forced(),
    {
        self.last_sent_board_index
    }

    /// Whether the next move may choose its sub-board freely.
    pub fn current_move_can_be_put_anywhere(&self) -> (r: bool)
        requires
            self.wf(),
        ensures
            r == self.can_any(),
    {
        match self.last_sent_board_index {
            None => true,
            Some(i) => self.boards[i as usize].is_finished(),
        }
    }

    /// Whether every sub-board is decided.
    fn check_draw(&self) -> (r: bool)
        ensures
            r == (self.filled_boards == 9),
    {
        self.filled_boards == 9
    }

    /// Which player, if any, owns a winning line of sub-boards, by testing
    /// each player's ownership mask against the eight line masks. X is
    /// checked first.
    fn check_win(&self) -> (r: WonByPlayer)
        requires
            self.wf(),
        ensures
            r == (if line_won_by(self.owners(), Mark::X) {
                WonByPlayer::X
            } else if line_won_by(self.owners(), Mark::O) {
                WonByPlayer::O
            } else {
                WonByPlayer::HasntFinished
            }),
    {
        proof {
            lemma_line_masks(self.x_bits);
            lemma_line_masks(self.o_bits);
            let s = self.owners();
            assert forall|i: int| 0 <= i < 9 implies (s[i] == Mark::X <==> bit_is_set(
                self.x_bits,
                i as u16,
            )) && (s[i] == Mark::O <==> bit_is_set(self.o_bits, i as u16)) by {
                assert(bit_is_set(self.x_bits, i as u16) <==> self.boards@[i].status() is X);
                assert(bit_is_set(self.o_bits, i as u16) <==> self.boards@[i].status() is O);
            }
        }
        if self.x_bits & 0b000000111u16 == 0b000000111u16 || self.x_bits & 0b000111000u16
            == 0b000111000u16 || self.x_bits & 0b111000000u16 == 0b111000000u16 || self.x_bits
            & 0b001001001u16 == 0b001001001u16 || self.x_bits & 0b010010010u16 == 0b010010010u16
            || self.x_bits & 0b100100100u16 == 0b100100100u16 || self.x_bits & 0b100010001u16
            == 0b100010001u16 || self.x_bits & 0b001010100u16 == 0b001010100u16 {
            WonByPlayer::X
        } else if self.o_bits & 0b000000111u16 == 0b000000111u16 || self.o_bits & 0b000111000u16
            == 0b000111000u16 || self.o_bits & 0b111000000u16 == 0b111000000u16 || self.o_bits
            & 0b001001001u16 == 0b001001001u16 || self.o_bits & 0b010010010u16 == 0b010010010u16
            || self.o_bits & 0b100100100u16 == 0b100100100u16 || self.o_bits & 0b100010001u16
            == 0b100010001u16 || self.o_bits & 0b001010100u16 == 0b001010100u16 {
            WonByPlayer::O
        } else {
            WonByPlayer::HasntFinished
        }
    }

    /// The outer outcome the current sub-board results call for, win
    /// before draw.
    pub fn get_current_finish_status(&self) -> (r: WonByPlayer)
        requires
            self.wf(),
        ensures
            r == self.status(),
    {
        let win = self.check_win();
        match win {
            WonByPlayer::HasntFinished => {
                if self.check_draw() {
                    WonByPlayer::Tie
                } else {
                    WonByPlayer::HasntFinished
                }
            },
            w => w,
        }
    }

    /// Try to place `player`'s mark at cell `tile_pos` of sub-board
    /// `small_board_pos`. A rejected move returns its error and changes
    /// nothing. A successful move fills the cell, records a sub-board that
    /// was decided by it, designates `tile_pos` as the opponent's board,
    /// and returns the outer outcome.
    pub fn make_move(&mut self, small_board_pos: u8, tile_pos: u8, player: Player) -> (r: Result<
        WonByPlayer,
        BoardError,
    >)
        requires
            old(self).wf(),
            small_board_pos < 9,
            tile_pos < 9,
        ensures
            final(self).wf(),
            r is Ok <==> old(self).move_legal(small_board_pos, tile_pos),
            old(self).wrong_board(small_board_pos) ==> {
                &&& r == Err::<WonByPlayer, BoardError>(BoardError::MoveAtNotSentBoard)
                &&& *final(self) == *old(self)
            },
            old(self).board_finished(small_board_pos) ==> {
                &&& r == Err::<WonByPlayer, BoardError>(BoardError::MoveAtAlreadyFinishedBoard)
                &&& *final(self) == *old(self)
            },
            old(self).tile_filled(small_board_pos, tile_pos) ==> {
                &&& r == Err::<WonByPlayer, BoardError>(BoardError::MoveAtAlreadyFilledTile)
                &&& *final(self) == *old(self)
            },
            old(self).move_legal(small_board_pos, tile_pos) ==> {
                &&& final(self).boards_seq()[small_board_pos as int].cells() == old(
                    self,
                ).boards_seq()[small_board_pos as int].cells().update(
                    tile_pos as int,
                    player.as_mark(),
                )
                &&& final(self).boards_seq()[small_board_pos as int].filled_count() == old(
                    self,
                ).boards_seq()[small_board_pos as int].filled_count() + 1
                &&& forall|j: int|
                    0 <= j < 9 && j != small_board_pos as int ==> final(self).boards_seq()[j]
                        == old(self).boards_seq()[j]
                &&& final(self).forced() == Some(tile_pos)
                &&& r == Ok::<WonByPlayer, BoardError>(final(self).status())
            },
            forall|j: int|
                0 <= j < 9 && is_decided(#[trigger] old(self).boards_seq()[j].status())
                    ==> final(self).boards_seq()[j] == old(self).boards_seq()[j],
    {
        let can_anywhere = self.current_move_can_be_put_anywhere();
        if !can_anywhere {
            match self.last_sent_board_index {
                Some(i) => {
                    if small_board_pos != i {
                        return Err(BoardError::MoveAtNotSentBoard);
                    }
                },
                None => {
                    assert(false);
                },
            }
        }
        if can_anywhere && self.boards[small_board_pos as usize].is_finished() {
            return Err(BoardError::MoveAtAlreadyFinishedBoard);
        }
        let pos: usize = small_board_pos as usize;
        proof {
            // The target sub-board is undecided: either choice is free and
            // the finished check above passed, or the move was forced to
            // the designated board, which cannot be decided when free
            // choice does not hold.
            assert(old(self).boards_seq()[pos as int].status() is HasntFinished);
        }
        let mut b: SmallBoard = self.boards[pos];
        let placed = b.place_tile_and_record_finish(tile_pos, player);
        match placed {
            Err(e) => {
                return Err(e);
            },
            Ok(small_board_finished) => {
                self.boards[pos] = b;
                proof {
                    assert(self.statuses() =~= old(self).statuses().update(
                        pos as int,
                        b.status(),
                    ));
                    lemma_count_decided_update(old(self).statuses(), pos as int, b.status());
                    lemma_count_decided_lt_len(old(self).statuses(), pos as int);
                }
                let p: u16 = small_board_pos as u16;
                match small_board_finished {
                    WonByPlayer::X => {
                        proof {
                            assert forall|j: u16|
                                j < 9 implies (#[trigger] bit_is_set(self.x_bits | (1u16 << p), j)
                                <==> self.boards@[j as int].status() is X) by {
                                lemma_set_bit(old(self).x_bits, p, j);
                            }
                        }
                        self.x_bits = self.x_bits | (1u16 << p);
                        self.filled_boards = self.filled_boards + 1;
                    },
                    WonByPlayer::O => {
                        proof {
                            assert forall|j: u16|
                                j < 9 implies (#[trigger] bit_is_set(self.o_bits | (1u16 << p), j)
                                <==> self.boards@[j as int].status() is O) by {
                                lemma_set_bit(old(self).o_bits, p, j);
                            }
                        }
                        self.o_bits = self.o_bits | (1u16 << p);
                        self.filled_boards = self.filled_boards + 1;
                    },
                    WonByPlayer::Tie => {
                        self.filled_boards = self.filled_boards + 1;
                    },
                    WonByPlayer::HasntFinished => {},
                }
                self.last_sent_board_index = Some(tile_pos);
                Ok(self.get_current_finish_status())
            },
        }
    }
}

} // verus!
