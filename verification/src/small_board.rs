//! A single 3x3 tic-tac-toe board. The nine cells are packed into two
//! nine-bit ownership masks, one per player; the board also keeps a count
//! of filled cells and caches its outcome, which never reopens once it is
//! decided.

use vstd::prelude::*;
use crate::masks::{
    bit_is_set, count_filled, lemma_count_filled_all_empty, lemma_count_filled_lt_len,
    lemma_count_filled_update, lemma_line_masks, lemma_set_bit, lemma_zero_mask, line_won_by,
    mark_at,
};
use crate::types::{is_decided, BoardError, Mark, Player, WonByPlayer};

verus! {

/// The outcome the nine cells call for: a completed line wins (X checked
/// first, as at most one player can complete a line on a board that was
/// ongoing before the move), a full board with no line is a draw, and
/// anything else is still ongoing. The win check takes priority over the
/// draw check: a move that fills the last cell and completes a line wins.
pub open spec fn small_status(s: Seq<Mark>) -> WonByPlayer {
    if line_won_by(s, Mark::X) {
        WonByPlayer::X
    } else if line_won_by(s, Mark::O) {
        WonByPlayer::O
    } else if count_filled(s) == 9 {
        WonByPlayer::Tie
    } else {
        WonByPlayer::HasntFinished
    }
}

/// One 3x3 board of the outer grid.
#[derive(Clone, Copy)]
pub struct SmallBoard {
    /// Bit per cell index that X has marked.
    x_mask: u16,
    /// Bit per cell index that O has marked.
    o_mask: u16,
    /// Number of non-empty cells, 0 to 9.
    filled_tiles: u8,
    /// Cached outcome; once it leaves `HasntFinished` no cell may be
    /// placed any more.
    won_by: WonByPlayer,
}

impl SmallBoard {
    /// The nine cell marks, row-major: 0,1,2 top row; 3,4,5 middle;
    /// 6,7,8 bottom.
    pub closed spec fn cells(self) -> Seq<Mark> {
        Seq::new(9, |i: int| mark_at(self.x_mask, self.o_mask, i))
    }

    /// The cached outcome.
    pub closed spec fn status(self) -> WonByPlayer {
        self.won_by
    }

    /// The number of non-empty cells.
    pub closed spec fn filled_count(self) -> int {
        self.filled_tiles as int
    }

    /// No cell is claimed by both players.
    pub closed spec fn masks_disjoint(self) -> bool {
        forall|j: u16|
            j < 9 ==> !(#[trigger] bit_is_set(self.x_mask, j) && bit_is_set(self.o_mask, j))
    }

    /// Well-formed: the two masks never overlap, the filled counter
    /// matches the cells, and the cached outcome is the one the cells
    /// call for.
    pub open spec fn wf(self) -> bool {
        &&& self.masks_disjoint()
        &&& self.filled_count() == count_filled(self.cells())
        &&& self.status() == small_status(self.cells())
    }

    /// A fresh board: all cells empty, ongoing.
    pub fn new() -> (b: SmallBoard)
        ensures
            b.wf(),
            b.cells() == Seq::new(9, |i: int| Mark::Empty),
            b.status() == WonByPlayer::HasntFinished,
            b.filled_count() == 0,
    {
        let b = SmallBoard {
            x_mask: 0,
            o_mask: 0,
            filled_tiles: 0,
            won_by: WonByPlayer::HasntFinished,
        };
        proof {
            assert forall|j: u16| j < 9 implies !(#[trigger] bit_is_set(0u16, j)) by {
                lemma_zero_mask(j);
            }
            assert(b.cells() =~= Seq::new(9, |i: int| Mark::Empty));
            lemma_count_filled_all_empty(b.cells());
        }
        b
    }

    /// The mark at a cell.
    pub fn get_tile(&self, position: u8) -> (m: Mark)
        requires
            position < 9,
        ensures
            m == self.cells()[position as int],
    {
        let p: u16 = position as u16;
        if (self.x_mask >> p) & 1u16 == 1u16 {
            Mark::X
        } else if (self.o_mask >> p) & 1u16 == 1u16 {
            Mark::O
        } else {
            Mark::Empty
        }
    }

    /// Whether the board's outcome is terminal.
    pub fn is_finished(&self) -> (r: bool)
        ensures
            r == is_decided(self.status()),
    {
        match self.won_by {
            WonByPlayer::HasntFinished => false,
            _ => true,
        }
    }

    /// The cached outcome.
    pub fn get_won_by(&self) -> (r: WonByPlayer)
        ensures
            r == self.status(),
    {
        self.won_by
    }

    /// The number of non-empty cells.
    pub fn get_filled_tiles(&self) -> (r: u8)
        ensures
            r as int == self.filled_count(),
    {
        self.filled_tiles
    }

    /// Whether every cell is filled.
    fn check_draw(&self) -> (r: bool)
        ensures
            r == (self.filled_count() == 9),
    {
        self.filled_tiles == 9
    }

    /// Which player, if any, covers a winning line, by testing each
    /// player's mask against the eight line masks. X is checked first.
    fn check_win(&self) -> (r: WonByPlayer)
        requires
            self.masks_disjoint(),
        ensures
            r == (if line_won_by(self.cells(), Mark::X) {
                WonByPlayer::X
            } else if line_won_by(self.cells(), Mark::O) {
                WonByPlayer::O
            } else {
                WonByPlayer::HasntFinished
            }),
    {
        proof {
            lemma_line_masks(self.x_mask);
            lemma_line_masks(self.o_mask);
            let s = self.cells();
            assert forall|i: int| 0 <= i < 9 implies (s[i] == Mark::X <==> bit_is_set(
                self.x_mask,
                i as u16,
            )) && (s[i] == Mark::O <==> bit_is_set(self.o_mask, i as u16)) by {
                assert(s[i] == mark_at(self.x_mask, self.o_mask, i));
                assert(!(bit_is_set(self.x_mask, i as u16) && bit_is_set(self.o_mask, i as u16)));
            }
        }
        if self.x_mask & 0b000000111u16 == 0b000000111u16 || self.x_mask & 0b000111000u16
            == 0b000111000u16 || self.x_mask & 0b111000000u16 == 0b111000000u16 || self.x_mask
            & 0b001001001u16 == 0b001001001u16 || self.x_mask & 0b010010010u16 == 0b010010010u16
            || self.x_mask & 0b100100100u16 == 0b100100100u16 || self.x_mask & 0b100010001u16
            == 0b100010001u16 || self.x_mask & 0b001010100u16 == 0b001010100u16 {
            WonByPlayer::X
        } else if self.o_mask & 0b000000111u16 == 0b000000111u16 || self.o_mask & 0b000111000u16
            == 0b000111000u16 || self.o_mask & 0b111000000u16 == 0b111000000u16 || self.o_mask
            & 0b001001001u16 == 0b001001001u16 || self.o_mask & 0b010010010u16 == 0b010010010u16
            || self.o_mask & 0b100100100u16 == 0b100100100u16 || self.o_mask & 0b100010001u16
            == 0b100010001u16 || self.o_mask & 0b001010100u16 == 0b001010100u16 {
            WonByPlayer::O
        } else {
            WonByPlayer::HasntFinished
        }
    }

    /// The outcome the cells currently call for, win before draw.
    fn get_current_finish_status(&self) -> (r: WonByPlayer)
        requires
            self.masks_disjoint(),
            self.filled_tiles as int == count_filled(self.cells()),
        ensures
            r == small_status(self.cells()),
    {
        let win = self.check_win();
        match win {
            WonByPlayer::HasntFinished => {
                if self.check_draw() {
                    WonByPlayer::Tie
                } else {
                    WonByPlayer::HasntFinished
                }
            },
            w => w,
        }
    }

    /// Recompute the outcome after a placement and cache it; reports
    /// whether the board is now decided.
    fn check_finish_and_record(&mut self) -> (r: bool)
        requires
            old(self).masks_disjoint(),
            old(self).filled_tiles as int == count_filled(old(self).cells()),
            old(self).won_by is HasntFinished,
        ensures
            final(self).wf(),
            final(self).cells() == old(self).cells(),
            final(self).filled_count() == old(self).filled_count(),
            r == is_decided(small_status(old(self).cells())),
    {
        let status = self.get_current_finish_status();
        match status {
            WonByPlayer::HasntFinished => false,
            w => {
                self.won_by = w;
                true
            },
        }
    }

    /// Place `player`'s mark at `position`. Fails with
    /// `MoveAtAlreadyFilledTile` when the cell already holds a mark, and
    /// then changes nothing; on success it fills the cell, counts it, and
    /// recomputes and returns the board's outcome.
    pub fn place_tile_and_record_finish(&mut self, position: u8, player: Player) -> (r: Result<
        WonByPlayer,
        BoardError,
    >)
        requires
            old(self).wf(),
            position < 9,
            old(self).status() is HasntFinished,
        ensures
            final(self).wf(),
            old(self).cells()[position as int] != Mark::Empty ==> {
                &&& r == Err::<WonByPlayer, BoardError>(BoardError::MoveAtAlreadyFilledTile)
                &&& *final(self) == *old(self)
            },
            old(self).cells()[position as int] == Mark::Empty ==> {
                &&& final(self).cells() == old(self).cells().update(
                    position as int,
                    player.as_mark(),
                )
                &&& final(self).filled_count() == old(self).filled_count() + 1
                &&& final(self).status() == small_status(final(self).cells())
                &&& r == Ok::<WonByPlayer, BoardError>(final(self).status())
            },
    {
        let current = self.get_tile(position);
        match current {
            Mark::Empty => {},
            _ => {
                return Err(BoardError::MoveAtAlreadyFilledTile);
            },
        }
        let p: u16 = position as u16;
        match player {
            Player::X => {
                self.x_mask = self.x_mask | (1u16 << p);
            },
            Player::O => {
                self.o_mask = self.o_mask | (1u16 << p);
            },
        }
        proof {
            let updated = old(self).cells().update(position as int, player.as_mark());
            assert forall|i: int| 0 <= i < 9 implies self.cells()[i] == updated[i] by {
                lemma_set_bit(old(self).x_mask, p, i as u16);
                lemma_set_bit(old(self).o_mask, p, i as u16);
            }
            assert(self.cells() =~= updated);
            assert forall|j: u16|
                j < 9 implies !(#[trigger] bit_is_set(self.x_mask, j) && bit_is_set(
                self.o_mask,
                j,
            )) by {
                lemma_set_bit(old(self).x_mask, p, j);
                lemma_set_bit(old(self).o_mask, p, j);
            }
            lemma_count_filled_update(old(self).cells(), position as int, player.as_mark());
            lemma_count_filled_lt_len(old(self).cells(), position as int);
        }
        self.filled_tiles = self.filled_tiles + 1;
        self.check_finish_and_record();
        Ok(self.won_by)
    }
}

} // verus!
