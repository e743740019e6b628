//! Nine-bit ownership masks and the counting functions the boards are
//! specified with. A mask assigns one bit per cell index (0..8, row-major);
//! the eight winning lines are the three rows, three columns and two
//! diagonals of the 3x3 grid.

use vstd::prelude::*;
use crate::types::{Mark, WonByPlayer};

verus! {

/// Whether bit `i` of the nine-bit mask `m` is set.
pub open spec fn bit_is_set(m: u16, i: u16) -> bool {
    (m >> i) & 1u16 == 1u16
}

/// The mark recorded at cell `i`, read from the two ownership masks.
pub open spec fn mark_at(x_mask: u16, o_mask: u16, i: int) -> Mark {
    if bit_is_set(x_mask, i as u16) {
        Mark::X
    } else if bit_is_set(o_mask, i as u16) {
        Mark::O
    } else {
        Mark::Empty
    }
}

/// How many cells of `s` hold a mark.
pub open spec fn count_filled(s: Seq<Mark>) -> int
    decreases s.len(),
{
    if s.len() == 0 {
        0
    } else {
        count_filled(s.drop_last()) + if s.last() is Empty {
            0int
        } else {
            1int
        }
    }
}

/// How many outcomes of `s` are terminal.
pub open spec fn count_decided(s: Seq<WonByPlayer>) -> int
    decreases s.len(),
{
    if s.len() == 0 {
        0
    } else {
        count_decided(s.drop_last()) + if s.last() is HasntFinished {
            0int
        } else {
            1int
        }
    }
}

/// Whether mark `m` covers one of the eight winning lines of the nine
/// cells `s` (rows 0-1-2, 3-4-5, 6-7-8; columns; the two diagonals).
pub open spec fn line_won_by(s: Seq<Mark>, m: Mark) -> bool {
    ||| (s[0] == m && s[1] == m && s[2] == m)
    ||| (s[3] == m && s[4] == m && s[5] == m)
    ||| (s[6] == m && s[7] == m && s[8] == m)
    ||| (s[0] == m && s[3] == m && s[6] == m)
    ||| (s[1] == m && s[4] == m && s[7] == m)
    ||| (s[2] == m && s[5] == m && s[8] == m)
    ||| (s[0] == m && s[4] == m && s[8] == m)
    ||| (s[2] == m && s[4] == m && s[6] == m)
}

/// No bit is set in the zero mask.
pub proof fn lemma_zero_mask(j: u16)
    by (bit_vector)
    ensures
        !bit_is_set(0u16, j),
{
}

/// Setting bit `i` sets exactly that bit and leaves the others alone.
pub proof fn lemma_set_bit(m: u16, i: u16, j: u16)
    by (bit_vector)
    requires
        i < 9,
        j < 9,
    ensures
        bit_is_set(m | (1u16 << i), j) == (i == j || bit_is_set(m, j)),
{
}

/// Each winning-line mask test holds exactly when the line's three bits
/// are all set.
pub proof fn lemma_line_masks(m: u16)
    by (bit_vector)
    ensures
        (m & 0b000000111u16 == 0b000000111u16) == (bit_is_set(m, 0) && bit_is_set(m, 1)
            && bit_is_set(m, 2)),
        (m & 0b000111000u16 == 0b000111000u16) == (bit_is_set(m, 3) && bit_is_set(m, 4)
            && bit_is_set(m, 5)),
        (m & 0b111000000u16 == 0b111000000u16) == (bit_is_set(m, 6) && bit_is_set(m, 7)
            && bit_is_set(m, 8)),
        (m & 0b001001001u16 == 0b001001001u16) == (bit_is_set(m, 0) && bit_is_set(m, 3)
            && bit_is_set(m, 6)),
        (m & 0b010010010u16 == 0b010010010u16) == (bit_is_set(m, 1) && bit_is_set(m, 4)
            && bit_is_set(m, 7)),
        (m & 0b100100100u16 == 0b100100100u16) == (bit_is_set(m, 2) && bit_is_set(m, 5)
            && bit_is_set(m, 8)),
        (m & 0b100010001u16 == 0b100010001u16) == (bit_is_set(m, 0) && bit_is_set(m, 4)
            && bit_is_set(m, 8)),
        (m & 0b001010100u16 == 0b001010100u16) == (bit_is_set(m, 2) && bit_is_set(m, 4)
            && bit_is_set(m, 6)),
{
}

/// A sequence of empty cells has no filled cell.
pub proof fn lemma_count_filled_all_empty(s: Seq<Mark>)
    requires
        forall|i: int| 0 <= i < s.len() ==> s[i] is Empty,
    ensures
        count_filled(s) == 0,
    decreases s.len(),
{
    if s.len() > 0 {
        lemma_count_filled_all_empty(s.drop_last());
    }
}

/// A sequence of ongoing outcomes has no decided one.
pub proof fn lemma_count_decided_all_ongoing(s: Seq<WonByPlayer>)
    requires
        forall|i: int| 0 <= i < s.len() ==> s[i] is HasntFinished,
    ensures
        count_decided(s) == 0,
    decreases s.len(),
{
    if s.len() > 0 {
        lemma_count_decided_all_ongoing(s.drop_last());
    }
}

/// Replacing one cell changes the filled count by the difference the two
/// marks make.
pub proof fn lemma_count_filled_update(s: Seq<Mark>, i: int, m: Mark)
    requires
        0 <= i < s.len(),
    ensures
        count_filled(s.update(i, m)) == count_filled(s) - (if s[i] is Empty {
            0int
        } else {
            1int
        }) + (if m is Empty {
            0int
        } else {
            1int
        }),
    decreases s.len(),
{
    let t = s.update(i, m);
    if i == s.len() - 1 {
        assert(t.drop_last() =~= s.drop_last());
    } else {
        assert(t.drop_last() =~= s.drop_last().update(i, m));
        lemma_count_filled_update(s.drop_last(), i, m);
    }
}

/// Replacing one outcome changes the decided count by the difference the
/// two outcomes make.
pub proof fn lemma_count_decided_update(s: Seq<WonByPlayer>, i: int, w: WonByPlayer)
    requires
        0 <= i < s.len(),
    ensures
        count_decided(s.update(i, w)) == count_decided(s) - (if s[i] is HasntFinished {
            0int
        } else {
            1int
        }) + (if w is HasntFinished {
            0int
        } else {
            1int
        }),
    decreases s.len(),
{
    let t = s.update(i, w);
    if i == s.len() - 1 {
        assert(t.drop_last() =~= s.drop_last());
    } else {
        assert(t.drop_last() =~= s.drop_last().update(i, w));
        lemma_count_decided_update(s.drop_last(), i, w);
    }
}

/// The filled count never exceeds the number of cells.
pub proof fn lemma_count_filled_le_len(s: Seq<Mark>)
    ensures
        0 <= count_filled(s) <= s.len(),
    decreases s.len(),
{
    if s.len() > 0 {
        lemma_count_filled_le_len(s.drop_last());
    }
}

/// The decided count never exceeds the number of boards.
pub proof fn lemma_count_decided_le_len(s: Seq<WonByPlayer>)
    ensures
        0 <= count_decided(s) <= s.len(),
    decreases s.len(),
{
    if s.len() > 0 {
        lemma_count_decided_le_len(s.drop_last());
    }
}

/// While some cell is empty, the filled count stays below the length.
pub proof fn lemma_count_filled_lt_len(s: Seq<Mark>, i: int)
    requires
        0 <= i < s.len(),
        s[i] is Empty,
    ensures
        count_filled(s) < s.len(),
    decreases s.len(),
{
    if i == s.len() - 1 {
        lemma_count_filled_le_len(s.drop_last());
    } else {
        lemma_count_filled_lt_len(s.drop_last(), i);
    }
}

/// While some board is ongoing, the decided count stays below the length.
pub proof fn lemma_count_decided_lt_len(s: Seq<WonByPlayer>, i: int)
    requires
        0 <= i < s.len(),
        s[i] is HasntFinished,
    ensures
        count_decided(s) < s.len(),
    decreases s.len(),
{
    if i == s.len() - 1 {
        lemma_count_decided_le_len(s.drop_last());
    } else {
        lemma_count_decided_lt_len(s.drop_last(), i);
    }
}

} // verus!
