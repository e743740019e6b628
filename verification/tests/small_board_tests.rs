use uttt::{BoardError, Mark, Player, SmallBoard, WonByPlayer};

#[test]
fn fresh_board_is_empty_and_ongoing() {
    let b = SmallBoard::new();
    for i in 0..9u8 {
        assert_eq!(b.get_tile(i), Mark::Empty);
    }
    assert!(!b.is_finished());
    assert_eq!(b.get_won_by(), WonByPlayer::HasntFinished);
}

#[test]
fn placing_records_the_mark() {
    let mut b = SmallBoard::new();
    let r = b.place_tile_and_record_finish(4, Player::X);
    assert_eq!(r, Ok(WonByPlayer::HasntFinished));
    assert_eq!(b.get_tile(4), Mark::X);
    assert_eq!(b.get_tile(0), Mark::Empty);
    assert!(!b.is_finished());
}

#[test]
fn occupied_cell_is_rejected_and_unchanged() {
    let mut b = SmallBoard::new();
    assert_eq!(b.place_tile_and_record_finish(4, Player::X), Ok(WonByPlayer::HasntFinished));
    let r = b.place_tile_and_record_finish(4, Player::O);
    assert_eq!(r, Err(BoardError::MoveAtAlreadyFilledTile));
    assert_eq!(b.get_tile(4), Mark::X);
    assert_eq!(b.get_filled_tiles(), 1);
    assert!(!b.is_finished());
}

#[test]
fn filled_count_tracks_successful_placements() {
    let mut b = SmallBoard::new();
    assert_eq!(b.get_filled_tiles(), 0);
    assert!(b.place_tile_and_record_finish(0, Player::X).is_ok());
    assert_eq!(b.get_filled_tiles(), 1);
    assert!(b.place_tile_and_record_finish(8, Player::O).is_ok());
    assert_eq!(b.get_filled_tiles(), 2);
    assert!(b.place_tile_and_record_finish(8, Player::X).is_err());
    assert_eq!(b.get_filled_tiles(), 2);
    assert!(b.place_tile_and_record_finish(4, Player::X).is_ok());
    assert_eq!(b.get_filled_tiles(), 3);
}

#[test]
fn row_win_for_x() {
    let mut b = SmallBoard::new();
    assert_eq!(b.place_tile_and_record_finish(0, Player::X), Ok(WonByPlayer::HasntFinished));
    assert_eq!(b.place_tile_and_record_finish(1, Player::X), Ok(WonByPlayer::HasntFinished));
    let r = b.place_tile_and_record_finish(2, Player::X);
    assert_eq!(r, Ok(WonByPlayer::X));
    assert!(b.is_finished());
    assert_eq!(b.get_won_by(), WonByPlayer::X);
}

#[test]
fn column_win_for_o() {
    let mut b = SmallBoard::new();
    assert_eq!(b.place_tile_and_record_finish(1, Player::O), Ok(WonByPlayer::HasntFinished));
    assert_eq!(b.place_tile_and_record_finish(4, Player::O), Ok(WonByPlayer::HasntFinished));
    assert_eq!(b.place_tile_and_record_finish(7, Player::O), Ok(WonByPlayer::O));
    assert_eq!(b.get_won_by(), WonByPlayer::O);
}

#[test]
fn diagonal_win_for_x() {
    let mut b = SmallBoard::new();
    assert_eq!(b.place_tile_and_record_finish(0, Player::X), Ok(WonByPlayer::HasntFinished));
    assert_eq!(b.place_tile_and_record_finish(4, Player::X), Ok(WonByPlayer::HasntFinished));
    assert_eq!(b.place_tile_and_record_finish(8, Player::X), Ok(WonByPlayer::X));
}

#[test]
fn anti_diagonal_win_for_o() {
    let mut b = SmallBoard::new();
    assert_eq!(b.place_tile_and_record_finish(2, Player::O), Ok(WonByPlayer::HasntFinished));
    assert_eq!(b.place_tile_and_record_finish(4, Player::O), Ok(WonByPlayer::HasntFinished));
    assert_eq!(b.place_tile_and_record_finish(6, Player::O), Ok(WonByPlayer::O));
}

#[test]
fn full_board_without_line_is_a_tie() {
    // X O X / X O O / O X X: no line for either player.
    let mut b = SmallBoard::new();
    let marks = [
        (0, Player::X),
        (1, Player::O),
        (2, Player::X),
        (3, Player::X),
        (4, Player::O),
        (5, Player::O),
        (6, Player::O),
        (7, Player::X),
    ];
    for (cell, player) in marks {
        assert_eq!(b.place_tile_and_record_finish(cell, player), Ok(WonByPlayer::HasntFinished));
    }
    let r = b.place_tile_and_record_finish(8, Player::X);
    assert_eq!(r, Ok(WonByPlayer::Tie));
    assert!(b.is_finished());
    assert_eq!(b.get_won_by(), WonByPlayer::Tie);
}

#[test]
fn win_on_the_last_cell_beats_the_draw() {
    // The ninth placement both fills the board and completes the top row:
    // that is a win for X, not a tie.
    let mut b = SmallBoard::new();
    let marks = [
        (0, Player::X),
        (3, Player::O),
        (1, Player::X),
        (4, Player::O),
        (5, Player::X),
        (7, Player::O),
        (6, Player::X),
        (8, Player::O),
    ];
    for (cell, player) in marks {
        assert_eq!(b.place_tile_and_record_finish(cell, player), Ok(WonByPlayer::HasntFinished));
    }
    let r = b.place_tile_and_record_finish(2, Player::X);
    assert_eq!(r, Ok(WonByPlayer::X));
    assert_eq!(b.get_won_by(), WonByPlayer::X);
}
