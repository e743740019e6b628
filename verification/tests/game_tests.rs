use uttt::{BoardError, Game, Mark, Player, WonByPlayer};

#[test]
fn fresh_game_state() {
    let g = Game::new();
    assert_eq!(*g.get_next_player(), Player::X);
    assert!(g.current_move_can_be_put_anywhere());
    assert_eq!(g.last_sent_board_index(), None);
    assert_eq!(g.get_current_finish_status(), WonByPlayer::HasntFinished);
    for b in 0..9u8 {
        assert_eq!(g.sub_board_won_by(b), WonByPlayer::HasntFinished);
        for c in 0..9u8 {
            assert_eq!(g.get_tile(b, c), Mark::Empty);
        }
    }
}

#[test]
fn first_moves_designate_the_next_board() {
    // X plays cell 0 of board 0: O is sent to board 0. O plays cell 4
    // there: X is sent to board 4.
    let mut g = Game::new();
    assert_eq!(g.make_move(0, 0), Ok(WonByPlayer::HasntFinished));
    assert_eq!(g.last_sent_board_index(), Some(0));
    assert!(!g.current_move_can_be_put_anywhere());
    assert_eq!(*g.get_next_player(), Player::O);
    assert_eq!(g.get_tile(0, 0), Mark::X);
    assert_eq!(g.make_move(0, 4), Ok(WonByPlayer::HasntFinished));
    assert_eq!(g.last_sent_board_index(), Some(4));
    assert_eq!(*g.get_next_player(), Player::X);
    assert_eq!(g.get_tile(0, 4), Mark::O);
}

#[test]
fn wrong_board_is_rejected_without_any_change() {
    let mut g = Game::new();
    assert_eq!(g.make_move(0, 0), Ok(WonByPlayer::HasntFinished));
    let r = g.make_move(1, 1);
    assert_eq!(r, Err(BoardError::MoveAtNotSentBoard));
    assert_eq!(g.last_sent_board_index(), Some(0));
    assert_eq!(*g.get_next_player(), Player::O);
    assert_eq!(g.get_tile(1, 1), Mark::Empty);
}

#[test]
fn occupied_cell_is_rejected_without_any_change() {
    let mut g = Game::new();
    assert_eq!(g.make_move(0, 0), Ok(WonByPlayer::HasntFinished));
    let r = g.make_move(0, 0);
    assert_eq!(r, Err(BoardError::MoveAtAlreadyFilledTile));
    assert_eq!(g.get_tile(0, 0), Mark::X);
    assert_eq!(g.last_sent_board_index(), Some(0));
    assert_eq!(*g.get_next_player(), Player::O);
}

#[test]
fn player_toggles_exactly_on_success() {
    let mut g = Game::new();
    assert_eq!(*g.get_next_player(), Player::X);
    assert!(g.make_move(0, 0).is_ok());
    assert_eq!(*g.get_next_player(), Player::O);
    assert!(g.make_move(1, 1).is_err());
    assert_eq!(*g.get_next_player(), Player::O);
    assert!(g.make_move(0, 0).is_err());
    assert_eq!(*g.get_next_player(), Player::O);
    assert!(g.make_move(0, 4).is_ok());
    assert_eq!(*g.get_next_player(), Player::X);
}

/// Plays a scripted sequence of legal moves, checking each succeeds.
fn play_all(g: &mut Game, moves: &[(u8, u8)]) {
    for &(b, c) in moves {
        assert!(g.make_move(b, c).is_ok(), "move ({}, {}) was rejected", b, c);
    }
}

#[test]
fn winning_a_sub_board_closes_it() {
    // X takes the top row of board 0; the third placement decides it.
    let mut g = Game::new();
    play_all(&mut g, &[(0, 0), (0, 3), (3, 5), (5, 0), (0, 1), (1, 0)]);
    assert_eq!(g.make_move(0, 2), Ok(WonByPlayer::HasntFinished));
    assert_eq!(g.sub_board_won_by(0), WonByPlayer::X);
    assert_eq!(g.get_current_finish_status(), WonByPlayer::HasntFinished);
    // O was sent to board 2 and may not play elsewhere.
    assert_eq!(g.make_move(0, 5), Err(BoardError::MoveAtNotSentBoard));
    assert_eq!(g.make_move(2, 0), Ok(WonByPlayer::HasntFinished));
    // The designated board 0 is decided, so X may choose freely...
    assert!(g.current_move_can_be_put_anywhere());
    // ...but not a decided board, even at an empty cell.
    assert_eq!(g.make_move(0, 5), Err(BoardError::MoveAtAlreadyFinishedBoard));
    assert_eq!(g.get_tile(0, 5), Mark::Empty);
    assert_eq!(g.make_move(5, 3), Ok(WonByPlayer::HasntFinished));
}
