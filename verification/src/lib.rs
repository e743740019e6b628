//! Rules engine for Ultimate Tic-Tac-Toe: a 3x3 grid of 3x3 sub-boards,
//! with win/draw detection at both levels and the forced-board rule that
//! links each move to the sub-board the opponent must play in next.

pub mod big_board;
pub mod game;
pub mod masks;
pub mod small_board;
pub mod types;

pub use game::Game;
pub use small_board::SmallBoard;
pub use types::BoardError;
pub use types::Mark;
pub use types::Player;
pub use types::WonByPlayer;
