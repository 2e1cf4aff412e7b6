//! The stage of a game.
use vstd::prelude::*;
use vstd::std_specs::convert::FromSpecImpl;

verus! {

/// The stage of a game. A game is `Pending` until it is started, then
/// `InProgress` until a new piece finds no room, and `Over` from then on.
#[derive(Debug, Clone, Copy, PartialEq, Eq, Structural)]
pub enum GameStatus {
    Pending,
    InProgress,
    Over,
}

/// The number that stands for a status: 0 for `Pending`, 1 for
/// `InProgress`, 2 for `Over`.
pub open spec fn status_code(status: GameStatus) -> u8 {
    match status {
        GameStatus::Pending => 0,
        GameStatus::InProgress => 1,
        GameStatus::Over => 2,
    }
}

impl From<GameStatus> for u8 {
    fn from(status: GameStatus) -> (code: u8) {
        match status {
            GameStatus::Pending => 0,
            GameStatus::InProgress => 1,
            GameStatus::Over => 2,
        }
    }
}

impl FromSpecImpl<GameStatus> for u8 {
    open spec fn obeys_from_spec() -> bool {
        true
    }

    open spec fn from_spec(status: GameStatus) -> u8 {
        status_code(status)
    }
}

} // verus!
