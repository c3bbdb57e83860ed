//! The game registry's shared vocabulary: which minigame runs next and
//! at which difficulty.

use vstd::prelude::*;

verus! {

/// Every screen or minigame the title can switch to.
#[derive(Clone, Copy, PartialEq, Eq, Structural, Debug)]
pub enum Games {
    Pong,
    Snake,
    PacCrab,
    GameOver,
    Start,
    Victory,
}

/// The outer state machine's verdict after one frame of a game.
#[derive(Clone, Copy, PartialEq, Eq, Structural, Debug)]
pub enum GameState {
    /// Back to the start screen / game selection.
    Start(Games),
    /// Common pause screen.
    Pause(Games),
    /// Common death screen.
    GameOver,
    /// Continue running the same game.
    Running(Games),
    /// Win condition reached.
    Win(Games),
}

/// How hard a minigame plays.
#[derive(Clone, Copy, PartialEq, Eq, Structural, Debug)]
pub enum GameDifficulty {
    EASY,
    MEDIUM,
    HARD,
}

} // verus!
