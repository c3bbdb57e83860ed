//! The outer game-selection layer: which demo game runs, in which video
//! mode, and the states of the selection loop.

use vstd::prelude::*;

verus! {

/// State of the outer selection loop.
#[derive(Clone, Copy, PartialEq, Eq, Structural, Debug)]
pub enum MetaGameState {
    START(MetaGameType),
    RUNNING(MetaGameType),
    WIN,
    LOSE,
}

/// The selection loops on offer.
#[derive(Clone, Copy, PartialEq, Eq, Structural, Debug)]
pub enum MetaGameType {
    PICKER,
}

/// A demo game's verdict after one frame.
#[derive(Clone, Copy, PartialEq, Eq, Structural, Debug)]
pub enum GameState {
    RUN,
    LOSE,
    WIN,
}

/// The hardware background modes a game can render in.
#[derive(Clone, Copy, PartialEq, Eq, Structural, Debug)]
pub enum TiledMode {
    Mode0,
    Mode1,
}

/// The demo games of the selection loop.
#[derive(Clone, Copy, PartialEq, Eq, Structural, Debug)]
pub enum Games {
    GAME1,
    GAME2,
}

impl Games {
    /// The demo game that follows this one, cyclically.
    pub fn next(&self) -> (r: Games)
        ensures
            r == match *self {
                Games::GAME1 => Games::GAME2,
                Games::GAME2 => Games::GAME1,
            },
    {
        match self {
            Games::GAME1 => Games::GAME2,
            Games::GAME2 => Games::GAME1,
        }
    }

    /// The background mode this demo game renders in.
    pub fn renderer(&self) -> (r: TiledMode)
        ensures
            r == match *self {
                Games::GAME1 => TiledMode::Mode1,
                Games::GAME2 => TiledMode::Mode0,
            },
    {
        match self {
            Games::GAME1 => TiledMode::Mode1,
            Games::GAME2 => TiledMode::Mode0,
        }
    }
}

/// The rotation of demo games the selection loop cycles through.
pub struct GamePicker {
    pub(crate) games: Vec<Games>,
}

impl GamePicker {
    /// The games in rotation, in order.
    pub open(crate) spec fn spec_games(self) -> Seq<Games> {
        self.games@
    }

    /// A picker over both demo games.
    pub fn new() -> (p: GamePicker)
        ensures
            p.spec_games() === seq![Games::GAME1, Games::GAME2],
    {
        let mut games: Vec<Games> = Vec::new();
        games.push(Games::GAME1);
        games.push(Games::GAME2);
        proof {
            assert(games@ =~= seq![Games::GAME1, Games::GAME2]);
        }
        GamePicker { games }
    }
}

} // verus!
