//! The minigame picker: the rotation of playable minigames the title
//! offers.

use vstd::prelude::*;

use crate::games::Games;

verus! {

/// The rotation of minigames offered to the player.
pub struct GamePicker {
    pub(crate) games: Vec<Games>,
}

impl GamePicker {
    /// The minigames in rotation, in order.
    pub open(crate) spec fn spec_games(self) -> Seq<Games> {
        self.games@
    }

    /// A picker over the three playable minigames.
    pub fn new() -> (p: GamePicker)
        ensures
            p.spec_games() === seq![Games::Pong, Games::PacCrab, Games::Snake],
    {
        let mut games: Vec<Games> = Vec::new();
        games.push(Games::Pong);
        games.push(Games::PacCrab);
        games.push(Games::Snake);
        proof {
            assert(games@ =~= seq![Games::Pong, Games::PacCrab, Games::Snake]);
        }
        GamePicker { games }
    }
}

} // verus!
