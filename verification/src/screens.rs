//! The common screens around the minigames: start menu, pause, game
//! over and victory.
//!
//! Rendering and input polling live with the hardware collaborators;
//! here stand the screens' states and their frame-step decisions, taking
//! the already-polled button edges as plain booleans.

use vstd::prelude::*;

use crate::games::GameState;
use crate::games::Games;

verus! {

/// The non-game screens the title can show.
#[derive(Clone, Copy, PartialEq, Eq, Structural, Debug)]
pub enum Screens {
    GameOver,
    Pause,
    Start,
    Victory,
}

/// Sprite sheet tags of the common screens.
#[derive(Clone, Copy, PartialEq, Eq, Structural, Debug)]
pub enum SpriteTag {
    GameOver,
    Victory,
    Pause,
    Snake,
    Pong,
    PacCrab,
}

/// The death screen: waits for an acknowledge press.
pub struct GameOverScreen {
    pub(crate) time: i32,
}

impl GameOverScreen {
    /// Elapsed time on this screen.
    pub open(crate) spec fn spec_time(self) -> int {
        self.time as int
    }

    /// A fresh game-over screen.
    pub fn new() -> (s: GameOverScreen)
        ensures
            s.spec_time() == 0,
    {
        GameOverScreen { time: 0i32 }
    }

    /// One frame: accumulates time; an acknowledge press returns to the
    /// start screen, otherwise the screen keeps running.
    pub fn advance(&mut self, time: i32, a_pressed: bool) -> (r: GameState)
        requires
            i32::MIN <= old(self).spec_time() + time <= i32::MAX,
        ensures
            final(self).spec_time() == old(self).spec_time() + time,
            r == if a_pressed {
                GameState::Start(Games::Start)
            } else {
                GameState::Running(Games::GameOver)
            },
    {
        self.time = self.time + time;
        if a_pressed {
            return GameState::Start(Games::Start);
        }
        GameState::Running(Games::GameOver)
    }
}

/// The victory screen: waits for an acknowledge press.
pub struct VictoryScreen {
    pub(crate) time: i32,
}

impl VictoryScreen {
    /// Elapsed time on this screen.
    pub open(crate) spec fn spec_time(self) -> int {
        self.time as int
    }

    /// A fresh victory screen.
    pub fn new() -> (s: VictoryScreen)
        ensures
            s.spec_time() == 0,
    {
        VictoryScreen { time: 0i32 }
    }

    /// One frame: an acknowledge press returns to the start screen,
    /// otherwise the screen keeps running.
    pub fn advance(&self, a_pressed: bool) -> (r: GameState)
        ensures
            r == if a_pressed {
                GameState::Start(Games::Start)
            } else {
                GameState::Running(Games::Victory)
            },
    {
        if a_pressed {
            return GameState::Start(Games::Start);
        }
        GameState::Running(Games::Victory)
    }
}

/// The pause overlay for one game.
pub struct PauseScreen {
    pub(crate) game: Games,
    pub(crate) paused: bool,
    pub(crate) sprite: SpriteTag,
}

impl PauseScreen {
    /// The game this overlay pauses.
    pub open(crate) spec fn spec_game(self) -> Games {
        self.game
    }

    /// Whether the game is currently paused.
    pub open(crate) spec fn spec_paused(self) -> bool {
        self.paused
    }

    /// A pause overlay for `game`, initially paused as given.
    pub fn new(game: Games, paused: bool) -> (s: PauseScreen)
        ensures
            s.spec_game() == game,
            s.spec_paused() == paused,
    {
        PauseScreen { game, paused, sprite: SpriteTag::Pause }
    }

    /// A pause overlay starting unpaused.
    pub fn new_unpaused(game: Games) -> (s: PauseScreen)
        ensures
            s.spec_game() == game,
            !s.spec_paused(),
    {
        PauseScreen::new(game, false)
    }

    /// A pause overlay starting paused.
    pub fn new_paused(game: Games) -> (s: PauseScreen)
        ensures
            s.spec_game() == game,
            s.spec_paused(),
    {
        PauseScreen::new(game, true)
    }

    /// One frame of the pause logic: a start press toggles the state;
    /// returns whether the game is paused afterwards.
    pub fn is_paused(&mut self, start_pressed: bool) -> (r: bool)
        ensures
            final(self).spec_paused() == if start_pressed {
                !old(self).spec_paused()
            } else {
                old(self).spec_paused()
            },
            final(self).spec_game() == old(self).spec_game(),
            r == final(self).spec_paused(),
    {
        self.paused = if start_pressed {
            !self.paused
        } else {
            self.paused
        };
        self.paused
    }
}

pub(crate) struct GameEntry {
    pub(crate) game: Games,
    pub(crate) sprite: SpriteTag,
}

/// The start menu: a cursor over the list of playable games.
pub struct StartScreen {
    pub(crate) time: i32,
    pub(crate) games: Vec<GameEntry>,
    pub(crate) selection: u8,
}

impl StartScreen {
    /// The games on offer, in menu order.
    pub open(crate) spec fn spec_games(self) -> Seq<Games> {
        Seq::new(self.games@.len(), |i: int| self.games@[i].game)
    }

    /// The cursor position.
    pub open(crate) spec fn spec_selection(self) -> int {
        self.selection as int
    }

    /// The menu offers the three playable games and the cursor stays on
    /// the list.
    pub open(crate) spec fn wf(self) -> bool {
        self.spec_games() === seq![Games::Pong, Games::Snake, Games::PacCrab]
            && 0 <= self.spec_selection() < 3
    }

    /// A fresh start menu with the cursor on the first entry.
    pub fn new() -> (s: StartScreen)
        ensures
            s.wf(),
            s.spec_selection() == 0,
    {
        let mut games: Vec<GameEntry> = Vec::new();
        games.push(GameEntry { game: Games::Pong, sprite: SpriteTag::Pong });
        games.push(GameEntry { game: Games::Snake, sprite: SpriteTag::Snake });
        games.push(GameEntry { game: Games::PacCrab, sprite: SpriteTag::PacCrab });
        let s = StartScreen { time: 0i32, games, selection: 0u8 };
        proof {
            assert(s.spec_games() =~= seq![Games::Pong, Games::Snake, Games::PacCrab]);
        }
        s
    }

    /// One frame of menu logic: down and up move the cursor within the
    /// list, and an accept press picks the game under the cursor.
    pub fn update(&mut self, down_pressed: bool, up_pressed: bool, a_pressed: bool) -> (r: Option<
        Games,
    >)
        requires
            old(self).wf(),
        ensures
            final(self).wf(),
            final(self).spec_selection() == if down_pressed && old(self).spec_selection() < 2 {
                old(self).spec_selection() + 1
            } else if up_pressed && old(self).spec_selection() > 0 {
                old(self).spec_selection() - 1
            } else {
                old(self).spec_selection()
            },
            r == if a_pressed {
                Some(final(self).spec_games()[final(self).spec_selection()])
            } else {
                Option::<Games>::None
            },
    {
        proof {
            assert(self.spec_games().len() == 3);
            assert(self.games@.len() == 3);
        }
        if down_pressed && self.selection < (self.games.len() - 1) as u8 {
            self.selection = self.selection + 1;
        } else if up_pressed && self.selection > 0 {
            self.selection = self.selection - 1;
        }
        if a_pressed {
            let game = self.games[self.selection as usize].game;
            proof {
                assert(game == self.spec_games()[self.spec_selection()]);
            }
            return Some(game);
        }
        None
    }
}

} // verus!
