//! Components and level names of the maze minigame.

use vstd::prelude::*;

use crate::Component;

verus! {

/// Sprite sheet tags of the maze minigame.
#[derive(Clone, Copy, PartialEq, Eq, Structural, Debug)]
pub enum SpriteTag {
    Crab,
    GhostPink,
    GhostYellow,
    GhostBlue,
    Berry,
}

/// A compass heading through the maze.
#[derive(Clone, Copy, PartialEq, Eq, Structural, Debug)]
pub enum Direction {
    UP,
    DOWN,
    LEFT,
    RIGHT,
}

/// The heading an entity currently moves along.
#[derive(Clone, Copy, PartialEq, Eq, Structural, Debug)]
pub struct DirectionComponent {
    pub direction: Direction,
}

impl Component for DirectionComponent {

}

/// The playable maze levels.
#[allow(non_camel_case_types)]
#[derive(Clone, Copy, PartialEq, Eq, Structural, Debug)]
pub enum Levels {
    LEVEL_1,
}

} // verus!
