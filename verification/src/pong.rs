//! Fixtures of the pong minigame: sprite tags, court sides and the
//! computer opponent's tracking state.

use vstd::prelude::*;

use crate::entity::EntityId;
use crate::games::GameDifficulty;
use crate::world::Col1;
use crate::world::Col2;
use crate::world::Col3;
use crate::world::Col4;
use crate::world::World;
use crate::games::GameState;
use crate::games::Games;
use crate::types::rect_in_range;
use crate::types::vec_in_range;
use crate::types::Rect;
use crate::types::Vector2D;
use crate::types::UNIT;
use crate::Component;

verus! {

/// Sprite sheet tags of the pong minigame.
#[derive(Clone, Copy, PartialEq, Eq, Structural, Debug)]
pub enum SpriteTag {
    Paddle,
    Ball,
    Numbers,
}

/// One side of the court; balls spawn alternating between them.
#[derive(Clone, Copy, PartialEq, Eq, Structural, Debug)]
pub enum Side {
    LEFT,
    RIGHT,
}

impl Side {
    /// The opposite side of the court.
    pub fn next(&self) -> (r: Side)
        ensures
            r == match *self {
                Side::LEFT => Side::RIGHT,
                Side::RIGHT => Side::LEFT,
            },
    {
        match self {
            Side::LEFT => Side::RIGHT,
            Side::RIGHT => Side::LEFT,
        }
    }
}

/// The computer paddle's state: which ball it tracks, and for how long
/// it has tracked it.
#[derive(Clone, Copy, PartialEq, Eq, Structural, Debug)]
pub struct OpponentResource {
    pub target: Option<EntityId>,
    pub tracked_duration: u32,
}

impl OpponentResource {
    /// Retargets the opponent and restarts its tracking clock.
    pub fn reset(target: Option<EntityId>) -> (r: OpponentResource)
        ensures
            r.target == target,
            r.tracked_duration == 0,
    {
        OpponentResource { target, tracked_duration: 0 }
    }
}


/// Screen height in raw fixed-point form.
pub const GBA_HEIGHT_FIX: i32 = 160 * 256;

/// Half the screen width and height in raw fixed-point form.
pub const CENTER_X_FIX: i32 = 120 * 256;

/// Half the screen height in raw fixed-point form.
pub const CENTER_Y_FIX: i32 = 80 * 256;

/// `v` forced into the interval `[lo, hi]`.
pub open(crate) spec fn spec_clamped(v: int, lo: int, hi: int) -> int {
    if v < lo {
        lo
    } else if v > hi {
        hi
    } else {
        v
    }
}

/// Where an entity sits on the screen, and how it is rotated.
#[derive(Clone, Copy, PartialEq, Eq, Structural, Debug)]
pub struct LocationComponent {
    pub position: Vector2D,
    pub angle: i32,
}

impl Component for LocationComponent {

}

impl LocationComponent {
    /// The location at the middle of the screen, unrotated.
    pub fn centered() -> (r: LocationComponent)
        ensures
            r.position.x == CENTER_X_FIX,
            r.position.y == CENTER_Y_FIX,
            r.angle == 0,
    {
        LocationComponent { position: Vector2D { x: CENTER_X_FIX, y: CENTER_Y_FIX }, angle: 0 }
    }
}

/// A symmetric speed limit in each direction.
#[derive(Clone, Copy, PartialEq, Eq, Structural, Debug)]
pub struct MaxSpeed {
    pub(crate) pos: i32,
    pub(crate) neg: i32,
}

impl MaxSpeed {
    /// The upper speed limit.
    pub open(crate) spec fn spec_pos(self) -> int {
        self.pos as int
    }

    /// The lower speed limit.
    pub open(crate) spec fn spec_neg(self) -> int {
        self.neg as int
    }

    /// A limit of `pos` in either direction.
    pub fn symmetric(pos: i32) -> (r: MaxSpeed)
        requires
            pos > i32::MIN,
        ensures
            r.spec_pos() == pos,
            r.spec_neg() == -pos,
    {
        MaxSpeed { pos, neg: -pos }
    }
}

impl Default for MaxSpeed {
    /// Two fixed-point units in either direction.
    fn default() -> (r: MaxSpeed)
        ensures
            r.spec_pos() == 2 * UNIT,
            r.spec_neg() == -2 * UNIT,
    {
        MaxSpeed { pos: 2 * UNIT, neg: -2 * UNIT }
    }
}

/// How an entity moves: velocity, acceleration and spin.
#[derive(Clone, Copy, PartialEq, Eq, Structural, Debug)]
pub struct VelocityComponent {
    pub velocity: Vector2D,
    pub acceleration: Vector2D,
    pub rotation: i32,
}

impl Component for VelocityComponent {

}

impl VelocityComponent {
    /// Forces both velocity components into the speed limit.
    pub fn clamp_velocity(&mut self, max_speed: &MaxSpeed)
        requires
            max_speed.spec_neg() <= max_speed.spec_pos(),
        ensures
            final(self).velocity.x == spec_clamped(
                old(self).velocity.x as int,
                max_speed.spec_neg(),
                max_speed.spec_pos(),
            ),
            final(self).velocity.y == spec_clamped(
                old(self).velocity.y as int,
                max_speed.spec_neg(),
                max_speed.spec_pos(),
            ),
            final(self).acceleration === old(self).acceleration,
            final(self).rotation == old(self).rotation,
    {
        if self.velocity.x < max_speed.neg {
            self.velocity.x = max_speed.neg;
        } else if self.velocity.x > max_speed.pos {
            self.velocity.x = max_speed.pos;
        }
        if self.velocity.y < max_speed.neg {
            self.velocity.y = max_speed.neg;
        } else if self.velocity.y > max_speed.pos {
            self.velocity.y = max_speed.pos;
        }
    }
}

/// An entity's collision box and bounce behaviour.
#[derive(Clone, Copy, PartialEq, Eq, Structural, Debug)]
pub struct CollisionComponent {
    pub collision: Rect,
    pub bounce: i32,
    pub inv_mass: i32,
}

impl Component for CollisionComponent {

}

/// A snapshot of an entity's physical state handed to the collision
/// resolver.
#[derive(Clone, Copy, PartialEq, Eq, Structural, Debug)]
pub struct PhysicsComponent {
    pub position: Vector2D,
    pub angle: i32,
    pub velocity: Vector2D,
    pub rotation: i32,
    pub inv_mass: i32,
    pub bounce: i32,
}

impl Component for PhysicsComponent {

}

/// Which sprite an entity shows, at which offset and animation frame.
#[derive(Clone, Copy, PartialEq, Eq, Structural, Debug)]
pub struct SpriteComponent {
    pub tag: SpriteTag,
    pub offset: Vector2D,
    pub frame: u8,
}

impl Component for SpriteComponent {

}

/// The match's running score and settings.
#[derive(Clone, Copy, PartialEq, Eq, Structural, Debug)]
pub struct GameStateResource {
    pub player_score: u8,
    pub opponent_score: u8,
    pub max_score: u8,
    pub max_speed: MaxSpeed,
    pub spawn: Side,
}

impl GameStateResource {
    /// A fresh match at the given difficulty: no points yet, first ball
    /// from the left, and a speed limit that grows with the difficulty.
    pub fn new(difficulty: &GameDifficulty) -> (r: GameStateResource)
        ensures
            r.player_score == 0,
            r.opponent_score == 0,
            r.max_score == 10,
            r.spawn == Side::LEFT,
            r.max_speed.spec_pos() == match *difficulty {
                GameDifficulty::EASY => UNIT as int,
                GameDifficulty::MEDIUM => UNIT + UNIT / 2,
                GameDifficulty::HARD => 2 * UNIT,
            },
            r.max_speed.spec_neg() == -r.max_speed.spec_pos(),
    {
        let max_speed = match difficulty {
            GameDifficulty::EASY => MaxSpeed::symmetric(UNIT),
            GameDifficulty::MEDIUM => MaxSpeed::symmetric(UNIT + UNIT / 2),
            GameDifficulty::HARD => MaxSpeed::symmetric(2 * UNIT),
        };
        GameStateResource {
            player_score: 0,
            opponent_score: 0,
            max_score: 10,
            max_speed,
            spawn: Side::LEFT,
        }
    }

    /// The match verdict the scores imply: the first side to reach the
    /// score cap ends the match.
    pub fn game_state(&self) -> (r: GameState)
        ensures
            r == if self.player_score >= self.max_score {
                GameState::Win(Games::Pong)
            } else if self.opponent_score >= self.max_score {
                GameState::GameOver
            } else {
                GameState::Running(Games::Pong)
            },
    {
        if self.player_score >= self.max_score {
            GameState::Win(Games::Pong)
        } else if self.opponent_score >= self.max_score {
            GameState::GameOver
        } else {
            GameState::Running(Games::Pong)
        }
    }
}

impl Default for GameStateResource {
    /// A fresh match with the default speed limit.
    fn default() -> (r: GameStateResource)
        ensures
            r.player_score == 0,
            r.opponent_score == 0,
            r.max_score == 10,
            r.spawn == Side::LEFT,
            r.max_speed.spec_pos() == 2 * UNIT,
            r.max_speed.spec_neg() == -2 * UNIT,
    {
        GameStateResource {
            player_score: 0,
            opponent_score: 0,
            max_score: 10,
            max_speed: Default::default(),
            spawn: Side::LEFT,
        }
    }
}

/// Keeps a paddle on the screen: a location past either edge is pulled
/// back to it and the vertical motion stops.
pub fn clamp_paddle(
    location: &mut LocationComponent,
    velocity: &mut VelocityComponent,
    collision: &CollisionComponent,
)
    requires
        vec_in_range(old(location).position),
        rect_in_range(collision.collision),
        collision.collision.size.y >= 0,
    ensures
        final(location).position.x == old(location).position.x,
        final(location).angle == old(location).angle,
        final(velocity).velocity.x == old(velocity).velocity.x,
        final(velocity).acceleration === old(velocity).acceleration,
        final(velocity).rotation == old(velocity).rotation,
        old(location).position.y < 0 ==> final(location).position.y == 0 && final(velocity).velocity.y == 0,
        old(location).position.y >= 0 && old(location).position.y + collision.collision.size.y
            > GBA_HEIGHT_FIX ==> final(location).position.y == GBA_HEIGHT_FIX
            - collision.collision.size.y && final(velocity).velocity.y == 0,
        old(location).position.y >= 0 && old(location).position.y + collision.collision.size.y
            <= GBA_HEIGHT_FIX ==> final(location).position.y == old(location).position.y && final(velocity).velocity.y == old(velocity).velocity.y,
{
    if location.position.y < 0 {
        location.position.y = 0;
        velocity.velocity.y = 0;
    } else if location.position.y + collision.collision.size.y > GBA_HEIGHT_FIX {
        location.position.y = GBA_HEIGHT_FIX - collision.collision.size.y;
        velocity.velocity.y = 0;
    }
}


/// The world a pong match runs in: locations, velocities, collision
/// boxes and sprites.
pub type PongWorld = World<LocationComponent, VelocityComponent, CollisionComponent, SpriteComponent>;

/// A ball's initial component set, ready to be committed.
#[derive(Clone, Copy, PartialEq, Eq, Structural, Debug)]
pub struct Ball {
    pub sprite: SpriteComponent,
    pub location: LocationComponent,
    pub velocity: VelocityComponent,
    pub collision: CollisionComponent,
}

impl Ball {
    /// Commits the ball as a fresh entity carrying all four components.
    pub fn create(self, world: PongWorld) -> (r: (PongWorld, EntityId))
        requires
            world.wf(),
            world.can_create(),
            world.registered1(),
            world.registered2(),
            world.registered3(),
            world.registered4(),
        ensures
            r.0.wf(),
            !world.issued_ids().contains(r.1),
            r.0.spec_is_alive(r.1),
            r.0.cmap1() === world.cmap1().insert(r.1, self.location),
            r.0.cmap2() === world.cmap2().insert(r.1, self.velocity),
            r.0.cmap3() === world.cmap3().insert(r.1, self.collision),
            r.0.cmap4() === world.cmap4().insert(r.1, self.sprite),
            forall|id2: EntityId|
                id2 != r.1 ==> r.0.spec_is_alive(id2) == #[trigger] world.spec_is_alive(id2),
            r.0.registered1() && r.0.registered2() && r.0.registered3() && r.0.registered4(),
            r.0.n_slots() <= world.n_slots() + 1,
            r.0.issued_ids() === world.issued_ids().insert(r.1),
    {
        let reserved = world.create();
        let a = reserved.with(Col4, self.sprite);
        let b = a.with(Col1, self.location);
        proof {
            World::lemma_same_parts_same_cmaps(a.spec_world(), b.spec_world());
        }
        let c = b.with(Col2, self.velocity);
        proof {
            World::lemma_same_parts_same_cmaps(b.spec_world(), c.spec_world());
        }
        let d = c.with(Col3, self.collision);
        proof {
            World::lemma_same_parts_same_cmaps(c.spec_world(), d.spec_world());
        }
        d.build()
    }
}

/// A paddle's initial component set, ready to be committed.
#[derive(Clone, Copy, PartialEq, Eq, Structural, Debug)]
pub struct Paddle {
    pub sprite: SpriteComponent,
    pub location: LocationComponent,
    pub velocity: VelocityComponent,
    pub collision: CollisionComponent,
}

impl Paddle {
    /// Commits the paddle as a fresh entity carrying all four
    /// components.
    pub fn create(self, world: PongWorld) -> (r: (PongWorld, EntityId))
        requires
            world.wf(),
            world.can_create(),
            world.registered1(),
            world.registered2(),
            world.registered3(),
            world.registered4(),
        ensures
            r.0.wf(),
            !world.issued_ids().contains(r.1),
            r.0.spec_is_alive(r.1),
            r.0.cmap1() === world.cmap1().insert(r.1, self.location),
            r.0.cmap2() === world.cmap2().insert(r.1, self.velocity),
            r.0.cmap3() === world.cmap3().insert(r.1, self.collision),
            r.0.cmap4() === world.cmap4().insert(r.1, self.sprite),
            forall|id2: EntityId|
                id2 != r.1 ==> r.0.spec_is_alive(id2) == #[trigger] world.spec_is_alive(id2),
            r.0.registered1() && r.0.registered2() && r.0.registered3() && r.0.registered4(),
            r.0.n_slots() <= world.n_slots() + 1,
            r.0.issued_ids() === world.issued_ids().insert(r.1),
    {
        let reserved = world.create();
        let a = reserved.with(Col4, self.sprite);
        let b = a.with(Col1, self.location);
        proof {
            World::lemma_same_parts_same_cmaps(a.spec_world(), b.spec_world());
        }
        let c = b.with(Col2, self.velocity);
        proof {
            World::lemma_same_parts_same_cmaps(b.spec_world(), c.spec_world());
        }
        let d = c.with(Col3, self.collision);
        proof {
            World::lemma_same_parts_same_cmaps(c.spec_world(), d.spec_world());
        }
        d.build()
    }
}

} // verus!
