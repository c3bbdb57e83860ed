//! Components of the snake minigame: heading, board tile and sprite.
//!
//! The board is a grid of 16x16-pixel tiles on a 240x160 screen; a tile
//! off the grid counts as a wall hit.

use vstd::prelude::*;

use crate::entity::EntityId;
use crate::games::GameState;
use crate::games::Games;
use crate::world::Col1;
use crate::world::Col2;
use crate::world::Col3;
use crate::world::World;
use crate::Component;

verus! {

/// Width of one board tile in pixels.
pub const TILE_WIDTH: i32 = 16;

/// Height of one board tile in pixels.
pub const TILE_HEIGHT: i32 = 16;

/// Number of tile columns on the 240-pixel-wide screen.
pub const N_TILES_WIDE: i16 = 15;

/// Number of tile rows on the 160-pixel-tall screen.
pub const N_TILES_TALL: i16 = 10;

/// Sprite sheet tags of the snake minigame.
#[derive(Clone, Copy, PartialEq, Eq, Structural, Debug)]
pub enum SpriteTag {
    Snake,
    Berry,
    Numbers,
}

/// The snake's current heading.
#[derive(Clone, Copy, PartialEq, Eq, Structural, Debug)]
pub enum DirectionComponent {
    UP,
    DOWN,
    LEFT,
    RIGHT,
}

impl Component for DirectionComponent {

}

impl DirectionComponent {
    /// Horizontal step of this heading, as a mathematical integer.
    pub open(crate) spec fn spec_dx(self) -> int {
        match self {
            DirectionComponent::LEFT => -1,
            DirectionComponent::RIGHT => 1,
            _ => 0,
        }
    }

    /// Vertical step of this heading, as a mathematical integer.
    pub open(crate) spec fn spec_dy(self) -> int {
        match self {
            DirectionComponent::UP => -1,
            DirectionComponent::DOWN => 1,
            _ => 0,
        }
    }

    /// Horizontal step of this heading: left is negative, right
    /// positive, vertical headings do not move horizontally.
    pub fn dx(&self) -> (r: i16)
        ensures
            r == match *self {
                DirectionComponent::LEFT => -1i16,
                DirectionComponent::RIGHT => 1i16,
                _ => 0i16,
            },
    {
        match self {
            DirectionComponent::LEFT => -1,
            DirectionComponent::RIGHT => 1,
            _ => 0,
        }
    }

    /// Vertical step of this heading: up is negative, down positive,
    /// horizontal headings do not move vertically.
    pub fn dy(&self) -> (r: i16)
        ensures
            r == match *self {
                DirectionComponent::UP => -1i16,
                DirectionComponent::DOWN => 1i16,
                _ => 0i16,
            },
    {
        match self {
            DirectionComponent::UP => -1,
            DirectionComponent::DOWN => 1,
            _ => 0,
        }
    }

    /// The heading picked by a (pre-drawn) random number, folded onto
    /// the four possibilities.
    pub fn from_index(choice: u32) -> (r: DirectionComponent)
        ensures
            r == match choice % 4 {
                0u32 => DirectionComponent::UP,
                1u32 => DirectionComponent::DOWN,
                2u32 => DirectionComponent::LEFT,
                _ => DirectionComponent::RIGHT,
            },
    {
        match choice % 4 {
            0 => DirectionComponent::UP,
            1 => DirectionComponent::DOWN,
            2 => DirectionComponent::LEFT,
            _ => DirectionComponent::RIGHT,
        }
    }
}

/// A position on the tile grid.
#[derive(Clone, Copy, PartialEq, Eq, Structural, Debug)]
pub struct TileComponent {
    pub x: i16,
    pub y: i16,
}

impl Component for TileComponent {

}

impl TileComponent {
    /// Whether two grid positions coincide.
    pub fn equals(&self, other: &TileComponent) -> (r: bool)
        ensures
            r == (self.x == other.x && self.y == other.y),
    {
        self.x == other.x && self.y == other.y
    }

    /// The horizontal pixel position of a tile on the grid.
    pub fn position_x(&self) -> (r: u16)
        requires
            0 <= self.x < N_TILES_WIDE,
        ensures
            r == self.x * TILE_WIDTH,
    {
        (self.x as i32 * TILE_WIDTH) as u16
    }

    /// The vertical pixel position of a tile on the grid.
    pub fn position_y(&self) -> (r: u16)
        requires
            0 <= self.y < N_TILES_TALL,
        ensures
            r == self.y * TILE_HEIGHT,
    {
        (self.y as i32 * TILE_HEIGHT) as u16
    }

    /// Whether this position lies off the board.
    pub fn hit_wall(&self) -> (r: bool)
        ensures
            r == (self.x < 0 || self.x >= N_TILES_WIDE || self.y < 0 || self.y >= N_TILES_TALL),
    {
        self.x < 0 || self.x >= N_TILES_WIDE || self.y < 0 || self.y >= N_TILES_TALL
    }
}

/// Which sprite an entity shows, and at which animation frame.
#[derive(Clone, Copy, PartialEq, Eq, Structural, Debug)]
pub struct SpriteComponent {
    pub tag: SpriteTag,
    pub frame: u8,
}

impl Component for SpriteComponent {

}


/// The world a snake game runs in: tiles, headings and sprites.
pub type SnakeWorld = World<TileComponent, DirectionComponent, SpriteComponent, u8>;

/// A berry waiting on the board.
#[derive(Clone, Copy, PartialEq, Eq, Structural, Debug)]
pub struct Berry {
    pub tile: TileComponent,
    pub sprite: SpriteComponent,
}

impl Berry {
    /// A berry on the given tile, carrying the berry sprite.
    pub fn new(tile: TileComponent) -> (r: Berry)
        ensures
            r.tile == tile,
            r.sprite == (SpriteComponent { tag: SpriteTag::Berry, frame: 0 }),
    {
        Berry { tile, sprite: SpriteComponent { tag: SpriteTag::Berry, frame: 0 } }
    }

    /// Commits the berry as a fresh entity of the world.
    pub fn create(self, world: SnakeWorld) -> (r: (SnakeWorld, EntityId))
        requires
            world.wf(),
            world.can_create(),
            world.registered1(),
            world.registered3(),
        ensures
            r.0.wf(),
            !world.issued_ids().contains(r.1),
            r.0.spec_is_alive(r.1),
            r.0.cmap1() === world.cmap1().insert(r.1, self.tile),
            r.0.cmap2() === world.cmap2(),
            r.0.cmap3() === world.cmap3().insert(r.1, self.sprite),
            forall|id2: EntityId|
                id2 != r.1 ==> r.0.spec_is_alive(id2) == #[trigger] world.spec_is_alive(id2),
            r.0.registered1() && r.0.registered2() == world.registered2() && r.0.registered3(),
            r.0.n_slots() <= world.n_slots() + 1,
            r.0.issued_ids() === world.issued_ids().insert(r.1),
    {
        let builder = world.create().with(Col1, self.tile).with(Col3, self.sprite);
        builder.build()
    }
}

/// One segment of the snake's body.
#[derive(Clone, Copy, PartialEq, Eq, Structural, Debug)]
pub struct Body {
    pub tile: TileComponent,
    pub sprite: SpriteComponent,
}

impl Body {
    /// A body segment on the given tile, carrying the snake sprite.
    pub fn new(tile: TileComponent) -> (r: Body)
        ensures
            r.tile == tile,
            r.sprite == (SpriteComponent { tag: SpriteTag::Snake, frame: 0 }),
    {
        Body { tile, sprite: SpriteComponent { tag: SpriteTag::Snake, frame: 0 } }
    }

    /// Commits the segment as a fresh entity of the world.
    pub fn create(self, world: SnakeWorld) -> (r: (SnakeWorld, EntityId))
        requires
            world.wf(),
            world.can_create(),
            world.registered1(),
            world.registered3(),
        ensures
            r.0.wf(),
            !world.issued_ids().contains(r.1),
            r.0.spec_is_alive(r.1),
            r.0.cmap1() === world.cmap1().insert(r.1, self.tile),
            r.0.cmap2() === world.cmap2(),
            r.0.cmap3() === world.cmap3().insert(r.1, self.sprite),
            forall|id2: EntityId|
                id2 != r.1 ==> r.0.spec_is_alive(id2) == #[trigger] world.spec_is_alive(id2),
            r.0.registered1() && r.0.registered2() == world.registered2() && r.0.registered3(),
            r.0.n_slots() <= world.n_slots() + 1,
            r.0.issued_ids() === world.issued_ids().insert(r.1),
    {
        let builder = world.create().with(Col1, self.tile).with(Col3, self.sprite);
        builder.build()
    }
}


/// The snake game's simulation state: its world, the player-chosen
/// heading, the snake's segments from head to tail, and the berries on
/// the board.
pub struct SnakeGame {
    pub(crate) world: SnakeWorld,
    pub(crate) head_direction: DirectionComponent,
    pub(crate) body: Vec<EntityId>,
    pub(crate) berries: Vec<EntityId>,
}

impl SnakeGame {
    /// The carried world.
    pub open(crate) spec fn spec_world(self) -> SnakeWorld {
        self.world
    }

    /// The heading the player last chose.
    pub open(crate) spec fn spec_head_direction(self) -> DirectionComponent {
        self.head_direction
    }

    /// The snake's segments, head first.
    pub open(crate) spec fn spec_body(self) -> Seq<EntityId> {
        self.body@
    }

    /// The berries on the board.
    pub open(crate) spec fn spec_berries(self) -> Seq<EntityId> {
        self.berries@
    }

    /// The game state is consistent: every segment and berry is a live
    /// entity on a tile, the head also carries a heading, and no entity
    /// plays two roles.
    pub open(crate) spec fn wf(self) -> bool {
        &&& self.world.wf()
        &&& self.world.registered1() && self.world.registered2() && self.world.registered3()
        &&& self.body@.len() >= 1
        &&& forall|i: int|
            0 <= i < self.body@.len() ==> self.world.cmap1().contains_key(
                #[trigger] self.body@[i],
            )
        &&& self.world.cmap2().contains_key(self.body@[0])
        &&& forall|i: int, j: int|
            0 <= i < j < self.body@.len() ==> #[trigger] self.body@[i] != #[trigger] self.body@[j]
        &&& forall|i: int|
            0 <= i < self.berries@.len() ==> self.world.cmap1().contains_key(
                #[trigger] self.berries@[i],
            )
        &&& forall|i: int, j: int|
            0 <= i < j < self.berries@.len() ==> #[trigger] self.berries@[i] != #[trigger] self.berries@[j]
        &&& forall|i: int, j: int|
            0 <= i < self.body@.len() && 0 <= j < self.berries@.len() ==> #[trigger] self.body@[i]
                != #[trigger] self.berries@[j]
    }

    /// A fresh game: a one-segment snake on `head_tile` heading in
    /// `head_direction`, and one berry on `berry_tile`.
    pub fn new(
        head_tile: TileComponent,
        head_direction: DirectionComponent,
        berry_tile: TileComponent,
    ) -> (g: SnakeGame)
        ensures
            g.wf(),
            g.spec_head_direction() == head_direction,
            g.spec_body().len() == 1,
            g.spec_berries().len() == 1,
            g.spec_world().cmap1()[g.spec_body()[0]] == head_tile,
            g.spec_world().cmap2()[g.spec_body()[0]] == head_direction,
            g.spec_world().cmap1()[g.spec_berries()[0]] == berry_tile,
    {
        let mut world: SnakeWorld = World::new();
        world.register_component(Col1);
        world.register_component(Col2);
        world.register_component(Col3);
        let reserved = world.create();
        let with_tile = reserved.with(Col1, head_tile);
        let with_heading = with_tile.with(Col2, head_direction);
        proof {
            World::lemma_same_parts_same_cmaps(
                with_tile.spec_world(),
                with_heading.spec_world(),
            );
        }
        let with_sprite = with_heading.with(
            Col3,
            SpriteComponent { tag: SpriteTag::Snake, frame: 0 },
        );
        proof {
            World::lemma_same_parts_same_cmaps(
                with_heading.spec_world(),
                with_sprite.spec_world(),
            );
        }
        let (world, head) = with_sprite.build();
        let (world, berry) = Berry::new(berry_tile).create(world);
        proof {
            assert(berry != head);
        }
        let mut body: Vec<EntityId> = Vec::new();
        body.push(head);
        let mut berries: Vec<EntityId> = Vec::new();
        berries.push(berry);
        let g = SnakeGame { world, head_direction, body, berries };
        proof {
            assert(g.spec_body() =~= seq![head]);
            assert(g.spec_berries() =~= seq![berry]);
            assert(g.spec_world().cmap1().contains_key(head));
            assert(g.spec_world().cmap2().contains_key(head));
            assert(g.spec_world().cmap1().contains_key(berry));
        }
        g
    }

    /// One frame of steering: a horizontal or vertical press turns the
    /// snake unless it would reverse into itself.  The press directions
    /// come in as sign values (positive is right / down).
    pub fn system_controller(&mut self, x_tri: i32, y_tri: i32)
        requires
            old(self).wf(),
        ensures
            final(self).wf(),
            final(self).spec_world() === old(self).spec_world(),
            final(self).spec_body() === old(self).spec_body(),
            final(self).spec_berries() === old(self).spec_berries(),
            final(self).spec_head_direction() == ({
                let current = old(self).spec_world().cmap2()[old(self).spec_body()[0]];
                let after_x = if x_tri > 0 && current != DirectionComponent::LEFT {
                    DirectionComponent::RIGHT
                } else if x_tri < 0 && current != DirectionComponent::RIGHT {
                    DirectionComponent::LEFT
                } else {
                    old(self).spec_head_direction()
                };
                if y_tri > 0 && current != DirectionComponent::UP {
                    DirectionComponent::DOWN
                } else if y_tri < 0 && current != DirectionComponent::DOWN {
                    DirectionComponent::UP
                } else {
                    after_x
                }
            }),
    {
        let head = self.body[0];
        let direction = *self.world.get(Col2, head);
        if x_tri > 0 {
            if direction != DirectionComponent::LEFT {
                self.head_direction = DirectionComponent::RIGHT;
            }
        } else if x_tri < 0 {
            if direction != DirectionComponent::RIGHT {
                self.head_direction = DirectionComponent::LEFT;
            }
        }
        if y_tri > 0 {
            if direction != DirectionComponent::UP {
                self.head_direction = DirectionComponent::DOWN;
            }
        } else if y_tri < 0 {
            if direction != DirectionComponent::DOWN {
                self.head_direction = DirectionComponent::UP;
            }
        }
    }

    /// One frame of head motion: commits the chosen heading to the head
    /// entity and returns the tile the head will move onto, `time` grid
    /// steps along the heading.
    pub fn system_head(&mut self, time: i32) -> (r: TileComponent)
        requires
            old(self).wf(),
            0 <= time <= 1000,
            ({
                let tile = old(self).spec_world().cmap1()[old(self).spec_body()[0]];
                i16::MIN <= tile.x + old(self).spec_head_direction().spec_dx() * time <= i16::MAX
                    && i16::MIN <= tile.y + old(self).spec_head_direction().spec_dy() * time
                    <= i16::MAX
            }),
        ensures
            final(self).wf(),
            final(self).spec_body() === old(self).spec_body(),
            final(self).spec_berries() === old(self).spec_berries(),
            final(self).spec_head_direction() == old(self).spec_head_direction(),
            r.x == old(self).spec_world().cmap1()[old(self).spec_body()[0]].x + old(
                self,
            ).spec_head_direction().spec_dx() * time,
            r.y == old(self).spec_world().cmap1()[old(self).spec_body()[0]].y + old(
                self,
            ).spec_head_direction().spec_dy() * time,
            final(self).spec_world().cmap2() === old(self).spec_world().cmap2().insert(
                old(self).spec_body()[0],
                old(self).spec_head_direction(),
            ),
            final(self).spec_world().cmap1() === old(self).spec_world().cmap1(),
            final(self).spec_world().cmap3() === old(self).spec_world().cmap3(),
            forall|id: EntityId|
                final(self).spec_world().spec_is_alive(id) == #[trigger] old(
                    self,
                ).spec_world().spec_is_alive(id),
    {
        let head = self.body[0];
        let tile = *self.world.get(Col1, head);
        let dx = self.head_direction.dx();
        let dy = self.head_direction.dy();
        let new_tile = TileComponent {
            x: tile.x + dx * (time as i16),
            y: tile.y + dy * (time as i16),
        };
        let direction = self.world.get_mut(Col2, head);
        *direction = self.head_direction;
        new_tile
    }

    /// Spawns a berry on the given tile when none is left on the board.
    pub fn system_spawn_berry(self, tile: TileComponent) -> (g: SnakeGame)
        requires
            self.wf(),
            self.spec_world().n_slots() < usize::MAX - 1,
        ensures
            g.wf(),
            g.spec_body() === self.spec_body(),
            g.spec_head_direction() == self.spec_head_direction(),
            self.spec_berries().len() > 0 ==> g === self,
            self.spec_berries().len() == 0 ==> g.spec_berries().len() == 1
                && g.spec_world().cmap1()[g.spec_berries()[0]] == tile,
    {
        if self.berries.len() == 0 {
            let SnakeGame { world, head_direction, body, mut berries } = self;
            let (world, berry) = Berry::new(tile).create(world);
            berries.push(berry);
            SnakeGame { world, head_direction, body, berries }
        } else {
            self
        }
    }

    /// Whether the head's next tile ends the game: off the board or
    /// into the snake's own body.
    pub fn system_collide(&self, head: &TileComponent) -> (r: GameState)
        requires
            self.wf(),
        ensures
            r == if (head.x < 0 || head.x >= N_TILES_WIDE || head.y < 0 || head.y >= N_TILES_TALL)
                || exists|i: int|
                1 <= i < self.spec_body().len() && (#[trigger] self.spec_world().cmap1()[
                    self.spec_body()[i]
                ]).x == head.x && self.spec_world().cmap1()[self.spec_body()[i]].y == head.y {
                GameState::GameOver
            } else {
                GameState::Running(Games::Snake)
            },
    {
        if head.hit_wall() {
            return GameState::GameOver;
        }
        let mut i: usize = 1;
        let n = self.body.len();
        while i < n
            invariant
                self.wf(),
                n == self.spec_body().len(),
                1 <= i <= n,
                forall|k: int|
                    1 <= k < i ==> !((#[trigger] self.spec_world().cmap1()[self.spec_body()[k]]).x
                        == head.x && self.spec_world().cmap1()[self.spec_body()[k]].y == head.y),
            decreases n - i,
        {
            let segment_tile = *self.world.get(Col1, self.body[i]);
            if head.equals(&segment_tile) {
                proof {
                    assert(self.spec_world().cmap1()[self.spec_body()[i as int]].x == head.x
                        && self.spec_world().cmap1()[self.spec_body()[i as int]].y == head.y);
                }
                return GameState::GameOver;
            }
            i = i + 1;
        }
        GameState::Running(Games::Snake)
    }
}


/// Whether `id` is one of the listed berries and its row in `w` sits on
/// the same tile as `head`.
pub open(crate) spec fn berry_eaten(
    w: SnakeWorld,
    berries: Seq<EntityId>,
    head: TileComponent,
    id: EntityId,
) -> bool {
    berries.contains(id) && w.cmap1().contains_key(id) && w.cmap1()[id].x == head.x
        && w.cmap1()[id].y == head.y
}

impl SnakeGame {
    /// Eats every berry under the head's next tile: the eaten berries
    /// are destroyed and their count returned as the meal's size.
    pub fn system_eat_berry(&mut self, head_tile: &TileComponent) -> (eaten: u8)
        requires
            old(self).wf(),
            old(self).spec_berries().len() <= 255,
        ensures
            final(self).wf(),
            final(self).spec_body() === old(self).spec_body(),
            final(self).spec_head_direction() == old(self).spec_head_direction(),
            final(self).spec_berries() === old(self).spec_berries().filter(
                |b: EntityId|
                    !(old(self).spec_world().cmap1()[b].x == head_tile.x && old(
                        self,
                    ).spec_world().cmap1()[b].y == head_tile.y),
            ),
            eaten as int == old(self).spec_berries().len() - final(self).spec_berries().len(),
            forall|id: EntityId|
                final(self).spec_world().spec_is_alive(id) == (old(
                    self,
                ).spec_world().spec_is_alive(id) && !berry_eaten(
                    old(self).spec_world(),
                    old(self).spec_berries(),
                    *head_tile,
                    id,
                )),
            forall|id: EntityId|
                !berry_eaten(old(self).spec_world(), old(self).spec_berries(), *head_tile, id)
                    ==> #[trigger] final(self).spec_world().cmap1().contains_key(id) == old(
                    self,
                ).spec_world().cmap1().contains_key(id) && (old(
                    self,
                ).spec_world().cmap1().contains_key(id) ==> final(self).spec_world().cmap1()[id]
                    == old(self).spec_world().cmap1()[id]),
            forall|id: EntityId|
                !berry_eaten(old(self).spec_world(), old(self).spec_berries(), *head_tile, id)
                    ==> #[trigger] final(self).spec_world().cmap2().contains_key(id) == old(
                    self,
                ).spec_world().cmap2().contains_key(id) && (old(
                    self,
                ).spec_world().cmap2().contains_key(id) ==> final(self).spec_world().cmap2()[id]
                    == old(self).spec_world().cmap2()[id]),
    {
        let ghost w0 = self.world;
        let ghost berries0 = self.berries@;
        let mut old_berries: Vec<EntityId> = Vec::new();
        core::mem::swap(&mut old_berries, &mut self.berries);
        let mut eaten: u8 = 0;
        proof {
            reveal(Seq::filter);
            let pred = |b2: EntityId|
                !(w0.cmap1()[b2].x == head_tile.x && w0.cmap1()[b2].y == head_tile.y);
            assert(berries0.take(0) =~= Seq::<EntityId>::empty());
            assert(self.berries@ =~= berries0.take(0).filter(pred));
        }
        let n = old_berries.len();
        let mut k: usize = 0;
        while k < n
            invariant
                n == berries0.len() <= 255,
                old_berries@ == berries0,
                0 <= k <= n,
                self.world.wf(),
                self.world.registered1() && self.world.registered2()
                    && self.world.registered3(),
                self.body@ === old(self).spec_body(),
                self.head_direction == old(self).spec_head_direction(),
                old(self).wf(),
                w0 == old(self).spec_world(),
                berries0 === old(self).spec_berries(),
                self.berries@ === berries0.take(k as int).filter(
                    |b: EntityId|
                        !(w0.cmap1()[b].x == head_tile.x && w0.cmap1()[b].y == head_tile.y),
                ),
                eaten as int == k - self.berries@.len(),
                forall|i: int|
                    0 <= i < self.berries@.len() ==> berries0.take(k as int).contains(
                        #[trigger] self.berries@[i],
                    ),
                forall|i: int, j: int|
                    0 <= i < j < self.berries@.len() ==> #[trigger] self.berries@[i]
                        != #[trigger] self.berries@[j],
                forall|id: EntityId|
                    self.world.spec_is_alive(id) == (w0.spec_is_alive(id) && !berry_eaten(
                        w0,
                        berries0.take(k as int),
                        *head_tile,
                        id,
                    )),
                forall|id: EntityId|
                    !berry_eaten(w0, berries0.take(k as int), *head_tile, id)
                        ==> #[trigger] self.world.cmap1().contains_key(id) == w0.cmap1().contains_key(
                        id,
                    ) && (w0.cmap1().contains_key(id) ==> self.world.cmap1()[id] == w0.cmap1()[id]),
                forall|id: EntityId|
                    !berry_eaten(w0, berries0.take(k as int), *head_tile, id)
                        ==> #[trigger] self.world.cmap2().contains_key(id) == w0.cmap2().contains_key(
                        id,
                    ) && (w0.cmap2().contains_key(id) ==> self.world.cmap2()[id] == w0.cmap2()[id]),
                forall|id: EntityId|
                    !berry_eaten(w0, berries0.take(k as int), *head_tile, id)
                        ==> #[trigger] self.world.cmap3().contains_key(id) == w0.cmap3().contains_key(
                        id,
                    ) && (w0.cmap3().contains_key(id) ==> self.world.cmap3()[id] == w0.cmap3()[id]),
            decreases n - k,
        {
            let b = old_berries[k];
            proof {
                assert(berries0.contains(b));
                assert(!berries0.take(k as int).contains(b)) by {
                    if berries0.take(k as int).contains(b) {
                        let j = choose|j: int|
                            0 <= j < k && berries0.take(k as int)[j] == b;
                        assert(berries0[j] == b && berries0[k as int] == b);
                    }
                }
                assert(!berry_eaten(w0, berries0.take(k as int), *head_tile, b));
                assert(w0.cmap1().contains_key(b));
                assert(berries0.take(k as int + 1) =~= berries0.take(k as int).push(b));
                vstd::seq_lib::lemma_seq_contains_after_push(
                    berries0.take(k as int),
                    b,
                    b,
                );
            }
            proof {
                assert(self.world.cmap1().contains_key(b));
                assert(self.world.cmap1()[b] == w0.cmap1()[b]);
            }
            let berry_tile = *self.world.get(Col1, b);
            let is_meal = berry_tile.equals(head_tile);
            proof {
                assert(berry_tile == w0.cmap1()[b]);
                assert forall|id: EntityId| true implies berry_eaten(
                    w0,
                    berries0.take(k as int + 1),
                    *head_tile,
                    id,
                ) == (berry_eaten(w0, berries0.take(k as int), *head_tile, id) || (id == b
                    && is_meal)) by {
                    vstd::seq_lib::lemma_seq_contains_after_push(
                        berries0.take(k as int),
                        b,
                        id,
                    );
                }
            }
            if is_meal {
                eaten = eaten + 1;
                self.world.destroy(b);
            } else {
                proof {
                    assert forall|i: int| 0 <= i < self.berries@.len() implies #[trigger] self.berries@[i]
                        != b by {
                        assert(berries0.take(k as int).contains(self.berries@[i]));
                    }
                }
                self.berries.push(b);
            }
            proof {
                let pred = |b2: EntityId|
                    !(w0.cmap1()[b2].x == head_tile.x && w0.cmap1()[b2].y == head_tile.y);
                Seq::filter_distributes_over_add(
                    berries0.take(k as int),
                    seq![b],
                    pred,
                );
                assert(berries0.take(k as int + 1) =~= berries0.take(k as int) + seq![b]);
                reveal(Seq::filter);
                let single = seq![b];
                assert(single.drop_last() =~= Seq::<EntityId>::empty());
                assert(Seq::<EntityId>::empty().filter(pred) =~= Seq::<EntityId>::empty());
                assert(single.last() == b);
                assert(single.filter(pred) =~= if pred(b) {
                    seq![b]
                } else {
                    Seq::empty()
                });
                assert(self.berries@ =~= berries0.take(k as int + 1).filter(pred));
            }
            k = k + 1;
        }
        proof {
            assert(berries0.take(n as int) =~= berries0);
            let pred = |b2: EntityId|
                !(w0.cmap1()[b2].x == head_tile.x && w0.cmap1()[b2].y == head_tile.y);
            berries0.filter_lemma(pred);
            assert forall|i: int| 0 <= i < self.body@.len() implies self.world.cmap1().contains_key(
                #[trigger] self.body@[i],
            ) by {
                assert(!berries0.contains(self.body@[i])) by {
                    if berries0.contains(self.body@[i]) {
                        let j = choose|j: int|
                            0 <= j < berries0.len() && berries0[j] == self.body@[i];
                        assert(self.body@[i] != berries0[j]);
                    }
                }
                assert(!berry_eaten(w0, berries0, *head_tile, self.body@[i]));
                assert(w0.cmap1().contains_key(self.body@[i]));
            }
            assert(!berries0.contains(self.body@[0])) by {
                if berries0.contains(self.body@[0]) {
                    let j = choose|j: int|
                        0 <= j < berries0.len() && berries0[j] == self.body@[0];
                    assert(self.body@[0] != berries0[j]);
                }
            }
            assert(self.world.cmap2().contains_key(self.body@[0]));
            assert forall|i: int| 0 <= i < self.berries@.len() implies self.world.cmap1().contains_key(
                #[trigger] self.berries@[i],
            ) by {
                assert(berries0.contains(self.berries@[i]));
                assert(pred(self.berries@[i]));
                assert(w0.cmap1().contains_key(self.berries@[i]));
                assert(!berry_eaten(w0, berries0, *head_tile, self.berries@[i]));
            }
            assert forall|i: int, j: int|
                0 <= i < self.body@.len() && 0 <= j < self.berries@.len() implies #[trigger] self.body@[i]
                != #[trigger] self.berries@[j] by {
                assert(berries0.contains(self.berries@[j]));
                let m = choose|m: int| 0 <= m < berries0.len() && berries0[m] == self.berries@[j];
                assert(self.body@[i] != berries0[m]);
            }
        }
        eaten
    }
}


impl SnakeGame {
    /// The tile segment `i` of the (conceptually stretched) snake
    /// stands on: segments beyond the tail share the tail's tile.
    pub open(crate) spec fn spec_stretched_tile(self, i: int) -> TileComponent {
        if i < self.spec_body().len() {
            self.spec_world().cmap1()[self.spec_body()[i]]
        } else {
            self.spec_world().cmap1()[self.spec_body().last()]
        }
    }

    /// One frame of body motion: grows the tail by the meal just eaten,
    /// then moves the head onto `next_head` and every other segment onto
    /// the tile of the segment ahead of it.
    pub fn system_body(self, next_head: &TileComponent, berries_eaten: u8) -> (g: SnakeGame)
        requires
            self.wf(),
            self.spec_world().n_slots() + 256 < usize::MAX,
            self.spec_body().len() + 256 < usize::MAX,
        ensures
            g.wf(),
            g.spec_head_direction() == self.spec_head_direction(),
            g.spec_berries() === self.spec_berries(),
            g.spec_body().len() == self.spec_body().len() + berries_eaten,
            forall|i: int|
                0 <= i < self.spec_body().len() ==> #[trigger] g.spec_body()[i]
                    == self.spec_body()[i],
            g.spec_world().cmap2() === self.spec_world().cmap2(),
            g.spec_world().cmap1()[g.spec_body()[0]] == *next_head,
            forall|i: int|
                1 <= i < g.spec_body().len() ==> #[trigger] g.spec_world().cmap1()[
                    g.spec_body()[i]
                ] == self.spec_stretched_tile(i - 1),
            forall|id: EntityId|
                !g.spec_body().contains(id) && #[trigger] self.spec_world().cmap1().contains_key(
                    id,
                ) ==> g.spec_world().cmap1().contains_key(id) && g.spec_world().cmap1()[id]
                    == self.spec_world().cmap1()[id],
    {
        let ghost pre = self;
        let SnakeGame { mut world, head_direction, mut body, berries } = self;
        let ghost w0 = world;
        let ghost body0 = body@;
        let old_len = body.len();
        let tail_id = body[old_len - 1];
        let tail_tile = *world.get(Col1, tail_id);

        // Grow the tail: one fresh segment on the tail's tile per berry.
        let mut j: u8 = 0;
        while j < berries_eaten
            invariant
                world.wf(),
                world.registered1() && world.registered2() && world.registered3(),
                pre.wf(),
                w0 == pre.spec_world(),
                body0 === pre.spec_body(),
                old_len == body0.len(),
                tail_tile == w0.cmap1()[body0[old_len - 1]],
                0 <= j <= berries_eaten,
                body@.len() == old_len + j,
                forall|k: int| 0 <= k < old_len ==> #[trigger] body@[k] == body0[k],
                forall|k: int|
                    old_len <= k < body@.len() ==> world.cmap1().contains_key(#[trigger] body@[k])
                        && world.cmap1()[body@[k]] == tail_tile && !w0.issued_ids().contains(
                        body@[k],
                    ),
                forall|k1: int, k2: int|
                    old_len <= k1 < k2 < body@.len() ==> #[trigger] body@[k1]
                        != #[trigger] body@[k2],
                forall|id: EntityId|
                    #[trigger] w0.cmap1().contains_key(id) ==> world.cmap1().contains_key(id)
                        && world.cmap1()[id] == w0.cmap1()[id],
                forall|id: EntityId|
                    #[trigger] world.cmap1().contains_key(id) ==> w0.cmap1().contains_key(id)
                        || body@.skip(old_len as int).contains(id),
                world.cmap2() === w0.cmap2(),
                forall|id: EntityId|
                    #[trigger] w0.spec_is_alive(id) ==> world.spec_is_alive(id),
                w0.issued_ids().subset_of(world.issued_ids()),
                world.n_slots() <= w0.n_slots() + j,
                w0.n_slots() + 256 < usize::MAX,
            decreases berries_eaten - j,
        {
            let ghost wprev = world;
            proof {
                assert(world.can_create());
            }
            let r = Body::new(tail_tile).create(world);
            world = r.0;
            let ghost body_prev = body@;
            proof {
                assert(!wprev.issued_ids().contains(r.1));
                assert(!w0.issued_ids().contains(r.1));
                assert forall|k: int|
                    old_len <= k < body@.len() implies #[trigger] body@[k] != r.1 by {
                    assert(wprev.issued_ids().contains(body@[k])) by {
                        assert(wprev.spec_is_alive(body@[k]));
                        wprev.lemma_alive_was_issued(body@[k]);
                    }
                }
            }
            body.push(r.1);
            proof {
                assert forall|id: EntityId|
                    #[trigger] world.cmap1().contains_key(id) implies w0.cmap1().contains_key(id)
                    || body@.skip(old_len as int).contains(id) by {
                    if id == r.1 {
                        assert(body@.skip(old_len as int)[body@.skip(old_len as int).len() - 1]
                            == r.1);
                    } else {
                        if !w0.cmap1().contains_key(id) {
                            assert(wprev.cmap1().contains_key(id));
                            let old_skip = body_prev.skip(old_len as int);
                            assert(old_skip.contains(id));
                            let m = choose|m: int|
                                0 <= m < old_skip.len() && old_skip[m] == id;
                            assert(body_prev[old_len + m] == id);
                            assert(body@.skip(old_len as int)[m] == id);
                        }
                    }
                }
            }
            j = j + 1;
        }

        // Shift: from the tail towards the head, each segment takes the
        // tile of the segment ahead; the head takes the next tile.
        let ghost wa = world;
        let ghost bodyf = body@;
        let ghost tiles_pre = Seq::new(bodyf.len(), |k: int| wa.cmap1()[bodyf[k]]);
        let n = body.len();
        let mut i = n;
        while i > 0
            invariant
                world.wf(),
                world.registered1() && world.registered2() && world.registered3(),
                wa.wf(),
                n == bodyf.len(),
                body@ === bodyf,
                0 <= i <= n,
                n >= 1,
                tiles_pre === Seq::new(bodyf.len(), |k: int| wa.cmap1()[bodyf[k]]),
                forall|k1: int, k2: int|
                    0 <= k1 < k2 < bodyf.len() ==> #[trigger] bodyf[k1] != #[trigger] bodyf[k2],
                forall|k: int|
                    0 <= k < bodyf.len() ==> wa.cmap1().contains_key(#[trigger] bodyf[k]),
                forall|id: EntityId|
                    #[trigger] world.cmap1().contains_key(id) == wa.cmap1().contains_key(id),
                forall|k: int|
                    0 <= k < i ==> #[trigger] world.cmap1()[bodyf[k]] == tiles_pre[k],
                forall|k: int|
                    i <= k < n ==> #[trigger] world.cmap1()[bodyf[k]] == if k == 0 {
                        *next_head
                    } else {
                        tiles_pre[k - 1]
                    },
                forall|id: EntityId|
                    !bodyf.contains(id) && #[trigger] wa.cmap1().contains_key(id)
                        ==> world.cmap1()[id] == wa.cmap1()[id],
                world.cmap2() === wa.cmap2(),
                world.same_entities(wa),
            decreases i,
        {
            i = i - 1;
            let ghost wprev = world;
            if i == 0 {
                let slot = world.get_mut(Col1, body[0]);
                *slot = *next_head;
            } else {
                let ahead = *world.get(Col1, body[i - 1]);
                let slot = world.get_mut(Col1, body[i]);
                *slot = ahead;
            }
            proof {
                World::lemma_same_parts_same_cmaps(wprev, world);
                assert forall|k: int|
                    0 <= k < i implies #[trigger] world.cmap1()[bodyf[k]] == tiles_pre[k] by {
                    assert(bodyf[k] != bodyf[i as int]);
                }
                assert forall|k: int|
                    i <= k < n implies #[trigger] world.cmap1()[bodyf[k]] == if k == 0 {
                    *next_head
                } else {
                    tiles_pre[k - 1]
                } by {
                    if k != i {
                        assert(bodyf[k] != bodyf[i as int]);
                    }
                }
            }
        }

        let g = SnakeGame { world, head_direction, body, berries };
        proof {
            assert forall|k: int|
                0 <= k < g.spec_berries().len() implies g.spec_world().cmap1().contains_key(
                #[trigger] g.spec_berries()[k],
            ) by {
                assert(pre.spec_world().cmap1().contains_key(g.spec_berries()[k]));
            }
            assert forall|k1: int, k2: int|
                0 <= k1 < g.spec_body().len() && 0 <= k2 < g.spec_berries().len() implies #[trigger] g.spec_body()[k1]
                != #[trigger] g.spec_berries()[k2] by {
                if k1 < old_len {
                    assert(pre.spec_body()[k1] != pre.spec_berries()[k2]);
                } else {
                    assert(!w0.issued_ids().contains(g.spec_body()[k1]));
                    assert(w0.spec_is_alive(g.spec_berries()[k2]));
                    w0.lemma_alive_was_issued(g.spec_berries()[k2]);
                }
            }
            assert(g.spec_world().cmap2().contains_key(g.spec_body()[0])) by {
                assert(pre.spec_world().cmap2().contains_key(pre.spec_body()[0]));
            }
            assert forall|id: EntityId|
                !g.spec_body().contains(id) && #[trigger] pre.spec_world().cmap1().contains_key(
                    id,
                ) implies g.spec_world().cmap1().contains_key(id) && g.spec_world().cmap1()[id]
                == pre.spec_world().cmap1()[id] by {
                assert(!bodyf.skip(old_len as int).contains(id)) by {
                    if bodyf.skip(old_len as int).contains(id) {
                        let m = choose|m: int|
                            0 <= m < bodyf.skip(old_len as int).len() && bodyf.skip(
                                old_len as int,
                            )[m] == id;
                        assert(bodyf[old_len + m] == id);
                        assert(bodyf.contains(id)) by {
                            assert(bodyf[old_len + m] == id);
                        }
                    }
                }
                assert(wa.cmap1().contains_key(id) && wa.cmap1()[id] == w0.cmap1()[id]);
            }
            assert forall|i2: int|
                1 <= i2 < g.spec_body().len() implies #[trigger] g.spec_world().cmap1()[
                g.spec_body()[i2]
            ] == pre.spec_stretched_tile(i2 - 1) by {
                assert(g.spec_world().cmap1()[bodyf[i2]] == tiles_pre[i2 - 1]);
                if i2 - 1 < old_len {
                    assert(w0.cmap1().contains_key(body0[i2 - 1]));
                    assert(tiles_pre[i2 - 1] == wa.cmap1()[bodyf[i2 - 1]]);
                } else {
                    assert(tiles_pre[i2 - 1] == tail_tile);
                }
            }
        }
        g
    }
}

} // verus!
