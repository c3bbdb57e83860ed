use crabioware::games::GameState;
use crabioware::games::Games;
use crabioware::snake::Berry;
use crabioware::snake::Body;
use crabioware::snake::DirectionComponent;
use crabioware::snake::SnakeGame;
use crabioware::snake::SpriteComponent;
use crabioware::snake::SpriteTag;
use crabioware::snake::TileComponent;

fn tile(x: i16, y: i16) -> TileComponent {
    TileComponent { x, y }
}

#[test]
fn berry_and_body_carry_their_sprites() {
    let berry = Berry::new(tile(4, 4));
    assert_eq!(berry.tile, tile(4, 4));
    assert_eq!(berry.sprite, SpriteComponent { tag: SpriteTag::Berry, frame: 0 });

    let segment = Body::new(tile(1, 1));
    assert_eq!(segment.tile, tile(1, 1));
    assert_eq!(segment.sprite, SpriteComponent { tag: SpriteTag::Snake, frame: 0 });
}

#[test]
fn controller_turns_but_never_reverses() {
    let mut game = SnakeGame::new(tile(5, 5), DirectionComponent::RIGHT, tile(9, 5));
    // Turning left would reverse: ignored.
    game.system_controller(-1, 0);
    let head = game.system_head(1);
    assert_eq!(head, tile(6, 5));
    let mut game = game.system_body(&head, 0);

    // Turning down is fine.
    game.system_controller(0, 1);
    let head = game.system_head(1);
    assert_eq!(head, tile(6, 6));
    let mut game = game.system_body(&head, 0);

    // Now heading down; turning up would reverse: ignored.
    game.system_controller(0, -1);
    let head = game.system_head(1);
    assert_eq!(head, tile(6, 7));
    let _ = game.system_body(&head, 0);
}

#[test]
fn head_steps_along_the_heading() {
    let mut game = SnakeGame::new(tile(3, 3), DirectionComponent::UP, tile(0, 0));
    let next = game.system_head(1);
    assert_eq!(next, tile(3, 2));
    let mut game = game.system_body(&next, 0);
    assert_eq!(game.system_head(2), tile(3, 0));
}

#[test]
fn eating_the_berry_removes_it_from_the_board() {
    let mut game = SnakeGame::new(tile(5, 5), DirectionComponent::RIGHT, tile(6, 5));
    let next = game.system_head(1);
    assert_eq!(next, tile(6, 5));
    let eaten = game.system_eat_berry(&next);
    assert_eq!(eaten, 1);
    // A second pass finds nothing left to eat.
    assert_eq!(game.system_eat_berry(&next), 0);
}

#[test]
fn missing_the_berry_eats_nothing() {
    let mut game = SnakeGame::new(tile(5, 5), DirectionComponent::LEFT, tile(6, 5));
    let next = game.system_head(1);
    assert_eq!(next, tile(4, 5));
    assert_eq!(game.system_eat_berry(&next), 0);
}

#[test]
fn spawn_berry_only_when_none_is_left() {
    let mut game = SnakeGame::new(tile(5, 5), DirectionComponent::RIGHT, tile(6, 5));
    // A berry is present: nothing spawns.
    game = game.system_spawn_berry(tile(1, 1));
    let next = game.system_head(1);
    assert_eq!(game.system_eat_berry(&next), 1);
    // Now the board is empty: the berry spawns.
    game = game.system_spawn_berry(tile(2, 2));
    let towards = tile(2, 2);
    assert_eq!(game.system_eat_berry(&towards), 1);
}

#[test]
fn body_grows_by_the_meal_and_follows_the_head() {
    let mut game = SnakeGame::new(tile(5, 5), DirectionComponent::RIGHT, tile(6, 5));
    let next = game.system_head(1);
    let eaten = game.system_eat_berry(&next);
    assert_eq!(eaten, 1);
    let mut game = game.system_body(&next, eaten);

    // One more step without a meal: the tail follows onto the head's
    // old tile.
    let next = game.system_head(1);
    assert_eq!(next, tile(7, 5));
    let game = game.system_body(&next, 0);

    // The head sits on (7,5); walking back left would now bite the tail
    // segment on (6,5)?  No: the tail moved up to (6,5), the head is at
    // (7,5), so a head landing on (6,5) collides.
    assert_eq!(game.system_collide(&tile(6, 5)), GameState::GameOver);
    assert_eq!(game.system_collide(&tile(8, 5)), GameState::Running(Games::Snake));
}

#[test]
fn collide_detects_walls_and_self() {
    let game = SnakeGame::new(tile(0, 0), DirectionComponent::LEFT, tile(9, 9));
    assert_eq!(game.system_collide(&tile(-1, 0)), GameState::GameOver);
    assert_eq!(game.system_collide(&tile(0, 10)), GameState::GameOver);
    assert_eq!(game.system_collide(&tile(15, 0)), GameState::GameOver);
    assert_eq!(game.system_collide(&tile(1, 0)), GameState::Running(Games::Snake));
}
