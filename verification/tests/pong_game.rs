use crabioware::games::GameDifficulty;
use crabioware::pong::Ball;
use crabioware::pong::Paddle;
use crabioware::pong::PongWorld;
use crabioware::pong::SpriteComponent;
use crabioware::pong::SpriteTag;
use crabioware::Col1;
use crabioware::Col2;
use crabioware::Col4;
use crabioware::Ident;
use crabioware::World;
use crabioware::games::GameState;
use crabioware::games::Games;
use crabioware::pong::clamp_paddle;
use crabioware::pong::CollisionComponent;
use crabioware::pong::GameStateResource;
use crabioware::pong::LocationComponent;
use crabioware::pong::MaxSpeed;
use crabioware::pong::Side;
use crabioware::pong::VelocityComponent;
use crabioware::pong::GBA_HEIGHT_FIX;
use crabioware::types::Rect;
use crabioware::types::Vector2D;
use crabioware::types::UNIT;

fn vec2(x: i32, y: i32) -> Vector2D {
    Vector2D { x, y }
}

#[test]
fn centered_location_is_the_screen_middle() {
    let center = LocationComponent::centered();
    assert_eq!(center.position, vec2(120 * UNIT, 80 * UNIT));
    assert_eq!(center.angle, 0);
}

#[test]
fn velocity_is_clamped_to_the_speed_limit() {
    let limit = MaxSpeed::symmetric(2 * UNIT);
    let mut velocity = VelocityComponent {
        velocity: vec2(5 * UNIT, -3 * UNIT),
        acceleration: vec2(0, 0),
        rotation: 7,
    };
    velocity.clamp_velocity(&limit);
    assert_eq!(velocity.velocity, vec2(2 * UNIT, -2 * UNIT));
    assert_eq!(velocity.rotation, 7);

    let mut slow = VelocityComponent { velocity: vec2(10, -10), acceleration: vec2(1, 1), rotation: 0 };
    slow.clamp_velocity(&limit);
    assert_eq!(slow.velocity, vec2(10, -10));
}

#[test]
fn scores_decide_the_match() {
    let mut state = GameStateResource::new(&GameDifficulty::MEDIUM);
    assert_eq!(state.game_state(), GameState::Running(Games::Pong));
    state.player_score = 10;
    assert_eq!(state.game_state(), GameState::Win(Games::Pong));
    state.player_score = 3;
    state.opponent_score = 10;
    assert_eq!(state.game_state(), GameState::GameOver);
}

#[test]
fn difficulty_sets_the_speed_limit() {
    let easy = GameStateResource::new(&GameDifficulty::EASY);
    let hard = GameStateResource::new(&GameDifficulty::HARD);
    let defaulted: GameStateResource = Default::default();
    assert_eq!(easy.spawn, Side::LEFT);
    assert_eq!(easy.max_score, 10);
    assert_eq!(hard.player_score, 0);
    assert_eq!(defaulted.opponent_score, 0);
}

#[test]
fn paddles_stay_on_the_screen() {
    let collision = CollisionComponent {
        collision: Rect { position: vec2(0, 0), size: vec2(2 * UNIT, 16 * UNIT) },
        bounce: 0,
        inv_mass: UNIT,
    };
    let mut location = LocationComponent { position: vec2(4 * UNIT, -3 * UNIT), angle: 0 };
    let mut velocity = VelocityComponent {
        velocity: vec2(0, -UNIT),
        acceleration: vec2(0, 0),
        rotation: 0,
    };
    clamp_paddle(&mut location, &mut velocity, &collision);
    assert_eq!(location.position, vec2(4 * UNIT, 0));
    assert_eq!(velocity.velocity, vec2(0, 0));

    let mut low = LocationComponent { position: vec2(0, GBA_HEIGHT_FIX), angle: 0 };
    let mut falling = VelocityComponent {
        velocity: vec2(0, UNIT),
        acceleration: vec2(0, 0),
        rotation: 0,
    };
    clamp_paddle(&mut low, &mut falling, &collision);
    assert_eq!(low.position.y, GBA_HEIGHT_FIX - 16 * UNIT);
    assert_eq!(falling.velocity.y, 0);

    let mut fine = LocationComponent { position: vec2(0, 20 * UNIT), angle: 0 };
    let mut steady = VelocityComponent {
        velocity: vec2(0, UNIT),
        acceleration: vec2(0, 0),
        rotation: 0,
    };
    clamp_paddle(&mut fine, &mut steady, &collision);
    assert_eq!(fine.position.y, 20 * UNIT);
    assert_eq!(steady.velocity.y, UNIT);
}

#[test]
fn balls_and_paddles_enter_the_match_world() {
    let mut world: PongWorld = World::new();
    world.register_component(Col1);
    world.register_component(Col2);
    world.register_component(crabioware::Col3);
    world.register_component(Col4);

    let ball = Ball {
        sprite: SpriteComponent { tag: SpriteTag::Ball, offset: vec2(0, 0), frame: 0 },
        location: LocationComponent::centered(),
        velocity: VelocityComponent {
            velocity: vec2(UNIT, UNIT / 2),
            acceleration: vec2(0, 0),
            rotation: 3,
        },
        collision: CollisionComponent {
            collision: Rect { position: vec2(4 * UNIT, 4 * UNIT), size: vec2(8 * UNIT, 8 * UNIT) },
            bounce: 230,
            inv_mass: UNIT,
        },
    };
    let (world, ball_id) = ball.create(world);

    let paddle = Paddle {
        sprite: SpriteComponent { tag: SpriteTag::Paddle, offset: vec2(0, 0), frame: 0 },
        location: LocationComponent { position: vec2(0, 40 * UNIT), angle: 0 },
        velocity: VelocityComponent { velocity: vec2(0, 0), acceleration: vec2(0, UNIT / 4), rotation: 0 },
        collision: CollisionComponent {
            collision: Rect { position: vec2(0, 0), size: vec2(2 * UNIT, 16 * UNIT) },
            bounce: 0,
            inv_mass: 0,
        },
    };
    let (world, paddle_id) = paddle.create(world);

    assert_ne!(ball_id, paddle_id);
    let moving = world.components((Ident, Col1, Col2));
    assert_eq!(moving.len(), 2);
    assert_eq!(moving[0].0, ball_id);
    assert_eq!(moving[1].0, paddle_id);
    assert_eq!(world.entry(Col4, ball_id).tag, SpriteTag::Ball);
    assert_eq!(world.entry(Col4, paddle_id).tag, SpriteTag::Paddle);
}
