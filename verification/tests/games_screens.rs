use crabioware::games::GameState;
use crabioware::games::Games;
use crabioware::metagame;
use crabioware::picker;
use crabioware::pong::OpponentResource;
use crabioware::pong::Side;
use crabioware::registry::Registry;
use crabioware::screens::GameOverScreen;
use crabioware::screens::PauseScreen;
use crabioware::screens::StartScreen;
use crabioware::screens::VictoryScreen;
use crabioware::snake::DirectionComponent;
use crabioware::snake::TileComponent;

#[test]
fn game_over_waits_for_acknowledge() {
    let mut screen = GameOverScreen::new();
    assert_eq!(
        screen.advance(1, false),
        GameState::Running(Games::GameOver)
    );
    assert_eq!(screen.advance(1, true), GameState::Start(Games::Start));
}

#[test]
fn victory_waits_for_acknowledge() {
    let screen = VictoryScreen::new();
    assert_eq!(screen.advance(false), GameState::Running(Games::Victory));
    assert_eq!(screen.advance(true), GameState::Start(Games::Start));
}

#[test]
fn pause_toggles_on_start_presses() {
    let mut screen = PauseScreen::new_unpaused(Games::Pong);
    assert!(!screen.is_paused(false));
    assert!(screen.is_paused(true));
    assert!(screen.is_paused(false));
    assert!(!screen.is_paused(true));

    let mut paused = PauseScreen::new_paused(Games::Snake);
    assert!(paused.is_paused(false));
    assert!(!paused.is_paused(true));
}

#[test]
fn start_menu_moves_the_cursor_and_picks() {
    let mut menu = StartScreen::new();
    assert_eq!(menu.update(false, false, true), Some(Games::Pong));
    assert_eq!(menu.update(true, false, false), None);
    assert_eq!(menu.update(false, false, true), Some(Games::Snake));
    assert_eq!(menu.update(true, false, true), Some(Games::PacCrab));
    // The cursor stops at the last entry.
    assert_eq!(menu.update(true, false, true), Some(Games::PacCrab));
    // And moves back up, stopping at the first entry.
    assert_eq!(menu.update(false, true, true), Some(Games::Snake));
    assert_eq!(menu.update(false, true, true), Some(Games::Pong));
    assert_eq!(menu.update(false, true, true), Some(Games::Pong));
}

#[test]
fn snake_direction_steps() {
    assert_eq!(DirectionComponent::LEFT.dx(), -1);
    assert_eq!(DirectionComponent::RIGHT.dx(), 1);
    assert_eq!(DirectionComponent::UP.dx(), 0);
    assert_eq!(DirectionComponent::DOWN.dx(), 0);
    assert_eq!(DirectionComponent::UP.dy(), -1);
    assert_eq!(DirectionComponent::DOWN.dy(), 1);
    assert_eq!(DirectionComponent::LEFT.dy(), 0);
    assert_eq!(DirectionComponent::RIGHT.dy(), 0);
}

#[test]
fn snake_direction_from_random_choice() {
    assert_eq!(DirectionComponent::from_index(0), DirectionComponent::UP);
    assert_eq!(DirectionComponent::from_index(1), DirectionComponent::DOWN);
    assert_eq!(DirectionComponent::from_index(2), DirectionComponent::LEFT);
    assert_eq!(DirectionComponent::from_index(3), DirectionComponent::RIGHT);
    assert_eq!(DirectionComponent::from_index(6), DirectionComponent::LEFT);
}

#[test]
fn snake_tiles_compare_and_position() {
    let a = TileComponent { x: 3, y: 4 };
    let b = TileComponent { x: 3, y: 4 };
    let c = TileComponent { x: 3, y: 5 };
    assert!(a.equals(&b));
    assert!(!a.equals(&c));
    assert_eq!(a.position_x(), 48);
    assert_eq!(a.position_y(), 64);
    assert_eq!(TileComponent { x: 0, y: 0 }.position_x(), 0);
}

#[test]
fn snake_wall_detection() {
    assert!(!TileComponent { x: 0, y: 0 }.hit_wall());
    assert!(!TileComponent { x: 14, y: 9 }.hit_wall());
    assert!(TileComponent { x: -1, y: 0 }.hit_wall());
    assert!(TileComponent { x: 15, y: 0 }.hit_wall());
    assert!(TileComponent { x: 0, y: -1 }.hit_wall());
    assert!(TileComponent { x: 0, y: 10 }.hit_wall());
}

#[test]
fn pong_sides_alternate() {
    assert_eq!(Side::LEFT.next(), Side::RIGHT);
    assert_eq!(Side::RIGHT.next(), Side::LEFT);
    assert_eq!(Side::LEFT.next().next(), Side::LEFT);
}

#[test]
fn pong_opponent_reset_clears_the_clock() {
    let state = OpponentResource::reset(None);
    assert_eq!(state.target, None);
    assert_eq!(state.tracked_duration, 0);
}

#[test]
fn metagame_demo_games_cycle() {
    assert_eq!(metagame::Games::GAME1.next(), metagame::Games::GAME2);
    assert_eq!(metagame::Games::GAME2.next(), metagame::Games::GAME1);
    assert_eq!(
        metagame::Games::GAME1.renderer(),
        metagame::TiledMode::Mode1
    );
    assert_eq!(
        metagame::Games::GAME2.renderer(),
        metagame::TiledMode::Mode0
    );
}

#[test]
fn pickers_and_registry_construct() {
    let _demo = metagame::GamePicker::new();
    let _menu = picker::GamePicker::new();
    let _registry = Registry::new();
    let _defaulted: Registry = Default::default();
}
