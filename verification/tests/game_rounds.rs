use snake_core::board::{GameError, ARENA_HEIGHT, ARENA_WIDTH};
use snake_core::clock::TICK_INTERVAL_MS;
use snake_core::components::{Direction, Position};
use snake_core::game::{Game, RoundState, StepReport};

fn pos(x: i32, y: i32) -> Position {
    Position { x, y }
}

fn game(w: i32, h: i32, ms: u64) -> Game {
    match Game::new_game(w, h, ms) {
        Ok(g) => g,
        Err(_) => panic!("game refused"),
    }
}

fn due(r: Option<StepReport>) -> StepReport {
    match r {
        Some(report) => report,
        None => panic!("no step was due"),
    }
}

#[test]
fn new_game_refuses_bad_configuration() {
    assert!(matches!(Game::new_game(1, 20, 150), Err(GameError::InvalidConfiguration)));
    assert!(matches!(Game::new_game(20, 0, 150), Err(GameError::InvalidConfiguration)));
    assert!(matches!(Game::new_game(20, 20, 0), Err(GameError::InvalidConfiguration)));
    assert!(Game::new_game(2, 2, 1).is_ok());
}

#[test]
fn new_game_starts_with_fresh_snake_and_pending_food() {
    let g = game(20, 20, 150);
    assert_eq!(g.snake_positions(), &vec![pos(3, 3), pos(3, 2)]);
    assert_eq!(g.snake_direction(), Direction::Up);
    assert_eq!(g.food_position(), None);
    assert!(g.food_pending());
    assert_eq!(g.board_size(), (20, 20));
    assert_eq!(g.round_state(), RoundState::Playing);
}

#[test]
fn tick_steps_only_when_an_interval_has_passed() {
    let mut g = game(20, 20, 150);
    assert!(g.can_tick(100));
    assert!(g.tick(100).is_none());
    assert_eq!(g.snake_positions(), &vec![pos(3, 3), pos(3, 2)]);
    assert_eq!(g.food_position(), None);
    let report = due(g.tick(50));
    assert_eq!(report.outcome.new_head, pos(3, 4));
    assert_eq!(g.snake_positions(), &vec![pos(3, 4), pos(3, 3)]);
    assert!(g.tick(149).is_none());
    assert!(g.tick(1).is_some());
    assert_eq!(g.snake_positions(), &vec![pos(3, 5), pos(3, 4)]);
}

#[test]
fn step_places_pending_food_off_the_snake() {
    for _ in 0..50 {
        let mut g = game(6, 6, 150);
        let report = g.step();
        assert!(report.game_over.is_none());
        assert!(report.growth.is_none());
        assert!(report.food_spawn.is_none());
        assert!(!g.food_pending());
        let food = match g.food_position() {
            Some(p) => p,
            None => panic!("no food placed"),
        };
        assert!(1 <= food.x && food.x < 6 && 1 <= food.y && food.y < 6);
        assert!(!g.snake_positions().contains(&food));
    }
}

#[test]
fn down_is_ignored_then_wall_ends_and_restarts_the_round() {
    let mut g = game(5, 5, 150);
    g.set_direction(Direction::Down);
    let first = due(g.tick(150));
    assert_eq!(first.outcome.new_head, pos(3, 4));
    assert!(!first.outcome.out_of_bounds);
    assert!(first.game_over.is_none());
    assert_eq!(g.snake_direction(), Direction::Up);
    assert_eq!(g.snake_positions(), &vec![pos(3, 4), pos(3, 3)]);

    g.set_direction(Direction::Up);
    let second = due(g.tick(150));
    assert_eq!(second.outcome.new_head, pos(3, 5));
    assert!(second.outcome.out_of_bounds);
    assert!(second.game_over.is_some());
    assert!(second.growth.is_none());
    assert!(second.food_spawn.is_some());
    assert_eq!(g.round_state(), RoundState::Playing);
    assert_eq!(g.snake_positions(), &vec![pos(3, 3), pos(3, 2)]);
    assert_eq!(g.snake_direction(), Direction::Up);
    let food = g.food_position();
    assert!(food.is_some());
    assert!(food != Some(pos(3, 3)) && food != Some(pos(3, 2)));
}

#[test]
fn eating_grows_the_snake_at_the_old_tail_cell() {
    let mut g = game(5, 5, 150);
    assert!(g.spawn_food_at(pos(3, 4)));
    assert_eq!(g.food_position(), Some(pos(3, 4)));
    assert!(!g.food_pending());
    let report = due(g.tick(150));
    assert_eq!(report.outcome.new_head, pos(3, 4));
    assert_eq!(report.outcome.last_tail_position, pos(3, 2));
    assert!(report.growth.is_some());
    assert!(report.food_spawn.is_some());
    assert!(report.game_over.is_none());
    assert_eq!(g.snake_positions(), &vec![pos(3, 4), pos(3, 3), pos(3, 2)]);
    let food = match g.food_position() {
        Some(p) => p,
        None => panic!("no new food"),
    };
    assert!(!g.snake_positions().contains(&food));
}

#[test]
fn advance_round_leaves_the_food_request_pending() {
    let mut g = game(5, 5, 150);
    assert!(g.spawn_food_at(pos(3, 4)));
    let report = g.advance_round();
    assert!(report.growth.is_some());
    assert_eq!(g.food_position(), None);
    assert!(g.food_pending());
    assert_eq!(g.snake_positions().len(), 3);
}

#[test]
fn length_is_two_plus_the_number_of_meals() {
    let mut g = game(40, 40, 150);
    for n in 1..=12usize {
        if g.food_pending() {
            let ahead = g.snake_positions()[0].step(Direction::Up);
            assert!(g.spawn_food_at(ahead));
        }
        let tail_before = g.snake_positions()[g.snake_positions().len() - 1];
        let report = g.advance_round();
        assert!(report.growth.is_some());
        assert_eq!(g.snake_positions().len(), 2 + n);
        assert_eq!(g.snake_positions()[1 + n], tail_before);
    }
}

#[test]
fn step_without_food_at_the_head_keeps_the_length() {
    let mut g = game(20, 20, 150);
    assert!(g.spawn_food_at(pos(10, 10)));
    let report = g.step();
    assert!(report.growth.is_none());
    assert!(report.food_spawn.is_none());
    assert_eq!(g.snake_positions().len(), 2);
    assert_eq!(g.food_position(), Some(pos(10, 10)));
}

#[test]
fn spawn_food_at_refuses_occupied_and_outside_cells() {
    let mut g = game(5, 5, 150);
    assert!(!g.spawn_food_at(pos(3, 3)));
    assert!(!g.spawn_food_at(pos(3, 2)));
    assert!(!g.spawn_food_at(pos(0, 2)));
    assert!(!g.spawn_food_at(pos(5, 5)));
    assert_eq!(g.food_position(), None);
    assert!(g.food_pending());
    assert!(g.spawn_food_at(pos(1, 1)));
    assert!(!g.spawn_food_at(pos(2, 2)));
    assert_eq!(g.food_position(), Some(pos(1, 1)));
}

#[test]
fn self_collision_restarts_the_round() {
    let mut g = game(20, 20, 150);
    // Feed the snake four times on its way up, then turn it round on itself.
    for _ in 0..4 {
        let ahead = g.snake_positions()[0].step(Direction::Up);
        assert!(g.spawn_food_at(ahead));
        assert!(g.advance_round().growth.is_some());
    }
    assert_eq!(g.snake_positions().len(), 6);
    g.set_direction(Direction::Left);
    assert!(g.advance_round().game_over.is_none());
    g.set_direction(Direction::Down);
    assert!(g.advance_round().game_over.is_none());
    g.set_direction(Direction::Right);
    let report = g.advance_round();
    assert!(report.outcome.self_collision);
    assert!(!report.outcome.out_of_bounds);
    assert!(report.game_over.is_some());
    assert_eq!(g.snake_positions(), &vec![pos(3, 3), pos(3, 2)]);
    assert_eq!(g.food_position(), None);
    assert!(g.food_pending());
}

#[test]
fn reset_round_from_mid_game() {
    let mut g = game(20, 20, 150);
    g.set_direction(Direction::Right);
    g.step();
    g.step();
    assert!(g.food_position().is_some());
    g.reset_round();
    assert_eq!(g.snake_positions(), &vec![pos(3, 3), pos(3, 2)]);
    assert_eq!(g.snake_direction(), Direction::Up);
    assert_eq!(g.food_position(), None);
    assert!(g.food_pending());
    assert_eq!(g.round_state(), RoundState::Playing);
    assert_eq!(g.board_size(), (20, 20));
}

#[test]
fn tiny_board_keeps_restarting_without_food_trouble() {
    let mut g = game(2, 2, 1);
    for _ in 0..5 {
        let report = due(g.tick(1));
        assert!(report.game_over.is_some());
        assert_eq!(g.snake_positions(), &vec![pos(3, 3), pos(3, 2)]);
        assert_eq!(g.food_position(), Some(pos(1, 1)));
    }
}

#[test]
fn set_direction_changes_only_the_request() {
    let mut g = game(20, 20, 150);
    g.set_direction(Direction::Left);
    assert_eq!(g.snake_direction(), Direction::Up);
    assert_eq!(g.snake_positions(), &vec![pos(3, 3), pos(3, 2)]);
    g.set_direction(Direction::Right);
    let report = g.advance_round();
    assert_eq!(report.outcome.new_head, pos(4, 3));
    assert_eq!(g.snake_direction(), Direction::Right);
}

#[test]
fn usual_configuration_is_accepted() {
    assert_eq!((ARENA_WIDTH, ARENA_HEIGHT, TICK_INTERVAL_MS), (20, 20, 150));
    let g = game(ARENA_WIDTH, ARENA_HEIGHT, TICK_INTERVAL_MS);
    assert_eq!(g.board_size(), (20, 20));
}
