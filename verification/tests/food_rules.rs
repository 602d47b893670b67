use snake_core::board::{Board, GameError};
use snake_core::clock::TickClock;
use snake_core::components::Position;
use snake_core::food::Food;

fn cell(x: i32, y: i32) -> Position {
    Position { x, y }
}

fn small_board(w: i32, h: i32) -> Board {
    match Board::new(w, h) {
        Ok(b) => b,
        Err(_) => panic!("board refused"),
    }
}

#[test]
fn new_food_is_absent_and_not_pending() {
    let f = Food::new();
    assert_eq!(f.position(), None);
    assert!(!f.spawn_pending());
}

#[test]
fn request_spawn_is_idempotent() {
    let mut f = Food::new();
    f.request_spawn();
    f.request_spawn();
    assert!(f.spawn_pending());
    assert_eq!(f.position(), None);
    let b = small_board(3, 3);
    assert_eq!(f.resolve_spawn(&b, &Vec::new()), Ok(()));
    assert!(!f.spawn_pending());
    let first = f.position();
    assert!(first.is_some());
    assert_eq!(f.resolve_spawn(&b, &Vec::new()), Ok(()));
    assert_eq!(f.position(), first);
}

#[test]
fn resolve_spawn_takes_the_only_free_cell() {
    let b = small_board(3, 3);
    let occupied = vec![cell(1, 1), cell(1, 2), cell(2, 1)];
    for _ in 0..20 {
        let mut f = Food::new();
        f.request_spawn();
        assert_eq!(f.resolve_spawn(&b, &occupied), Ok(()));
        assert_eq!(f.position(), Some(cell(2, 2)));
        assert!(!f.spawn_pending());
    }
}

#[test]
fn resolve_spawn_never_picks_an_occupied_cell() {
    let b = small_board(5, 5);
    let occupied = vec![cell(3, 3), cell(3, 2), cell(2, 2), cell(1, 2), cell(1, 1)];
    for _ in 0..200 {
        let mut f = Food::new();
        f.request_spawn();
        assert_eq!(f.resolve_spawn(&b, &occupied), Ok(()));
        let p = match f.position() {
            Some(p) => p,
            None => panic!("no food placed"),
        };
        assert!(b.contains(p));
        assert!(!occupied.contains(&p));
    }
}

#[test]
fn resolve_spawn_without_request_changes_nothing() {
    let b = small_board(5, 5);
    let mut f = Food::new();
    assert_eq!(f.resolve_spawn(&b, &Vec::new()), Ok(()));
    assert_eq!(f.position(), None);
    f.request_spawn();
    assert_eq!(f.settle_spawn(&vec![cell(2, 4)], Some(0)), Ok(()));
    for _ in 0..10 {
        assert_eq!(f.resolve_spawn(&b, &Vec::new()), Ok(()));
        assert_eq!(f.position(), Some(cell(2, 4)));
        assert!(!f.spawn_pending());
    }
}

#[test]
fn resolve_spawn_on_a_full_board_reports_no_free_cell() {
    let b = small_board(2, 3);
    let occupied = vec![cell(1, 1), cell(1, 2)];
    let mut f = Food::new();
    f.request_spawn();
    assert_eq!(f.resolve_spawn(&b, &occupied), Err(GameError::NoFreeCell));
    assert!(f.spawn_pending());
    assert_eq!(f.position(), None);
    assert_eq!(f.resolve_spawn(&b, &vec![cell(1, 1)]), Ok(()));
    assert_eq!(f.position(), Some(cell(1, 2)));
    assert!(!f.spawn_pending());
}

#[test]
fn settle_spawn_installs_the_indexed_cell() {
    let free = vec![cell(1, 1), cell(1, 2), cell(2, 2)];
    let mut f = Food::new();
    f.request_spawn();
    assert_eq!(f.settle_spawn(&free, Some(2)), Ok(()));
    assert_eq!(f.position(), Some(cell(2, 2)));
    assert!(!f.spawn_pending());
}

#[test]
fn settle_spawn_without_a_usable_index_keeps_the_request() {
    let free = vec![cell(1, 1)];
    let mut f = Food::new();
    f.request_spawn();
    assert_eq!(f.settle_spawn(&free, None), Err(GameError::NoFreeCell));
    assert!(f.spawn_pending());
    assert_eq!(f.settle_spawn(&free, Some(1)), Err(GameError::NoFreeCell));
    assert!(f.spawn_pending());
    assert_eq!(f.position(), None);
}

#[test]
fn settle_spawn_without_request_changes_nothing() {
    let mut f = Food::new();
    assert_eq!(f.settle_spawn(&vec![cell(1, 1)], Some(0)), Ok(()));
    assert_eq!(f.position(), None);
    assert_eq!(f.settle_spawn(&Vec::new(), None), Ok(()));
    assert!(!f.spawn_pending());
}

#[test]
fn try_consume_eats_only_at_the_food_cell() {
    let mut f = Food::new();
    assert!(!f.try_consume(cell(3, 4)));
    f.request_spawn();
    assert_eq!(f.settle_spawn(&vec![cell(3, 4)], Some(0)), Ok(()));
    assert!(!f.try_consume(cell(4, 3)));
    assert_eq!(f.position(), Some(cell(3, 4)));
    assert!(f.try_consume(cell(3, 4)));
    assert_eq!(f.position(), None);
    assert!(!f.spawn_pending());
    assert!(!f.try_consume(cell(3, 4)));
}

#[test]
fn clear_removes_the_food() {
    let mut f = Food::new();
    f.request_spawn();
    assert_eq!(f.settle_spawn(&vec![cell(3, 4)], Some(0)), Ok(()));
    f.clear();
    assert_eq!(f.position(), None);
    assert!(!f.spawn_pending());
}

#[test]
fn clock_refuses_a_zero_interval() {
    assert!(matches!(TickClock::new(0), Err(GameError::InvalidConfiguration)));
    assert!(TickClock::new(1).is_ok());
}

#[test]
fn clock_fires_once_per_gathered_interval() {
    let mut c = match TickClock::new(150) {
        Ok(c) => c,
        Err(_) => panic!("clock refused"),
    };
    assert_eq!(c.interval_ms(), 150);
    assert!(!c.tick(100));
    assert_eq!(c.elapsed_ms(), 100);
    assert!(c.tick(100));
    assert_eq!(c.elapsed_ms(), 50);
    assert!(!c.tick(99));
    assert_eq!(c.elapsed_ms(), 149);
    assert!(c.tick(1));
    assert_eq!(c.elapsed_ms(), 0);
}

#[test]
fn clock_keeps_excess_time_for_later_ticks() {
    let mut c = match TickClock::new(150) {
        Ok(c) => c,
        Err(_) => panic!("clock refused"),
    };
    assert!(c.tick(400));
    assert_eq!(c.elapsed_ms(), 250);
    assert!(c.tick(0));
    assert_eq!(c.elapsed_ms(), 100);
    assert!(!c.tick(0));
    assert_eq!(c.elapsed_ms(), 100);
}

#[test]
fn clock_knows_its_room() {
    let mut c = match TickClock::new(10) {
        Ok(c) => c,
        Err(_) => panic!("clock refused"),
    };
    assert!(c.has_room_for(u64::MAX));
    assert!(!c.tick(5));
    assert!(!c.has_room_for(u64::MAX));
    assert!(c.has_room_for(u64::MAX - 5));
}
