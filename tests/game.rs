use snake_game::game::{Game, Key, MOVING_PERIOD, RESTART_TIME};
use snake_game::snake::{Block, Direction, Snake};
use std::collections::VecDeque;

const TICK: u64 = 110_000_000;

fn snake_of(cells: &[(i32, i32)], direction: Direction) -> Snake {
    let body: VecDeque<Block> = cells.iter().map(|&(x, y)| Block { x, y }).collect();
    Snake { direction, body, tail: None }
}

fn cells(g: &Game) -> Vec<(i32, i32)> {
    g.snake.body.iter().map(|b| (b.x, b.y)).collect()
}

#[test]
fn new_game_starting_state() {
    let g = Game::new(50, 50);
    assert_eq!(cells(&g), vec![(2, 2)]);
    assert!(g.food_exists);
    assert_eq!((g.food_x, g.food_y), (6, 4));
    assert!(!g.game_over);
    assert_eq!((g.waiting_time, g.total_time), (0, 0));
    assert_eq!((g.width, g.height), (50, 50));
}

#[test]
fn four_ticks_right_from_start() {
    let mut g = Game::new(50, 50);
    for _ in 0..4 {
        g.update(TICK);
    }
    assert_eq!(g.snake.head_position(), (6, 2));
    assert_eq!(g.snake.body.len(), 1);
    assert!(!g.game_over);
    assert_eq!(g.total_time, 4 * TICK);
}

#[test]
fn no_move_before_period() {
    let mut g = Game::new(50, 50);
    g.update(MOVING_PERIOD);
    assert_eq!(g.snake.head_position(), (2, 2));
    assert_eq!(g.waiting_time, MOVING_PERIOD);
    g.update(1);
    assert_eq!(g.snake.head_position(), (3, 2));
    assert_eq!(g.waiting_time, 0);
    assert_eq!(g.total_time, MOVING_PERIOD + 1);
}

#[test]
fn clocks_saturate() {
    let mut g = Game::new(50, 50);
    g.game_over = true;
    g.total_time = u64::MAX - 1;
    g.update(5);
    assert_eq!(g.total_time, u64::MAX);
}

#[test]
fn eating_grows_by_one() {
    let mut g = Game::new(50, 50);
    g.snake = snake_of(&[(5, 4), (4, 4), (3, 4)], Direction::Right);
    g.update_snake(None);
    assert_eq!(cells(&g), vec![(6, 4), (5, 4), (4, 4), (3, 4)]);
    assert!(!g.food_exists);
}

#[test]
fn check_eating_restores_tail_only_on_food() {
    let mut g = Game::new(50, 50);
    g.snake = snake_of(&[(5, 4), (4, 4)], Direction::Right);
    g.snake.move_forward(None);
    assert_eq!(g.snake.body.len(), 2);
    g.check_eating();
    assert_eq!(g.snake.body.len(), 3);
    assert!(!g.food_exists);
    g.check_eating();
    assert_eq!(g.snake.body.len(), 3);
}

#[test]
fn border_is_fatal() {
    let mut g = Game::new(10, 8);
    g.snake = Snake::new(8, 3);
    assert!(!g.check_if_snake_alive(None));
    assert!(g.check_if_snake_alive(Some(Direction::Up)));
    g.snake = Snake::new(1, 1);
    assert!(!g.check_if_snake_alive(Some(Direction::Up)));
    assert!(!g.check_if_snake_alive(Some(Direction::Left)));
    g.snake = Snake::new(4, 6);
    assert!(!g.check_if_snake_alive(Some(Direction::Down)));
    // outside the board altogether
    g.snake = Snake::new(30, 30);
    assert!(!g.check_if_snake_alive(None));
    g.snake = Snake::new(-5, 3);
    assert!(!g.check_if_snake_alive(None));
}

#[test]
fn self_collision_is_fatal_but_tail_is_not() {
    let mut g = Game::new(50, 50);
    g.food_exists = false;
    // a ring of four: stepping up runs into the tail, which moves away
    g.snake = snake_of(&[(5, 6), (6, 6), (6, 5), (5, 5)], Direction::Left);
    assert!(g.check_if_snake_alive(Some(Direction::Up)));
    // a ring of five: the same cell is now a middle segment
    g.snake = snake_of(&[(5, 6), (6, 6), (6, 5), (5, 5), (4, 5)], Direction::Left);
    assert!(!g.check_if_snake_alive(Some(Direction::Up)));
    g.update_snake(Some(Direction::Up));
    assert!(g.game_over);
    assert_eq!(g.waiting_time, 0);
    assert_eq!(cells(&g), vec![(5, 6), (6, 6), (6, 5), (5, 5), (4, 5)]);
}

#[test]
fn wall_ends_game_then_restart() {
    let mut g = Game::new(6, 6);
    g.food_exists = true;
    g.food_x = 1;
    g.food_y = 4;
    for _ in 0..2 {
        g.update(TICK);
    }
    assert_eq!(g.snake.head_position(), (4, 2));
    g.update(TICK);
    assert!(g.game_over);
    assert_eq!(g.snake.head_position(), (4, 2));
    g.update(RESTART_TIME);
    assert!(g.game_over);
    g.update(1);
    assert!(!g.game_over);
    assert_eq!(cells(&g), vec![(2, 2)]);
    assert_eq!((g.food_x, g.food_y), (6, 4));
    assert!(g.food_exists);
    assert_eq!((g.waiting_time, g.total_time), (0, 0));
}

#[test]
fn restart_resets_state() {
    let mut g = Game::new(20, 30);
    g.snake = snake_of(&[(9, 9), (9, 10)], Direction::Up);
    g.game_over = true;
    g.food_exists = false;
    g.waiting_time = 7;
    g.total_time = 9;
    g.restart();
    assert_eq!(cells(&g), vec![(2, 2)]);
    assert_eq!(g.snake.head_direction(), Direction::Right);
    assert!(g.food_exists && !g.game_over);
    assert_eq!((g.food_x, g.food_y, g.width, g.height), (6, 4, 20, 30));
    assert_eq!((g.waiting_time, g.total_time), (0, 0));
}

#[test]
fn key_turns_and_steps_at_once() {
    let mut g = Game::new(50, 50);
    g.key_pressed(Key::Down);
    assert_eq!(g.snake.head_position(), (2, 3));
    assert_eq!(g.snake.head_direction(), Direction::Down);
    assert_eq!(g.waiting_time, 0);
}

#[test]
fn key_reversal_is_ignored() {
    let mut g = Game::new(50, 50);
    g.key_pressed(Key::Left);
    assert_eq!(g.snake.head_position(), (2, 2));
    assert_eq!(g.snake.head_direction(), Direction::Right);
}

#[test]
fn other_key_steps_on_current_heading() {
    let mut g = Game::new(50, 50);
    g.key_pressed(Key::Other);
    assert_eq!(g.snake.head_position(), (3, 2));
}

#[test]
fn keys_ignored_after_game_over() {
    let mut g = Game::new(50, 50);
    g.game_over = true;
    g.key_pressed(Key::Down);
    assert_eq!(g.snake.head_position(), (2, 2));
}

#[test]
fn free_cells_row_by_row() {
    let mut g = Game::new(5, 4);
    g.snake = snake_of(&[(2, 1), (3, 1)], Direction::Left);
    let free: Vec<(i32, i32)> = g.free_cells().iter().map(|b| (b.x, b.y)).collect();
    assert_eq!(free, vec![(1, 1), (1, 2), (2, 2), (3, 2)]);
}

#[test]
fn free_cells_of_tiny_board_is_empty() {
    let g = Game::new(2, 2);
    assert!(g.free_cells().is_empty());
}

#[test]
fn food_never_on_snake() {
    let mut g = Game::new(6, 6);
    // covers all but three interior cells, the last segment included
    g.snake = snake_of(
        &[(1, 1), (2, 1), (3, 1), (4, 1), (4, 2), (3, 2), (2, 2), (1, 2), (1, 3), (2, 3), (3, 3), (3, 4), (4, 4)],
        Direction::Left,
    );
    for _ in 0..200 {
        g.food_exists = false;
        g.add_food();
        assert!(g.food_exists);
        let spot = (g.food_x, g.food_y);
        assert!(spot == (4, 3) || spot == (1, 4) || spot == (2, 4), "{:?}", spot);
    }
}

#[test]
fn food_on_the_only_free_cell() {
    let mut g = Game::new(4, 4);
    g.snake = snake_of(&[(1, 1), (2, 1), (2, 2)], Direction::Left);
    g.food_exists = false;
    g.add_food();
    assert!(g.food_exists);
    assert_eq!((g.food_x, g.food_y), (1, 2));
}

#[test]
fn full_board_leaves_food_absent() {
    let mut g = Game::new(4, 4);
    g.snake = snake_of(&[(1, 1), (2, 1), (2, 2), (1, 2)], Direction::Left);
    g.food_exists = false;
    g.food_x = 9;
    g.food_y = 9;
    g.add_food();
    assert!(!g.food_exists);
    assert_eq!((g.food_x, g.food_y), (9, 9));
}

#[test]
fn update_places_missing_food() {
    let mut g = Game::new(50, 50);
    g.food_exists = false;
    g.update(1);
    assert!(g.food_exists);
    assert!(g.food_x > 0 && g.food_x < 49 && g.food_y > 0 && g.food_y < 49);
    assert!((g.food_x, g.food_y) != (2, 2));
    assert_eq!(g.snake.head_position(), (2, 2));
}
