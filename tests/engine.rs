use terminal_snake::cord::SnakeGameCord;
use terminal_snake::direction::{Direction, DirectionKind};
use terminal_snake::game::SnakeGame;
use terminal_snake::queue::reconcile_queue;

fn cord(x: usize, y: usize) -> SnakeGameCord {
    SnakeGameCord { x, y }
}

fn row_values(game: &SnakeGame, y: usize) -> Vec<i32> {
    (0..game.width()).map(|x| game.at(&cord(x, y))).collect()
}

/// A 5x5 board without apple spawning, steered so that the head sits at (1,2)
/// with length 3, the body trailing through (0,2) and (0,1).
fn five_by_five_length_three(grow_rate: u32) -> SnakeGame {
    let mut game = SnakeGame::create(5, 5, grow_rate, 0, 0, 100);
    for d in [
        Direction::Up,
        Direction::Up,
        Direction::Left,
        Direction::Down,
        Direction::Down,
        Direction::Right,
    ] {
        game.tick_with_draw(&d, 0);
        assert!(!game.is_dead());
    }
    game
}

#[test]
fn direction_kinds() {
    assert_eq!(Direction::Up.kind(), DirectionKind::Vertical);
    assert_eq!(Direction::Down.kind(), DirectionKind::Vertical);
    assert_eq!(Direction::Left.kind(), DirectionKind::Horizontal);
    assert_eq!(Direction::Right.kind(), DirectionKind::Horizontal);
}

#[test]
fn cord_moves_one_unit() {
    let c = cord(3, 4);
    assert_eq!(c.moved_direction(&Direction::Up), cord(3, 3));
    assert_eq!(c.moved_direction(&Direction::Down), cord(3, 5));
    assert_eq!(c.moved_direction(&Direction::Left), cord(2, 4));
    assert_eq!(c.moved_direction(&Direction::Right), cord(4, 4));
    let mut m = c;
    m.move_direction(&Direction::Left);
    m.move_direction(&Direction::Left);
    assert_eq!(m, cord(1, 4));
}

#[test]
fn create_gives_empty_board_and_fresh_snake() {
    let game = SnakeGame::create(10, 7, 2, 3, 1, 50);
    assert_eq!(game.width(), 10);
    assert_eq!(game.height(), 7);
    assert_eq!(game.head(), cord(3, 3));
    assert_eq!(game.snake_len(), 0);
    assert_eq!(game.saturation_len(), 3);
    assert!(game.grew_last_tick());
    assert!(!game.is_dead());
    assert_eq!(game.count_free(), 70);
    assert_eq!(game.count_apples(), 0);
}

#[test]
fn fresh_snake_grows_every_other_tick() {
    let mut game = SnakeGame::create(20, 5, 1, 0, 0, 100);
    let mut lens = vec![];
    for _ in 0..7 {
        game.tick_with_draw(&Direction::Right, 0);
        lens.push(game.snake_len());
    }
    assert_eq!(lens, vec![0, 1, 1, 2, 2, 3, 3]);
    assert_eq!(game.head(), cord(13, 2));
    assert_eq!(row_values(&game, 2)[8..14].to_vec(), vec![0, 0, 0, 1, 2, 3]);
}

#[test]
fn scenario_five_by_five_one_tick_right() {
    let mut game = five_by_five_length_three(1);
    assert_eq!(game.head(), cord(1, 2));
    assert_eq!(game.snake_len(), 3);
    assert_eq!(game.at(&cord(1, 2)), 3);
    assert_eq!(game.at(&cord(0, 2)), 2);
    assert_eq!(game.at(&cord(0, 1)), 1);
    game.tick_with_draw(&Direction::Right, 0);
    assert!(!game.is_dead());
    assert_eq!(game.head(), cord(2, 2));
    assert_eq!(game.at(&cord(2, 2)), 3);
    assert_eq!(game.at(&cord(1, 2)), 2);
    assert_eq!(game.at(&cord(0, 2)), 1);
    assert_eq!(game.at(&cord(0, 1)), 0);
    assert_eq!(game.snake_len(), 3);
}

#[test]
fn body_cells_are_the_ages_one_to_length() {
    let mut game = five_by_five_length_three(1);
    game.tick_with_draw(&Direction::Right, 0);
    let mut ages = vec![];
    for y in 0..5 {
        for v in row_values(&game, y) {
            if v > 0 {
                ages.push(v);
            }
        }
    }
    ages.sort();
    assert_eq!(ages, vec![1, 2, 3]);
    assert_eq!(game.at(&game.head()), game.snake_len() as i32);
}

#[test]
fn two_ticks_same_direction_move_two_cells() {
    let mut game = SnakeGame::create(9, 9, 1, 0, 0, 100);
    let start = game.head();
    game.tick_with_draw(&Direction::Down, 0);
    game.tick_with_draw(&Direction::Down, 0);
    assert!(!game.is_dead());
    assert_eq!(game.head(), cord(start.x, start.y + 2));
}

#[test]
fn moving_right_off_last_column_kills_and_freezes_board() {
    let mut game = SnakeGame::create(5, 5, 1, 0, 0, 100);
    for _ in 0..3 {
        game.tick_with_draw(&Direction::Right, 0);
    }
    assert_eq!(game.head(), cord(4, 2));
    assert!(game.would_move_out_of_bounds(&Direction::Right));
    assert!(!game.would_move_out_of_bounds(&Direction::Up));
    let before: Vec<Vec<i32>> = (0..5).map(|y| row_values(&game, y)).collect();
    let len = game.snake_len();
    game.tick_with_draw(&Direction::Right, 0);
    assert!(game.is_dead());
    let after: Vec<Vec<i32>> = (0..5).map(|y| row_values(&game, y)).collect();
    assert_eq!(before, after);
    assert_eq!(game.head(), cord(4, 2));
    assert_eq!(game.snake_len(), len);
}

#[test]
fn other_edges_kill() {
    let mut up = SnakeGame::create(3, 1, 1, 0, 0, 100);
    up.tick_with_draw(&Direction::Up, 0);
    assert!(up.is_dead());
    let mut down = SnakeGame::create(3, 1, 1, 0, 0, 100);
    down.tick_with_draw(&Direction::Down, 0);
    assert!(down.is_dead());
    let mut left = SnakeGame::create(2, 2, 1, 0, 0, 100);
    assert_eq!(left.head(), cord(0, 1));
    left.tick_with_draw(&Direction::Left, 0);
    assert!(left.is_dead());
}

#[test]
fn moving_into_body_kills_without_touching_it() {
    let mut game = five_by_five_length_three(1);
    game.tick_with_draw(&Direction::Right, 0);
    let before: Vec<Vec<i32>> = (0..5).map(|y| row_values(&game, y)).collect();
    game.tick_with_draw(&Direction::Left, 0);
    assert!(game.is_dead());
    assert_eq!(game.at(&cord(1, 2)), 2);
    let after: Vec<Vec<i32>> = (0..5).map(|y| row_values(&game, y)).collect();
    assert_eq!(before, after);
}

#[test]
fn eating_grows_once_then_shifts() {
    let mut game = five_by_five_length_three(2);
    game.tick_with_draw(&Direction::Right, 0);
    assert!(!game.grew_last_tick());
    // ten empty cells in rows 0 and 1 come before (3,2) in row-major order
    assert!(game.spawn_apple_with_draw(10));
    assert_eq!(game.at(&cord(3, 2)), -1);
    assert_eq!(game.count_apples(), 1);

    game.tick_with_draw(&Direction::Right, 0);
    assert_eq!(game.saturation_len(), 5);
    assert_eq!(game.snake_len(), 4);
    assert!(game.grew_last_tick());
    assert_eq!(row_values(&game, 2), vec![1, 2, 3, 4, 0]);
    assert_eq!(game.count_apples(), 0);

    game.tick_with_draw(&Direction::Right, 0);
    assert_eq!(game.snake_len(), 4);
    assert!(!game.grew_last_tick());
    assert_eq!(row_values(&game, 2), vec![0, 1, 2, 3, 4]);

    game.tick_with_draw(&Direction::Down, 0);
    assert_eq!(game.snake_len(), 5);
    assert_eq!(game.at(&cord(4, 3)), 5);
    assert_eq!(row_values(&game, 2), vec![0, 1, 2, 3, 4]);
}

#[test]
fn spawn_draw_zero_takes_first_free_cell() {
    let mut game = SnakeGame::create(4, 3, 1, 0, 0, 100);
    assert!(game.spawn_apple_with_draw(0));
    assert_eq!(game.at(&cord(0, 0)), -1);
    assert_eq!(game.count_apples(), 1);
    assert_eq!(game.count_free(), 11);
}

#[test]
fn spawn_draw_wraps_over_free_count() {
    let mut game = SnakeGame::create(4, 3, 1, 0, 0, 100);
    assert!(game.spawn_apple_with_draw(12 + 5));
    assert_eq!(game.at(&cord(1, 1)), -1);
    let mut last = SnakeGame::create(4, 3, 1, 0, 0, 100);
    assert!(last.spawn_apple_with_draw(11));
    assert_eq!(last.at(&cord(3, 2)), -1);
}

#[test]
fn spawn_reaches_every_free_cell() {
    for r in 0..12u32 {
        let mut game = SnakeGame::create(4, 3, 1, 0, 0, 100);
        assert!(game.spawn_apple_with_draw(r));
        let x = (r % 4) as usize;
        let y = (r / 4) as usize;
        assert_eq!(game.at(&cord(x, y)), -1);
    }
}

#[test]
fn spawn_on_full_board_fails_without_change() {
    let mut game = SnakeGame::create(1, 1, 1, 0, 0, 100);
    assert!(game.spawn_apple());
    assert_eq!(game.at(&cord(0, 0)), -1);
    assert!(!game.spawn_apple_with_draw(7));
    assert_eq!(game.at(&cord(0, 0)), -1);
    assert_eq!(game.count_free(), 0);
}

#[test]
fn random_spawn_lands_on_a_free_cell() {
    let mut game = SnakeGame::create(6, 6, 1, 0, 0, 100);
    for _ in 0..36 {
        assert!(game.spawn_apple());
    }
    assert_eq!(game.count_apples(), 36);
    assert!(!game.spawn_apple());
}

#[test]
fn tick_spawns_when_below_minimum() {
    let mut game = SnakeGame::create(10, 10, 1, 2, 2, 100);
    game.tick(&Direction::Right);
    assert_eq!(game.count_apples(), 1);
    game.tick(&Direction::Right);
    assert!(game.count_apples() >= 1);
}

#[test]
fn tick_spawns_after_interval() {
    let mut game = SnakeGame::create(30, 5, 1, 5, 0, 3);
    for _ in 0..3 {
        game.tick_with_draw(&Direction::Right, 0);
        assert_eq!(game.count_apples(), 0);
    }
    game.tick_with_draw(&Direction::Right, 0);
    assert_eq!(game.count_apples(), 1);
    assert_eq!(game.at(&cord(0, 0)), -1);
}

#[test]
fn no_spawn_at_maximum() {
    let mut game = SnakeGame::create(30, 5, 1, 1, 1, 0);
    game.tick_with_draw(&Direction::Right, 3);
    assert_eq!(game.count_apples(), 1);
    game.tick_with_draw(&Direction::Right, 3);
    assert_eq!(game.count_apples(), 1);
}

#[test]
fn shorten_snake_lowers_positive_cells() {
    let mut game = five_by_five_length_three(1);
    game.spawn_apple_with_draw(0);
    game.shorten_snake();
    assert_eq!(game.at(&cord(1, 2)), 2);
    assert_eq!(game.at(&cord(0, 2)), 1);
    assert_eq!(game.at(&cord(0, 1)), 0);
    assert_eq!(game.at(&cord(0, 0)), -1);
    assert_eq!(game.at(&cord(4, 4)), 0);
}

#[test]
fn clear_restores_fresh_state() {
    let mut game = five_by_five_length_three(1);
    game.spawn_apple_with_draw(3);
    game.tick_with_draw(&Direction::Left, 0);
    assert!(game.is_dead());
    game.clear();
    assert!(!game.is_dead());
    assert_eq!(game.head(), cord(1, 2));
    assert_eq!(game.snake_len(), 0);
    assert_eq!(game.saturation_len(), 3);
    assert!(game.grew_last_tick());
    assert_eq!(game.count_free(), 25);
}

#[test]
fn queue_takes_first_turn_and_keeps_rest() {
    let queue = vec![Direction::Right, Direction::Right, Direction::Up, Direction::Down];
    let (dir, rest) = reconcile_queue(Direction::Right, &queue);
    assert_eq!(dir, Direction::Up);
    assert_eq!(rest, vec![Direction::Down]);
}

#[test]
fn queue_without_turn_keeps_direction_and_drains() {
    let queue = vec![Direction::Left, Direction::Right, Direction::Left];
    let (dir, rest) = reconcile_queue(Direction::Right, &queue);
    assert_eq!(dir, Direction::Right);
    assert!(rest.is_empty());
    let (dir, rest) = reconcile_queue(Direction::Up, &vec![]);
    assert_eq!(dir, Direction::Up);
    assert!(rest.is_empty());
}

#[test]
fn queue_turn_at_front_keeps_later_inputs() {
    let queue = vec![Direction::Down, Direction::Left, Direction::Up];
    let (dir, rest) = reconcile_queue(Direction::Left, &queue);
    assert_eq!(dir, Direction::Down);
    assert_eq!(rest, vec![Direction::Left, Direction::Up]);
}

#[test]
fn margins_center_a_fitting_box() {
    assert_eq!(terminal_snake::layout::centered_margins(80, 20, 120, 40), (19, 9));
    assert_eq!(terminal_snake::layout::centered_margins(10, 5, 13, 8), (0, 0));
}

#[test]
fn margins_shrink_an_oversized_box() {
    assert_eq!(terminal_snake::layout::centered_margins(200, 50, 100, 30), (0, 0));
    assert_eq!(terminal_snake::layout::centered_margins(99, 29, 100, 30), (0, 0));
}
