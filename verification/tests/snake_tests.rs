use snake_game::Direction;
use snake_game::SnakeGame;
use std::collections::VecDeque;

fn body(game: &SnakeGame) -> Vec<(usize, usize)> {
    game.snake.iter().copied().collect()
}

#[test]
fn test() {
    println!("{:?}", SnakeGame::new(10, 10))
}

#[test]
fn initial_state_fifteen_by_fifteen() {
    let game = SnakeGame::new(15, 15);
    assert_eq!(game.width, 15);
    assert_eq!(game.height, 15);
    assert_eq!(body(&game), vec![(13, 7)]);
    assert_eq!(game.food, (2, 7));
    assert_eq!(game.direction, Direction::Left);
    assert!(!game.finished);
}

#[test]
fn initial_state_narrow_grid() {
    let game = SnakeGame::new(2, 1);
    assert_eq!(body(&game), vec![(0, 0)]);
    assert_eq!(game.food, (1, 0));
    assert!(!game.finished);
}

#[test]
fn reversal_request_is_ignored() {
    let mut game = SnakeGame::new(15, 15);
    game.change_direction(Direction::Right);
    game.tick(0);
    // The request was Left's reversal: the snake keeps moving left.
    assert_eq!(body(&game), vec![(12, 7)]);
    assert_eq!(game.direction, Direction::Left);
    assert!(!game.finished);
}

#[test]
fn same_direction_request_changes_nothing() {
    let mut game = SnakeGame::new(15, 15);
    game.change_direction(Direction::Left);
    game.tick(0);
    assert_eq!(body(&game), vec![(12, 7)]);
    assert_eq!(game.direction, Direction::Left);
}

#[test]
fn valid_turn_moves_head_up() {
    let mut game = SnakeGame::new(15, 15);
    game.change_direction(Direction::Up);
    game.tick(0);
    // y decreases by one, x is unchanged.
    assert_eq!(body(&game), vec![(13, 6)]);
    assert_eq!(game.direction, Direction::Up);
    assert!(!game.finished);
}

#[test]
fn valid_turn_moves_head_down() {
    let mut game = SnakeGame::new(15, 15);
    game.change_direction(Direction::Down);
    game.tick(0);
    assert_eq!(body(&game), vec![(13, 8)]);
    assert_eq!(game.direction, Direction::Down);
}

#[test]
fn self_collision_finishes_and_freezes_state() {
    let mut game = SnakeGame::new(10, 10);
    // Head at (5, 5); moving left hits (4, 5), a non-tail segment.
    game.snake = [(5, 5), (4, 5), (3, 5)].into_iter().collect::<VecDeque<_>>();
    game.tick(0);
    assert!(game.finished);
    assert_eq!(body(&game), vec![(5, 5), (4, 5), (3, 5)]);
    assert_eq!(game.food, (2, 5));
}

#[test]
fn tail_cell_counts_as_occupied() {
    let mut game = SnakeGame::new(10, 10);
    // Moving left from (5, 5) targets (4, 5), the tail cell. Even though
    // that cell would be vacated this very tick, the move is a collision.
    game.snake = [(5, 5), (5, 4), (4, 4), (4, 5)].into_iter().collect::<VecDeque<_>>();
    game.tick(0);
    assert!(game.finished);
    assert_eq!(body(&game), vec![(5, 5), (5, 4), (4, 4), (4, 5)]);
}

#[test]
fn wall_collision_finishes_and_freezes_state() {
    let mut game = SnakeGame::new(10, 10);
    game.snake = [(0, 5)].into_iter().collect::<VecDeque<_>>();
    game.tick(0);
    // Head at (0, 5) moving left leaves the grid.
    assert!(game.finished);
    assert_eq!(body(&game), vec![(0, 5)]);
    assert_eq!(game.food, (2, 5));
}

#[test]
fn growth_adds_segment_and_relocates_food() {
    let mut game = SnakeGame::new(10, 10);
    game.food = (7, 5);
    game.tick(0);
    // The head lands on the food: the snake grows, the tail stays, and the
    // food moves to the first free cell in row-major order (draw 0).
    assert!(!game.finished);
    assert_eq!(body(&game), vec![(7, 5), (8, 5)]);
    assert_eq!(game.food, (0, 0));
    assert!(!body(&game).contains(&game.food));
}

#[test]
fn growth_food_index_skips_occupied_cells() {
    let mut game = SnakeGame::new(10, 10);
    game.food = (7, 5);
    // Row-major, the cells before (8, 5) fill indices 0..=57; (8, 5) itself
    // is occupied, so index 58 of the free cells is (9, 5).
    game.tick(58);
    assert_eq!(body(&game), vec![(7, 5), (8, 5)]);
    assert_eq!(game.food, (9, 5));
}

#[test]
fn growth_draw_wraps_modulo_free_count() {
    let mut game = SnakeGame::new(10, 10);
    game.food = (7, 5);
    // 99 cells are free of the pre-growth body, so draw 99 wraps to 0.
    game.tick(99);
    assert_eq!(body(&game), vec![(7, 5), (8, 5)]);
    assert_eq!(game.food, (0, 0));
}

#[test]
fn growth_can_put_food_on_new_head() {
    let mut game = SnakeGame::new(10, 1);
    game.food = (7, 0);
    // The landing cell itself is free of the pre-growth body; draw 7
    // selects it, so the relocated food sits on the new head.
    game.tick(7);
    assert!(!game.finished);
    assert_eq!(body(&game), vec![(7, 0), (8, 0)]);
    assert_eq!(game.food, (7, 0));
}

#[test]
fn finished_game_never_changes() {
    let mut game = SnakeGame::new(10, 10);
    game.snake = [(0, 5)].into_iter().collect::<VecDeque<_>>();
    game.tick(0);
    assert!(game.finished);
    let frozen_body = body(&game);
    let frozen_food = game.food;
    for rand in [0usize, 1, 7, 12345] {
        game.change_direction(Direction::Up);
        game.tick(rand);
        assert!(game.finished);
        assert_eq!(body(&game), frozen_body);
        assert_eq!(game.food, frozen_food);
    }
}

#[test]
fn non_growth_ticks_ignore_the_draw() {
    let mut a = SnakeGame::new(15, 15);
    let mut b = SnakeGame::new(15, 15);
    let turns = [
        None,
        Some(Direction::Up),
        None,
        Some(Direction::Left),
        Some(Direction::Down),
    ];
    for (step, turn) in turns.iter().enumerate() {
        if let Some(direction) = turn {
            a.change_direction(*direction);
            b.change_direction(*direction);
        }
        // No step of this trajectory reaches the food, so wildly different
        // draws must give identical states.
        a.tick(step);
        b.tick(step.wrapping_mul(7919).wrapping_add(13));
        assert_eq!(body(&a), body(&b));
        assert_eq!(a.food, b.food);
        assert_eq!(a.finished, b.finished);
        assert_eq!(a.direction, b.direction);
        assert!(a.food != *body(&a).first().unwrap());
    }
}

#[test]
fn is_valid_checks_grid_bounds() {
    let game = SnakeGame::new(10, 5);
    assert!(game.is_valid((0, 0)));
    assert!(game.is_valid((9, 4)));
    assert!(!game.is_valid((10, 4)));
    assert!(!game.is_valid((9, 5)));
}

#[test]
fn pick_reduces_the_draw_modulo_candidate_count() {
    let candidates = vec![(1, 1), (2, 2), (3, 3)];
    assert_eq!(snake_game::snake::pick(&candidates, 0), (1, 1));
    assert_eq!(snake_game::snake::pick(&candidates, 2), (3, 3));
    assert_eq!(snake_game::snake::pick(&candidates, 5), (3, 3));
}
