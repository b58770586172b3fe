use snake::game::{Direction, Game, GameState, Snake};
use snake::{Point, HEIGHT, WIDTH};

fn game_on(width: u32, height: u32, snake: Snake, seed: Option<Point>) -> Game {
    Game {
        snake,
        seed,
        score: 0,
        state: GameState::Running,
        height,
        width,
    }
}

fn snake_at(head: Point, direction: Direction, body: Vec<Point>) -> Snake {
    Snake { direction, head, body }
}

#[test]
fn init_fields() {
    let g = Game::init(snake_at(Point(0, 0), Direction::Right, vec![]));
    assert_eq!(g.width, WIDTH);
    assert_eq!(g.height, HEIGHT);
    assert_eq!(g.score, 0);
    assert_eq!(g.state, GameState::Running);
    assert_eq!(g.seed, Some(Point(HEIGHT / 2, WIDTH / 2)));
    assert_eq!(g.snake.head, Point(0, 0));
    assert!(g.snake.body.is_empty());
}

#[test]
fn set_direction_only_changes_direction() {
    let mut s = snake_at(Point(3, 4), Direction::Up, vec![Point(3, 5)]);
    s.set_direction(Direction::Left);
    assert_eq!(s.direction, Direction::Left);
    assert_eq!(s.head, Point(3, 4));
    assert_eq!(s.body, vec![Point(3, 5)]);
}

#[test]
fn body_length_invariant_on_plain_move() {
    let snake = snake_at(Point(2, 2), Direction::Right, vec![Point(1, 2)]);
    let mut g = game_on(5, 5, snake, Some(Point(0, 0)));
    g.update();
    assert_eq!(g.state, GameState::Running);
    assert_eq!(g.snake.head, Point(3, 2));
    assert_eq!(g.snake.body, vec![Point(2, 2)]);
    assert_eq!(g.score, 0);
    assert_eq!(g.seed, Some(Point(0, 0)));
}

#[test]
fn empty_body_gains_a_segment_on_first_move() {
    let snake = snake_at(Point(2, 2), Direction::Up, vec![]);
    let mut g = game_on(5, 5, snake, Some(Point(0, 0)));
    g.update();
    assert_eq!(g.state, GameState::Running);
    assert_eq!(g.snake.head, Point(2, 1));
    assert_eq!(g.snake.body, vec![Point(2, 2)]);
}

#[test]
fn eating_raises_score_and_grows_body() {
    let snake = snake_at(Point(1, 1), Direction::Right, vec![Point(0, 1)]);
    let mut g = game_on(3, 3, snake, Some(Point(1, 1)));
    g.update();
    assert_eq!(g.score, 1);
    assert_eq!(g.state, GameState::Running);
    assert_eq!(g.snake.head, Point(2, 1));
    assert_eq!(g.snake.body.len(), 2);
    let p = g.seed.expect("a free cell remains, so food must be placed");
    assert!(p.0 < 3 && p.1 < 3);
    assert_ne!(p, Point(1, 1));
    assert_ne!(p, Point(0, 1));
}

#[test]
fn self_collision_loses_before_anything_else() {
    let snake = snake_at(Point(0, 0), Direction::Right, vec![Point(0, 0)]);
    let mut g = Game::init(snake);
    g.update();
    assert_eq!(g.state, GameState::Lose);
    assert_eq!(g.score, 0);
    assert_eq!(g.snake.head, Point(0, 0));
    assert_eq!(g.snake.body, vec![Point(0, 0)]);
}

#[test]
fn self_collision_loses_whatever_the_direction() {
    for d in [Direction::Up, Direction::Down, Direction::Left, Direction::Right] {
        let snake = snake_at(Point(2, 2), d, vec![Point(3, 3), Point(2, 2)]);
        let mut g = game_on(5, 5, snake, Some(Point(0, 0)));
        g.update();
        assert_eq!(g.state, GameState::Lose);
        assert_eq!(g.snake.head, Point(2, 2));
    }
}

#[test]
fn up_loses_at_top_row() {
    let snake = snake_at(Point(1, 0), Direction::Up, vec![]);
    let mut g = game_on(5, 5, snake, Some(Point(4, 4)));
    g.update();
    assert_eq!(g.state, GameState::Lose);
    assert_eq!(g.snake.head, Point(1, 0));
}

#[test]
fn down_loses_at_bottom_row() {
    let snake = snake_at(Point(1, 4), Direction::Down, vec![]);
    let mut g = game_on(5, 5, snake, Some(Point(0, 0)));
    g.update();
    assert_eq!(g.state, GameState::Lose);
}

#[test]
fn left_loses_at_first_column() {
    let snake = snake_at(Point(0, 0), Direction::Left, vec![]);
    let mut g = game_on(5, 5, snake, Some(Point(4, 4)));
    g.update();
    assert_eq!(g.state, GameState::Lose);
    assert_eq!(g.snake.head, Point(0, 0));
}

#[test]
fn right_is_one_column_more_permissive() {
    let snake = snake_at(Point(4, 2), Direction::Right, vec![]);
    let mut g = game_on(5, 5, snake, Some(Point(0, 0)));
    // x == width - 1 still moves, one cell past the last column
    g.update();
    assert_eq!(g.state, GameState::Running);
    assert_eq!(g.snake.head, Point(5, 2));
    // x > width - 1 loses
    g.update();
    assert_eq!(g.state, GameState::Lose);
    assert_eq!(g.snake.head, Point(5, 2));
}

#[test]
fn full_board_count_makes_placement_absent() {
    let snake = snake_at(Point(0, 0), Direction::Right, vec![Point(1, 0)]);
    let g = game_on(2, 1, snake, Some(Point(1, 0)));
    assert_eq!(g.gen_seed(), None);
}

#[test]
fn full_board_count_fires_even_with_overlapping_body() {
    // body.len() + 1 counts cells, not distinct cells: (2, 0) is free
    let snake = snake_at(Point(0, 0), Direction::Right, vec![Point(1, 0), Point(1, 0)]);
    let g = game_on(3, 1, snake, Some(Point(1, 0)));
    assert_eq!(g.gen_seed(), None);
}

#[test]
fn covered_board_makes_placement_absent() {
    // the count check passes (3 != 2) but no cell is free
    let snake = snake_at(Point(0, 0), Direction::Right, vec![Point(1, 0), Point(1, 0)]);
    let g = game_on(2, 1, snake, Some(Point(1, 0)));
    assert_eq!(g.gen_seed(), None);
}

#[test]
fn placement_picks_the_one_free_cell() {
    let snake = snake_at(Point(0, 0), Direction::Right, vec![]);
    let g = game_on(2, 1, snake, Some(Point(1, 0)));
    assert_eq!(g.gen_seed(), Some(Point(1, 0)));
}

#[test]
fn placement_avoids_head_and_body() {
    let snake = snake_at(Point(1, 1), Direction::Right, vec![Point(0, 1), Point(0, 0)]);
    let g = game_on(3, 3, snake, Some(Point(2, 2)));
    for _ in 0..50 {
        let p = g.gen_seed().expect("free cells remain");
        assert!(p.0 < 3 && p.1 < 3);
        assert_ne!(p, Point(1, 1));
        assert_ne!(p, Point(0, 1));
        assert_ne!(p, Point(0, 0));
    }
}

#[test]
fn reaching_food_on_a_narrow_board_then_scoring() {
    // width 3, height 1: the head steps onto the food, and the next tick eats it
    let snake = snake_at(Point(0, 0), Direction::Right, vec![]);
    let mut g = game_on(3, 1, snake, Some(Point(1, 0)));
    g.update();
    assert_eq!(g.state, GameState::Running);
    assert_eq!(g.snake.head, Point(1, 0));
    assert_eq!(g.score, 0);
    g.update();
    assert_eq!(g.score, 1);
}

#[test]
fn filling_the_board_wins() {
    let snake = snake_at(Point(0, 0), Direction::Right, vec![]);
    let mut g = game_on(2, 1, snake, Some(Point(1, 0)));
    g.update();
    assert_eq!(g.state, GameState::Running);
    assert_eq!(g.snake.head, Point(1, 0));
    g.update();
    assert_eq!(g.state, GameState::Win);
    assert_eq!(g.score, 1);
    assert_eq!(g.seed, None);
    assert_eq!(g.snake.body, vec![Point(1, 0), Point(0, 0)]);
}

#[test]
fn draw_marks_head_food_body_and_empty_cells() {
    let snake = snake_at(Point(0, 0), Direction::Right, vec![Point(0, 1)]);
    let g = game_on(2, 2, snake, Some(Point(1, 1)));
    assert_eq!(g.draw(), "> \n·#\n");
}

#[test]
fn draw_glyph_follows_the_direction() {
    for (d, glyph) in [
        (Direction::Up, '^'),
        (Direction::Down, 'v'),
        (Direction::Left, '<'),
        (Direction::Right, '>'),
    ] {
        let snake = snake_at(Point(0, 0), d, vec![]);
        let g = game_on(1, 1, snake, None);
        assert_eq!(g.draw(), format!("{}\n", glyph));
    }
}

#[test]
fn draw_shape_matches_the_board() {
    let snake = snake_at(Point(0, 0), Direction::Down, vec![]);
    let g = game_on(4, 3, snake, Some(Point(2, 1)));
    let s = g.draw();
    assert_eq!(s.chars().count(), 3 * 5);
    for line in s.lines() {
        assert_eq!(line.chars().count(), 4);
    }
    assert_eq!(s, "v   \n  # \n    \n");
}
