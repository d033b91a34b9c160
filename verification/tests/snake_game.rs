use grid_arcade::snake::{Direction, Point, Snake, HIT_TAIL, HIT_WALL};

#[test]
fn snake_starts_at_ten_ten_heading_down() {
    let snake = Snake::new_with_bounds(30, 20);
    assert_eq!(snake.head, Point(10, 10));
    assert!(snake.body.is_empty());
    assert_eq!(snake.egg, Point(15, 10));
    assert_eq!(snake.direction, Direction::Down);
    assert_eq!(snake.width, 30);
    assert_eq!(snake.height, 20);
}

#[test]
fn snake_moves_one_cell_in_its_direction() {
    let mut snake = Snake::new_with_bounds(30, 30);
    assert_eq!(snake.move_on(), Ok(()));
    assert_eq!(snake.head, Point(10, 11));
    snake.direction = Direction::Left;
    assert_eq!(snake.move_on(), Ok(()));
    assert_eq!(snake.head, Point(9, 11));
    snake.direction = Direction::Up;
    assert_eq!(snake.move_on(), Ok(()));
    assert_eq!(snake.head, Point(9, 10));
    snake.direction = Direction::Right;
    assert_eq!(snake.move_on(), Ok(()));
    assert_eq!(snake.head, Point(10, 10));
    assert!(snake.body.is_empty());
    assert_eq!(snake.egg, Point(15, 15));
}

#[test]
fn body_follows_the_head() {
    let mut snake = Snake::new_with_bounds(30, 30);
    snake.body = vec![Point(10, 8), Point(10, 9)];
    assert_eq!(snake.move_on_with(Point(0, 0)), Ok(()));
    assert_eq!(snake.head, Point(10, 11));
    assert_eq!(snake.body, vec![Point(10, 9), Point(10, 10)]);
    assert_eq!(snake.egg, Point(15, 15));
}

#[test]
fn snake_grows_onto_the_egg() {
    let mut snake = Snake::new_with_bounds(30, 30);
    snake.head = Point(15, 14);
    snake.body = vec![Point(15, 13)];
    assert_eq!(snake.move_on_with(Point(3, 4)), Ok(()));
    assert_eq!(snake.head, Point(15, 15));
    assert_eq!(snake.body, vec![Point(15, 13), Point(15, 14)]);
    assert_eq!(snake.egg, Point(3, 4));
}

#[test]
fn new_egg_lies_on_a_free_cell_of_the_field() {
    for _ in 0..200 {
        let mut snake = Snake::new_with_bounds(3, 3);
        snake.head = Point(1, 0);
        snake.egg = Point(1, 1);
        snake.body = vec![Point(0, 0), Point(0, 1), Point(0, 2)];
        assert_eq!(snake.move_on(), Ok(()));
        assert_eq!(snake.head, Point(1, 1));
        assert_eq!(
            snake.body,
            vec![Point(0, 0), Point(0, 1), Point(0, 2), Point(1, 0)]
        );
        let egg = snake.egg;
        assert!(0 <= egg.0 && egg.0 < 3 && 0 <= egg.1 && egg.1 < 3);
        assert_ne!(egg, snake.head);
        assert!(!snake.body.contains(&egg));
    }
}

#[test]
fn new_egg_takes_the_last_free_cell() {
    let mut snake = Snake::new_with_bounds(2, 2);
    snake.head = Point(0, 0);
    snake.direction = Direction::Right;
    snake.egg = Point(1, 0);
    snake.body = vec![Point(0, 1)];
    assert_eq!(snake.move_on(), Ok(()));
    assert_eq!(snake.egg, Point(1, 1));
}

#[test]
fn new_eggs_spread_over_the_free_cells() {
    let mut seen = Vec::new();
    for _ in 0..300 {
        let mut snake = Snake::new_with_bounds(4, 4);
        snake.head = Point(1, 0);
        snake.egg = Point(1, 1);
        snake.move_on().unwrap();
        if !seen.contains(&snake.egg) {
            seen.push(snake.egg);
        }
    }
    assert!(seen.len() > 1);
}

#[test]
fn leaving_the_field_hits_the_wall() {
    let mut snake = Snake::new_with_bounds(30, 30);
    snake.head = Point(0, 5);
    snake.direction = Direction::Left;
    assert_eq!(snake.move_on(), Err("HitWall..."));
    assert_eq!(snake.head, Point(-1, 5));

    let mut snake = Snake::new_with_bounds(30, 30);
    snake.head = Point(29, 5);
    snake.direction = Direction::Right;
    assert_eq!(snake.move_on(), Err(HIT_WALL));

    let mut snake = Snake::new_with_bounds(30, 30);
    snake.head = Point(4, 0);
    snake.direction = Direction::Up;
    assert_eq!(snake.move_on(), Err(HIT_WALL));

    let mut snake = Snake::new_with_bounds(30, 30);
    snake.head = Point(4, 29);
    assert_eq!(snake.move_on(), Err(HIT_WALL));
}

#[test]
fn running_into_a_long_body_hits_the_tail() {
    let mut snake = Snake::new_with_bounds(30, 30);
    snake.head = Point(4, 6);
    snake.direction = Direction::Right;
    snake.body = vec![Point(5, 5), Point(6, 5), Point(6, 6), Point(5, 6)];
    assert_eq!(snake.move_on(), Err("HitTail..."));
    assert_eq!(snake.head, Point(5, 6));
    assert_eq!(
        snake.body,
        vec![Point(6, 5), Point(6, 6), Point(5, 6), Point(4, 6)]
    );
}

#[test]
fn a_body_of_three_cells_is_never_hit() {
    let mut snake = Snake::new_with_bounds(30, 30);
    snake.head = Point(4, 6);
    snake.direction = Direction::Right;
    snake.body = vec![Point(6, 5), Point(6, 6), Point(5, 6)];
    assert_eq!(snake.move_on(), Ok(()));
    assert_eq!(snake.head, Point(5, 6));
}

#[test]
fn hit_tail_is_reported_before_hit_wall() {
    let mut snake = Snake::new_with_bounds(30, 30);
    snake.head = Point(0, 3);
    snake.direction = Direction::Left;
    snake.body = vec![
        Point(9, 9),
        Point(-1, 3),
        Point(-1, 4),
        Point(0, 4),
    ];
    assert_eq!(snake.move_on(), Err(HIT_TAIL));
}

#[test]
fn next_tick_is_ready_while_the_snake_has_room() {
    let mut snake = Snake::new_with_bounds(30, 30);
    for _ in 0..19 {
        assert!(snake.can_move_on());
        assert_eq!(snake.move_on(), Ok(()));
    }
    assert!(snake.can_move_on());
    assert_eq!(snake.move_on(), Err(HIT_WALL));
}

#[test]
fn next_tick_is_not_ready_when_no_cell_is_left_for_an_egg() {
    let mut snake = Snake::new_with_bounds(2, 1);
    snake.head = Point(0, 0);
    snake.egg = Point(1, 0);
    snake.direction = Direction::Right;
    assert!(!snake.can_move_on());
    // Heading away from the egg, the snake can go on, into the wall.
    snake.direction = Direction::Left;
    assert!(snake.can_move_on());
    assert_eq!(snake.move_on(), Err(HIT_WALL));
}

#[test]
fn next_tick_is_not_ready_at_the_end_of_the_coordinates() {
    let mut snake = Snake::new_with_bounds(30, 30);
    snake.head = Point(i64::MAX, 3);
    snake.direction = Direction::Right;
    assert!(!snake.can_move_on());
    snake.direction = Direction::Down;
    assert!(snake.can_move_on());
    snake.head = Point(3, i64::MIN);
    snake.direction = Direction::Up;
    assert!(!snake.can_move_on());
}
