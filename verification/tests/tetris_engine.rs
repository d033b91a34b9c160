use grid_arcade::tetris::shapes::template;
use grid_arcade::tetris::{Point, Tetris, GAME_OVER};

fn shift_left(game: &mut Tetris, times: usize) {
    for _ in 0..times {
        game.left_once();
    }
}

fn shift_right(game: &mut Tetris, times: usize) {
    for _ in 0..times {
        game.right_once();
    }
}

/// Drops the active shape and locks it, with `drawn` as the next preview.
fn land(game: &mut Tetris, drawn: usize) -> Result<(), &'static str> {
    game.down_immediately();
    game.move_on_with(drawn)
}

#[test]
fn new_game_starts_with_the_first_template_at_the_spawn_position() {
    let game = Tetris::with_preview(10, 20, 3);
    assert_eq!(game.width(), 10);
    assert_eq!(game.height(), 20);
    assert_eq!(game.score(), 0);
    assert!(game.bottom().is_empty());
    assert_eq!(game.now_index(), 0);
    assert_eq!(game.next_index(), 3);
    assert_eq!(
        game.now_shape(),
        vec![Point(4, 0), Point(5, 0), Point(5, 1), Point(6, 0)]
    );
    assert_eq!(game.next_shape(), template(3));
    assert!(!game.game_over());
}

#[test]
fn random_preview_is_one_of_the_seven_templates() {
    let mut seen = [false; 7];
    for _ in 0..400 {
        let game = Tetris::new_with_bounds(10, 20);
        assert!(game.next_index() < 7);
        assert_eq!(game.next_shape(), template(game.next_index()));
        assert_eq!(game.now_index(), 0);
        assert_eq!(game.score(), 0);
        seen[game.next_index()] = true;
    }
    assert!(seen.iter().filter(|s| **s).count() > 1);
}

#[test]
fn game_over_message_is_fixed() {
    assert_eq!(GAME_OVER, "You lose! Game over...");
}

#[test]
fn tick_lowers_a_free_shape_by_one_row() {
    let mut game = Tetris::with_preview(10, 20, 1);
    assert_eq!(game.move_on_with(5), Ok(()));
    assert_eq!(
        game.now_shape(),
        vec![Point(4, 1), Point(5, 1), Point(5, 2), Point(6, 1)]
    );
    assert_eq!(game.next_index(), 1);
    assert!(game.bottom().is_empty());
    assert_eq!(game.score(), 0);
}

#[test]
fn shift_left_then_right_restores_the_position() {
    let mut game = Tetris::with_preview(10, 20, 0);
    let before = game.now_shape();
    game.left_once();
    assert_eq!(
        game.now_shape(),
        vec![Point(3, 0), Point(4, 0), Point(4, 1), Point(5, 0)]
    );
    game.right_once();
    assert_eq!(game.now_shape(), before);
    game.right_once();
    game.left_once();
    assert_eq!(game.now_shape(), before);
}

#[test]
fn shift_stops_at_the_side_walls() {
    let mut game = Tetris::with_preview(10, 20, 0);
    shift_left(&mut game, 25);
    assert_eq!(
        game.now_shape(),
        vec![Point(0, 0), Point(1, 0), Point(1, 1), Point(2, 0)]
    );
    shift_right(&mut game, 25);
    assert_eq!(
        game.now_shape(),
        vec![Point(7, 0), Point(8, 0), Point(8, 1), Point(9, 0)]
    );
}

#[test]
fn rotate_turns_offsets_about_the_pivot() {
    let mut game = Tetris::with_preview(10, 20, 0);
    game.rotate();
    assert_eq!(
        game.now_shape(),
        vec![Point(5, 1), Point(5, 0), Point(6, 0), Point(5, -1)]
    );
}

#[test]
fn four_rotations_restore_every_turning_template() {
    for index in 0..6 {
        let mut game = Tetris::with_preview(10, 20, index);
        assert_eq!(land(&mut game, 0), Ok(()));
        assert_eq!(game.now_index(), index);
        // Two rows down, so that every orientation is free of the top.
        assert_eq!(game.move_on_with(0), Ok(()));
        assert_eq!(game.move_on_with(0), Ok(()));
        let before = game.now_shape();
        let mut turned = Vec::new();
        for _ in 0..4 {
            game.rotate();
            turned.push(game.now_shape());
        }
        assert_ne!(turned[0], before);
        assert_eq!(turned[3], before);
    }
}

#[test]
fn rotate_leaves_the_square_unchanged() {
    let mut game = Tetris::with_preview(10, 20, 6);
    assert_eq!(land(&mut game, 0), Ok(()));
    assert_eq!(game.now_index(), 6);
    let before = game.now_shape();
    assert_eq!(
        before,
        vec![Point(5, 1), Point(5, 0), Point(6, 1), Point(6, 0)]
    );
    game.rotate();
    assert_eq!(game.now_shape(), before);
}

#[test]
fn rotate_is_dropped_when_the_turned_shape_would_leave_the_field() {
    let mut game = Tetris::with_preview(10, 20, 3);
    assert_eq!(land(&mut game, 0), Ok(()));
    assert_eq!(game.now_index(), 3);
    // The bar, turned upright at the left wall, then pushed against it.
    game.rotate();
    shift_left(&mut game, 25);
    assert_eq!(
        game.now_shape(),
        vec![Point(0, 1), Point(0, 0), Point(0, -1), Point(0, -2)]
    );
    let upright = game.now_shape();
    // Lying down it would reach column -2.
    game.rotate();
    assert_eq!(game.now_shape(), upright);
}

#[test]
fn hard_drop_rests_on_the_floor_and_does_not_lock() {
    let mut game = Tetris::with_preview(10, 20, 2);
    game.down_immediately();
    assert_eq!(
        game.now_shape(),
        vec![Point(4, 18), Point(5, 18), Point(5, 19), Point(6, 18)]
    );
    assert!(game.bottom().is_empty());
    let rest = game.now_shape();
    game.down_once();
    assert_eq!(game.now_shape(), rest);
    game.down_immediately();
    assert_eq!(game.now_shape(), rest);
}

#[test]
fn tick_after_hard_drop_locks_and_spawns_the_preview() {
    let mut game = Tetris::with_preview(10, 20, 2);
    assert_eq!(land(&mut game, 5), Ok(()));
    assert_eq!(
        game.bottom(),
        &vec![Point(4, 18), Point(5, 18), Point(5, 19), Point(6, 18)]
    );
    assert_eq!(game.now_index(), 2);
    assert_eq!(game.next_index(), 5);
    assert_eq!(
        game.now_shape(),
        vec![Point(4, 0), Point(5, 1), Point(5, 0), Point(6, 1)]
    );
    assert_eq!(game.score(), 0);
}

#[test]
fn hard_drop_rests_on_settled_blocks() {
    let mut game = Tetris::with_preview(10, 20, 6);
    assert_eq!(land(&mut game, 0), Ok(()));
    game.down_immediately();
    // The square comes to rest on the shape below it.
    assert_eq!(
        game.now_shape(),
        vec![Point(5, 17), Point(5, 16), Point(6, 17), Point(6, 16)]
    );
}

#[test]
fn shift_is_blocked_by_settled_blocks() {
    let mut game = Tetris::with_preview(10, 20, 3);
    assert_eq!(land(&mut game, 3), Ok(()));
    // An upright bar against the left wall.
    game.move_on_with(0).unwrap();
    game.move_on_with(0).unwrap();
    game.rotate();
    shift_left(&mut game, 25);
    assert_eq!(land(&mut game, 0), Ok(()));
    assert_eq!(
        game.bottom()[4..],
        [Point(0, 19), Point(0, 18), Point(0, 17), Point(0, 16)]
    );
    // A lying bar, at rest on the first shape, goes left as far as the
    // upright one.
    game.down_immediately();
    shift_left(&mut game, 25);
    assert_eq!(
        game.now_shape(),
        vec![Point(1, 17), Point(2, 17), Point(3, 17), Point(4, 17)]
    );
    assert_eq!(game.score(), 0);
    assert_eq!(game.move_on_with(0), Ok(()));
    assert_eq!(game.score(), 0);
}

#[test]
fn completing_one_row_clears_it_and_scores_100() {
    let mut game = Tetris::with_preview(10, 20, 3);
    // The first shape, turned upside down, in columns 0 to 2.
    shift_left(&mut game, 4);
    game.rotate();
    game.rotate();
    assert_eq!(land(&mut game, 4), Ok(()));
    assert_eq!(
        game.bottom(),
        &vec![Point(2, 19), Point(1, 19), Point(1, 18), Point(0, 19)]
    );
    // The bar in columns 3 to 6.
    game.left_once();
    assert_eq!(land(&mut game, 6), Ok(()));
    assert_eq!(game.score(), 0);
    // The hook, turned upside down, in columns 7 to 9.
    assert_eq!(game.now_index(), 4);
    game.rotate();
    game.rotate();
    shift_right(&mut game, 3);
    assert_eq!(land(&mut game, 0), Ok(()));
    assert_eq!(game.score(), 100);
    assert_eq!(game.bottom(), &vec![Point(1, 19), Point(9, 19)]);
    assert_eq!(game.now_index(), 6);
    assert_eq!(game.next_index(), 0);
}

#[test]
fn game_ends_at_once_on_a_field_of_one_row() {
    let mut game = Tetris::with_preview(10, 1, 2);
    assert_eq!(game.move_on_with(4), Err(GAME_OVER));
    assert!(game.game_over());
    assert!(game.bottom().iter().any(|p| p.1 <= 0));
    assert_eq!(game.now_index(), 2);
    assert_eq!(game.next_index(), 4);
}

#[test]
fn game_ends_when_the_stack_reaches_the_top_row() {
    let mut game = Tetris::with_preview(10, 20, 6);
    let mut ticks = 0;
    let outcome = loop {
        ticks += 1;
        assert!(ticks < 100);
        match land(&mut game, 6) {
            Ok(()) => assert!(!game.game_over()),
            Err(message) => break message,
        }
    };
    assert_eq!(outcome, "You lose! Game over...");
    assert!(game.game_over());
    assert!(game.bottom().iter().any(|p| p.1 <= 0));
}

#[test]
fn finished_game_stays_as_it_is_until_reset() {
    let mut game = Tetris::with_preview(10, 1, 2);
    assert_eq!(game.move_on_with(4), Err(GAME_OVER));
    let settled = game.bottom().clone();
    let active = game.now_shape();
    let score = game.score();
    for _ in 0..3 {
        assert_eq!(game.move_on_with(1), Err(GAME_OVER));
        assert_eq!(game.move_on(), Err(GAME_OVER));
        assert_eq!(game.bottom(), &settled);
        assert_eq!(game.now_shape(), active);
        assert_eq!(game.score(), score);
        assert_eq!(game.next_index(), 4);
    }
    game.reset_with(5);
    assert!(!game.game_over());
    assert!(game.bottom().is_empty());
}

#[test]
fn reset_restores_a_new_game() {
    let mut game = Tetris::with_preview(10, 20, 3);
    shift_left(&mut game, 4);
    game.rotate();
    game.rotate();
    land(&mut game, 4).unwrap();
    game.left_once();
    land(&mut game, 6).unwrap();
    game.rotate();
    game.rotate();
    shift_right(&mut game, 3);
    land(&mut game, 0).unwrap();
    assert_eq!(game.score(), 100);
    assert!(!game.bottom().is_empty());
    game.reset_with(2);
    assert_eq!(game.score(), 0);
    assert!(game.bottom().is_empty());
    assert_eq!(game.width(), 10);
    assert_eq!(game.height(), 20);
    assert_eq!(game.now_index(), 0);
    assert_eq!(game.next_index(), 2);
    assert_eq!(
        game.now_shape(),
        vec![Point(4, 0), Point(5, 0), Point(5, 1), Point(6, 0)]
    );
    game.reset();
    assert_eq!(game.score(), 0);
    assert!(game.bottom().is_empty());
    assert!(game.next_index() < 7);
    assert_eq!(game.now_index(), 0);
}

#[test]
fn random_play_keeps_the_active_shape_inside_the_field() {
    let mut game = Tetris::new_with_bounds(10, 20);
    let mut last_score = 0;
    for tick in 0..3000 {
        match tick % 7 {
            0 => game.left_once(),
            1 | 4 => game.rotate(),
            2 => game.right_once(),
            5 => game.down_immediately(),
            _ => {}
        }
        for p in game.now_shape() {
            assert!(0 <= p.0 && p.0 < 10);
            assert!(p.1 < 20);
        }
        if game.move_on().is_err() {
            assert!(game.game_over());
            game.reset();
            last_score = 0;
        }
        assert!(game.next_index() < 7);
        assert!(game.now_index() < 7);
        assert!(game.score() >= last_score);
        let gained = game.score() - last_score;
        assert!([0, 100, 300, 500, 800].contains(&gained));
        last_score = game.score();
        for y in 0..20 {
            let full = (0..10).all(|x| game.bottom().contains(&Point(x, y)));
            assert!(!full);
        }
        let settled = game.bottom();
        for (i, p) in settled.iter().enumerate() {
            assert!(0 <= p.0 && p.0 < 10 && p.1 < 20);
            if !game.game_over() {
                assert!(p.1 >= 1);
                assert!(!settled[..i].contains(p));
            }
        }
    }
}

/// A low field on which the square is spawned onto the block at (5, 1).
fn square_spawned_onto_the_stack() -> Tetris {
    let mut game = Tetris::with_preview(10, 4, 6);
    game.rotate();
    assert_eq!(land(&mut game, 0), Ok(()));
    assert_eq!(
        game.bottom(),
        &vec![Point(5, 3), Point(5, 2), Point(6, 2), Point(5, 1)]
    );
    assert_eq!(
        game.now_shape(),
        vec![Point(5, 1), Point(5, 0), Point(6, 1), Point(6, 0)]
    );
    game
}

#[test]
fn shape_spawned_onto_the_stack_can_be_moved_off_but_not_back() {
    let mut game = square_spawned_onto_the_stack();
    game.left_once();
    assert_eq!(
        game.now_shape(),
        vec![Point(5, 1), Point(5, 0), Point(6, 1), Point(6, 0)]
    );
    game.right_once();
    let moved = vec![Point(6, 1), Point(6, 0), Point(7, 1), Point(7, 0)];
    assert_eq!(game.now_shape(), moved);
    game.left_once();
    assert_eq!(game.now_shape(), moved);
}

#[test]
fn locking_a_shape_where_it_was_spawned_ends_the_game() {
    let mut game = square_spawned_onto_the_stack();
    assert_eq!(game.move_on_with(2), Err(GAME_OVER));
    assert_eq!(
        game.bottom(),
        &vec![
            Point(5, 3),
            Point(5, 2),
            Point(6, 2),
            Point(5, 1),
            Point(5, 1),
            Point(5, 0),
            Point(6, 1),
            Point(6, 0)
        ]
    );
    assert_eq!(game.score(), 0);
}

#[test]
fn next_tick_is_ready_on_every_board_of_a_game() {
    let mut game = Tetris::with_preview(10, 20, 3);
    for tick in 0..200 {
        assert!(game.can_move_on());
        if tick % 3 == 0 {
            game.down_immediately();
        }
        if game.move_on_with(tick % 7).is_err() {
            break;
        }
    }
    assert!(game.can_move_on());
}
