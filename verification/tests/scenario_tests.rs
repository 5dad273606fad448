use snake_core::engine::{Direction, PlaneField, Point, SnakeContext};

const PLANE_WIDTH: u32 = 20;
const PLANE_HEIGHT: u32 = 10;

fn cell_count(game: &SnakeContext, kind: PlaneField) -> usize {
    let mut n = 0;
    for y in 0..PLANE_HEIGHT {
        for x in 0..PLANE_WIDTH {
            if game.plane_field(x, y) == kind {
                n += 1;
            }
        }
    }
    n
}

#[test]
fn test_new_game_grid_has_exactly_the_three_body_cells() {
    let mut game = SnakeContext::new();
    game.new_game();
    assert_eq!(3, game.snake_length());
    assert_eq!(Direction::Left, game.current_direction());
    for y in 0..PLANE_HEIGHT {
        for x in 0..PLANE_WIDTH {
            let expected = if y == 5 && (10..=12).contains(&x) {
                PlaneField::Body
            } else {
                PlaneField::Empty
            };
            assert_eq!(expected, game.plane_field(x, y));
        }
    }
}

#[test]
fn test_one_tick_after_new_game_moves_body_one_column_left() {
    let mut game = SnakeContext::new();
    game.new_game();
    game.tick(None);
    assert_eq!(3, game.snake_length());
    for x in 9..=11 {
        assert_eq!(PlaneField::Body, game.plane_field(x, 5));
    }
    assert_eq!(PlaneField::Empty, game.plane_field(12, 5));
}

#[test]
fn test_wrap_around_right_edge() {
    let mut game = SnakeContext::new();
    game.new_game();
    game.change_direction(Direction::Up).unwrap();
    game.tick(None);
    game.change_direction(Direction::Right).unwrap();
    for _ in 0..10 {
        game.tick(None);
    }
    // The head walked from column 10 to 19 and wrapped to column 0, row 4.
    assert_eq!(PlaneField::Body, game.plane_field(0, 4));
    assert_eq!(PlaneField::Body, game.plane_field(PLANE_WIDTH - 1, 4));
    assert_eq!(PlaneField::Body, game.plane_field(PLANE_WIDTH - 2, 4));
}

#[test]
fn test_wrap_around_bottom_edge() {
    let mut game = SnakeContext::new();
    game.new_game();
    game.change_direction(Direction::Down).unwrap();
    for _ in 0..5 {
        game.tick(None);
    }
    // The head walked from row 5 to 9 and wrapped to row 0, column 10.
    assert_eq!(PlaneField::Body, game.plane_field(10, 0));
    assert_eq!(PlaneField::Body, game.plane_field(10, PLANE_HEIGHT - 1));
    assert_eq!(PlaneField::Body, game.plane_field(10, PLANE_HEIGHT - 2));
}

#[test]
fn test_eating_an_apple_grows_by_one_and_removes_only_that_apple() {
    let mut game = SnakeContext::new();
    game.new_game();
    game.insert_apple(Point(9, 5)).unwrap();
    game.insert_apple(Point(0, 0)).unwrap();
    game.tick(None);
    assert_eq!(4, game.snake_length());
    assert!(!game.has_apple(Point(9, 5)));
    assert!(game.has_apple(Point(0, 0)));
    assert_eq!(4, cell_count(&game, PlaneField::Body));
    assert_eq!(1, cell_count(&game, PlaneField::Apple));
}

#[test]
fn test_self_collision_resets_to_a_state_indistinguishable_from_new_game() {
    let mut game = SnakeContext::new();
    game.new_game();
    // Grow to length five, then curl into the body.
    game.insert_apple(Point(9, 5)).unwrap();
    game.insert_apple(Point(8, 5)).unwrap();
    game.tick(None);
    game.tick(None);
    assert_eq!(5, game.snake_length());
    game.change_direction(Direction::Up).unwrap();
    game.tick(None);
    game.change_direction(Direction::Right).unwrap();
    game.tick(None);
    game.change_direction(Direction::Down).unwrap();
    game.tick(None);
    // The head would re-enter the body: the game restarted.
    let mut fresh = SnakeContext::new();
    fresh.new_game();
    assert_eq!(fresh.snake_length(), game.snake_length());
    assert_eq!(fresh.current_direction(), game.current_direction());
    assert_eq!(fresh.get_plane_string(), game.get_plane_string());
}

#[test]
fn test_tail_growth_wraps_with_the_tails_travel() {
    let mut game = SnakeContext::new();
    game.new_game();
    // Walk left until the body straddles the left edge: (19,5),(0,5),(1,5).
    for _ in 0..11 {
        game.tick(None);
    }
    assert_eq!(PlaneField::Body, game.plane_field(19, 5));
    assert_eq!(PlaneField::Body, game.plane_field(0, 5));
    assert_eq!(PlaneField::Body, game.plane_field(1, 5));
    game.insert_apple(Point(18, 5)).unwrap();
    game.tick(None);
    // The tail grows back onto the cell it had just vacated, across the
    // wrapped edge: no self-overlap.
    assert_eq!(4, game.snake_length());
    assert_eq!(4, cell_count(&game, PlaneField::Body));
    for x in [18, 19, 0, 1] {
        assert_eq!(PlaneField::Body, game.plane_field(x, 5));
    }
}

#[test]
fn test_insert_apple_out_of_bounds_is_refused() {
    let mut game = SnakeContext::new();
    game.new_game();
    assert!(game.insert_apple(Point(PLANE_WIDTH, 0)).is_err());
    assert!(game.insert_apple(Point(0, PLANE_HEIGHT)).is_err());
}

#[test]
fn test_plane_string_renders_rows_with_newlines() {
    let mut game = SnakeContext::new();
    game.new_game();
    game.insert_apple(Point(0, 0)).unwrap();
    game.update_plane();
    let rendered = game.get_plane_string();
    let mut expected = String::new();
    for y in 0..PLANE_HEIGHT {
        for x in 0..PLANE_WIDTH {
            let c = if y == 5 && (10..=12).contains(&x) {
                'X'
            } else if y == 0 && x == 0 {
                '0'
            } else {
                '-'
            };
            expected.push(c);
        }
        expected.push('\n');
    }
    assert_eq!(expected, rendered);
}

#[test]
fn test_random_draw_stays_below_its_bound() {
    for _ in 0..100 {
        let r = snake_core::rng::random_below(3);
        assert!(r < 3);
    }
    assert_eq!(0, snake_core::rng::random_below(1));
}
