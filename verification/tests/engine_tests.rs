use snake_core::engine::{
    AppleInsertError, Direction, DirectionChangeError, PlaneField, Point, SnakeContext,
};

const PLANE_WIDTH: usize = 20;
const PLANE_HEIGHT: usize = 10;

#[test]
fn test_should_create_empty_20_10_plane_after_initialization() {
    let game = SnakeContext::new();
    for y in 0..PLANE_HEIGHT {
        for x in 0..PLANE_WIDTH {
            assert_eq!(PlaneField::Empty, game.plane_field(x as u32, y as u32));
        }
    }
}

#[test]
fn test_should_generate_snake_with_length_3_at_point_10_5_faced_to_the_left_when_new_game_call() {
    let mut game = SnakeContext::new();
    game.new_game();
    game.update_plane();
    let initial_pos = (10u32, 5u32);
    assert_eq!(PlaneField::Body, game.plane_field(initial_pos.0, initial_pos.1));
    assert_eq!(PlaneField::Body, game.plane_field(initial_pos.0 + 1, initial_pos.1));
    assert_eq!(PlaneField::Body, game.plane_field(initial_pos.0 + 2, initial_pos.1));
    assert_eq!(Direction::Left, game.current_direction());
}

#[test]
fn test_should_move_snake_body_to_the_left_when_update_position_call_after_new_game_call() {
    let mut game = SnakeContext::new();
    game.new_game();
    let initial_pos = (10u32, 5u32);
    game.update_position();
    game.update_plane();
    assert_eq!(PlaneField::Body, game.plane_field(initial_pos.0 - 1, initial_pos.1));
    assert_eq!(PlaneField::Body, game.plane_field(initial_pos.0, initial_pos.1));
    assert_eq!(PlaneField::Body, game.plane_field(initial_pos.0 + 1, initial_pos.1));
}

#[test]
fn test_should_return_direction_error_when_illegal_direction_change_horizontal_case() {
    let mut game = SnakeContext::new();
    game.new_game();
    let result = game.change_direction(Direction::Right);
    assert_eq!(DirectionChangeError, result.unwrap_err());
}

#[test]
fn test_should_change_direction_successfully_when_correct_direction_change_horizontal_case() {
    let mut game = SnakeContext::new();
    game.new_game();
    let result = game.change_direction(Direction::Up);
    assert_eq!(true, result.is_ok());
}

#[test]
fn test_should_return_direction_error_when_illegal_direction_change_vertical_case() {
    let mut game = SnakeContext::new();
    game.new_game();
    game.change_direction(Direction::Up)
        .expect("Directions should be ok in this scenario");
    for _ in 0..3 {
        game.update_position();
    }
    let result = game.change_direction(Direction::Down);
    assert_eq!(DirectionChangeError, result.unwrap_err());
}

#[test]
fn test_should_change_direction_successfully_when_correct_direction_change_vertical_case() {
    let mut game = SnakeContext::new();
    game.new_game();
    game.change_direction(Direction::Up)
        .expect("Directions should be ok in this scenario");
    for _ in 0..3 {
        game.update_position();
    }
    let result = game.change_direction(Direction::Left);
    assert_eq!(true, result.is_ok());
}

#[test]
fn test_should_move_snake_up_when_update_position_after_direction_change_to_up() {
    let mut game = SnakeContext::new();
    game.new_game();
    let initial_pos = (10u32, 5u32);
    game.change_direction(Direction::Up)
        .expect("Directions should be ok in this scenario");
    game.update_position();
    game.update_plane();
    assert_eq!(PlaneField::Body, game.plane_field(initial_pos.0, initial_pos.1 - 1));
    assert_eq!(PlaneField::Body, game.plane_field(initial_pos.0, initial_pos.1));
    assert_eq!(PlaneField::Body, game.plane_field(initial_pos.0 + 1, initial_pos.1));
}

#[test]
fn test_should_move_snake_to_opposite_wall_when_wall_reached_left_case() {
    let mut game = SnakeContext::new();
    game.new_game();
    for _ in 0..10 {
        game.update_position();
    }
    game.update_position();
    game.update_plane();
    let expected_pos = (0u32, 5u32);
    assert_eq!(
        PlaneField::Body,
        game.plane_field((PLANE_WIDTH - 1) as u32, expected_pos.1)
    );
    assert_eq!(PlaneField::Body, game.plane_field(expected_pos.0, expected_pos.1));
    assert_eq!(PlaneField::Body, game.plane_field(expected_pos.0 + 1, expected_pos.1));
}

#[test]
fn test_should_move_snake_to_opposite_wall_when_wall_reached_up_case() {
    let mut game = SnakeContext::new();
    game.new_game();
    game.change_direction(Direction::Up)
        .expect("Directions should be ok in this scenario");
    for _ in 0..5 {
        game.update_position();
    }
    game.update_position();
    game.update_plane();
    let expected_pos = (10u32, 0u32);
    assert_eq!(
        PlaneField::Body,
        game.plane_field(expected_pos.0, (PLANE_HEIGHT - 1) as u32)
    );
    assert_eq!(PlaneField::Body, game.plane_field(expected_pos.0, expected_pos.1));
    assert_eq!(PlaneField::Body, game.plane_field(expected_pos.0, expected_pos.1 + 1));
}

#[test]
fn test_should_move_snake_in_direction_when_not_collides_with_body() {
    let mut game = SnakeContext::new();
    game.new_game();
    game.update_position();
    game.change_direction(Direction::Up)
        .expect("Directions should be ok in this scenario");
    game.update_position();
    game.change_direction(Direction::Right)
        .expect("Directions should be ok in this scenario");
    game.update_position();
    game.update_plane();
    let expected_pos = (10u32, 5u32);
    assert_eq!(PlaneField::Body, game.plane_field(expected_pos.0, expected_pos.1 - 1));
    assert_eq!(
        PlaneField::Body,
        game.plane_field(expected_pos.0 - 1, expected_pos.1 - 1)
    );
    assert_eq!(PlaneField::Body, game.plane_field(expected_pos.0 - 1, expected_pos.1));
}

#[test]
fn test_should_not_change_to_opposite_direction_when_snake_second_node_is_on_the_same_axis() {
    let mut game = SnakeContext::new();
    game.new_game();
    game.update_position();
    game.change_direction(Direction::Up)
        .expect("Directions should be ok in this scenario");
    game.update_position();
    game.change_direction(Direction::Right)
        .expect("Directions should be ok in this scenario");
    game.update_position();
    game.update_plane();
    let expected_pos = (10u32, 5u32);
    assert_eq!(PlaneField::Body, game.plane_field(expected_pos.0, expected_pos.1 - 1));
    assert_eq!(
        PlaneField::Body,
        game.plane_field(expected_pos.0 - 1, expected_pos.1 - 1)
    );
    assert_eq!(PlaneField::Body, game.plane_field(expected_pos.0 - 1, expected_pos.1));
}

#[test]
fn test_should_insert_apple_successfully_when_not_colliding_with_snake() {
    let mut game = SnakeContext::new();
    game.new_game();
    let result = game.insert_apple(Point(0, 0));
    assert_eq!(true, result.is_ok());
}

#[test]
fn test_should_insert_apple_result_in_error_when_colliding_with_snake() {
    let mut game = SnakeContext::new();
    game.new_game();
    let initial_pos = Point(10, 5);
    let result = game.insert_apple(initial_pos);
    assert_eq!(AppleInsertError, result.unwrap_err());
}

#[test]
fn test_should_insert_apple_result_in_error_when_colliding_with_other_apple() {
    let mut game = SnakeContext::new();
    game.new_game();
    game.insert_apple(Point(0, 0))
        .expect("it should be ok in this case");
    let result = game.insert_apple(Point(0, 0));
    assert_eq!(AppleInsertError, result.unwrap_err());
}

#[test]
fn test_should_append_snake_when_encounter_apple_left_case() {
    let mut game = SnakeContext::new();
    game.new_game();
    game.insert_apple(Point(9, 5))
        .expect("it should be ok in this case");
    game.update_position();
    game.update_plane();
    let initial_pos = Point(10, 5);
    assert_eq!(PlaneField::Body, game.plane_field(initial_pos.0 + 2, initial_pos.1));
}
