use snake_core::direction_request::DirectionRequest;
use snake_core::engine::Direction;
use snake_core::http_error::NotFoundError;

#[test]
fn test_opposite_direction_pairs() {
    assert_eq!(DirectionRequest::Down, DirectionRequest::Up.opposite_direction());
    assert_eq!(DirectionRequest::Up, DirectionRequest::Down.opposite_direction());
    assert_eq!(DirectionRequest::Right, DirectionRequest::Left.opposite_direction());
    assert_eq!(DirectionRequest::Left, DirectionRequest::Right.opposite_direction());
}

#[test]
fn test_request_from_index() {
    assert_eq!(DirectionRequest::Up, DirectionRequest::from_index(0));
    assert_eq!(DirectionRequest::Down, DirectionRequest::from_index(1));
    assert_eq!(DirectionRequest::Left, DirectionRequest::from_index(2));
    assert_eq!(DirectionRequest::Right, DirectionRequest::from_index(3));
}

#[test]
fn test_known_tokens_parse_to_their_directions() {
    assert_eq!(Some(DirectionRequest::Up), DirectionRequest::try_from("up").ok());
    assert_eq!(Some(DirectionRequest::Down), DirectionRequest::try_from("down").ok());
    assert_eq!(Some(DirectionRequest::Left), DirectionRequest::try_from("left").ok());
    assert_eq!(Some(DirectionRequest::Right), DirectionRequest::try_from("right").ok());
}

#[test]
fn test_unknown_tokens_are_refused() {
    assert!(DirectionRequest::try_from("").is_err());
    assert!(DirectionRequest::try_from("Up").is_err());
    assert!(DirectionRequest::try_from("upward").is_err());
    assert!(DirectionRequest::try_from("u").is_err());
    let err = DirectionRequest::try_from("north").unwrap_err();
    assert_eq!("Direction of provided type does not exist", err.message());
}

#[test]
fn test_request_and_direction_convert_both_ways() {
    assert_eq!(Direction::Up, Direction::from(DirectionRequest::Up));
    assert_eq!(Direction::Down, Direction::from(DirectionRequest::Down));
    assert_eq!(Direction::Left, Direction::from(DirectionRequest::Left));
    assert_eq!(Direction::Right, Direction::from(DirectionRequest::Right));
    assert_eq!(DirectionRequest::Up, DirectionRequest::from(Direction::Up));
    assert_eq!(DirectionRequest::Down, DirectionRequest::from(Direction::Down));
    assert_eq!(DirectionRequest::Left, DirectionRequest::from(Direction::Left));
    assert_eq!(DirectionRequest::Right, DirectionRequest::from(Direction::Right));
}

#[test]
fn test_not_found_error_keeps_its_message() {
    let err = NotFoundError::new("Direction not found");
    assert_eq!("Direction not found", err.message());
}
