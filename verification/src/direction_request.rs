//! Direction votes as submitted by external actors, and their mapping
//! from inbound string tokens and to the engine's directions.

use vstd::prelude::*;
use vstd::std_specs::iter::IteratorSpec;
use crate::engine::Direction;

verus! {

broadcast use vstd::string::axiom_spec_iter, vstd::string::next_postcondition;

/// One submitted direction preference, pending resolution at the next
/// scheduler tick.
#[derive(Debug, Copy, Clone, Eq, PartialEq, Hash, Structural)]
pub enum DirectionRequest {
    Up,
    Down,
    Left,
    Right,
}

/// Returned when an inbound token names no direction.
#[derive(Debug, Clone, PartialEq, Eq, Structural)]
pub struct UnknownDirectionError;

impl UnknownDirectionError {
    /// What the error means, for the transport layer to report.
    pub fn message(&self) -> &'static str {
        "Direction of provided type does not exist"
    }
}

/// The request that corresponds to an engine direction.
pub open spec fn request_of_direction(direction: Direction) -> DirectionRequest {
    match direction {
        Direction::Up => DirectionRequest::Up,
        Direction::Down => DirectionRequest::Down,
        Direction::Left => DirectionRequest::Left,
        Direction::Right => DirectionRequest::Right,
    }
}

/// The engine direction that corresponds to a request.
pub open spec fn direction_of_request(request: DirectionRequest) -> Direction {
    match request {
        DirectionRequest::Up => Direction::Up,
        DirectionRequest::Down => Direction::Down,
        DirectionRequest::Left => Direction::Left,
        DirectionRequest::Right => Direction::Right,
    }
}

impl DirectionRequest {
    /// The request for the opposite direction.
    pub open spec fn opposite_spec(self) -> DirectionRequest {
        match self {
            DirectionRequest::Up => DirectionRequest::Down,
            DirectionRequest::Down => DirectionRequest::Up,
            DirectionRequest::Left => DirectionRequest::Right,
            DirectionRequest::Right => DirectionRequest::Left,
        }
    }

    /// The request for the opposite direction.
    pub fn opposite_direction(&self) -> (r: Self)
        ensures
            r == self.opposite_spec(),
    {
        match self {
            DirectionRequest::Up => DirectionRequest::Down,
            DirectionRequest::Down => DirectionRequest::Up,
            DirectionRequest::Left => DirectionRequest::Right,
            DirectionRequest::Right => DirectionRequest::Left,
        }
    }

    /// The request with the given index, in declaration order.
    pub fn from_index(value: usize) -> (r: Self)
        requires
            value < 4,
        ensures
            value == 0 ==> r == DirectionRequest::Up,
            value == 1 ==> r == DirectionRequest::Down,
            value == 2 ==> r == DirectionRequest::Left,
            value == 3 ==> r == DirectionRequest::Right,
    {
        if value == 0 {
            DirectionRequest::Up
        } else if value == 1 {
            DirectionRequest::Down
        } else if value == 2 {
            DirectionRequest::Left
        } else {
            DirectionRequest::Right
        }
    }

    /// Maps an inbound token to the request it names: exactly "up",
    /// "down", "left" and "right" are known; anything else is refused.
    pub fn try_from(value: &str) -> (r: Result<Self, UnknownDirectionError>)
        ensures
            r == (if value@ == "up"@ {
                Ok::<DirectionRequest, UnknownDirectionError>(DirectionRequest::Up)
            } else if value@ == "down"@ {
                Ok::<DirectionRequest, UnknownDirectionError>(DirectionRequest::Down)
            } else if value@ == "left"@ {
                Ok::<DirectionRequest, UnknownDirectionError>(DirectionRequest::Left)
            } else if value@ == "right"@ {
                Ok::<DirectionRequest, UnknownDirectionError>(DirectionRequest::Right)
            } else {
                Err::<DirectionRequest, UnknownDirectionError>(UnknownDirectionError)
            }),
    {
        if str_eq(value, "up") {
            Ok(DirectionRequest::Up)
        } else if str_eq(value, "down") {
            Ok(DirectionRequest::Down)
        } else if str_eq(value, "left") {
            Ok(DirectionRequest::Left)
        } else if str_eq(value, "right") {
            Ok(DirectionRequest::Right)
        } else {
            Err(UnknownDirectionError)
        }
    }
}

impl From<Direction> for DirectionRequest {
    /// The request that names the same direction.
    fn from(direction: Direction) -> (r: Self) {
        match direction {
            Direction::Up => DirectionRequest::Up,
            Direction::Down => DirectionRequest::Down,
            Direction::Left => DirectionRequest::Left,
            Direction::Right => DirectionRequest::Right,
        }
    }
}

impl vstd::std_specs::convert::FromSpecImpl<Direction> for DirectionRequest {
    open spec fn obeys_from_spec() -> bool {
        true
    }

    open spec fn from_spec(direction: Direction) -> Self {
        request_of_direction(direction)
    }
}

impl From<DirectionRequest> for Direction {
    /// The engine direction that the request names.
    fn from(request: DirectionRequest) -> (r: Self) {
        match request {
            DirectionRequest::Up => Direction::Up,
            DirectionRequest::Down => Direction::Down,
            DirectionRequest::Left => Direction::Left,
            DirectionRequest::Right => Direction::Right,
        }
    }
}

impl vstd::std_specs::convert::FromSpecImpl<DirectionRequest> for Direction {
    open spec fn obeys_from_spec() -> bool {
        true
    }

    open spec fn from_spec(request: DirectionRequest) -> Self {
        direction_of_request(request)
    }
}

/// Whether two string slices hold the same characters.
fn str_eq(s: &str, t: &str) -> (r: bool)
    ensures
        r == (s@ == t@),
{
    let mut s_chars = s.chars();
    let mut t_chars = t.chars();
    loop
        invariant
            s_chars.obeys_prophetic_iter_laws(),
            t_chars.obeys_prophetic_iter_laws(),
            (s@ == t@) <==> (s_chars.remaining() =~= t_chars.remaining()),
            s_chars.decrease() is Some,
        decreases s_chars.decrease()->0,
    {
        let ghost s_iter_before = s_chars;
        let ghost t_iter_before = t_chars;
        let a = s_chars.next();
        let b = t_chars.next();
        match (a, b) {
            (Some(x), Some(y)) => {
                if x != y {
                    proof {
                        assert(s_iter_before.remaining()[0] == x && t_iter_before.remaining()[0] == y);
                        assert(!(s_iter_before.remaining() =~= t_iter_before.remaining()));
                    }
                    return false;
                }
                proof {
                    assert(s_iter_before.remaining() =~= seq![x] + s_chars.remaining());
                    assert(t_iter_before.remaining() =~= seq![x] + t_chars.remaining());
                    assert((s_chars.remaining() =~= t_chars.remaining())
                        ==> s_iter_before.remaining() =~= t_iter_before.remaining());
                    assert((s_iter_before.remaining() =~= t_iter_before.remaining()) ==> (
                    s_chars.remaining() =~= t_chars.remaining()));
                }
            },
            (None, None) => {
                proof {
                    assert(s_iter_before.remaining().len() == 0 && t_iter_before.remaining().len() == 0);
                    assert(s_iter_before.remaining() =~= t_iter_before.remaining());
                }
                return true;
            },
            _ => {
                proof {
                    assert(!(s_iter_before.remaining() =~= t_iter_before.remaining()));
                }
                return false;
            },
        }
    }
}

} // verus!
