//! A crowd-driven snake game core: a deterministic grid/snake engine with
//! wraparound movement, apple growth and self-collision reset, together with
//! the vote bookkeeping and move resolution that turn many submitted
//! direction votes into a single move per scheduler tick.

pub mod direction_request;
pub mod directions_array;
pub mod engine;
pub mod http_error;
pub mod next_move_scheduler;
pub mod rng;
