//! The move resolver and the scheduler's per-fire step: pending votes are
//! filtered, tested for unanimity, and contention is settled by sampling;
//! the resolved move is applied to the engine and the game advances one
//! tick.

use vstd::prelude::*;
use crate::direction_request::{direction_of_request, request_of_direction, DirectionRequest};
use crate::directions_array::{
    lemma_votes_without_excludes,
    unanimous,
    votes_without,
    ContainDirections,
    DirectionsArray,
};
use crate::engine::{spawn_candidate_ok, tick_rel, Direction, GameView, Point, SnakeContext};
use crate::rng::random_below;

verus! {

/// How many contention samples are drawn.
pub const CONTENTION_SAMPLES: usize = 4;

/// How often `d` occurs in `s`.
pub open spec fn count_of(s: Seq<DirectionRequest>, d: DirectionRequest) -> nat
    decreases s.len(),
{
    if s.len() == 0 {
        0
    } else {
        count_of(s.drop_last(), d) + (if s.last() == d {
            1nat
        } else {
            0nat
        })
    }
}

/// Counts how often `d` occurs in `samples`.
fn count_votes(samples: &Vec<DirectionRequest>, d: DirectionRequest) -> (c: usize)
    ensures
        c == count_of(samples@, d),
{
    let n = samples.len();
    let mut c: usize = 0;
    let mut i: usize = 0;
    while i < n
        invariant
            n == samples@.len(),
            i <= n,
            c <= i,
            c == count_of(samples@.take(i as int), d),
        decreases n - i,
    {
        proof {
            assert(samples@.take(i + 1).drop_last() =~= samples@.take(i as int));
            assert(samples@.take(i + 1).last() == samples@[i as int]);
        }
        if samples[i] == d {
            c = c + 1;
        }
        i = i + 1;
    }
    proof {
        assert(samples@.take(n as int) =~= samples@);
    }
    c
}

/// One of the sampled votes that occurs least often among the samples:
/// contention resolves, as inherited, to the least frequent sampled value
/// (the final uniform pick spans a single index).
fn least_frequent(samples: &Vec<DirectionRequest>) -> (r: DirectionRequest)
    requires
        samples@.len() >= 1,
    ensures
        samples@.contains(r),
        forall|d: DirectionRequest| #[trigger]
            samples@.contains(d) ==> count_of(samples@, r) <= count_of(samples@, d),
{
    let mut best = samples[0];
    let mut best_count = count_votes(samples, best);
    proof {
        assert(samples@.contains(samples@[0]));
    }
    let n = samples.len();
    let mut i: usize = 1;
    while i < n
        invariant
            n == samples@.len(),
            1 <= i <= n,
            samples@.contains(best),
            best_count == count_of(samples@, best),
            forall|j: int|
                0 <= j < i ==> count_of(samples@, best) <= count_of(
                    samples@,
                    #[trigger] samples@[j],
                ),
        decreases n - i,
    {
        let candidate = samples[i];
        let c = count_votes(samples, candidate);
        if c < best_count {
            best = candidate;
            best_count = c;
            proof {
                assert(samples@.contains(samples@[i as int]));
            }
        }
        i = i + 1;
    }
    proof {
        assert forall|d: DirectionRequest| #[trigger]
            samples@.contains(d) implies count_of(samples@, best) <= count_of(samples@, d) by {
            let j = choose|j: int| 0 <= j < samples@.len() && samples@[j] == d;
            assert(count_of(samples@, best) <= count_of(samples@, samples@[j]));
        }
    }
    best
}

/// What the resolver may return for a vote snapshot and a current facing:
/// after the votes for the reverse of the current facing are removed, an
/// empty rest yields no move; a unanimous rest yields its value; a
/// contended rest yields one of the remaining votes other than the last
/// (the last is never sampled, as inherited). A resolved move is never
/// the reverse of the current facing.
pub open spec fn resolved_move_ok(
    votes: Seq<DirectionRequest>,
    current: DirectionRequest,
    r: Option<DirectionRequest>,
) -> bool {
    let remaining = votes_without(votes, current.opposite_spec());
    &&& (remaining.len() == 0 ==> r is None)
    &&& (remaining.len() > 0 && unanimous(remaining) ==> r == Some(remaining[0]))
    &&& (remaining.len() > 0 && !unanimous(remaining) ==> r is Some && remaining.take(
        remaining.len() - 1,
    ).contains(r->0))
    &&& (r is Some ==> r->0 != current.opposite_spec())
}

/// Resolves a snapshot of pending votes against the current facing into
/// at most one direction change for this tick.
pub fn determine_next_move(
    requested_directions: DirectionsArray,
    current_direction: DirectionRequest,
) -> (r: Option<DirectionRequest>)
    ensures
        resolved_move_ok(requested_directions@, current_direction, r),
{
    let ghost votes = requested_directions@;
    let ghost opposite = current_direction.opposite_spec();
    let mut requested_directions = requested_directions;
    requested_directions.reset_direction(current_direction.opposite_direction());
    proof {
        lemma_votes_without_excludes(votes, opposite);
    }

    if requested_directions.no_more_directions() {
        return None;
    }

    if let Some(direction) = requested_directions.direction_if_only_one() {
        return Some(direction);
    }

    let len = requested_directions.len();
    let mut samples: Vec<DirectionRequest> = Vec::new();
    let mut k: usize = 0;
    while k < CONTENTION_SAMPLES
        invariant
            requested_directions@ =~= votes_without(votes, opposite),
            requested_directions@.len() >= 2,
            len == requested_directions@.len(),
            k <= CONTENTION_SAMPLES,
            samples@.len() == k,
            forall|j: int|
                0 <= j < k ==> requested_directions@.take(len - 1).contains(
                    #[trigger] samples@[j],
                ),
            forall|j: int| 0 <= j < k ==> #[trigger] samples@[j] != opposite,
        decreases CONTENTION_SAMPLES - k,
    {
        let idx = random_below(len - 1);
        let vote = requested_directions[idx];
        proof {
            lemma_votes_without_excludes(votes, opposite);
            assert(requested_directions@.take(len - 1)[idx as int] == vote);
            assert(requested_directions@.take(len - 1).contains(vote));
            assert(votes_without(votes, opposite)[idx as int] != opposite);
        }
        samples.push(vote);
        k = k + 1;
    }
    let chosen = least_frequent(&samples);
    proof {
        let j = choose|j: int| 0 <= j < samples@.len() && samples@[j] == chosen;
        assert(requested_directions@.take(len - 1).contains(samples@[j]));
        assert(samples@[j] != opposite);
    }
    Some(chosen)
}

/// The game state after the scheduler has applied a resolved move to
/// `pre`: the facing changes to the resolved direction when the engine
/// allows the change, and stays as it was when there is no move or the
/// engine refuses it.
pub open spec fn applied_move(pre: GameView, resolved: Option<DirectionRequest>) -> GameView {
    GameView {
        direction: match resolved {
            Some(m) => if pre.change_allowed(direction_of_request(m)) {
                direction_of_request(m)
            } else {
                pre.direction
            },
            None => pre.direction,
        },
        ..pre
    }
}

/// One scheduler fire applied to the engine: the pending votes are
/// resolved against the current facing, the resolved move (if any) is
/// requested of the engine — a refused change is swallowed — and the game
/// advances by one tick.
pub fn scheduler_tick(snake_ctx: &mut SnakeContext, requested_directions: DirectionsArray)
    requires
        old(snake_ctx)@.content_wf(),
        old(snake_ctx)@.started(),
    ensures
        final(snake_ctx)@.wf(),
        final(snake_ctx)@.started(),
        final(snake_ctx)@.plane_synced(),
        exists|resolved: Option<DirectionRequest>, spawn: Option<Point>|
            {
                &&& resolved_move_ok(
                    requested_directions@,
                    request_of_direction(old(snake_ctx)@.direction),
                    resolved,
                )
                &&& spawn_candidate_ok(spawn)
                &&& #[trigger] tick_rel(
                    applied_move(old(snake_ctx)@, resolved),
                    spawn,
                    final(snake_ctx)@,
                )
            },
{
    let current_direction = snake_ctx.current_direction();
    let next_move = determine_next_move(
        requested_directions,
        DirectionRequest::from(current_direction),
    );
    let ghost resolved = next_move;
    if let Some(next) = next_move {
        let _ = snake_ctx.change_direction(Direction::from(next));
    }
    let ghost mid = snake_ctx@;
    proof {
        assert(mid.snake == old(snake_ctx)@.snake);
        assert(mid.apples == old(snake_ctx)@.apples);
        assert(mid.content_wf());
    }
    snake_ctx.update_position();
    proof {
        let spawn = choose|spawn: Option<Point>|
            #[trigger] tick_rel(mid, spawn, snake_ctx@) && spawn_candidate_ok(spawn);
        assert(applied_move(old(snake_ctx)@, resolved) == mid);
        assert(resolved_move_ok(
            requested_directions@,
            request_of_direction(old(snake_ctx)@.direction),
            resolved,
        ) && spawn_candidate_ok(spawn) && tick_rel(
            applied_move(old(snake_ctx)@, resolved),
            spawn,
            snake_ctx@,
        ));
    }
}

} // verus!
