//! The ordered, duplicate-permitting store of pending direction votes,
//! and the operations the move resolver consumes.

use vstd::prelude::*;
use crate::direction_request::DirectionRequest;

verus! {

/// The pending votes, in submission order, duplicates kept.
pub type DirectionsArray = Vec<DirectionRequest>;

/// Returned when the vote ingestion path has been shut down and a vote
/// can no longer be registered.
#[derive(Debug, Clone, Copy)]
pub struct DirectionRegisterError;

/// The votes of `s` with every vote equal to `d` removed, the order of
/// the rest kept.
pub open spec fn votes_without(s: Seq<DirectionRequest>, d: DirectionRequest) -> Seq<
    DirectionRequest,
>
    decreases s.len(),
{
    if s.len() == 0 {
        Seq::empty()
    } else if s.last() == d {
        votes_without(s.drop_last(), d)
    } else {
        votes_without(s.drop_last(), d).push(s.last())
    }
}

/// No vote equal to `d` is left after removing them all.
pub proof fn lemma_votes_without_excludes(s: Seq<DirectionRequest>, d: DirectionRequest)
    ensures
        forall|i: int|
            0 <= i < votes_without(s, d).len() ==> #[trigger] votes_without(s, d)[i] != d,
    decreases s.len(),
{
    if s.len() > 0 {
        lemma_votes_without_excludes(s.drop_last(), d);
        if s.last() != d {
            let w = votes_without(s, d);
            let w0 = votes_without(s.drop_last(), d);
            assert forall|i: int| 0 <= i < w.len() implies #[trigger] w[i] != d by {
                if i < w0.len() {
                    assert(w[i] == w0[i]);
                }
            }
        }
    }
}

/// Every vote equals the first one (trivially true of an empty snapshot).
pub open spec fn unanimous(s: Seq<DirectionRequest>) -> bool {
    forall|i: int| 0 <= i < s.len() ==> #[trigger] s[i] == s[0]
}

/// What a store of pending votes offers the resolver.
pub trait ContainDirections {
    /// The pending votes in submission order.
    spec fn directions(&self) -> Seq<DirectionRequest>;

    /// Whether no votes are pending.
    fn no_more_directions(&self) -> (r: bool)
        ensures
            r == (self.directions().len() == 0),
    ;

    /// Discards every pending vote.
    fn reset_all_directions(&mut self)
        ensures
            final(self).directions() =~= Seq::<DirectionRequest>::empty(),
    ;

    /// Removes every vote equal to `direction`, keeping the order of the
    /// rest.
    fn reset_direction(&mut self, direction: DirectionRequest)
        ensures
            final(self).directions() =~= votes_without(old(self).directions(), direction),
    ;

    /// The single distinct pending value: `Some` exactly when votes are
    /// pending and unanimous, `None` otherwise.
    fn direction_if_only_one(&self) -> (r: Option<DirectionRequest>)
        ensures
            r == (if self.directions().len() > 0 && unanimous(self.directions()) {
                Some(self.directions()[0])
            } else {
                None::<DirectionRequest>
            }),
    ;
}

impl ContainDirections for DirectionsArray {
    open spec fn directions(&self) -> Seq<DirectionRequest> {
        self@
    }

    fn no_more_directions(&self) -> (r: bool) {
        self.is_empty()
    }

    fn reset_all_directions(&mut self) {
        self.clear()
    }

    fn reset_direction(&mut self, direction: DirectionRequest) {
        let mut kept: Vec<DirectionRequest> = Vec::new();
        let n = self.len();
        let mut i: usize = 0;
        while i < n
            invariant
                *self == *old(self),
                n == self@.len(),
                i <= n,
                kept@ =~= votes_without(self@.take(i as int), direction),
            decreases n - i,
        {
            proof {
                assert(self@.take(i + 1).drop_last() =~= self@.take(i as int));
                assert(self@.take(i + 1).last() == self@[i as int]);
            }
            if self[i] != direction {
                kept.push(self[i]);
            }
            i = i + 1;
        }
        proof {
            assert(self@.take(n as int) =~= self@);
        }
        *self = kept;
    }

    fn direction_if_only_one(&self) -> (r: Option<DirectionRequest>) {
        if self.is_empty() {
            return None;
        }
        let first = self[0];
        let n = self.len();
        let mut i: usize = 1;
        while i < n
            invariant
                n == self@.len(),
                1 <= i <= n,
                first == self@[0],
                forall|j: int| 0 <= j < i ==> #[trigger] self@[j] == self@[0],
            decreases n - i,
        {
            if self[i] != first {
                return None;
            }
            i = i + 1;
        }
        Some(first)
    }
}

} // verus!
