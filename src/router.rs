use vstd::prelude::*;

use crate::door::{DoorGoal, DoorJoint, DoorState};

verus! {

/// The goal a leaf holds after a request for `requested`: opening is taken
/// only from `Closed`, closing only from `Open`; every other request,
/// including one made while the leaf moves, leaves the goal as it was.
pub open spec fn gated(state: DoorState, goal: DoorGoal, requested: DoorGoal) -> DoorGoal {
    match requested {
        DoorGoal::Open => if state == DoorState::Closed {
            DoorGoal::Open
        } else {
            goal
        },
        DoorGoal::Closed => if state == DoorState::Open {
            DoorGoal::Closed
        } else {
            goal
        },
    }
}

/// The leaf after a request for `requested` has reached it.
pub open spec fn commanded(j: DoorJoint, requested: DoorGoal) -> DoorJoint {
    DoorJoint { goal: gated(j.state, j.goal, requested), ..j }
}

impl DoorJoint {
    /// Applies a request for `requested` to this leaf; only its goal can change.
    /// Returns whether the request was taken.
    pub fn command(&mut self, requested: DoorGoal) -> (taken: bool)
        requires
            old(self).wf(),
        ensures
            *final(self) == commanded(*old(self), requested),
            final(self).wf(),
            taken == ((requested == DoorGoal::Open && old(self).state == DoorState::Closed) || (
            requested == DoorGoal::Closed && old(self).state == DoorState::Open)),
    {
        match requested {
            DoorGoal::Open => {
                if self.state == DoorState::Closed {
                    self.goal = DoorGoal::Open;
                    return true;
                }
            },
            DoorGoal::Closed => {
                if self.state == DoorState::Open {
                    self.goal = DoorGoal::Closed;
                    return true;
                }
            },
        }
        false
    }
}

/// A request to open a leaf that is open or opening, or to close one that
/// is closed or closing, leaves its goal unchanged.
pub proof fn lemma_goal_gating(j: DoorJoint, requested: DoorGoal)
    ensures
        requested == DoorGoal::Open && (j.state == DoorState::Open || j.state
            == DoorState::Opening) ==> commanded(j, requested) == j,
        requested == DoorGoal::Closed && (j.state == DoorState::Closed || j.state
            == DoorState::Closing) ==> commanded(j, requested) == j,
{
}

} // verus!
