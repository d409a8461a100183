use vstd::prelude::*;

use crate::door::{DoorBundle, DoorEvent, DoorJoint};
use crate::motion::advanced;
use crate::router::commanded;
use crate::topology::{leaves_of, resolve_door};

verus! {

/// All doors and their leaves. Door number `i` is `doors[i]`; it has been
/// split into leaves once `resolved[i]` holds. Each leaf names its door by
/// number.
pub struct DoorSystem {
    pub doors: Vec<DoorBundle>,
    pub resolved: Vec<bool>,
    pub joints: Vec<DoorJoint>,
}

/// The leaves that splitting the unresolved doors among the first `n` adds,
/// in door order.
pub open spec fn pending_leaves(doors: Seq<DoorBundle>, resolved: Seq<bool>, n: int) -> Seq<
    DoorJoint,
>
    decreases n,
{
    if n <= 0 {
        Seq::empty()
    } else {
        let before = pending_leaves(doors, resolved, n - 1);
        if resolved[n - 1] {
            before
        } else {
            before + leaves_of(
                (n - 1) as usize,
                doors[n - 1].door_properties,
                doors[n - 1].door_dimensions,
            )
        }
    }
}

/// The name of the door that leaf `j` belongs to.
pub open spec fn owner_name(doors: Seq<DoorBundle>, j: DoorJoint) -> Seq<char> {
    doors[j.door as int].door_properties.name@
}

/// The leaves after one request: those of the door it names take it.
pub open spec fn routed(doors: Seq<DoorBundle>, js: Seq<DoorJoint>, ev: DoorEvent) -> Seq<
    DoorJoint,
> {
    Seq::new(
        js.len(),
        |k: int|
            if owner_name(doors, js[k]) == ev.name@ {
                commanded(js[k], ev.goal)
            } else {
                js[k]
            },
    )
}

/// The leaves after the requests `evs`, taken in order.
pub open spec fn routed_all(doors: Seq<DoorBundle>, js: Seq<DoorJoint>, evs: Seq<DoorEvent>) -> Seq<
    DoorJoint,
>
    decreases evs.len(),
{
    if evs.len() == 0 {
        js
    } else {
        routed(doors, routed_all(doors, js, evs.drop_last()), evs.last())
    }
}

/// The leaves after one tick of motion.
pub open spec fn integrated(js: Seq<DoorJoint>) -> Seq<DoorJoint> {
    js.map_values(|j: DoorJoint| advanced(j))
}

pub open spec fn joints_wf(doors: Seq<DoorBundle>, js: Seq<DoorJoint>) -> bool {
    forall|k: int|
        0 <= k < js.len() ==> (#[trigger] js[k]).wf() && (js[k].door as int) < doors.len()
}

impl DoorSystem {
    pub open spec fn wf(&self) -> bool {
        &&& self.resolved@.len() == self.doors@.len()
        &&& forall|i: int|
            0 <= i < self.doors@.len() ==> (#[trigger] self.doors@[i]).door_properties.wf()
        &&& joints_wf(self.doors@, self.joints@)
    }

    /// A system with no doors.
    pub fn new() -> (r: Self)
        ensures
            r.wf(),
            r.doors@.len() == 0,
            r.joints@.len() == 0,
    {
        DoorSystem { doors: Vec::new(), resolved: Vec::new(), joints: Vec::new() }
    }

    /// Adds a door, not yet split into leaves, and returns its number.
    pub fn add_door(&mut self, bundle: DoorBundle) -> (r: usize)
        requires
            old(self).wf(),
            bundle.door_properties.wf(),
            old(self).doors@.len() < usize::MAX,
        ensures
            final(self).wf(),
            r == old(self).doors@.len(),
            final(self).doors@ == old(self).doors@.push(bundle),
            final(self).resolved@ == old(self).resolved@.push(false),
            final(self).joints@ == old(self).joints@,
    {
        let r = self.doors.len();
        self.doors.push(bundle);
        self.resolved.push(false);
        r
    }

    /// Splits every door that has not been split yet into its leaves, each
    /// closed and at rest, and marks it split. A door is split only once.
    pub fn resolve_pending(&mut self)
        requires
            old(self).wf(),
        ensures
            final(self).wf(),
            final(self).doors@ == old(self).doors@,
            final(self).resolved@ == Seq::new(old(self).resolved@.len(), |i: int| true),
            final(self).joints@ == old(self).joints@ + pending_leaves(
                old(self).doors@,
                old(self).resolved@,
                old(self).doors@.len() as int,
            ),
    {
        let ghost doors0 = self.doors@;
        let ghost resolved0 = self.resolved@;
        let ghost joints0 = self.joints@;
        let n = self.doors.len();
        let mut i: usize = 0;
        while i < n
            invariant
                n == self.doors@.len(),
                self.doors@ == doors0,
                self.resolved@.len() == n,
                resolved0.len() == n,
                0 <= i <= n,
                forall|k: int| 0 <= k < i ==> #[trigger] self.resolved@[k],
                forall|k: int| i <= k < n ==> #[trigger] self.resolved@[k] == resolved0[k],
                self.joints@ == joints0 + pending_leaves(doors0, resolved0, i as int),
                self.wf(),
            decreases n - i,
        {
            if !self.resolved[i] {
                let mut leaves = resolve_door(
                    i,
                    &self.doors[i].door_properties,
                    self.doors[i].door_dimensions,
                );
                let ghost before = self.joints@;
                self.joints.append(&mut leaves);
                self.resolved.set(i, true);
                assert(self.joints@ == joints0 + pending_leaves(doors0, resolved0, i + 1));
                assert forall|k: int| 0 <= k < self.joints@.len() implies (
                #[trigger] self.joints@[k]).wf() && (self.joints@[k].door as int) < n by {
                    if k >= before.len() {
                        assert(self.joints@[k] == leaves_of(
                            i,
                            doors0[i as int].door_properties,
                            doors0[i as int].door_dimensions,
                        )[k - before.len()]);
                    }
                }
            } else {
                assert(pending_leaves(doors0, resolved0, i + 1) == pending_leaves(
                    doors0,
                    resolved0,
                    i as int,
                ));
            }
            i = i + 1;
        }
        assert(self.resolved@ =~= Seq::new(resolved0.len(), |i: int| true));
    }

    /// Hands one request to every leaf of the door it names. Returns whether
    /// any leaf took it.
    pub fn apply_event(&mut self, ev: &DoorEvent) -> (taken: bool)
        requires
            old(self).wf(),
        ensures
            final(self).wf(),
            final(self).doors@ == old(self).doors@,
            final(self).resolved@ == old(self).resolved@,
            final(self).joints@ == routed(old(self).doors@, old(self).joints@, *ev),
            taken == exists|k: int|
                0 <= k < old(self).joints@.len() && owner_name(
                    old(self).doors@,
                    #[trigger] old(self).joints@[k],
                ) == ev.name@ && commanded(old(self).joints@[k], ev.goal).goal
                    != old(self).joints@[k].goal,
    {
        let ghost js0 = self.joints@;
        let n = self.joints.len();
        let mut taken = false;
        let mut k: usize = 0;
        while k < n
            invariant
                n == self.joints@.len(),
                js0.len() == n,
                0 <= k <= n,
                self.wf(),
                self.doors@ == old(self).doors@,
                self.resolved@ == old(self).resolved@,
                js0 == old(self).joints@,
                forall|m: int| 0 <= m < k ==> self.joints@[m] == routed(self.doors@, js0, *ev)[m],
                forall|m: int| k <= m < n ==> self.joints@[m] == js0[m],
                taken == exists|m: int|
                    0 <= m < k && owner_name(self.doors@, #[trigger] js0[m]) == ev.name@
                        && commanded(js0[m], ev.goal).goal != js0[m].goal,
            decreases n - k,
        {
            let mut j = self.joints[k];
            if self.doors[j.door].door_properties.name == ev.name {
                let ghost j0 = j;
                let was = j.goal;
                j.command(ev.goal);
                if j.goal != was {
                    taken = true;
                }
                self.joints.set(k, j);
                assert(owner_name(self.doors@, js0[k as int]) == ev.name@);
                assert(taken == exists|m: int|
                    0 <= m < k + 1 && owner_name(self.doors@, #[trigger] js0[m]) == ev.name@
                        && commanded(js0[m], ev.goal).goal != js0[m].goal);
            } else {
                assert(taken == exists|m: int|
                    0 <= m < k + 1 && owner_name(self.doors@, #[trigger] js0[m]) == ev.name@
                        && commanded(js0[m], ev.goal).goal != js0[m].goal);
            }
            k = k + 1;
        }
        assert(self.joints@ =~= routed(self.doors@, js0, *ev));
        taken
    }

    /// Hands the requests `events` to the leaves, in order.
    pub fn apply_events(&mut self, events: &Vec<DoorEvent>)
        requires
            old(self).wf(),
        ensures
            final(self).wf(),
            final(self).doors@ == old(self).doors@,
            final(self).resolved@ == old(self).resolved@,
            final(self).joints@ == routed_all(old(self).doors@, old(self).joints@, events@),
    {
        let mut i: usize = 0;
        while i < events.len()
            invariant
                0 <= i <= events@.len(),
                self.wf(),
                self.doors@ == old(self).doors@,
                self.resolved@ == old(self).resolved@,
                self.joints@ == routed_all(self.doors@, old(self).joints@, events@.take(i as int)),
            decreases events@.len() - i,
        {
            self.apply_event(&events[i]);
            assert(events@.take(i + 1).drop_last() =~= events@.take(i as int));
            i = i + 1;
        }
        assert(events@.take(i as int) =~= events@);
    }

    /// Moves every leaf one tick toward its goal.
    pub fn integrate(&mut self)
        requires
            old(self).wf(),
        ensures
            final(self).wf(),
            final(self).doors@ == old(self).doors@,
            final(self).resolved@ == old(self).resolved@,
            final(self).joints@ == integrated(old(self).joints@),
    {
        let ghost js0 = self.joints@;
        let n = self.joints.len();
        let mut k: usize = 0;
        while k < n
            invariant
                n == self.joints@.len(),
                js0.len() == n,
                0 <= k <= n,
                self.wf(),
                self.doors@ == old(self).doors@,
                self.resolved@ == old(self).resolved@,
                js0 == old(self).joints@,
                forall|m: int| 0 <= m < k ==> self.joints@[m] == advanced(js0[m]),
                forall|m: int| k <= m < n ==> self.joints@[m] == js0[m],
            decreases n - k,
        {
            let mut j = self.joints[k];
            j.advance();
            self.joints.set(k, j);
            k = k + 1;
        }
        assert(self.joints@ =~= integrated(js0));
    }

    /// One simulation step: split new doors, hand over the requests, then
    /// move every leaf one tick.
    pub fn tick(&mut self, events: &Vec<DoorEvent>)
        requires
            old(self).wf(),
        ensures
            final(self).wf(),
            final(self).doors@ == old(self).doors@,
            final(self).resolved@ == Seq::new(old(self).resolved@.len(), |i: int| true),
            final(self).joints@ == integrated(
                routed_all(
                    old(self).doors@,
                    old(self).joints@ + pending_leaves(
                        old(self).doors@,
                        old(self).resolved@,
                        old(self).doors@.len() as int,
                    ),
                    events@,
                ),
            ),
    {
        self.resolve_pending();
        self.apply_events(events);
        self.integrate();
    }
}

/// Splitting the pending doors a second time adds no leaf and changes
/// nothing: once marked, every door stays split.
pub proof fn lemma_resolve_once(doors: Seq<DoorBundle>, resolved: Seq<bool>)
    requires
        resolved.len() == doors.len(),
    ensures
        ({
            let marked = Seq::new(resolved.len(), |i: int| true);
            &&& pending_leaves(doors, marked, doors.len() as int) == Seq::<DoorJoint>::empty()
            &&& Seq::new(marked.len(), |i: int| true) == marked
        }),
{
    let marked = Seq::new(resolved.len(), |i: int| true);
    lemma_nothing_pending(doors, marked, doors.len() as int);
}

proof fn lemma_nothing_pending(doors: Seq<DoorBundle>, resolved: Seq<bool>, n: int)
    requires
        0 <= n <= resolved.len(),
        forall|i: int| 0 <= i < n ==> #[trigger] resolved[i],
    ensures
        pending_leaves(doors, resolved, n) == Seq::<DoorJoint>::empty(),
    decreases n,
{
    if n > 0 {
        lemma_nothing_pending(doors, resolved, n - 1);
    }
}

} // verus!
