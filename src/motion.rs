use vstd::prelude::*;

use crate::door::{
    abs, state_meets, DoorGoal, DoorJoint, DoorState, MotionKind, DoorDimensions, STEP,
    TOLERANCE, MAX_SWING,
};
use crate::router::commanded;

verus! {

/// `k` in the direction of swing `s`.
pub open spec fn toward(s: int, k: int) -> int {
    if s > 0 {
        k
    } else if s < 0 {
        -k
    } else {
        0
    }
}

/// One tick of motion. A leaf whose state meets its goal is left as it is.
/// Toward `Closed`: within the tolerance it snaps to the closed position,
/// else it moves one step back against its swing and is `Closing`.
/// Toward `Open`: once it has travelled the whole swing it snaps to it,
/// else it moves one step along its swing and is `Opening`.
/// Sliding and swinging leaves move alike: `travel` is an offset for the one
/// and an angle for the other.
pub open spec fn advanced(j: DoorJoint) -> DoorJoint {
    if state_meets(j.state, j.goal) {
        j
    } else {
        match j.goal {
            DoorGoal::Closed => if abs(j.travel as int) <= TOLERANCE {
                DoorJoint { travel: 0, state: DoorState::Closed, ..j }
            } else {
                DoorJoint {
                    travel: (j.travel - toward(j.swing_value as int, STEP as int)) as i64,
                    state: DoorState::Closing,
                    ..j
                }
            },
            DoorGoal::Open => if abs(j.travel as int) >= abs(j.swing_value as int) {
                DoorJoint { travel: j.swing_value, state: DoorState::Open, ..j }
            } else {
                DoorJoint {
                    travel: (j.travel + toward(j.swing_value as int, STEP as int)) as i64,
                    state: DoorState::Opening,
                    ..j
                }
            },
        }
    }
}

/// The leaf after `n` ticks of motion with no command in between.
pub open spec fn advanced_n(j: DoorJoint, n: nat) -> DoorJoint
    decreases n,
{
    if n == 0 {
        j
    } else {
        advanced(advanced_n(j, (n - 1) as nat))
    }
}

pub proof fn lemma_advanced_wf(j: DoorJoint)
    requires
        j.wf(),
    ensures
        advanced(j).wf(),
{
}

pub proof fn lemma_advanced_n_wf(j: DoorJoint, n: nat)
    requires
        j.wf(),
    ensures
        advanced_n(j, n).wf(),
        advanced_n(j, n) == (DoorJoint {
            travel: advanced_n(j, n).travel,
            state: advanced_n(j, n).state,
            ..j
        }),
    decreases n,
{
    if n > 0 {
        lemma_advanced_n_wf(j, (n - 1) as nat);
    }
}

impl DoorJoint {
    /// Advances the leaf by one tick of motion toward its goal.
    pub fn advance(&mut self)
        requires
            old(self).wf(),
        ensures
            *final(self) == advanced(*old(self)),
            final(self).wf(),
    {
        if self.state.meets(&self.goal) {
            return;
        }
        let delta: i64 = if self.swing_value > 0 {
            STEP
        } else if self.swing_value < 0 {
            -STEP
        } else {
            0
        };
        let at: i64 = if self.travel < 0 { -self.travel } else { self.travel };
        match self.goal {
            DoorGoal::Closed => {
                if at <= TOLERANCE {
                    self.travel = 0;
                    self.state = DoorState::Closed;
                } else {
                    self.state = DoorState::Closing;
                    self.travel = self.travel - delta;
                }
            },
            DoorGoal::Open => {
                let full: i64 = if self.swing_value < 0 { -self.swing_value } else { self.swing_value };
                if at >= full {
                    self.travel = self.swing_value;
                    self.state = DoorState::Open;
                } else {
                    self.state = DoorState::Opening;
                    self.travel = self.travel + delta;
                }
            },
        }
    }
}

/// Whenever a tick leaves a leaf `Closed`, it is exactly at its closed
/// position, and whenever it leaves it `Open`, exactly at its full swing.
pub proof fn lemma_terminal_exact(j: DoorJoint)
    requires
        j.wf(),
    ensures
        advanced(j).state == DoorState::Closed ==> advanced(j).travel == 0,
        advanced(j).state == DoorState::Open ==> advanced(j).travel == j.swing_value,
{
}

/// Ticks a closed leaf with goal `Open` takes to travel its whole swing:
/// the swing's magnitude divided by the step, rounded up.
pub open spec fn ticks_to_open(j: DoorJoint) -> nat {
    ((abs(j.swing_value as int) + STEP - 1) / (STEP as int)) as nat
}

/// `c` is `a` divided by the step (ten thousandths), rounded up.
proof fn lemma_ceil_steps(a: int, c: int)
    requires
        a >= 0,
        c == (a + 9) / 10,
    ensures
        10 * c >= a,
        c == 0 || 10 * (c - 1) < a,
        a % 10 == 0 ==> 10 * c == a,
        c == 0 <==> a == 0,
{
    assert(10 * c >= a && (c == 0 || 10 * (c - 1) < a)) by (nonlinear_arith)
        requires
            a >= 0,
            c == (a + 9) / 10,
    ;
    assert(a % 10 == 0 ==> 10 * c == a) by (nonlinear_arith)
        requires
            a >= 0,
            c == (a + 9) / 10,
    ;
}

/// Opening from `Closed`: after `n` ticks, for `n` up to `ticks_to_open`,
/// the leaf has moved exactly `n` steps along its swing, so each tick farther
/// than the last, and is `Opening`; one tick later it is `Open`, exactly at
/// its swing. When the swing is a whole number of steps, the leaf never
/// passes its open position.
pub proof fn lemma_open_converges(j: DoorJoint, n: nat)
    requires
        j.wf(),
        j.state == DoorState::Closed,
        j.goal == DoorGoal::Open,
    ensures
        n <= ticks_to_open(j) ==> advanced_n(j, n).travel == toward(
            j.swing_value as int,
            STEP * n,
        ),
        n <= ticks_to_open(j) ==> advanced_n(j, n).goal == DoorGoal::Open,
        1 <= n <= ticks_to_open(j) ==> advanced_n(j, n).state == DoorState::Opening,
        advanced_n(j, ticks_to_open(j) + 1).state == DoorState::Open,
        advanced_n(j, ticks_to_open(j) + 1).travel == j.swing_value,
        j.swing_value % STEP == 0 && n <= ticks_to_open(j) + 1 ==> abs(
            advanced_n(j, n).travel as int,
        ) <= abs(j.swing_value as int),
{
    let c = ticks_to_open(j);
    let a = abs(j.swing_value as int);
    lemma_ceil_steps(a, c as int);
    assert(STEP * n == 10 * n);
    if n <= c {
        lemma_open_prefix(j, n);
    }
    lemma_open_prefix(j, c);
    lemma_advanced_n_wf(j, c);
    assert(advanced_n(j, c + 1) == advanced(advanced_n(j, c)));
}

proof fn lemma_open_prefix(j: DoorJoint, n: nat)
    requires
        j.wf(),
        j.state == DoorState::Closed,
        j.goal == DoorGoal::Open,
        n <= ticks_to_open(j),
    ensures
        advanced_n(j, n).travel == toward(j.swing_value as int, 10 * (n as int)),
        advanced_n(j, n).goal == DoorGoal::Open,
        1 <= n ==> advanced_n(j, n).state == DoorState::Opening,
    decreases n,
{
    let c = ticks_to_open(j);
    let a = abs(j.swing_value as int);
    lemma_ceil_steps(a, c as int);
    if n > 0 {
        lemma_open_prefix(j, (n - 1) as nat);
        lemma_advanced_n_wf(j, (n - 1) as nat);
        let p = advanced_n(j, (n - 1) as nat);
        assert(advanced_n(j, n) == advanced(p));
    }
}

/// A leaf that is `Opening` while its goal is `Closed` turns back on the
/// next tick: from beyond the tolerance it moves exactly one step back from
/// where it stands and is `Closing`. (Requests alone never give a leaf this
/// pair: a request to close is taken only from `Open`.)
pub proof fn lemma_turns_back(j: DoorJoint)
    requires
        j.wf(),
        j.state == DoorState::Opening,
        j.goal == DoorGoal::Closed,
        abs(j.travel as int) > TOLERANCE,
    ensures
        advanced(j).travel == j.travel - toward(j.swing_value as int, STEP as int),
        abs(advanced(j).travel as int) == abs(j.travel as int) - STEP,
        advanced(j).state == DoorState::Closing,
{
}

/// Ticks an open leaf with goal `Closed` moves before it is within the
/// tolerance of its closed position.
pub open spec fn ticks_to_close(j: DoorJoint) -> nat {
    let a = abs(j.swing_value as int);
    if a <= TOLERANCE {
        0
    } else {
        ((a - TOLERANCE + STEP - 1) / (STEP as int)) as nat
    }
}

/// Closing from `Open`: after `n` ticks, for `n` up to `ticks_to_close`,
/// the leaf has come back exactly `n` steps and is `Closing`; one tick later
/// it is `Closed`, exactly at its closed position.
pub proof fn lemma_close_converges(j: DoorJoint, n: nat)
    requires
        j.wf(),
        j.state == DoorState::Open,
        j.goal == DoorGoal::Closed,
    ensures
        n <= ticks_to_close(j) ==> advanced_n(j, n).travel == toward(
            j.swing_value as int,
            abs(j.swing_value as int) - STEP * n,
        ),
        1 <= n <= ticks_to_close(j) ==> advanced_n(j, n).state == DoorState::Closing,
        advanced_n(j, ticks_to_close(j) + 1).state == DoorState::Closed,
        advanced_n(j, ticks_to_close(j) + 1).travel == 0,
{
    let k = ticks_to_close(j);
    assert(STEP * n == 10 * n);
    if n <= k {
        lemma_close_prefix(j, n);
    }
    lemma_close_prefix(j, k);
    lemma_advanced_n_wf(j, k);
    assert(advanced_n(j, k + 1) == advanced(advanced_n(j, k)));
}

proof fn lemma_close_prefix(j: DoorJoint, n: nat)
    requires
        j.wf(),
        j.state == DoorState::Open,
        j.goal == DoorGoal::Closed,
        n <= ticks_to_close(j),
    ensures
        advanced_n(j, n).travel == toward(j.swing_value as int, abs(j.swing_value as int) - 10 * (n as int)),
        1 <= n ==> advanced_n(j, n).state == DoorState::Closing,
        abs(j.swing_value as int) > TOLERANCE ==> abs(j.swing_value as int) - 10 * ticks_to_close(j) <= TOLERANCE,
        abs(j.swing_value as int) > TOLERANCE ==> ticks_to_close(j) == 0 || abs(j.swing_value as int) - 10 * (ticks_to_close(j) - 1) > TOLERANCE,
    decreases n,
{
    let a = abs(j.swing_value as int);
    let k = ticks_to_close(j);
    if a > TOLERANCE {
        lemma_ceil_steps(a - 20, k as int);
    }
    if n > 0 {
        lemma_close_prefix(j, (n - 1) as nat);
        lemma_advanced_n_wf(j, (n - 1) as nat);
        assert(advanced_n(j, n) == advanced(advanced_n(j, (n - 1) as nat)));
    }
}

/// Opening a closed leaf at rest, letting it reach `Open`, then closing it
/// and letting it reach `Closed`, returns it to exactly where it started:
/// at its closed position, `Closed`, with goal `Closed`.
pub proof fn lemma_round_trip(
    door: usize,
    kind: MotionKind,
    swing_value: i64,
    dimensions: DoorDimensions,
    origin: u64,
    mirrored: bool,
)
    requires
        -MAX_SWING <= swing_value <= MAX_SWING,
    ensures
        ({
            let j = DoorJoint::at_rest(door, kind, swing_value, dimensions, origin, mirrored);
            let opened = advanced_n(commanded(j, DoorGoal::Open), ticks_to_open(j) + 1);
            let closed = advanced_n(commanded(opened, DoorGoal::Closed), ticks_to_close(j) + 1);
            &&& opened.state == DoorState::Open
            &&& opened.travel == swing_value
            &&& closed == j
        }),
{
    let j = DoorJoint::at_rest(door, kind, swing_value, dimensions, origin, mirrored);
    let j1 = commanded(j, DoorGoal::Open);
    lemma_open_converges(j1, 0);
    let opened = advanced_n(j1, ticks_to_open(j) + 1);
    lemma_advanced_n_wf(j1, ticks_to_open(j) + 1);
    let j2 = commanded(opened, DoorGoal::Closed);
    lemma_close_converges(j2, 0);
    lemma_advanced_n_wf(j2, ticks_to_close(j) + 1);
}

} // verus!
