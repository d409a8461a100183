use vstd::prelude::*;

verus! {

/// Travel of a moving leaf in one tick: 0.01 of a unit (a metre or a radian).
pub const STEP: i64 = 10;

/// Distance from the closed position under which a closing leaf snaps shut.
pub const TOLERANCE: i64 = 20;

/// Largest magnitude of a swing value: one step beyond it still fits in `i64`.
pub const MAX_SWING: i64 = 9_223_372_036_854_775_797;

/// The topology of a door.
#[derive(Clone, Copy, Debug, PartialEq, Eq, Structural)]
pub enum DoorType {
    SingleSliding,
    DoubleSliding,
    SingleSwinging,
    DoubleSwinging,
}

impl Default for DoorType {
    fn default() -> (r: Self)
        ensures
            r == DoorType::SingleSliding,
    {
        DoorType::SingleSliding
    }
}

/// How a leaf moves: along its width axis, or about its vertical hinge.
#[derive(Clone, Copy, Debug, PartialEq, Eq, Structural)]
pub enum MotionKind {
    Sliding,
    Swinging,
}

/// The observed condition of a leaf.
#[derive(Clone, Copy, Debug, PartialEq, Eq, Structural)]
pub enum DoorState {
    Open,
    Closed,
    Opening,
    Closing,
}

impl Default for DoorState {
    fn default() -> (r: Self)
        ensures
            r == DoorState::Closed,
    {
        DoorState::Closed
    }
}

/// The terminal state that a leaf is driven toward.
#[derive(Clone, Copy, Debug, PartialEq, Eq, Structural)]
pub enum DoorGoal {
    Open,
    Closed,
}

impl Default for DoorGoal {
    fn default() -> (r: Self)
        ensures
            r == DoorGoal::Closed,
    {
        DoorGoal::Closed
    }
}

/// A state satisfies a goal when it is the matching terminal state;
/// `Opening` and `Closing` satisfy no goal.
pub open spec fn state_meets(state: DoorState, goal: DoorGoal) -> bool {
    match state {
        DoorState::Open => goal == DoorGoal::Open,
        DoorState::Closed => goal == DoorGoal::Closed,
        _ => false,
    }
}

impl DoorState {
    /// Whether this state is the terminal state that `goal` asks for.
    pub fn meets(&self, goal: &DoorGoal) -> (r: bool)
        ensures
            r == state_meets(*self, *goal),
    {
        match self {
            DoorState::Open => *goal == DoorGoal::Open,
            DoorState::Closed => *goal == DoorGoal::Closed,
            _ => false,
        }
    }
}

impl DoorGoal {
    /// Whether `state` is the terminal state that this goal asks for.
    pub fn is_met_by(&self, state: &DoorState) -> (r: bool)
        ensures
            r == state_meets(*state, *self),
    {
        match self {
            DoorGoal::Open => *state == DoorState::Open,
            DoorGoal::Closed => *state == DoorState::Closed,
        }
    }
}

/// A request to drive every leaf of the door called `name` toward `goal`.
#[derive(Clone, Debug)]
pub struct DoorEvent {
    pub name: String,
    pub goal: DoorGoal,
}

impl DoorEvent {
    /// A request to open the door called `name`.
    pub fn open(name: String) -> (r: Self)
        ensures
            r.name@ == name@,
            r.goal == DoorGoal::Open,
    {
        DoorEvent { name, goal: DoorGoal::Open }
    }

    /// A request to close the door called `name`.
    pub fn close(name: String) -> (r: Self)
        ensures
            r.name@ == name@,
            r.goal == DoorGoal::Closed,
    {
        DoorEvent { name, goal: DoorGoal::Closed }
    }
}

/// The identity of a door and how it moves. The magnitude of `swing_value`
/// is the travel (or angle) of a full opening, its sign the direction.
#[derive(Clone, Debug)]
pub struct DoorProperties {
    pub name: String,
    pub swing_value: i64,
    pub door_type: DoorType,
}

impl DoorProperties {
    pub fn new(name: String, swing_value: i64, door_type: DoorType) -> (r: Self)
        ensures
            r.name@ == name@,
            r.swing_value == swing_value,
            r.door_type == door_type,
    {
        DoorProperties { name, swing_value, door_type }
    }

    /// The swing value lies where every position of a leaf fits in `i64`.
    pub open spec fn wf(&self) -> bool {
        -MAX_SWING <= self.swing_value <= MAX_SWING
    }
}

/// The size of a door or a leaf, in thousandths of a metre.
#[derive(Clone, Copy, Debug, PartialEq, Eq, Structural)]
pub struct DoorDimensions {
    pub length: u64,
    pub height: u64,
    pub thickness: u64,
}

impl DoorDimensions {
    pub fn new(length: u64, height: u64, thickness: u64) -> (r: Self)
        ensures
            r == (DoorDimensions { length, height, thickness }),
    {
        DoorDimensions { length, height, thickness }
    }
}

/// What the host hands over to create a door.
#[derive(Clone, Debug)]
pub struct DoorBundle {
    pub door_properties: DoorProperties,
    pub door_dimensions: DoorDimensions,
}

/// One movable leaf of a door. Its pose is relative to its door's pose:
/// it stands `origin` along the door's width axis, turned a half turn about
/// the vertical axis when `mirrored`, and has moved `travel` from the closed
/// position (a slide offset, or an angle about its hinge).
#[derive(Clone, Copy, Debug, PartialEq, Eq, Structural)]
pub struct DoorJoint {
    pub door: usize,
    pub kind: MotionKind,
    pub swing_value: i64,
    pub dimensions: DoorDimensions,
    pub origin: u64,
    pub mirrored: bool,
    pub travel: i64,
    pub state: DoorState,
    pub goal: DoorGoal,
}

pub open spec fn abs(x: int) -> int {
    if x < 0 {
        -x
    } else {
        x
    }
}

impl DoorJoint {
    /// The leaf lies on the side its swing points to, less than one step
    /// beyond the open position, and the terminal states sit exactly on
    /// their positions.
    pub open spec fn wf(&self) -> bool {
        &&& -MAX_SWING <= self.swing_value <= MAX_SWING
        &&& if self.swing_value > 0 {
            0 <= self.travel < self.swing_value + STEP
        } else if self.swing_value < 0 {
            self.swing_value - STEP < self.travel <= 0
        } else {
            self.travel == 0
        }
        &&& self.state == DoorState::Closed ==> self.travel == 0
        &&& self.state == DoorState::Open ==> self.travel == self.swing_value
    }

    /// A closed leaf at rest, with goal `Closed`.
    pub open spec fn at_rest(
        door: usize,
        kind: MotionKind,
        swing_value: i64,
        dimensions: DoorDimensions,
        origin: u64,
        mirrored: bool,
    ) -> DoorJoint {
        DoorJoint {
            door,
            kind,
            swing_value,
            dimensions,
            origin,
            mirrored,
            travel: 0,
            state: DoorState::Closed,
            goal: DoorGoal::Closed,
        }
    }

    /// A new leaf: closed, at its closed position, with goal `Closed`.
    pub fn new(
        door: usize,
        kind: MotionKind,
        swing_value: i64,
        dimensions: DoorDimensions,
        origin: u64,
        mirrored: bool,
    ) -> (r: Self)
        ensures
            r == Self::at_rest(door, kind, swing_value, dimensions, origin, mirrored),
    {
        DoorJoint {
            door,
            kind,
            swing_value,
            dimensions,
            origin,
            mirrored,
            travel: 0,
            state: DoorState::Closed,
            goal: DoorGoal::Closed,
        }
    }

    /// Centre of the leaf's panel relative to its hinge: half its length
    /// along the width axis, half its height up.
    pub fn panel_center(&self) -> (r: (u64, u64))
        ensures
            r.0 == self.dimensions.length / 2,
            r.1 == self.dimensions.height / 2,
    {
        (self.dimensions.length / 2, self.dimensions.height / 2)
    }
}

} // verus!
