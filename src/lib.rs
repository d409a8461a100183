//! Door motion: splitting doors into movable leaves, routing named open/close
//! requests to them, and advancing each leaf toward its goal once per tick.
//!
//! Lengths and angles are fixed-point integers in thousandths of a unit
//! (a metre, or a radian), so that every step of the motion is exact.
pub mod door;
pub mod motion;
pub mod router;
pub mod system;
pub mod topology;

pub use crate::door::{
    DoorBundle, DoorDimensions, DoorEvent, DoorGoal, DoorJoint, DoorProperties, DoorState,
    DoorType, MotionKind, MAX_SWING, STEP, TOLERANCE,
};
pub use crate::system::DoorSystem;
pub use crate::topology::resolve_door;
