use vstd::prelude::*;

use crate::door::{abs, DoorDimensions, DoorJoint, DoorProperties, DoorType, MotionKind};

verus! {

/// Each leaf of a double door is half as long as the door.
pub open spec fn half_leaf(d: DoorDimensions) -> DoorDimensions {
    DoorDimensions { length: d.length / 2, height: d.height, thickness: d.thickness }
}

/// The leaves into which door number `door` splits.
/// Single doors give one leaf with the whole swing. A double sliding door
/// gives two half-length leaves that slide apart by half the swing each, the
/// second starting half the door's length along. A double swinging door gives
/// two half-length leaves with opposite swings, the second at the far end of
/// the door and turned a half turn.
pub open spec fn leaves_of(door: usize, p: DoorProperties, d: DoorDimensions) -> Seq<DoorJoint> {
    let s = p.swing_value;
    match p.door_type {
        DoorType::SingleSliding => seq![DoorJoint::at_rest(door, MotionKind::Sliding, s, d, 0, false)],
        DoorType::SingleSwinging => seq![DoorJoint::at_rest(door, MotionKind::Swinging, s, d, 0, false)],
        DoorType::DoubleSliding => {
            let m = (abs(s as int) / 2) as i64;
            seq![
                DoorJoint::at_rest(door, MotionKind::Sliding, (-m) as i64, half_leaf(d), 0, false),
                DoorJoint::at_rest(door, MotionKind::Sliding, m, half_leaf(d), d.length / 2, false),
            ]
        },
        DoorType::DoubleSwinging => seq![
            DoorJoint::at_rest(door, MotionKind::Swinging, s, half_leaf(d), 0, false),
            DoorJoint::at_rest(door, MotionKind::Swinging, (-s) as i64, half_leaf(d), d.length, true),
        ],
    }
}

/// Splits door number `door` into its leaves, each closed and at rest.
pub fn resolve_door(door: usize, p: &DoorProperties, d: DoorDimensions) -> (r: Vec<DoorJoint>)
    requires
        p.wf(),
    ensures
        r@ == leaves_of(door, *p, d),
        forall|i: int| 0 <= i < r@.len() ==> (#[trigger] r@[i]).wf(),
{
    let s = p.swing_value;
    let mut r: Vec<DoorJoint> = Vec::new();
    match p.door_type {
        DoorType::SingleSliding => {
            r.push(DoorJoint::new(door, MotionKind::Sliding, s, d, 0, false));
        },
        DoorType::SingleSwinging => {
            r.push(DoorJoint::new(door, MotionKind::Swinging, s, d, 0, false));
        },
        DoorType::DoubleSliding => {
            let m: i64 = if s < 0 { -s / 2 } else { s / 2 };
            let half = DoorDimensions::new(d.length / 2, d.height, d.thickness);
            r.push(DoorJoint::new(door, MotionKind::Sliding, -m, half, 0, false));
            r.push(DoorJoint::new(door, MotionKind::Sliding, m, half, d.length / 2, false));
        },
        DoorType::DoubleSwinging => {
            let half = DoorDimensions::new(d.length / 2, d.height, d.thickness);
            r.push(DoorJoint::new(door, MotionKind::Swinging, s, half, 0, false));
            r.push(DoorJoint::new(door, MotionKind::Swinging, -s, half, d.length, true));
        },
    }
    assert(r@ =~= leaves_of(door, *p, d));
    r
}

/// A single door splits into exactly one leaf, with the door's whole swing;
/// a double door into exactly two, whose swings are mirror images: each half
/// the door's swing in magnitude for a sliding door, the whole swing for a
/// swinging one.
pub proof fn lemma_leaf_count(door: usize, p: DoorProperties, d: DoorDimensions)
    requires
        p.wf(),
    ensures
        p.door_type == DoorType::SingleSliding || p.door_type == DoorType::SingleSwinging ==> {
            &&& leaves_of(door, p, d).len() == 1
            &&& leaves_of(door, p, d)[0].swing_value == p.swing_value
        },
        p.door_type == DoorType::DoubleSliding || p.door_type == DoorType::DoubleSwinging ==> {
            &&& leaves_of(door, p, d).len() == 2
            &&& leaves_of(door, p, d)[0].swing_value == -leaves_of(door, p, d)[1].swing_value
        },
        p.door_type == DoorType::DoubleSliding ==> {
            &&& abs(leaves_of(door, p, d)[0].swing_value as int) == abs(p.swing_value as int) / 2
            &&& abs(leaves_of(door, p, d)[0].swing_value as int) + abs(
                leaves_of(door, p, d)[1].swing_value as int,
            ) == 2 * (abs(p.swing_value as int) / 2)
        },
        p.door_type == DoorType::DoubleSwinging ==> {
            &&& abs(leaves_of(door, p, d)[0].swing_value as int) == abs(p.swing_value as int)
            &&& abs(leaves_of(door, p, d)[1].swing_value as int) == abs(p.swing_value as int)
        },
{
}

} // verus!
