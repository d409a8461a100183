use door_motion::{
    resolve_door, DoorBundle, DoorDimensions, DoorEvent, DoorGoal, DoorJoint, DoorProperties,
    DoorState, DoorSystem, DoorType, MotionKind, MAX_SWING, STEP, TOLERANCE,
};

fn bundle(name: &str, swing: i64, door_type: DoorType, length: u64) -> DoorBundle {
    DoorBundle {
        door_properties: DoorProperties::new(name.to_string(), swing, door_type),
        door_dimensions: DoorDimensions::new(length, 2000, 50),
    }
}

fn system_with(doors: Vec<DoorBundle>) -> DoorSystem {
    let mut s = DoorSystem::new();
    for d in doors {
        s.add_door(d);
    }
    s
}

fn run(s: &mut DoorSystem, ticks: usize) {
    for _ in 0..ticks {
        s.tick(&Vec::new());
    }
}

#[test]
fn fixed_design_constants() {
    assert_eq!(STEP, 10);
    assert_eq!(TOLERANCE, 20);
    assert_eq!(MAX_SWING, i64::MAX - STEP);
}

#[test]
fn defaults_are_closed() {
    assert_eq!(DoorState::default(), DoorState::Closed);
    assert_eq!(DoorGoal::default(), DoorGoal::Closed);
    assert_eq!(DoorType::default(), DoorType::SingleSliding);
}

#[test]
fn events_carry_name_and_goal() {
    let o = DoorEvent::open("door_1".to_string());
    assert_eq!(o.name, "door_1");
    assert_eq!(o.goal, DoorGoal::Open);
    let c = DoorEvent::close("door_1".to_string());
    assert_eq!(c.name, "door_1");
    assert_eq!(c.goal, DoorGoal::Closed);
}

#[test]
fn states_meet_only_matching_goals() {
    assert!(DoorState::Open.meets(&DoorGoal::Open));
    assert!(DoorState::Closed.meets(&DoorGoal::Closed));
    assert!(!DoorState::Open.meets(&DoorGoal::Closed));
    assert!(!DoorState::Opening.meets(&DoorGoal::Open));
    assert!(!DoorState::Closing.meets(&DoorGoal::Closed));
    assert!(DoorGoal::Open.is_met_by(&DoorState::Open));
    assert!(!DoorGoal::Closed.is_met_by(&DoorState::Closing));
    assert!(!DoorGoal::Open.is_met_by(&DoorState::Opening));
}

#[test]
fn new_leaf_is_closed_at_rest() {
    let d = DoorDimensions::new(1000, 2000, 50);
    let j = DoorJoint::new(3, MotionKind::Swinging, 1570, d, 0, false);
    assert_eq!(j.travel, 0);
    assert_eq!(j.state, DoorState::Closed);
    assert_eq!(j.goal, DoorGoal::Closed);
    assert_eq!(j.door, 3);
    assert_eq!(j.panel_center(), (500, 1000));
}

#[test]
fn single_doors_give_one_leaf() {
    for t in [DoorType::SingleSliding, DoorType::SingleSwinging] {
        let p = DoorProperties::new("a".to_string(), -700, t);
        let r = resolve_door(0, &p, DoorDimensions::new(1000, 2000, 50));
        assert_eq!(r.len(), 1);
        assert_eq!(r[0].swing_value, -700);
        assert_eq!(r[0].dimensions.length, 1000);
        assert_eq!(r[0].origin, 0);
        assert!(!r[0].mirrored);
    }
    let p = DoorProperties::new("a".to_string(), 700, DoorType::SingleSwinging);
    let r = resolve_door(0, &p, DoorDimensions::new(1000, 2000, 50));
    assert_eq!(r[0].kind, MotionKind::Swinging);
}

#[test]
fn double_swinging_gives_mirrored_leaves() {
    let p = DoorProperties::new("a".to_string(), 1570, DoorType::DoubleSwinging);
    let r = resolve_door(4, &p, DoorDimensions::new(2000, 2100, 40));
    assert_eq!(r.len(), 2);
    assert_eq!(r[0].swing_value, 1570);
    assert_eq!(r[1].swing_value, -1570);
    assert_eq!(r[0].dimensions, DoorDimensions::new(1000, 2100, 40));
    assert_eq!(r[1].dimensions, DoorDimensions::new(1000, 2100, 40));
    assert_eq!(r[0].origin, 0);
    assert_eq!(r[1].origin, 2000);
    assert!(!r[0].mirrored);
    assert!(r[1].mirrored);
    assert_eq!(r[1].door, 4);
    assert_eq!(r[1].kind, MotionKind::Swinging);
}

#[test]
fn double_sliding_halves_the_swing() {
    let p = DoorProperties::new("a".to_string(), -1000, DoorType::DoubleSliding);
    let r = resolve_door(0, &p, DoorDimensions::new(2000, 2000, 50));
    assert_eq!(r.len(), 2);
    assert_eq!(r[0].swing_value, -500);
    assert_eq!(r[1].swing_value, 500);
    assert_eq!(r[0].swing_value.abs() + r[1].swing_value.abs(), 1000);
    assert_eq!(r[1].origin, 1000);
    assert_eq!(r[0].kind, MotionKind::Sliding);
}

#[test]
fn door_1_single_sliding_opens_and_closes() {
    let mut s = system_with(vec![bundle("door_1", 1000, DoorType::SingleSliding, 1000)]);
    s.tick(&vec![DoorEvent::open("door_1".to_string())]);
    assert_eq!(s.joints.len(), 1);
    assert_eq!(s.joints[0].goal, DoorGoal::Open);
    assert_eq!(s.joints[0].travel, 10);
    run(&mut s, 99);
    // a hundred steps of 0.01 cover the whole swing; the next tick reports it
    assert_eq!(s.joints[0].travel, 1000);
    assert_eq!(s.joints[0].state, DoorState::Opening);
    run(&mut s, 1);
    assert_eq!(s.joints[0].travel, 1000);
    assert_eq!(s.joints[0].state, DoorState::Open);
    s.tick(&vec![DoorEvent::close("door_1".to_string())]);
    assert_eq!(s.joints[0].goal, DoorGoal::Closed);
    run(&mut s, 98);
    assert_eq!(s.joints[0].travel, 0);
    assert_eq!(s.joints[0].state, DoorState::Closed);
}

#[test]
fn door_2_double_sliding_opens_apart() {
    let mut s = system_with(vec![bundle("door_2", 1000, DoorType::DoubleSliding, 2000)]);
    s.tick(&vec![DoorEvent::open("door_2".to_string())]);
    assert_eq!(s.joints.len(), 2);
    assert_eq!(s.joints[0].swing_value, -500);
    assert_eq!(s.joints[1].swing_value, 500);
    run(&mut s, 50);
    assert_eq!(s.joints[0].travel, -500);
    assert_eq!(s.joints[1].travel, 500);
    assert_eq!(s.joints[0].state, DoorState::Open);
    assert_eq!(s.joints[1].state, DoorState::Open);
}

#[test]
fn doors_are_split_once() {
    let mut s = system_with(vec![
        bundle("a", 1000, DoorType::DoubleSwinging, 2000),
        bundle("b", 1000, DoorType::SingleSliding, 1000),
    ]);
    s.resolve_pending();
    assert_eq!(s.joints.len(), 3);
    s.resolve_pending();
    assert_eq!(s.joints.len(), 3);
    run(&mut s, 3);
    assert_eq!(s.joints.len(), 3);
    assert_eq!(s.resolved, vec![true, true]);
    let c = s.add_door(bundle("c", 300, DoorType::DoubleSliding, 800));
    assert_eq!(c, 2);
    s.tick(&Vec::new());
    assert_eq!(s.joints.len(), 5);
    assert_eq!(s.joints[3].door, 2);
    assert_eq!(s.joints[4].door, 2);
}

#[test]
fn requests_are_gated_by_state() {
    let mut s = system_with(vec![bundle("d", 1000, DoorType::SingleSliding, 1000)]);
    s.resolve_pending();
    // closing a closed leaf changes nothing
    assert!(!s.apply_event(&DoorEvent::close("d".to_string())));
    assert_eq!(s.joints[0].goal, DoorGoal::Closed);
    assert!(s.apply_event(&DoorEvent::open("d".to_string())));
    s.integrate();
    assert_eq!(s.joints[0].state, DoorState::Opening);
    // opening an opening leaf changes nothing
    assert!(!s.apply_event(&DoorEvent::open("d".to_string())));
    assert_eq!(s.joints[0].goal, DoorGoal::Open);
    // a request to close is not taken while the leaf opens
    assert!(!s.apply_event(&DoorEvent::close("d".to_string())));
    assert_eq!(s.joints[0].goal, DoorGoal::Open);
    run(&mut s, 100);
    assert_eq!(s.joints[0].state, DoorState::Open);
    assert!(!s.apply_event(&DoorEvent::open("d".to_string())));
    assert!(s.apply_event(&DoorEvent::close("d".to_string())));
    s.integrate();
    assert_eq!(s.joints[0].state, DoorState::Closing);
    assert!(!s.apply_event(&DoorEvent::close("d".to_string())));
    assert_eq!(s.joints[0].goal, DoorGoal::Closed);
}

#[test]
fn unknown_names_are_ignored() {
    let mut s = system_with(vec![bundle("d", 1000, DoorType::SingleSliding, 1000)]);
    s.tick(&vec![DoorEvent::open("elsewhere".to_string())]);
    assert_eq!(s.joints[0].goal, DoorGoal::Closed);
    assert_eq!(s.joints[0].state, DoorState::Closed);
    assert_eq!(s.joints[0].travel, 0);
}

#[test]
fn only_the_named_door_moves() {
    let mut s = system_with(vec![
        bundle("a", 1000, DoorType::SingleSliding, 1000),
        bundle("b", 1000, DoorType::SingleSwinging, 1000),
    ]);
    s.tick(&vec![DoorEvent::open("b".to_string())]);
    assert_eq!(s.joints[0].travel, 0);
    assert_eq!(s.joints[1].travel, 10);
    assert_eq!(s.joints[1].state, DoorState::Opening);
}

#[test]
fn opening_moves_steadily_toward_the_swing() {
    let mut j = DoorJoint::new(0, MotionKind::Sliding, -1000, DoorDimensions::new(1, 1, 1), 0, false);
    assert!(j.command(DoorGoal::Open));
    let mut last = 0i64;
    for _ in 0..100 {
        j.advance();
        assert_eq!(j.travel, last - 10);
        assert!(j.travel >= -1000);
        last = j.travel;
    }
    j.advance();
    assert_eq!(j.state, DoorState::Open);
    assert_eq!(j.travel, -1000);
}

#[test]
fn uneven_swing_passes_then_snaps() {
    let mut j = DoorJoint::new(0, MotionKind::Sliding, 15, DoorDimensions::new(1, 1, 1), 0, false);
    j.command(DoorGoal::Open);
    j.advance();
    assert_eq!(j.travel, 10);
    j.advance();
    assert_eq!(j.travel, 20);
    assert_eq!(j.state, DoorState::Opening);
    j.advance();
    assert_eq!(j.travel, 15);
    assert_eq!(j.state, DoorState::Open);
}

#[test]
fn round_trip_returns_exactly_to_rest() {
    let start = DoorJoint::new(1, MotionKind::Swinging, 1571, DoorDimensions::new(900, 2000, 40), 0, false);
    let mut j = start;
    j.command(DoorGoal::Open);
    for _ in 0..159 {
        j.advance();
    }
    assert_eq!(j.state, DoorState::Open);
    assert_eq!(j.travel, 1571);
    j.command(DoorGoal::Closed);
    for _ in 0..157 {
        j.advance();
    }
    assert_eq!(j.state, DoorState::Closed);
    assert_eq!(j.travel, 0);
    assert_eq!(j, start);
}

#[test]
fn closing_snaps_within_tolerance() {
    let mut j = DoorJoint::new(0, MotionKind::Sliding, 45, DoorDimensions::new(1, 1, 1), 0, false);
    j.command(DoorGoal::Open);
    for _ in 0..6 {
        j.advance();
    }
    assert_eq!(j.state, DoorState::Open);
    j.command(DoorGoal::Closed);
    j.advance();
    assert_eq!(j.travel, 35);
    j.advance();
    assert_eq!(j.travel, 25);
    assert_eq!(j.state, DoorState::Closing);
    j.advance();
    assert_eq!(j.travel, 15);
    j.advance();
    assert_eq!(j.travel, 0);
    assert_eq!(j.state, DoorState::Closed);
}

#[test]
fn leaf_turns_back_without_a_jump() {
    let mut j = DoorJoint::new(0, MotionKind::Sliding, 1000, DoorDimensions::new(1, 1, 1), 0, false);
    j.command(DoorGoal::Open);
    for _ in 0..30 {
        j.advance();
    }
    assert_eq!(j.travel, 300);
    j.goal = DoorGoal::Closed;
    j.advance();
    assert_eq!(j.travel, 290);
    assert_eq!(j.state, DoorState::Closing);
}

#[test]
fn zero_swing_opens_at_once() {
    let mut j = DoorJoint::new(0, MotionKind::Swinging, 0, DoorDimensions::new(1, 1, 1), 0, false);
    j.command(DoorGoal::Open);
    j.advance();
    assert_eq!(j.state, DoorState::Open);
    assert_eq!(j.travel, 0);
    j.command(DoorGoal::Closed);
    j.advance();
    assert_eq!(j.state, DoorState::Closed);
}

#[test]
fn settled_leaf_is_left_alone() {
    let mut j = DoorJoint::new(0, MotionKind::Sliding, 500, DoorDimensions::new(1, 1, 1), 0, false);
    let before = j;
    j.advance();
    assert_eq!(j, before);
}

#[test]
fn largest_swing_opens_without_overflow() {
    let mut j = DoorJoint::new(0, MotionKind::Sliding, MAX_SWING, DoorDimensions::new(1, 1, 1), 0, false);
    j.travel = MAX_SWING - 5;
    j.state = DoorState::Opening;
    j.goal = DoorGoal::Open;
    j.advance();
    assert_eq!(j.travel, MAX_SWING + 5);
    j.advance();
    assert_eq!(j.travel, MAX_SWING);
    assert_eq!(j.state, DoorState::Open);
}
