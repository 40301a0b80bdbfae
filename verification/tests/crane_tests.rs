use crane_sim::crane::{Crane, CraneState};
use crane_sim::ik::IkError;

// Geometry of the reference rig: 2 m of lift travel, slight negative
// lift-axis offsets, 0.6 m arm links.
fn crane() -> Crane {
    Crane::new(2_000_000, -100_000, -500_000, 600_000, 600_000)
}

// A rig with unit links and no offsets, so inverse-kinematics results
// are easy to state exactly.
fn unit_crane() -> Crane {
    Crane::new(2_000_000, 0, 0, 1_000_000, 1_000_000)
}

#[test]
fn test_new_crane_state() {
    let c = crane();
    let s = c.get_state();
    assert_eq!(
        s,
        CraneState {
            swing_deg: 0,
            lift_mm: 2_000_000_000,
            elbow_deg: 0,
            wrist_deg: 0,
            gripper_mm: 0,
        }
    );
}

#[test]
fn test_set_actuator_setpoints_stores_all_five() {
    let mut c = crane();
    c.set_actuator_setpoints(10_000_000, 1_000_000, -20_000_000, 5_000_000, 0);
    assert_eq!(c.swing.core.setpoint, Some(10_000_000));
    assert_eq!(c.lift.core.setpoint, Some(1_000_000));
    assert_eq!(c.elbow.core.setpoint, Some(-20_000_000));
    assert_eq!(c.wrist.core.setpoint, Some(5_000_000));
    assert_eq!(c.gripper.core.setpoint, Some(0));
}

#[test]
fn test_set_velocity_clamps_each_joint() {
    let mut c = crane();
    c.set_velocity(i64::MAX, i64::MAX, -1_000_000, 0, i64::MIN);
    assert_eq!(c.swing.core.vel, 90_000_000);
    assert_eq!(c.lift.core.vel, 2_000_000);
    assert_eq!(c.elbow.core.vel, -1_000_000);
    assert_eq!(c.wrist.core.vel, 0);
    assert_eq!(c.gripper.core.vel, -2_000_000);
}

#[test]
fn test_update_state_skips_gripper() {
    let mut c = crane();
    c.set_actuator_setpoints(10_000_000, 1_000_000, 10_000_000, 10_000_000, 1_000_000);
    let gripper_before = c.gripper.core.setpoint;
    c.update_state(16_000); // one 16 ms tick
    assert_eq!(c.gripper.core.pos, 0);
    assert_eq!(c.gripper.core.vel, 0);
    assert_eq!(c.gripper.core.setpoint, gripper_before);
    // the driven joints moved off their initial acceleration
    assert!(c.swing.core.acc != 0);
}

#[test]
fn test_set_crane_setpoint_routes_first_solution() {
    let mut c = unit_crane();
    // In-plane target (z, x) = (1, 1): solutions (0, 90) and (90, -90)
    // degrees; the first is taken. Lift goes to y unchanged (no offsets).
    let r = c.set_crane_setpoint(1_000_000, 500_000, 1_000_000);
    assert!(r.is_ok());
    assert_eq!(c.swing.core.setpoint, Some(0));
    assert_eq!(c.lift.core.setpoint, Some(500_000));
    assert_eq!(c.elbow.core.setpoint, Some(90_000_000));
    assert_eq!(c.wrist.core.setpoint, None);
    assert_eq!(c.gripper.core.setpoint, None);
}

#[test]
fn test_set_crane_setpoint_applies_lift_offsets() {
    let mut c = crane();
    // reachable target for the 0.6 m links: straight out at 1 m
    let r = c.set_crane_setpoint(0, 300_000, 1_000_000);
    assert!(r.is_ok());
    // lift target = y - d3 - d4 = 0.3 - (-0.1) - (-0.5) = 0.9 m
    assert_eq!(c.lift.core.setpoint, Some(900_000));
}

#[test]
fn test_set_crane_setpoint_unreachable_changes_nothing() {
    let mut c = unit_crane();
    c.set_actuator_setpoints(1_000_000, 2_000_000, 3_000_000, 4_000_000, 5_000_000);
    let before_swing = c.swing.core.setpoint;
    let before_lift = c.lift.core.setpoint;
    let before_elbow = c.elbow.core.setpoint;
    let r = c.set_crane_setpoint(0, 0, 3_000_000);
    assert_eq!(r, Err(IkError::Unreachable));
    assert_eq!(c.swing.core.setpoint, before_swing);
    assert_eq!(c.lift.core.setpoint, before_lift);
    assert_eq!(c.elbow.core.setpoint, before_elbow);
    assert_eq!(c.wrist.core.setpoint, Some(4_000_000));
    assert_eq!(c.gripper.core.setpoint, Some(5_000_000));
}

#[test]
fn test_state_converts_meters_to_millimeters() {
    let mut c = crane();
    c.set_velocity(0, -2_000_000, 0, 0, 0);
    c.update_state(1_000_000); // lift drifts down 2 m to its floor... clamped
    let s = c.get_state();
    assert_eq!(s.lift_mm, 0);
}
