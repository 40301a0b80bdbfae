use crane_sim::actuators::{LinearActuator, MockActuator, PIDController, RotaryActuator};

// One meter of linear travel, in micro-meters.
const METER: i64 = 1_000_000;

fn linear() -> LinearActuator {
    // travel 0..10 m, unit proportional gain only
    LinearActuator::new(0, 0, 10 * METER, METER, 0, 0)
}

fn rotary() -> RotaryActuator {
    RotaryActuator::new(0, -180_000_000, 180_000_000, 3_000_000, 0, 5_000_000)
}

#[test]
fn test_set_position_inside_range_passes_through() {
    let mut a = linear();
    a.set_position(5 * METER);
    assert_eq!(a.core.pos, 5 * METER);
}

#[test]
fn test_set_position_above_max_is_hard_stop() {
    let mut a = linear();
    a.set_velocity(1_000_000);
    a.set_acceleration(500_000);
    a.set_position(11 * METER);
    assert_eq!(a.core.pos, 10 * METER);
    assert_eq!(a.core.vel, 0);
    assert_eq!(a.core.acc, 0);
}

#[test]
fn test_set_position_below_min_is_hard_stop() {
    let mut a = linear();
    a.set_velocity(-1_000_000);
    a.set_position(-1);
    assert_eq!(a.core.pos, 0);
    assert_eq!(a.core.vel, 0);
}

#[test]
fn test_rotary_hard_stop_keeps_acceleration() {
    // A rotary drive's hard stop zeroes velocity but not acceleration.
    let mut a = rotary();
    a.set_velocity(1_000_000);
    a.set_acceleration(500_000);
    a.set_position(200_000_000);
    assert_eq!(a.core.pos, 180_000_000);
    assert_eq!(a.core.vel, 0);
    assert_eq!(a.core.acc, 500_000);
}

#[test]
fn test_set_velocity_clamps_to_limit() {
    let mut a = linear();
    a.set_velocity(5_000_000);
    assert_eq!(a.core.vel, 2_000_000);
    a.set_velocity(-5_000_000);
    assert_eq!(a.core.vel, -2_000_000);
    a.set_velocity(1_234);
    assert_eq!(a.core.vel, 1_234);
}

#[test]
fn test_set_acceleration_clamps_to_limit() {
    let mut a = linear();
    a.set_acceleration(5_000_000);
    assert_eq!(a.core.acc, 800_000);
    a.set_acceleration(-5_000_000);
    assert_eq!(a.core.acc, -800_000);
}

#[test]
fn test_rotary_limits() {
    let mut a = rotary();
    a.set_velocity(i64::MAX);
    assert_eq!(a.core.vel, 90_000_000);
    a.set_acceleration(i64::MIN);
    assert_eq!(a.core.acc, -45_000_000);
}

#[test]
fn test_pid_update_exact() {
    // kp 2.0, ki 1.0, kd 0.5; one-second step toward a 10-unit target.
    let mut pid = PIDController::new(2_000_000, 1_000_000, 500_000);
    let out = pid.update(10_000_000, 0, 1_000_000);
    assert_eq!(pid.integral, 10_000_000);
    assert_eq!(pid.prev_err, 10_000_000);
    // 2*10 + 1*10 + 0.5*10 = 35
    assert_eq!(out, 35_000_000);
}

#[test]
fn test_pid_integral_accumulates() {
    let mut pid = PIDController::new(0, 1_000_000, 0);
    pid.update(1_000_000, 0, 1_000_000);
    pid.update(1_000_000, 0, 1_000_000);
    assert_eq!(pid.integral, 2_000_000);
}

#[test]
fn test_tick_with_setpoint_exact() {
    let mut a = linear();
    a.set_setpoint(METER);
    // error 1, control 1.0, clamped acceleration 0.8, one-second tick
    a.update_state(1_000_000);
    assert_eq!(a.core.acc, 800_000);
    assert_eq!(a.core.vel, 800_000);
    assert_eq!(a.core.pos, 800_000);
}

#[test]
fn test_setpoint_persists_across_ticks() {
    let mut a = linear();
    a.set_setpoint(METER);
    a.update_state(1_000_000);
    a.update_state(1_000_000);
    assert_eq!(a.core.setpoint, Some(METER));
}

#[test]
fn test_tick_without_setpoint_decays_acceleration() {
    let mut a = rotary();
    a.set_acceleration(45_000_000);
    a.update_state(1_000_000);
    // only the damping term acts: -0.3 * 45 = -13.5 deg/s^2
    assert_eq!(a.core.acc, -13_500_000);
    let mut mag = a.core.acc.abs();
    for _ in 0..20 {
        a.update_state(1_000_000);
        let next = a.core.acc.abs();
        assert!(next <= mag);
        mag = next;
    }
}

#[test]
fn test_tick_at_rest_keeps_velocity() {
    let mut a = rotary();
    a.set_velocity(1_000_000);
    a.update_state(1_000_000);
    assert_eq!(a.core.acc, 0);
    assert_eq!(a.core.vel, 1_000_000);
    assert_eq!(a.core.pos, 1_000_000);
}

#[test]
fn test_tick_drifting_into_stop_zeroes_velocity() {
    // Drifting with no setpoint into the upper stop kills the motion.
    let mut a = linear();
    a.set_position(9_900_000);
    a.set_velocity(2_000_000);
    a.update_state(1_000_000);
    assert_eq!(a.core.pos, 10 * METER);
    assert_eq!(a.core.vel, 0);
    assert_eq!(a.core.acc, 0);
}
