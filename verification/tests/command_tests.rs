use crane_sim::commands::{apply_command, parse_command, Command, ParseError, ServerSettings};
use crane_sim::crane::Crane;

fn unit_crane() -> Crane {
    Crane::new(2_000_000, 0, 0, 1_000_000, 1_000_000)
}

#[test]
fn test_parse_refresh() {
    assert_eq!(parse_command(b"refresh 500"), Ok(Command::SetRefresh { ms: 500 }));
}

#[test]
fn test_parse_refresh_extreme() {
    assert_eq!(
        parse_command(b"refresh 4294967295"),
        Ok(Command::SetRefresh { ms: u32::MAX })
    );
    assert_eq!(parse_command(b"refresh 4294967296"), Err(ParseError::InvalidRefresh));
    assert_eq!(parse_command(b"refresh -5"), Err(ParseError::InvalidRefresh));
    assert_eq!(parse_command(b"refresh abc"), Err(ParseError::InvalidRefresh));
}

#[test]
fn test_parse_setpoint() {
    assert_eq!(
        parse_command(b"setpoint 1.5 -2.25 0.0005"),
        Ok(Command::SetCraneSetpoint { x: 1_500_000, y: -2_250_000, z: 500 })
    );
}

#[test]
fn test_parse_setpoint_signs() {
    assert_eq!(
        parse_command(b"setpoint +1 -1 0"),
        Ok(Command::SetCraneSetpoint { x: 1_000_000, y: -1_000_000, z: 0 })
    );
}

#[test]
fn test_parse_fraction_truncates_past_micro() {
    assert_eq!(
        parse_command(b"setpoint 0.1234567 0 0"),
        Ok(Command::SetCraneSetpoint { x: 123_456, y: 0, z: 0 })
    );
}

#[test]
fn test_parse_setactuatorsetpoints_converts_millimeters() {
    assert_eq!(
        parse_command(b"setactuatorsetpoints 10 20 30 40 50"),
        Ok(Command::SetCraneActuatorSetpoints {
            swing_deg: 10_000_000,
            lift_m: 20_000,
            elbow_deg: 30_000_000,
            wrist_deg: 40_000_000,
            gripper_m: 50_000,
        })
    );
}

#[test]
fn test_parse_missing_field_is_invalid_command() {
    // a `setpoint` line with one field missing matches no command shape
    assert_eq!(parse_command(b"setpoint 1 2"), Err(ParseError::InvalidCommand));
}

#[test]
fn test_parse_bad_fields_name_their_position() {
    assert_eq!(
        parse_command(b"setactuatorsetpoints x 2 3 4 5"),
        Err(ParseError::InvalidSwing)
    );
    assert_eq!(
        parse_command(b"setactuatorsetpoints 1 2 3 4 x"),
        Err(ParseError::InvalidGripper)
    );
    assert_eq!(parse_command(b"setpoint 1 2 x"), Err(ParseError::InvalidZ));
    assert_eq!(parse_command(b"setpoint 1 x 3"), Err(ParseError::InvalidY));
}

#[test]
fn test_parse_unknown_and_empty_lines() {
    assert_eq!(parse_command(b""), Err(ParseError::InvalidCommand));
    assert_eq!(parse_command(b"   "), Err(ParseError::InvalidCommand));
    assert_eq!(parse_command(b"open sesame"), Err(ParseError::InvalidCommand));
    // the keyword is case-sensitive
    assert_eq!(parse_command(b"Refresh 500"), Err(ParseError::InvalidCommand));
}

#[test]
fn test_parse_tolerates_surrounding_whitespace() {
    assert_eq!(
        parse_command(b"  refresh\t500\r\n"),
        Ok(Command::SetRefresh { ms: 500 })
    );
}

#[test]
fn test_parse_rejects_malformed_numbers() {
    assert_eq!(parse_command(b"setpoint . 0 0"), Err(ParseError::InvalidX));
    assert_eq!(parse_command(b"setpoint 1.2.3 0 0"), Err(ParseError::InvalidX));
    assert_eq!(parse_command(b"setpoint - 0 0"), Err(ParseError::InvalidX));
    // an overflowing magnitude is rejected, not wrapped
    assert_eq!(
        parse_command(b"setpoint 99999999999999999999 0 0"),
        Err(ParseError::InvalidX)
    );
}

#[test]
fn test_parse_accepts_bare_and_trailing_dot() {
    assert_eq!(
        parse_command(b"setpoint 1. .5 0"),
        Ok(Command::SetCraneSetpoint { x: 1_000_000, y: 500_000, z: 0 })
    );
}

#[test]
fn test_error_messages_match_wire_reports() {
    assert_eq!(ParseError::InvalidCommand.message(), "Invalid command");
    assert_eq!(ParseError::InvalidSwing.message(), "Invalid swing degrees (pos. 1)");
    assert_eq!(ParseError::InvalidLift.message(), "Invalid lift mm (pos. 2)");
    assert_eq!(ParseError::InvalidElbow.message(), "Invalid elbow degrees (pos. 3)");
    assert_eq!(ParseError::InvalidWrist.message(), "Invalid wrist degrees (pos. 4)");
    assert_eq!(ParseError::InvalidGripper.message(), "Invalid gripper mm (pos. 5)");
    assert_eq!(ParseError::InvalidX.message(), "Invalid x coordinate");
    assert_eq!(ParseError::InvalidY.message(), "Invalid y coordinate");
    assert_eq!(ParseError::InvalidZ.message(), "Invalid z coordinate");
    assert_eq!(ParseError::InvalidRefresh.message(), "Invalid ms refresh value");
}

#[test]
fn test_apply_refresh_updates_settings_only() {
    let mut crane = unit_crane();
    let mut settings = ServerSettings::new();
    assert_eq!(settings.refresh_ms, 16);
    let before = crane.get_state();
    let cmd = parse_command(b"refresh 500").unwrap();
    let r = apply_command(cmd, &mut crane, &mut settings);
    assert!(r.is_ok());
    assert_eq!(settings.refresh_ms, 500);
    assert_eq!(crane.get_state(), before);
    assert_eq!(crane.swing.core.setpoint, None);
}

#[test]
fn test_apply_setactuatorsetpoints() {
    let mut crane = unit_crane();
    let mut settings = ServerSettings::new();
    let cmd = parse_command(b"setactuatorsetpoints 10 20 30 40 50").unwrap();
    let r = apply_command(cmd, &mut crane, &mut settings);
    assert!(r.is_ok());
    assert_eq!(crane.swing.core.setpoint, Some(10_000_000));
    assert_eq!(crane.lift.core.setpoint, Some(20_000));
    assert_eq!(crane.elbow.core.setpoint, Some(30_000_000));
    assert_eq!(crane.wrist.core.setpoint, Some(40_000_000));
    assert_eq!(crane.gripper.core.setpoint, Some(50_000));
    assert_eq!(settings.refresh_ms, 16);
}

#[test]
fn test_apply_cartesian_setpoint() {
    let mut crane = unit_crane();
    let mut settings = ServerSettings::new();
    let cmd = parse_command(b"setpoint 1 0.5 1").unwrap();
    let r = apply_command(cmd, &mut crane, &mut settings);
    assert!(r.is_ok());
    assert_eq!(crane.swing.core.setpoint, Some(0));
    assert_eq!(crane.lift.core.setpoint, Some(500_000));
    assert_eq!(crane.elbow.core.setpoint, Some(90_000_000));
}

#[test]
fn test_apply_unreachable_setpoint_reports_and_keeps_state() {
    let mut crane = unit_crane();
    let mut settings = ServerSettings::new();
    let cmd = parse_command(b"setpoint 0 0 3").unwrap();
    let r = apply_command(cmd, &mut crane, &mut settings);
    assert!(r.is_err());
    assert_eq!(crane.swing.core.setpoint, None);
    assert_eq!(crane.lift.core.setpoint, None);
    assert_eq!(crane.elbow.core.setpoint, None);
    assert_eq!(settings.refresh_ms, 16);
}
