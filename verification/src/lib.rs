//! Simulation of a five-joint robotic crane: PID-driven actuators with
//! physical limits, an inverse-kinematics solver for Cartesian targets,
//! and the command/state-snapshot logic that a server loop drives.
//!
//! All physical quantities are fixed-point integers in micro-units
//! (one meter, degree, or second is `SCALE` ticks), so every control-law
//! and clamping step has an exact integer specification.
pub mod actuators;
pub mod commands;
pub mod crane;
pub mod fixed;
pub mod ik;
pub mod trig;
