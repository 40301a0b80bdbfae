//! The crane: five joint drives, their shared geometry, and the
//! routing of state reads and setpoint commands.
//!
//! The swing, elbow and wrist are rotary drives, the lift a linear
//! one. The gripper is a linear drive with zero range and zero gains
//! whose physical model is deliberately left out: ticks never advance
//! it. Cartesian targets go through the two-link inverse-kinematics
//! solver; of its two solutions the crane always takes the first
//! (elbow-down) one — a fixed first-solution policy, not a computed
//! optimum.
use vstd::prelude::*;

use crate::actuators::ActuatorCore;
use crate::actuators::LinearActuator;
use crate::actuators::MockActuator;
use crate::actuators::PIDController;
use crate::actuators::RotaryActuator;
use crate::actuators::LINEAR_MAX_ACC;
use crate::actuators::LINEAR_MAX_VEL;
use crate::actuators::POS_LIMIT;
use crate::actuators::ROTARY_MAX_ACC;
use crate::actuators::ROTARY_MAX_VEL;
use crate::fixed::fx_sub;
use crate::fixed::fx_sub_spec;
use crate::ik::ik_reachable;
use crate::ik::ik_solutions;
use crate::ik::ikcalc_2rmanip;
use crate::ik::IkError;
use crate::trig::DEG180;

verus! {

/// Proportional gain of every rotary joint: 3.0 in fixed point.
pub const ROTARY_KP: i64 = 3_000_000;

/// Derivative gain of every rotary joint: 5.0 in fixed point.
pub const ROTARY_KD: i64 = 5_000_000;

/// Proportional gain of the lift: 2.5 in fixed point.
pub const LINEAR_KP: i64 = 2_500_000;

/// Derivative gain of the lift: 3.0 in fixed point.
pub const LINEAR_KD: i64 = 3_000_000;

/// The simulated crane: five joint drives and the fixed link geometry
/// `d3`, `d4` (lift-axis offsets) and `r3`, `r4` (arm link lengths).
pub struct Crane {
    pub lift: LinearActuator,
    pub swing: RotaryActuator,
    pub elbow: RotaryActuator,
    pub wrist: RotaryActuator,
    pub gripper: LinearActuator,
    pub d3: i64,
    pub d4: i64,
    pub r3: i64,
    pub r4: i64,
}

/// One snapshot of the crane, all fields read under a single borrow:
/// swing, elbow and wrist in micro-degrees, lift and gripper in
/// micro-millimeters.
#[derive(Clone, Copy, Debug, PartialEq, Eq, Structural)]
pub struct CraneState {
    pub swing_deg: i64,
    pub lift_mm: i64,
    pub elbow_deg: i64,
    pub wrist_deg: i64,
    pub gripper_mm: i64,
}

impl Crane {
    /// Well-formedness: every drive is well-formed and the geometry is
    /// within the magnitude bounds the arithmetic needs, with strictly
    /// positive link lengths.
    pub open spec fn wf(self) -> bool {
        &&& self.lift.core.wf()
        &&& self.swing.core.wf()
        &&& self.elbow.core.wf()
        &&& self.wrist.core.wf()
        &&& self.gripper.core.wf()
        &&& 0 < self.r3 <= POS_LIMIT
        &&& 0 < self.r4 <= POS_LIMIT
        &&& -POS_LIMIT <= self.d3 <= POS_LIMIT
        &&& -POS_LIMIT <= self.d4 <= POS_LIMIT
    }

    /// The crane as built: rotary joints centered with a half-turn of
    /// travel each way, the lift raised to its ceiling, the gripper a
    /// zero-range drive with zero gains.
    pub open spec fn initial(d2_max: i64, d3: i64, d4: i64, r3: i64, r4: i64) -> Crane {
        Crane {
            swing: RotaryActuator {
                core: ActuatorCore {
                    pos: 0,
                    vel: 0,
                    acc: 0,
                    min_pos: ((-DEG180) as i64),
                    max_pos: DEG180,
                    max_vel: ROTARY_MAX_VEL,
                    max_acc: ROTARY_MAX_ACC,
                    setpoint: None,
                    pid: PIDController {
                        kp: ROTARY_KP,
                        ki: 0,
                        kd: ROTARY_KD,
                        prev_err: 0,
                        integral: 0,
                    },
                    stop_zeroes_acc: false,
                },
            },
            lift: LinearActuator {
                core: ActuatorCore {
                    pos: d2_max,
                    vel: 0,
                    acc: 0,
                    min_pos: 0,
                    max_pos: d2_max,
                    max_vel: LINEAR_MAX_VEL,
                    max_acc: LINEAR_MAX_ACC,
                    setpoint: None,
                    pid: PIDController {
                        kp: LINEAR_KP,
                        ki: 0,
                        kd: LINEAR_KD,
                        prev_err: 0,
                        integral: 0,
                    },
                    stop_zeroes_acc: true,
                },
            },
            elbow: RotaryActuator {
                core: ActuatorCore {
                    pos: 0,
                    vel: 0,
                    acc: 0,
                    min_pos: ((-DEG180) as i64),
                    max_pos: DEG180,
                    max_vel: ROTARY_MAX_VEL,
                    max_acc: ROTARY_MAX_ACC,
                    setpoint: None,
                    pid: PIDController {
                        kp: ROTARY_KP,
                        ki: 0,
                        kd: ROTARY_KD,
                        prev_err: 0,
                        integral: 0,
                    },
                    stop_zeroes_acc: false,
                },
            },
            wrist: RotaryActuator {
                core: ActuatorCore {
                    pos: 0,
                    vel: 0,
                    acc: 0,
                    min_pos: ((-DEG180) as i64),
                    max_pos: DEG180,
                    max_vel: ROTARY_MAX_VEL,
                    max_acc: ROTARY_MAX_ACC,
                    setpoint: None,
                    pid: PIDController {
                        kp: ROTARY_KP,
                        ki: 0,
                        kd: ROTARY_KD,
                        prev_err: 0,
                        integral: 0,
                    },
                    stop_zeroes_acc: false,
                },
            },
            gripper: LinearActuator {
                core: ActuatorCore {
                    pos: 0,
                    vel: 0,
                    acc: 0,
                    min_pos: 0,
                    max_pos: 0,
                    max_vel: LINEAR_MAX_VEL,
                    max_acc: LINEAR_MAX_ACC,
                    setpoint: None,
                    pid: PIDController { kp: 0, ki: 0, kd: 0, prev_err: 0, integral: 0 },
                    stop_zeroes_acc: true,
                },
            },
            d3,
            d4,
            r3,
            r4,
        }
    }

    /// The snapshot a state read yields: positions as they stand, the
    /// linear joints carried from meters to millimeters.
    pub open spec fn state_spec(self) -> CraneState {
        CraneState {
            swing_deg: self.swing.core.pos,
            lift_mm: (self.lift.core.pos * 1000) as i64,
            elbow_deg: self.elbow.core.pos,
            wrist_deg: self.wrist.core.pos,
            gripper_mm: (self.gripper.core.pos * 1000) as i64,
        }
    }

    /// The crane after one velocity write to every drive.
    pub open spec fn with_velocities(
        self,
        swing_v: int,
        lift_v: int,
        elbow_v: int,
        wrist_v: int,
        gripper_v: int,
    ) -> Crane {
        Crane {
            swing: RotaryActuator { core: self.swing.core.with_velocity(swing_v) },
            lift: LinearActuator { core: self.lift.core.with_velocity(lift_v) },
            elbow: RotaryActuator { core: self.elbow.core.with_velocity(elbow_v) },
            wrist: RotaryActuator { core: self.wrist.core.with_velocity(wrist_v) },
            gripper: LinearActuator { core: self.gripper.core.with_velocity(gripper_v) },
            ..self
        }
    }

    /// The crane after one setpoint write to every drive.
    pub open spec fn with_setpoints(
        self,
        swing: i64,
        lift: i64,
        elbow: i64,
        wrist: i64,
        gripper: i64,
    ) -> Crane {
        Crane {
            swing: RotaryActuator { core: self.swing.core.with_setpoint(swing) },
            lift: LinearActuator { core: self.lift.core.with_setpoint(lift) },
            elbow: RotaryActuator { core: self.elbow.core.with_setpoint(elbow) },
            wrist: RotaryActuator { core: self.wrist.core.with_setpoint(wrist) },
            gripper: LinearActuator { core: self.gripper.core.with_setpoint(gripper) },
            ..self
        }
    }

    /// The crane after one physics tick: swing, lift, elbow and wrist
    /// advance; the gripper, whose model is left out, stands still.
    pub open spec fn ticked(self, dt: int) -> Crane {
        Crane {
            swing: RotaryActuator { core: self.swing.core.ticked(dt) },
            lift: LinearActuator { core: self.lift.core.ticked(dt) },
            elbow: RotaryActuator { core: self.elbow.core.ticked(dt) },
            wrist: RotaryActuator { core: self.wrist.core.ticked(dt) },
            ..self
        }
    }

    /// The lift target a Cartesian command derives: the height less
    /// both lift-axis offsets.
    pub open spec fn lift_target(self, y: int) -> int {
        fx_sub_spec(fx_sub_spec(y, self.d3 as int), self.d4 as int)
    }

    /// The crane after a successful Cartesian setpoint command: swing
    /// and elbow take the first inverse-kinematics solution, the lift
    /// its derived height; wrist and gripper are untouched.
    pub open spec fn with_ik_setpoints(self, x: int, y: int, z: int) -> Crane {
        let sol = ik_solutions(z, x, self.r3 as int, self.r4 as int);
        Crane {
            swing: RotaryActuator { core: self.swing.core.with_setpoint(sol.0.0) },
            lift: LinearActuator { core: self.lift.core.with_setpoint(self.lift_target(y) as i64) },
            elbow: RotaryActuator { core: self.elbow.core.with_setpoint(sol.0.1) },
            ..self
        }
    }

    pub fn new(d2_max: i64, d3: i64, d4: i64, r3: i64, r4: i64) -> (r: Crane)
        requires
            0 <= d2_max <= POS_LIMIT,
            0 < r3 <= POS_LIMIT,
            0 < r4 <= POS_LIMIT,
            -POS_LIMIT <= d3 <= POS_LIMIT,
            -POS_LIMIT <= d4 <= POS_LIMIT,
        ensures
            r == Crane::initial(d2_max, d3, d4, r3, r4),
            r.wf(),
    {
        Crane {
            swing: RotaryActuator::new(0, -DEG180, DEG180, ROTARY_KP, 0, ROTARY_KD),
            lift: LinearActuator::new(d2_max, 0, d2_max, LINEAR_KP, 0, LINEAR_KD),
            elbow: RotaryActuator::new(0, -DEG180, DEG180, ROTARY_KP, 0, ROTARY_KD),
            wrist: RotaryActuator::new(0, -DEG180, DEG180, ROTARY_KP, 0, ROTARY_KD),
            gripper: LinearActuator::new(0, 0, 0, 0, 0, 0),
            d3,
            d4,
            r3,
            r4,
        }
    }

    /// One consistent snapshot of all five joints.
    pub fn get_state(&self) -> (s: CraneState)
        requires
            self.wf(),
        ensures
            s == self.state_spec(),
    {
        CraneState {
            swing_deg: self.swing.get_position(),
            lift_mm: self.lift.get_position() * 1000,
            elbow_deg: self.elbow.get_position(),
            wrist_deg: self.wrist.get_position(),
            gripper_mm: self.gripper.get_position() * 1000,
        }
    }

    /// Writes a velocity to every drive, each clamped to its limit.
    pub fn set_velocity(&mut self, swing_v: i64, lift_v: i64, elbow_v: i64, wrist_v: i64,
        gripper_v: i64)
        requires
            old(self).wf(),
        ensures
            *final(self) == old(self).with_velocities(
                swing_v as int,
                lift_v as int,
                elbow_v as int,
                wrist_v as int,
                gripper_v as int,
            ),
            final(self).wf(),
    {
        self.swing.set_velocity(swing_v);
        self.lift.set_velocity(lift_v);
        self.elbow.set_velocity(elbow_v);
        self.wrist.set_velocity(wrist_v);
        self.gripper.set_velocity(gripper_v);
    }

    /// Stores a setpoint on every drive, unvalidated: the control loop
    /// merely steers toward it, and the drives clamp near their stops.
    /// Units are caller-normalized: micro-degrees for rotary joints,
    /// micro-meters for the linear ones.
    pub fn set_actuator_setpoints(&mut self, swing: i64, lift: i64, elbow: i64, wrist: i64,
        gripper: i64)
        requires
            old(self).wf(),
        ensures
            *final(self) == old(self).with_setpoints(swing, lift, elbow, wrist, gripper),
            final(self).wf(),
    {
        self.swing.set_setpoint(swing);
        self.lift.set_setpoint(lift);
        self.elbow.set_setpoint(elbow);
        self.wrist.set_setpoint(wrist);
        self.gripper.set_setpoint(gripper)
    }

    /// One physics tick of `dt` for every modeled joint; the gripper is
    /// deliberately left unadvanced.
    pub fn update_state(&mut self, dt: i64)
        requires
            dt > 0,
            old(self).wf(),
        ensures
            *final(self) == old(self).ticked(dt as int),
            final(self).wf(),
    {
        self.swing.update_state(dt);
        self.lift.update_state(dt);
        self.elbow.update_state(dt);
        self.wrist.update_state(dt);
    }

    /// Joint targets for the Cartesian point `(x, y, z)`: swing and
    /// elbow angles from the in-plane solver (first solution), lift
    /// height from the offsets.
    fn calculate_ik(&self, x: i64, y: i64, z: i64) -> (r: Result<(i64, i64, i64), IkError>)
        requires
            self.wf(),
        ensures
            ik_reachable(z as int, x as int, self.r3 as int, self.r4 as int) ==> r == Ok::<
                (i64, i64, i64),
                IkError,
            >(
                (
                    ik_solutions(z as int, x as int, self.r3 as int, self.r4 as int).0.0,
                    self.lift_target(y as int) as i64,
                    ik_solutions(z as int, x as int, self.r3 as int, self.r4 as int).0.1,
                ),
            ),
            !ik_reachable(z as int, x as int, self.r3 as int, self.r4 as int) ==> r == Err::<
                (i64, i64, i64),
                IkError,
            >(IkError::Unreachable),
    {
        let d2 = fx_sub(fx_sub(y, self.d3), self.d4);
        match ikcalc_2rmanip(z, x, self.r3, self.r4) {
            Ok(solutions) => {
                let (theta_1, theta_3) = solutions.0;
                Ok((theta_1, d2, theta_3))
            },
            Err(e) => Err(e),
        }
    }

    /// Routes a Cartesian target through the solver. On success the
    /// swing, lift and elbow setpoints are replaced and the wrist and
    /// gripper left alone; an unreachable target changes nothing and
    /// is reported to the caller, non-fatally.
    pub fn set_crane_setpoint(&mut self, x: i64, y: i64, z: i64) -> (r: Result<(), IkError>)
        requires
            old(self).wf(),
        ensures
            ik_reachable(z as int, x as int, old(self).r3 as int, old(self).r4 as int) ==> {
                &&& *final(self) == old(self).with_ik_setpoints(x as int, y as int, z as int)
                &&& r == Ok::<(), IkError>(())
            },
            !ik_reachable(z as int, x as int, old(self).r3 as int, old(self).r4 as int) ==> {
                &&& *final(self) == *old(self)
                &&& r == Err::<(), IkError>(IkError::Unreachable)
            },
            final(self).wf(),
    {
        match self.calculate_ik(x, y, z) {
            Ok((theta_1, d2, theta_3)) => {
                self.swing.set_setpoint(theta_1);
                self.lift.set_setpoint(d2);
                self.elbow.set_setpoint(theta_3);
                Ok(())
            },
            Err(e) => Err(e),
        }
    }
}

} // verus!
