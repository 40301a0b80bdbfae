//! Closed-loop joint drives: a PID control law and the two actuator
//! shapes (linear and rotary) built on it.
//!
//! Both actuator shapes share one motion law, held in `ActuatorCore`:
//! an optional setpoint feeds a PID controller, a fixed damping term
//! resists the current acceleration, and position, velocity and
//! acceleration are clamped to the drive's static limits on every
//! write. The shapes differ only in what a hard stop zeroes: a linear
//! drive kills velocity and acceleration, a rotary drive only velocity.
use vstd::math::abs;
use vstd::prelude::*;

use crate::fixed::clamp_i64;
use crate::fixed::clamp_spec;
use crate::fixed::fx_add;
use crate::fixed::fx_add_spec;
use crate::fixed::fx_div_spec;
use crate::fixed::fx_mul;
use crate::fixed::fx_mul_spec;
use crate::fixed::fx_sub;
use crate::fixed::fx_sub_spec;
use crate::fixed::SCALE;

verus! {

/// Fixed damping coefficient of every drive: 0.3 in fixed point.
pub const DAMPING: i64 = 300_000;

/// Magnitude bound on position limits, so that unit conversions of a
/// position (such as meters to millimeters) stay exact in `i64`.
pub const POS_LIMIT: i64 = 1_000_000_000_000;

/// Velocity limit of a linear drive: 2 m/s in fixed point.
pub const LINEAR_MAX_VEL: i64 = 2_000_000;

/// Acceleration limit of a linear drive: 0.8 m/s^2 in fixed point.
pub const LINEAR_MAX_ACC: i64 = 800_000;

/// Velocity limit of a rotary drive: 90 deg/s in fixed point.
pub const ROTARY_MAX_VEL: i64 = 90_000_000;

/// Acceleration limit of a rotary drive: 45 deg/s^2 in fixed point.
pub const ROTARY_MAX_ACC: i64 = 45_000_000;

/// Proportional-integral-derivative control law. The gains are fixed at
/// construction; the accumulated integral and the previous error live
/// for the owning actuator's whole lifetime and are never reset, so the
/// integral term is free to grow across ticks (no anti-windup; it
/// saturates only at the fixed-point range).
pub struct PIDController {
    pub kp: i64,
    pub ki: i64,
    pub kd: i64,
    pub prev_err: i64,
    pub integral: i64,
}

impl PIDController {
    /// The error the controller sees for one measurement.
    pub open spec fn spec_error(setpoint: int, measured: int) -> int {
        fx_sub_spec(setpoint, measured)
    }

    /// The integral accumulated after one step on `error` over `dt`.
    pub open spec fn spec_integral_next(self, error: int, dt: int) -> int {
        fx_add_spec(self.integral as int, fx_mul_spec(error, dt))
    }

    /// The controller state after one step.
    pub open spec fn stepped(self, setpoint: int, measured: int, dt: int) -> PIDController {
        PIDController {
            kp: self.kp,
            ki: self.ki,
            kd: self.kd,
            prev_err: Self::spec_error(setpoint, measured) as i64,
            integral: self.spec_integral_next(Self::spec_error(setpoint, measured), dt) as i64,
        }
    }

    /// The control output of one step: kp * error + ki * integral
    /// + kd * derivative, each product in fixed point.
    pub open spec fn spec_output(self, setpoint: int, measured: int, dt: int) -> int {
        let error = Self::spec_error(setpoint, measured);
        let integral = self.spec_integral_next(error, dt);
        let derivative = fx_div_spec(fx_sub_spec(error, self.prev_err as int), dt);
        fx_add_spec(
            fx_add_spec(fx_mul_spec(self.kp as int, error), fx_mul_spec(self.ki as int, integral)),
            fx_mul_spec(self.kd as int, derivative),
        )
    }

    pub fn new(kp: i64, ki: i64, kd: i64) -> (r: PIDController)
        ensures
            r == (PIDController { kp, ki, kd, prev_err: 0, integral: 0 }),
    {
        PIDController { kp, ki, kd, prev_err: 0, integral: 0 }
    }

    /// One control step: accumulates the integral, differentiates the
    /// error against the previous call, and returns the control output.
    /// A non-positive `dt` would make the derivative meaningless, so it
    /// is ruled out.
    pub fn update(&mut self, setpoint: i64, measured: i64, dt: i64) -> (r: i64)
        requires
            dt > 0,
        ensures
            *final(self) == old(self).stepped(setpoint as int, measured as int, dt as int),
            r as int == old(self).spec_output(setpoint as int, measured as int, dt as int),
    {
        let error = fx_sub(setpoint, measured);
        self.integral = fx_add(self.integral, fx_mul(error, dt));

        let derivative = crate::fixed::fx_div(fx_sub(error, self.prev_err), dt);
        self.prev_err = error;

        fx_add(
            fx_add(fx_mul(self.kp, error), fx_mul(self.ki, self.integral)),
            fx_mul(self.kd, derivative),
        )
    }
}

/// State and limits shared by both actuator shapes, with the motion law.
pub struct ActuatorCore {
    pub pos: i64,
    pub vel: i64,
    pub acc: i64,
    pub min_pos: i64,
    pub max_pos: i64,
    pub max_vel: i64,
    pub max_acc: i64,
    pub setpoint: Option<i64>,
    pub pid: PIDController,
    /// Whether a hard stop also zeroes the acceleration (linear drives)
    /// or only the velocity (rotary drives).
    pub stop_zeroes_acc: bool,
}

impl ActuatorCore {
    /// Well-formedness: the limits are ordered and sane, and the state
    /// respects them.
    pub open spec fn wf(self) -> bool {
        &&& self.min_pos <= self.max_pos
        &&& -POS_LIMIT <= self.min_pos
        &&& self.max_pos <= POS_LIMIT
        &&& 0 <= self.max_vel
        &&& 0 <= self.max_acc
        &&& self.min_pos <= self.pos <= self.max_pos
        &&& -self.max_vel <= self.vel <= self.max_vel
        &&& -self.max_acc <= self.acc <= self.max_acc
    }

    /// A position write: values at or past a limit snap to it and model
    /// a hard stop (velocity zeroed, and for linear drives the
    /// acceleration too); values strictly inside pass through.
    pub open spec fn with_position(self, p: int) -> ActuatorCore {
        if p <= self.min_pos {
            ActuatorCore {
                pos: self.min_pos,
                vel: 0,
                acc: if self.stop_zeroes_acc {
                    0
                } else {
                    self.acc
                },
                ..self
            }
        } else if p >= self.max_pos {
            ActuatorCore {
                pos: self.max_pos,
                vel: 0,
                acc: if self.stop_zeroes_acc {
                    0
                } else {
                    self.acc
                },
                ..self
            }
        } else {
            ActuatorCore { pos: p as i64, ..self }
        }
    }

    /// A velocity write, clamped to the velocity limit.
    pub open spec fn with_velocity(self, v: int) -> ActuatorCore {
        ActuatorCore {
            vel: clamp_spec(v, -(self.max_vel as int), self.max_vel as int) as i64,
            ..self
        }
    }

    /// An acceleration write, clamped to the acceleration limit.
    pub open spec fn with_acceleration(self, a: int) -> ActuatorCore {
        ActuatorCore {
            acc: clamp_spec(a, -(self.max_acc as int), self.max_acc as int) as i64,
            ..self
        }
    }

    /// A setpoint write: stored as given, replacing any prior target;
    /// deliberately not validated against the position limits.
    pub open spec fn with_setpoint(self, sp: i64) -> ActuatorCore {
        ActuatorCore { setpoint: Some(sp), ..self }
    }

    /// The control effort of one tick: the PID output when a setpoint
    /// is present, zero effort otherwise.
    pub open spec fn control_of(self, dt: int) -> int {
        match self.setpoint {
            Some(sp) => self.pid.spec_output(sp as int, self.pos as int, dt),
            None => 0,
        }
    }

    /// The controller state after one tick.
    pub open spec fn pid_after(self, dt: int) -> PIDController {
        match self.setpoint {
            Some(sp) => self.pid.stepped(sp as int, self.pos as int, dt),
            None => self.pid,
        }
    }

    /// One physics tick, in order: control effort, damped acceleration
    /// command, velocity integration, position integration — each write
    /// clamped as its setter clamps.
    pub open spec fn ticked(self, dt: int) -> ActuatorCore {
        let control = self.control_of(dt);
        let s1 = ActuatorCore { pid: self.pid_after(dt), ..self };
        let s2 = s1.with_acceleration(
            fx_sub_spec(control, fx_mul_spec(DAMPING as int, self.acc as int)),
        );
        let s3 = s2.with_velocity(fx_add_spec(s2.vel as int, fx_mul_spec(s2.acc as int, dt)));
        s3.with_position(fx_add_spec(s3.pos as int, fx_mul_spec(s3.vel as int, dt)))
    }

    pub fn get_position(&self) -> (r: i64)
        ensures
            r == self.pos,
    {
        self.pos
    }

    pub fn set_position(&mut self, position: i64)
        ensures
            *final(self) == old(self).with_position(position as int),
            old(self).wf() ==> final(self).wf(),
    {
        if position <= self.min_pos {
            let stop = self.min_pos;
            self.pos = stop;
            self.vel = 0;
            if self.stop_zeroes_acc {
                self.acc = 0;
            }
        } else if position >= self.max_pos {
            let stop = self.max_pos;
            self.pos = stop;
            self.vel = 0;
            if self.stop_zeroes_acc {
                self.acc = 0;
            }
        } else {
            self.pos = position;
        }
    }

    pub fn set_velocity(&mut self, speed: i64)
        requires
            old(self).wf(),
        ensures
            *final(self) == old(self).with_velocity(speed as int),
            final(self).wf(),
    {
        let bound = self.max_vel;
        self.vel = clamp_i64(speed, -bound, bound);
    }

    pub fn set_acceleration(&mut self, acc: i64)
        requires
            old(self).wf(),
        ensures
            *final(self) == old(self).with_acceleration(acc as int),
            final(self).wf(),
    {
        let bound = self.max_acc;
        self.acc = clamp_i64(acc, -bound, bound);
    }

    pub fn set_setpoint(&mut self, setpoint: i64)
        ensures
            *final(self) == old(self).with_setpoint(setpoint),
    {
        self.setpoint = Some(setpoint);
    }

    pub fn update_state(&mut self, dt: i64)
        requires
            dt > 0,
            old(self).wf(),
        ensures
            *final(self) == old(self).ticked(dt as int),
            final(self).wf(),
    {
        let control: i64 = match self.setpoint {
            Some(sp) => {
                let measured = self.pos;
                self.pid.update(sp, measured, dt)
            },
            None => 0,
        };

        let damped = fx_mul(DAMPING, self.acc);
        self.set_acceleration(fx_sub(control, damped));

        let dv = fx_mul(self.acc, dt);
        let new_vel = fx_add(self.vel, dv);
        self.set_velocity(new_vel);

        let dp = fx_mul(self.vel, dt);
        let new_pos = fx_add(self.pos, dp);
        self.set_position(new_pos);
    }
}

/// Capability set shared by the two actuator shapes: position,
/// velocity, acceleration and setpoint writes, and one physics tick.
pub trait MockActuator {
    /// The shared motion-law state this actuator carries.
    spec fn model(&self) -> ActuatorCore;

    fn get_position(&self) -> (r: i64)
        ensures
            r == self.model().pos,
    ;

    fn set_position(&mut self, position: i64)
        ensures
            final(self).model() == old(self).model().with_position(position as int),
            old(self).model().wf() ==> final(self).model().wf(),
    ;

    fn set_velocity(&mut self, speed: i64)
        requires
            old(self).model().wf(),
        ensures
            final(self).model() == old(self).model().with_velocity(speed as int),
            final(self).model().wf(),
    ;

    fn set_acceleration(&mut self, acc: i64)
        requires
            old(self).model().wf(),
        ensures
            final(self).model() == old(self).model().with_acceleration(acc as int),
            final(self).model().wf(),
    ;

    fn set_setpoint(&mut self, setpoint: i64)
        ensures
            final(self).model() == old(self).model().with_setpoint(setpoint),
    ;

    fn update_state(&mut self, dt: i64)
        requires
            dt > 0,
            old(self).model().wf(),
        ensures
            final(self).model() == old(self).model().ticked(dt as int),
            final(self).model().wf(),
    ;
}

/// A linear joint drive (meters); hard stops also kill acceleration.
pub struct LinearActuator {
    pub core: ActuatorCore,
}

impl LinearActuator {
    pub fn new(start_pos: i64, min_pos: i64, max_pos: i64, kp: i64, ki: i64, kd: i64) -> (r:
        LinearActuator)
        requires
            min_pos <= start_pos <= max_pos,
            -POS_LIMIT <= min_pos,
            max_pos <= POS_LIMIT,
        ensures
            r.core == (ActuatorCore {
                pos: start_pos,
                vel: 0,
                acc: 0,
                min_pos,
                max_pos,
                max_vel: LINEAR_MAX_VEL,
                max_acc: LINEAR_MAX_ACC,
                setpoint: None,
                pid: PIDController { kp, ki, kd, prev_err: 0, integral: 0 },
                stop_zeroes_acc: true,
            }),
            r.core.wf(),
    {
        LinearActuator {
            core: ActuatorCore {
                pos: start_pos,
                vel: 0,
                acc: 0,
                min_pos,
                max_pos,
                max_vel: LINEAR_MAX_VEL,
                max_acc: LINEAR_MAX_ACC,
                setpoint: None,
                pid: PIDController::new(kp, ki, kd),
                stop_zeroes_acc: true,
            },
        }
    }
}

impl MockActuator for LinearActuator {
    open spec fn model(&self) -> ActuatorCore {
        self.core
    }

    fn get_position(&self) -> (r: i64) {
        self.core.get_position()
    }

    fn set_position(&mut self, position: i64) {
        self.core.set_position(position);
    }

    fn set_velocity(&mut self, speed: i64) {
        self.core.set_velocity(speed);
    }

    fn set_acceleration(&mut self, acc: i64) {
        self.core.set_acceleration(acc);
    }

    fn set_setpoint(&mut self, setpoint: i64) {
        self.core.set_setpoint(setpoint);
    }

    fn update_state(&mut self, dt: i64) {
        self.core.update_state(dt);
    }
}

/// A rotary joint drive (degrees); hard stops kill only velocity.
pub struct RotaryActuator {
    pub core: ActuatorCore,
}

impl RotaryActuator {
    pub fn new(start_angle: i64, min_angle: i64, max_angle: i64, kp: i64, ki: i64, kd: i64) -> (r:
        RotaryActuator)
        requires
            min_angle <= start_angle <= max_angle,
            -POS_LIMIT <= min_angle,
            max_angle <= POS_LIMIT,
        ensures
            r.core == (ActuatorCore {
                pos: start_angle,
                vel: 0,
                acc: 0,
                min_pos: min_angle,
                max_pos: max_angle,
                max_vel: ROTARY_MAX_VEL,
                max_acc: ROTARY_MAX_ACC,
                setpoint: None,
                pid: PIDController { kp, ki, kd, prev_err: 0, integral: 0 },
                stop_zeroes_acc: false,
            }),
            r.core.wf(),
    {
        RotaryActuator {
            core: ActuatorCore {
                pos: start_angle,
                vel: 0,
                acc: 0,
                min_pos: min_angle,
                max_pos: max_angle,
                max_vel: ROTARY_MAX_VEL,
                max_acc: ROTARY_MAX_ACC,
                setpoint: None,
                pid: PIDController::new(kp, ki, kd),
                stop_zeroes_acc: false,
            },
        }
    }
}

impl MockActuator for RotaryActuator {
    open spec fn model(&self) -> ActuatorCore {
        self.core
    }

    fn get_position(&self) -> (r: i64) {
        self.core.get_position()
    }

    fn set_position(&mut self, position: i64) {
        self.core.set_position(position);
    }

    fn set_velocity(&mut self, speed: i64) {
        self.core.set_velocity(speed);
    }

    fn set_acceleration(&mut self, acc: i64) {
        self.core.set_acceleration(acc);
    }

    fn set_setpoint(&mut self, setpoint: i64) {
        self.core.set_setpoint(setpoint);
    }

    fn update_state(&mut self, dt: i64) {
        self.core.update_state(dt);
    }
}

/// After any position write, the position lies within the limits; a
/// value at or past a limit leaves zero velocity behind, and on a drive
/// whose stops also kill acceleration, zero acceleration.
pub proof fn lemma_position_write_clamps(a: ActuatorCore, p: int)
    requires
        a.wf(),
    ensures
        a.min_pos <= a.with_position(p).pos <= a.max_pos,
        (p <= a.min_pos || p >= a.max_pos) ==> a.with_position(p).vel == 0,
        ((p <= a.min_pos || p >= a.max_pos) && a.stop_zeroes_acc) ==> a.with_position(p).acc == 0,
        a.min_pos < p < a.max_pos ==> a.with_position(p).pos == p,
{
}

/// After any velocity or acceleration write, the written quantity's
/// magnitude is at most its limit.
pub proof fn lemma_rate_writes_bounded(a: ActuatorCore, v: int)
    requires
        a.wf(),
    ensures
        abs(a.with_velocity(v).vel as int) <= a.max_vel,
        abs(a.with_acceleration(v).acc as int) <= a.max_acc,
{
}

/// One tick keeps a well-formed actuator well-formed.
pub proof fn lemma_tick_wf(a: ActuatorCore, dt: int)
    requires
        a.wf(),
        dt > 0,
    ensures
        a.ticked(dt).wf(),
{
}

/// With no setpoint, a tick exerts no control effort: only the damping
/// term acts, so the acceleration's magnitude never grows, and the
/// setpoint stays absent.
pub proof fn lemma_tick_resistance_decays(a: ActuatorCore, dt: int)
    requires
        a.wf(),
        a.setpoint is None,
        dt > 0,
    ensures
        abs(a.ticked(dt).acc as int) <= abs(a.acc as int),
        a.ticked(dt).setpoint is None,
{
    crate::fixed::lemma_div_trunc_scaled_le(a.acc as int, DAMPING as int, SCALE as int);
}

/// With no setpoint and the actuator already coasting (zero
/// acceleration), a tick keeps the acceleration at zero and never grows
/// the velocity's magnitude.
pub proof fn lemma_tick_rest_is_stable(a: ActuatorCore, dt: int)
    requires
        a.wf(),
        a.setpoint is None,
        a.acc == 0,
        dt > 0,
    ensures
        a.ticked(dt).acc == 0,
        abs(a.ticked(dt).vel as int) <= abs(a.vel as int),
{
    let s1 = ActuatorCore { pid: a.pid_after(dt), ..a };
    let s2 = s1.with_acceleration(
        fx_sub_spec(a.control_of(dt), fx_mul_spec(DAMPING as int, a.acc as int)),
    );
    assert(s2.acc == 0);
    let s3 = s2.with_velocity(fx_add_spec(s2.vel as int, fx_mul_spec(s2.acc as int, dt)));
    assert(fx_mul_spec(0, dt) == 0);
    assert(s3.vel == a.vel);
    assert(a.ticked(dt) == s3.with_position(
        fx_add_spec(s3.pos as int, fx_mul_spec(s3.vel as int, dt)),
    ));
}

/// The state after `n` ticks of `dt` each.
pub open spec fn ticked_n(a: ActuatorCore, dt: int, n: nat) -> ActuatorCore
    decreases n,
{
    if n == 0 {
        a
    } else {
        ticked_n(a, dt, (n - 1) as nat).ticked(dt)
    }
}

/// Resistance-only decay over any number of ticks: with no setpoint
/// ever set, the acceleration's magnitude never rises above where it
/// started, however many ticks pass.
pub proof fn lemma_rest_decay_over_ticks(a: ActuatorCore, dt: int, n: nat)
    requires
        a.wf(),
        a.setpoint is None,
        dt > 0,
    ensures
        abs(ticked_n(a, dt, n).acc as int) <= abs(a.acc as int),
        ticked_n(a, dt, n).setpoint is None,
        ticked_n(a, dt, n).wf(),
    decreases n,
{
    if n > 0 {
        let prev = ticked_n(a, dt, (n - 1) as nat);
        lemma_rest_decay_over_ticks(a, dt, (n - 1) as nat);
        lemma_tick_resistance_decays(prev, dt);
        lemma_tick_wf(prev, dt);
    }
}

/// Coasting stays coasting: with no setpoint and zero acceleration at
/// the start, any number of ticks keeps the acceleration at zero and
/// never grows the velocity's magnitude.
pub proof fn lemma_rest_velocity_over_ticks(a: ActuatorCore, dt: int, n: nat)
    requires
        a.wf(),
        a.setpoint is None,
        a.acc == 0,
        dt > 0,
    ensures
        ticked_n(a, dt, n).acc == 0,
        abs(ticked_n(a, dt, n).vel as int) <= abs(a.vel as int),
        ticked_n(a, dt, n).setpoint is None,
        ticked_n(a, dt, n).wf(),
    decreases n,
{
    if n > 0 {
        let prev = ticked_n(a, dt, (n - 1) as nat);
        lemma_rest_velocity_over_ticks(a, dt, (n - 1) as nat);
        lemma_tick_rest_is_stable(prev, dt);
        lemma_tick_resistance_decays(prev, dt);
        lemma_tick_wf(prev, dt);
    }
}

} // verus!
