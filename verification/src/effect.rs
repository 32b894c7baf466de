//! The effect definition: an immutable template describing one kind of
//! particle effect. Spawners hold a private copy of it (copy-on-attach),
//! so edits to one spawner's copy never reach the shared template.

use crate::particle::{COEFF_MAX, DUR_MAX};
use crate::values::{ColorCurve, Rval, RvalVec2, ScalarCurve};
use crate::vecmath::Rgba;
use vstd::prelude::*;

verus! {

/// Where within the spawner's frame new particles appear.
#[derive(Clone, Copy, Debug, PartialEq, Eq, Structural)]
pub enum EmissionShape {
    /// All particles start at the spawner's position.
    Point,
    /// Particles start within a disc of the given radius (milli-units).
    /// The sampled offset scales an independent uniform factor by the
    /// radius, a deliberate policy that biases samples toward the center
    /// rather than spreading them uniformly over the disc's area.
    Circle(i64),
}

/// The immutable description of one kind of effect: spawn cadence and
/// burst size, emission shape, randomized-or-fixed initial conditions,
/// and optional scale and color curves over normalized age. A missing
/// randomized field degenerates to zero.
#[derive(Clone, Debug)]
pub struct Particle2dEffect {
    /// Milli-seconds between spawn bursts; zero fires every tick.
    pub spawn_rate: i64,
    /// Particles emitted per burst.
    pub spawn_amount: u32,
    pub emission_shape: EmissionShape,
    pub direction: Option<RvalVec2>,
    pub linear_speed: Option<Rval>,
    pub angular_speed: Option<Rval>,
    pub scale: Option<Rval>,
    /// Sampled lifetime in milli-seconds; non-positive samples are
    /// clamped to one at spawn so a normalized age is always defined.
    pub lifetime: Rval,
    pub gravity_direction: Option<RvalVec2>,
    pub gravity_speed: Option<Rval>,
    pub linear_damp: Option<Rval>,
    pub angular_damp: Option<Rval>,
    pub linear_acceleration: Option<Rval>,
    pub angular_acceleration: Option<Rval>,
    /// Base color; white when absent.
    pub color: Option<Rgba>,
    pub scale_curve: Option<ScalarCurve>,
    pub color_curve: Option<ColorCurve>,
}

pub open spec fn opt_rval_wf(v: Option<Rval>, m: int) -> bool {
    match v {
        Some(r) => r.wf_within(m),
        None => true,
    }
}

pub open spec fn opt_rval_nonneg(v: Option<Rval>) -> bool {
    match v {
        Some(r) => r.lo >= 0,
        None => true,
    }
}

pub open spec fn opt_rvec_wf(v: Option<RvalVec2>, m: int) -> bool {
    match v {
        Some(r) => r.wf_within(m),
        None => true,
    }
}

impl Particle2dEffect {
    /// The template invariant: a non-negative cadence, ranges ordered and
    /// within the engine's magnitude bounds, damping never negative, and
    /// curves with strictly ordered keyframes covering `[0, 1]`.
    pub open spec fn wf(self) -> bool {
        &&& 0 <= self.spawn_rate <= 1_000_000_000
        &&& match self.emission_shape {
            EmissionShape::Point => true,
            EmissionShape::Circle(radius) => 0 <= radius <= 1_000_000_000,
        }
        &&& opt_rvec_wf(self.direction, COEFF_MAX as int)
        &&& opt_rval_wf(self.linear_speed, COEFF_MAX as int)
        &&& opt_rval_wf(self.angular_speed, COEFF_MAX as int)
        &&& opt_rval_wf(self.scale, COEFF_MAX as int)
        &&& self.lifetime.wf_within(DUR_MAX as int)
        &&& opt_rvec_wf(self.gravity_direction, COEFF_MAX as int)
        &&& opt_rval_wf(self.gravity_speed, COEFF_MAX as int)
        &&& opt_rval_wf(self.linear_damp, COEFF_MAX as int)
        &&& opt_rval_nonneg(self.linear_damp)
        &&& opt_rval_wf(self.angular_damp, COEFF_MAX as int)
        &&& opt_rval_nonneg(self.angular_damp)
        &&& opt_rval_wf(self.linear_acceleration, COEFF_MAX as int)
        &&& opt_rval_wf(self.angular_acceleration, COEFF_MAX as int)
        &&& match self.color {
            Some(c) => c.wf_within(COEFF_MAX as int),
            None => true,
        }
        &&& match self.scale_curve {
            Some(c) => c.wf(),
            None => true,
        }
        &&& match self.color_curve {
            Some(c) => c.wf(),
            None => true,
        }
    }

    /// Runtime check of the template invariant, for callers outside the
    /// proof system: a host should refuse to attach a template that
    /// fails it, leaving the spawner idle, rather than simulate with it.
    pub fn validate(&self) -> (r: bool)
        ensures
            r == self.wf(),
    {
        let shape_ok = match self.emission_shape {
            EmissionShape::Point => true,
            EmissionShape::Circle(radius) => 0 <= radius && radius <= 1_000_000_000,
        };
        let dir_ok = match &self.direction {
            Some(rv) => rv.validate(COEFF_MAX),
            None => true,
        };
        let lin_speed_ok = match &self.linear_speed {
            Some(rv) => rv.validate(COEFF_MAX),
            None => true,
        };
        let ang_speed_ok = match &self.angular_speed {
            Some(rv) => rv.validate(COEFF_MAX),
            None => true,
        };
        let scale_ok = match &self.scale {
            Some(rv) => rv.validate(COEFF_MAX),
            None => true,
        };
        let gdir_ok = match &self.gravity_direction {
            Some(rv) => rv.validate(COEFF_MAX),
            None => true,
        };
        let gspeed_ok = match &self.gravity_speed {
            Some(rv) => rv.validate(COEFF_MAX),
            None => true,
        };
        let lin_damp_ok = match &self.linear_damp {
            Some(rv) => rv.validate(COEFF_MAX) && rv.lo >= 0,
            None => true,
        };
        let ang_damp_ok = match &self.angular_damp {
            Some(rv) => rv.validate(COEFF_MAX) && rv.lo >= 0,
            None => true,
        };
        let lin_accel_ok = match &self.linear_acceleration {
            Some(rv) => rv.validate(COEFF_MAX),
            None => true,
        };
        let ang_accel_ok = match &self.angular_acceleration {
            Some(rv) => rv.validate(COEFF_MAX),
            None => true,
        };
        let color_ok = match &self.color {
            Some(c) => c.validate(COEFF_MAX),
            None => true,
        };
        let scale_curve_ok = match &self.scale_curve {
            Some(c) => c.validate(),
            None => true,
        };
        let color_curve_ok = match &self.color_curve {
            Some(c) => c.validate(),
            None => true,
        };
        0 <= self.spawn_rate && self.spawn_rate <= 1_000_000_000 && shape_ok && dir_ok
            && lin_speed_ok && ang_speed_ok && scale_ok && self.lifetime.validate(DUR_MAX)
            && gdir_ok && gspeed_ok && lin_damp_ok && ang_damp_ok && lin_accel_ok && ang_accel_ok
            && color_ok && scale_curve_ok && color_curve_ok
    }
}

} // verus!
